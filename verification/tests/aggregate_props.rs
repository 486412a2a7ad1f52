use game_catalog::catalog::add_screenshot;
use game_catalog::catalog::create_game;
use game_catalog::catalog::get_game_by_id;
use game_catalog::catalog::increment_purchase_count;
use game_catalog::catalog::remove_screenshot;
use game_catalog::catalog::update_game_rating;
use game_catalog::errors::CatalogError;
use game_catalog::game::DbGame;
use game_catalog::models::DbGameCategory;
use game_catalog::models::DbGameStatus;
use game_catalog::store::GameStore;

fn one_game(store: &mut GameStore) -> DbGame {
    create_game(
        store,
        "Subject".to_string(),
        "d".to_string(),
        1,
        None,
        None,
        None,
        0,
        vec![DbGameCategory::Strategy],
        vec![],
        vec![],
        100,
    )
    .expect("create should succeed")
}

#[test]
fn incremental_mean_matches_exact_mean() {
    let mut store = GameStore::new();
    let g = one_game(&mut store);
    let ratings: [i64; 5] = [500, 400, 300, 450, 250];
    for r in ratings {
        update_game_rating(&mut store, g.id, r).expect("rating should land");
    }
    let after = get_game_by_id(&store, g.id).unwrap();
    assert_eq!(after.rating_count, 5);
    assert_eq!(after.rating_sum, 1900);
    // mean(5.00, 4.00, 3.00, 4.50, 2.50) = 3.80 stars
    assert_eq!(after.average_rating_centi(), 380);
}

#[test]
fn rating_mean_never_drifts_across_many_updates() {
    let mut store = GameStore::new();
    let g = one_game(&mut store);
    let mut total: u64 = 0;
    for i in 0..100u64 {
        let v = (i * 37) % 501;
        total += v;
        update_game_rating(&mut store, g.id, v as i64).expect("rating should land");
    }
    let after = get_game_by_id(&store, g.id).unwrap();
    assert_eq!(after.rating_count, 100);
    assert_eq!(after.rating_sum, total);
    assert_eq!(after.average_rating_centi(), total / 100);
}

#[test]
fn rating_out_of_range_is_invalid() {
    let mut store = GameStore::new();
    let g = one_game(&mut store);
    assert_eq!(
        update_game_rating(&mut store, g.id, 501).unwrap_err(),
        CatalogError::InvalidArgument
    );
    assert_eq!(
        update_game_rating(&mut store, g.id, -1).unwrap_err(),
        CatalogError::InvalidArgument
    );
    let after = get_game_by_id(&store, g.id).unwrap();
    assert_eq!(after.rating_count, 0);
}

#[test]
fn rating_unknown_id_is_not_found() {
    let mut store = GameStore::new();
    assert_eq!(
        update_game_rating(&mut store, 5, 100).unwrap_err(),
        CatalogError::NotFound
    );
}

#[test]
fn hundred_purchases_count_exactly() {
    let mut store = GameStore::new();
    let g = one_game(&mut store);
    for _ in 0..100 {
        increment_purchase_count(&mut store, g.id).expect("purchase should land");
    }
    let after = get_game_by_id(&store, g.id).unwrap();
    assert_eq!(after.purchase_count, 100);
}

#[test]
fn purchase_unknown_id_is_not_found() {
    let mut store = GameStore::new();
    assert_eq!(
        increment_purchase_count(&mut store, 5).unwrap_err(),
        CatalogError::NotFound
    );
}

#[test]
fn saturated_purchase_counter_is_internal() {
    let mut store = GameStore::new();
    let row = DbGame {
        id: 1,
        name: "Full".to_string(),
        description: String::new(),
        developer_id: 1,
        publisher_id: None,
        cover_image: String::new(),
        trailer_url: None,
        release_date: 0,
        price: 0,
        status: DbGameStatus::Draft,
        categories: vec![DbGameCategory::Rpg],
        tags: vec![],
        platforms: vec![],
        screenshots: vec![],
        rating_count: 0,
        rating_sum: 0,
        purchase_count: u64::MAX,
        created_at: 0,
        updated_at: 0,
        deleted_at: None,
    };
    store.insert(row).unwrap();
    assert_eq!(
        increment_purchase_count(&mut store, 1).unwrap_err(),
        CatalogError::Internal
    );
}

#[test]
fn screenshots_append_keeps_duplicates() {
    let mut store = GameStore::new();
    let g = one_game(&mut store);
    add_screenshot(&mut store, g.id, "a.png".to_string()).unwrap();
    add_screenshot(&mut store, g.id, "b.png".to_string()).unwrap();
    add_screenshot(&mut store, g.id, "a.png".to_string()).unwrap();
    let after = get_game_by_id(&store, g.id).unwrap();
    assert_eq!(after.screenshots, vec!["a.png", "b.png", "a.png"]);
}

#[test]
fn remove_screenshot_drops_all_occurrences() {
    let mut store = GameStore::new();
    let g = one_game(&mut store);
    add_screenshot(&mut store, g.id, "a.png".to_string()).unwrap();
    add_screenshot(&mut store, g.id, "b.png".to_string()).unwrap();
    add_screenshot(&mut store, g.id, "a.png".to_string()).unwrap();
    remove_screenshot(&mut store, g.id, "a.png".to_string()).unwrap();
    let after = get_game_by_id(&store, g.id).unwrap();
    assert_eq!(after.screenshots, vec!["b.png"]);
}

#[test]
fn remove_absent_screenshot_is_noop_success() {
    let mut store = GameStore::new();
    let g = one_game(&mut store);
    add_screenshot(&mut store, g.id, "keep.png".to_string()).unwrap();
    let r = remove_screenshot(&mut store, g.id, "absent.png".to_string());
    assert!(r.is_ok());
    let after = get_game_by_id(&store, g.id).unwrap();
    assert_eq!(after.screenshots, vec!["keep.png"]);
}

#[test]
fn screenshot_on_unknown_id_is_not_found() {
    let mut store = GameStore::new();
    assert_eq!(
        add_screenshot(&mut store, 5, "x.png".to_string()).unwrap_err(),
        CatalogError::NotFound
    );
    assert_eq!(
        remove_screenshot(&mut store, 5, "x.png".to_string()).unwrap_err(),
        CatalogError::NotFound
    );
}
