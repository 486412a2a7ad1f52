use game_catalog::catalog::create_game;
use game_catalog::catalog::delete_game;
use game_catalog::catalog::get_game_by_id;
use game_catalog::catalog::update_game;
use game_catalog::errors::CatalogError;
use game_catalog::game::DbGame;
use game_catalog::models::DbGameCategory;
use game_catalog::models::DbGameStatus;
use game_catalog::store::GameStore;

fn new_game(store: &mut GameStore, name: &str, dev: u128, price: i64) -> DbGame {
    create_game(
        store,
        name.to_string(),
        "a description".to_string(),
        dev,
        None,
        Some("cover.png".to_string()),
        None,
        19000,
        vec![DbGameCategory::Action],
        vec!["tag1".to_string()],
        vec!["pc".to_string()],
        price,
    )
    .expect("create should succeed")
}

#[test]
fn create_assigns_draft_and_zero_aggregates() {
    let mut store = GameStore::new();
    let g = new_game(&mut store, "First Game", 7, 1999);
    assert_eq!(g.name, "First Game");
    assert_eq!(g.developer_id, 7);
    assert_eq!(g.price, 1999);
    assert!(matches!(g.status, DbGameStatus::Draft));
    assert_eq!(g.rating_count, 0);
    assert_eq!(g.rating_sum, 0);
    assert_eq!(g.purchase_count, 0);
    assert!(g.screenshots.is_empty());
    assert_eq!(g.created_at, g.updated_at);
    assert!(g.deleted_at.is_none());
}

#[test]
fn create_rejects_negative_price() {
    let mut store = GameStore::new();
    let r = create_game(
        &mut store,
        "Bad".to_string(),
        "d".to_string(),
        1,
        None,
        None,
        None,
        0,
        vec![DbGameCategory::Puzzle],
        vec![],
        vec![],
        -1,
    );
    assert_eq!(r.unwrap_err(), CatalogError::InvalidArgument);
}

#[test]
fn create_rejects_empty_categories() {
    let mut store = GameStore::new();
    let r = create_game(
        &mut store,
        "Bad".to_string(),
        "d".to_string(),
        1,
        None,
        None,
        None,
        0,
        vec![],
        vec![],
        vec![],
        100,
    );
    assert_eq!(r.unwrap_err(), CatalogError::InvalidArgument);
}

#[test]
fn create_rejects_unspecified_category() {
    let mut store = GameStore::new();
    let r = create_game(
        &mut store,
        "Bad".to_string(),
        "d".to_string(),
        1,
        None,
        None,
        None,
        0,
        vec![DbGameCategory::Action, DbGameCategory::Unspecified],
        vec![],
        vec![],
        100,
    );
    assert_eq!(r.unwrap_err(), CatalogError::InvalidArgument);
}

#[test]
fn find_by_id_returns_the_row() {
    let mut store = GameStore::new();
    let g = new_game(&mut store, "Lookup", 9, 500);
    let found = get_game_by_id(&store, g.id).expect("should find the row");
    assert_eq!(found.id, g.id);
    assert_eq!(found.name, "Lookup");
    assert!(get_game_by_id(&store, g.id.wrapping_add(1)).is_none());
}

#[test]
fn update_patches_present_fields_only() {
    let mut store = GameStore::new();
    let g = new_game(&mut store, "Before", 3, 100);
    let patched = update_game(
        &mut store,
        g.id,
        Some("After".to_string()),
        None,
        Some(250),
        None,
        None,
        Some(DbGameStatus::Published),
        None,
        None,
        None,
        None,
    )
    .expect("patch should succeed");
    assert_eq!(patched.name, "After");
    assert_eq!(patched.description, "a description");
    assert_eq!(patched.price, 250);
    assert!(matches!(patched.status, DbGameStatus::Published));
    assert_eq!(patched.created_at, g.created_at);
    let found = get_game_by_id(&store, g.id).unwrap();
    assert_eq!(found.name, "After");
}

#[test]
fn update_rejects_invalid_fields() {
    let mut store = GameStore::new();
    let g = new_game(&mut store, "Guarded", 3, 100);
    let bad_price = update_game(
        &mut store,
        g.id,
        None,
        None,
        Some(-5),
        None,
        None,
        None,
        None,
        None,
        None,
        None,
    );
    assert_eq!(bad_price.unwrap_err(), CatalogError::InvalidArgument);
    let bad_status = update_game(
        &mut store,
        g.id,
        None,
        None,
        None,
        None,
        None,
        Some(DbGameStatus::Unspecified),
        None,
        None,
        None,
        None,
    );
    assert_eq!(bad_status.unwrap_err(), CatalogError::InvalidArgument);
    let bad_cats = update_game(
        &mut store,
        g.id,
        None,
        None,
        None,
        None,
        None,
        None,
        Some(vec![]),
        None,
        None,
        None,
    );
    assert_eq!(bad_cats.unwrap_err(), CatalogError::InvalidArgument);
}

#[test]
fn update_unknown_id_is_not_found() {
    let mut store = GameStore::new();
    let r = update_game(
        &mut store,
        42,
        Some("x".to_string()),
        None,
        None,
        None,
        None,
        None,
        None,
        None,
        None,
        None,
    );
    assert_eq!(r.unwrap_err(), CatalogError::NotFound);
}

#[test]
fn status_transitions_are_unrestricted() {
    let mut store = GameStore::new();
    let g = new_game(&mut store, "Free Flow", 3, 100);
    for status in [
        DbGameStatus::Suspended,
        DbGameStatus::Draft,
        DbGameStatus::Published,
        DbGameStatus::UnderReview,
    ] {
        let patched = update_game(
            &mut store,
            g.id,
            None,
            None,
            None,
            None,
            None,
            Some(status),
            None,
            None,
            None,
            None,
        )
        .expect("any transition is allowed");
        assert_eq!(patched.status.to_proto(), status.to_proto());
    }
}

#[test]
fn delete_requires_matching_owner() {
    let mut store = GameStore::new();
    let g = new_game(&mut store, "Owned", 11, 100);
    assert!(!delete_game(&mut store, g.id, 12));
    assert!(get_game_by_id(&store, g.id).is_some());
    assert!(delete_game(&mut store, g.id, 11));
    assert!(get_game_by_id(&store, g.id).is_none());
}

#[test]
fn insert_with_colliding_id_is_a_conflict() {
    let mut store = GameStore::new();
    let row = DbGame {
        id: 77,
        name: "One".to_string(),
        description: String::new(),
        developer_id: 1,
        publisher_id: None,
        cover_image: String::new(),
        trailer_url: None,
        release_date: 0,
        price: 0,
        status: DbGameStatus::Draft,
        categories: vec![DbGameCategory::Rpg],
        tags: vec![],
        platforms: vec![],
        screenshots: vec![],
        rating_count: 0,
        rating_sum: 0,
        purchase_count: 0,
        created_at: 0,
        updated_at: 0,
        deleted_at: None,
    };
    let twin = DbGame { name: "Two".to_string(), ..row.clone() };
    assert!(store.insert(row).is_ok());
    assert_eq!(store.insert(twin).unwrap_err(), CatalogError::Conflict);
}
