use game_catalog::catalog::create_game;
use game_catalog::catalog::delete_game;
use game_catalog::catalog::get_all_games;
use game_catalog::catalog::get_game_by_id;
use game_catalog::catalog::get_games_by_category;
use game_catalog::catalog::get_popular_games;
use game_catalog::catalog::has_next_page;
use game_catalog::catalog::increment_purchase_count;
use game_catalog::catalog::list_games;
use game_catalog::catalog::update_game;
use game_catalog::catalog::update_game_rating;
use game_catalog::errors::CatalogError;
use game_catalog::game::DbGame;
use game_catalog::models::DbGameCategory;
use game_catalog::models::DbGameStatus;
use game_catalog::store::GameStore;

fn add(
    store: &mut GameStore,
    name: &str,
    dev: u128,
    price: i64,
    cats: Vec<DbGameCategory>,
) -> DbGame {
    create_game(
        store,
        name.to_string(),
        "d".to_string(),
        dev,
        None,
        None,
        None,
        0,
        cats,
        vec![],
        vec![],
        price,
    )
    .expect("create should succeed")
}

fn publish(store: &mut GameStore, id: u128) {
    update_game(
        store,
        id,
        None,
        None,
        None,
        None,
        None,
        Some(DbGameStatus::Published),
        None,
        None,
        None,
        None,
    )
    .expect("publish should succeed");
}

#[test]
fn filter_conjunction_returns_exactly_the_matches() {
    let mut store = GameStore::new();
    let in_a = add(&mut store, "In A", 1, 10, vec![DbGameCategory::Action]);
    let in_b = add(&mut store, "In B", 1, 20, vec![DbGameCategory::Action]);
    let cheap = add(&mut store, "Too Cheap", 1, 9, vec![DbGameCategory::Action]);
    let costly = add(&mut store, "Too Costly", 1, 21, vec![DbGameCategory::Action]);
    let draft = add(&mut store, "Right Price Draft", 1, 15, vec![DbGameCategory::Action]);
    publish(&mut store, in_a.id);
    publish(&mut store, in_b.id);
    publish(&mut store, cheap.id);
    publish(&mut store, costly.id);
    let _ = draft;

    let (items, total) = list_games(
        &store,
        None,
        None,
        Some(10),
        Some(20),
        Some(DbGameStatus::Published),
        None,
        100,
        0,
    )
    .expect("listing should succeed");
    let ids: Vec<u128> = items.iter().map(|g| g.id).collect();
    assert_eq!(total, 2);
    assert_eq!(items.len(), 2);
    assert!(ids.contains(&in_a.id));
    assert!(ids.contains(&in_b.id));
    for g in &items {
        assert!(g.price >= 10 && g.price <= 20);
        assert_eq!(g.status.to_proto(), DbGameStatus::Published.to_proto());
    }
}

#[test]
fn listing_rejects_unspecified_dimensions() {
    let store = GameStore::new();
    let r = list_games(
        &store,
        None,
        Some(vec![DbGameCategory::Unspecified]),
        None,
        None,
        None,
        None,
        10,
        0,
    );
    assert_eq!(r.unwrap_err(), CatalogError::InvalidArgument);
    let r2 = list_games(
        &store,
        None,
        None,
        None,
        None,
        Some(DbGameStatus::Unspecified),
        None,
        10,
        0,
    );
    assert_eq!(r2.unwrap_err(), CatalogError::InvalidArgument);
}

#[test]
fn deleted_rows_never_appear_in_scans() {
    let mut store = GameStore::new();
    let keep = add(&mut store, "Keeper", 5, 10, vec![DbGameCategory::Rpg]);
    let gone = add(&mut store, "Goner", 5, 10, vec![DbGameCategory::Rpg]);
    assert!(delete_game(&mut store, gone.id, 5));
    assert!(get_game_by_id(&store, gone.id).is_none());
    let (items, total) = list_games(&store, None, None, None, None, None, None, 100, 0).unwrap();
    assert_eq!(total, 1);
    assert_eq!(items.len(), 1);
    assert_eq!(items[0].id, keep.id);
    assert!(!delete_game(&mut store, gone.id, 5));
}

#[test]
fn pagination_is_consistent_over_three_pages() {
    let mut store = GameStore::new();
    for i in 0..250 {
        add(&mut store, &format!("Game {}", i), 1, i as i64, vec![DbGameCategory::Puzzle]);
    }
    let (p1, t1) = list_games(&store, None, None, None, None, None, None, 100, 0).unwrap();
    let (p2, t2) = list_games(&store, None, None, None, None, None, None, 100, 100).unwrap();
    let (p3, t3) = list_games(&store, None, None, None, None, None, None, 100, 200).unwrap();
    assert_eq!((t1, t2, t3), (250, 250, 250));
    assert_eq!((p1.len(), p2.len(), p3.len()), (100, 100, 50));

    let mut all: Vec<u128> = Vec::new();
    for g in p1.iter().chain(p2.iter()).chain(p3.iter()) {
        all.push(g.id);
    }
    let full = get_all_games(&store);
    assert_eq!(full.len(), 250);
    let full_ids: Vec<u128> = full.iter().map(|g| g.id).collect();
    assert_eq!(all, full_ids);
    let mut dedup = all.clone();
    dedup.sort();
    dedup.dedup();
    assert_eq!(dedup.len(), 250);
}

#[test]
fn limit_is_clamped_into_window_bounds() {
    let mut store = GameStore::new();
    for i in 0..5 {
        add(&mut store, &format!("G{}", i), 1, i as i64, vec![DbGameCategory::Racing]);
    }
    let (items, total) = list_games(&store, None, None, None, None, None, None, 0, 0).unwrap();
    assert_eq!(total, 5);
    assert_eq!(items.len(), 1);
    let (items2, _) = list_games(&store, None, None, None, None, None, None, 1000, 0).unwrap();
    assert_eq!(items2.len(), 5);
    let (items3, _) = list_games(&store, None, None, None, None, None, None, 10, -3).unwrap();
    assert_eq!(items3.len(), 5);
}

#[test]
fn text_search_is_case_insensitive_token_match() {
    let mut store = GameStore::new();
    let hit = add(&mut store, "Space Battle Arena", 1, 10, vec![DbGameCategory::Action]);
    let _miss = add(&mut store, "Farm Life", 1, 10, vec![DbGameCategory::Action]);
    let query = |store: &GameStore, q: &str| -> Vec<u128> {
        let (items, _) = list_games(
            store,
            None,
            None,
            None,
            None,
            None,
            Some(q.to_string()),
            100,
            0,
        )
        .unwrap();
        items.iter().map(|g| g.id).collect()
    };
    assert_eq!(query(&store, "space"), vec![hit.id]);
    assert_eq!(query(&store, "SPACE battle"), vec![hit.id]);
    assert_eq!(query(&store, "battle space"), vec![hit.id]);
    assert!(query(&store, "spaces").is_empty());
    assert!(query(&store, "!!!").is_empty());
    assert_eq!(query(&store, "arena!").len(), 1);
}

#[test]
fn developer_filter_matches_exactly() {
    let mut store = GameStore::new();
    let mine = add(&mut store, "Mine", 7, 10, vec![DbGameCategory::Sports]);
    let _other = add(&mut store, "Other", 8, 10, vec![DbGameCategory::Sports]);
    let (items, total) =
        list_games(&store, Some(7), None, None, None, None, None, 100, 0).unwrap();
    assert_eq!(total, 1);
    assert_eq!(items[0].id, mine.id);
}

#[test]
fn category_overlap_is_intersection_not_subset() {
    let mut store = GameStore::new();
    let both = add(
        &mut store,
        "Both",
        1,
        10,
        vec![DbGameCategory::Action, DbGameCategory::Rpg],
    );
    let only_other = add(&mut store, "Only Other", 1, 10, vec![DbGameCategory::Puzzle]);
    let (items, _) = list_games(
        &store,
        None,
        Some(vec![DbGameCategory::Rpg, DbGameCategory::Racing]),
        None,
        None,
        None,
        None,
        100,
        0,
    )
    .unwrap();
    assert_eq!(items.len(), 1);
    assert_eq!(items[0].id, both.id);
    let _ = only_other;
}

#[test]
fn popularity_order_ranks_by_exact_average_then_purchases() {
    let mut store = GameStore::new();
    let low = add(&mut store, "Low", 1, 10, vec![DbGameCategory::Adventure]);
    let high = add(&mut store, "High", 1, 10, vec![DbGameCategory::Adventure]);
    let mid = add(&mut store, "Mid", 1, 10, vec![DbGameCategory::Adventure]);
    for g in [low.id, high.id, mid.id] {
        publish(&mut store, g);
    }
    // high: mean 4.50; mid: mean 3.00 with more purchases; low: mean 2.00
    update_game_rating(&mut store, high.id, 450).unwrap();
    update_game_rating(&mut store, mid.id, 300).unwrap();
    update_game_rating(&mut store, low.id, 200).unwrap();
    increment_purchase_count(&mut store, mid.id).unwrap();
    let ranked = get_games_by_category(&store, DbGameCategory::Adventure, 10, 0).unwrap();
    let ids: Vec<u128> = ranked.iter().map(|g| g.id).collect();
    assert_eq!(ids, vec![high.id, mid.id, low.id]);

    let popular = get_popular_games(&store, 2);
    assert_eq!(popular.len(), 2);
    assert_eq!(popular[0].id, high.id);
    assert_eq!(popular[1].id, mid.id);
}

#[test]
fn category_browse_rejects_the_sentinel() {
    let store = GameStore::new();
    assert_eq!(
        get_games_by_category(&store, DbGameCategory::Unspecified, 10, 0).unwrap_err(),
        CatalogError::InvalidArgument
    );
}

#[test]
fn category_browse_shows_published_only() {
    let mut store = GameStore::new();
    let pub_one = add(&mut store, "Published One", 1, 10, vec![DbGameCategory::Simulation]);
    let _draft = add(&mut store, "Still Draft", 1, 10, vec![DbGameCategory::Simulation]);
    publish(&mut store, pub_one.id);
    let shown = get_games_by_category(&store, DbGameCategory::Simulation, 10, 0).unwrap();
    assert_eq!(shown.len(), 1);
    assert_eq!(shown[0].id, pub_one.id);
}

#[test]
fn next_page_signal_compares_window_to_total() {
    assert!(has_next_page(0, 100, 250));
    assert!(has_next_page(100, 100, 250));
    assert!(!has_next_page(200, 100, 250));
    assert!(!has_next_page(0, 100, 100));
}

#[test]
fn recent_first_puts_newest_created_first() {
    let mut store = GameStore::new();
    // All rows may share one clock millisecond, so order within a tie is
    // by id; across distinct stamps the newest comes first.
    let a = add(&mut store, "A", 1, 10, vec![DbGameCategory::Action]);
    let b = add(&mut store, "B", 1, 10, vec![DbGameCategory::Action]);
    let all = get_all_games(&store);
    assert_eq!(all.len(), 2);
    if all[0].created_at == all[1].created_at {
        assert!(all[0].id < all[1].id);
    } else {
        assert!(all[0].created_at > all[1].created_at);
    }
    let ids: Vec<u128> = all.iter().map(|g| g.id).collect();
    assert!(ids.contains(&a.id) && ids.contains(&b.id));
}

#[test]
fn offset_past_the_matches_yields_an_empty_page() {
    let mut store = GameStore::new();
    for i in 0..3 {
        add(&mut store, &format!("G{}", i), 1, i as i64, vec![DbGameCategory::Puzzle]);
    }
    let (items, total) =
        list_games(&store, None, None, None, None, None, None, 10, 1000).unwrap();
    assert_eq!(total, 3);
    assert!(items.is_empty());
}

#[test]
fn popular_limit_is_clamped_to_at_least_one() {
    let mut store = GameStore::new();
    for i in 0..3 {
        let g = add(&mut store, &format!("P{}", i), 1, 10, vec![DbGameCategory::Racing]);
        publish(&mut store, g.id);
    }
    assert_eq!(get_popular_games(&store, 0).len(), 1);
    assert_eq!(get_popular_games(&store, -5).len(), 1);
    assert_eq!(get_popular_games(&store, 50).len(), 3);
}
