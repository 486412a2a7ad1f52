//! The catalog service façade.
//!
//! These operations are the engine's persistence-facing surface: they
//! validate every argument before any store access, draw fresh ids and
//! timestamps at the boundary, and delegate to the entity store, whose
//! contracts pin the exact effect down.  Identifiers and timestamps come
//! from the outside world, so the contracts here quantify over them.

use vstd::prelude::*;

use crate::aggregates::purchased_store;
use crate::aggregates::rated_store;
use crate::aggregates::screenshot_appended_store;
use crate::aggregates::screenshot_removed_store;
use crate::errors::CatalogError;
use crate::ext::new_random_id;
use crate::ext::now_millis;
use crate::filter::GameFilter;
use crate::filter::clamp_limit;
use crate::filter::clamp_offset;
use crate::filter::clamp_window;
use crate::filter::filter_none;
use crate::filter::filter_of;
use crate::filter::live_matches;
use crate::game::DbGame;
use crate::game::GameView;
use crate::game::RATING_MAX_CENTI;
use crate::models::DbGameCategory;
use crate::models::DbGameStatus;
use crate::order::ListOrder;
use crate::order::ordered;
use crate::store::GameStore;
use crate::store::contains_id;
use crate::store::deleted_store;
use crate::store::find_live;
use crate::store::opt_categories_view;
use crate::store::page_of;
use crate::store::patched_row;
use crate::store::patched_store;

verus! {

/// A category list acceptable for a stored row: at least one member, none
/// of them the wire sentinel.
pub open spec fn categories_valid(cs: Seq<DbGameCategory>) -> bool {
    cs.len() >= 1 && (forall|i: int| 0 <= i < cs.len() ==> cs[i] != DbGameCategory::Unspecified)
}

/// Every member of a category list is a real vocabulary member.
pub open spec fn categories_real(cs: Seq<DbGameCategory>) -> bool {
    forall|i: int| 0 <= i < cs.len() ==> cs[i] != DbGameCategory::Unspecified
}

/// Checks that a category list is acceptable for a stored row.
fn check_categories_valid(cs: &Vec<DbGameCategory>) -> (r: bool)
    ensures
        r == categories_valid(cs@),
{
    if cs.len() == 0 {
        return false;
    }
    let n = cs.len();
    let mut i: usize = 0;
    while i < n
        invariant
            n == cs@.len(),
            i <= n,
            forall|k: int| 0 <= k < i ==> cs@[k] != DbGameCategory::Unspecified,
        decreases n - i,
    {
        if cs[i] == DbGameCategory::Unspecified {
            return false;
        }
        i = i + 1;
    }
    true
}

/// Checks that every member of a category list is a real vocabulary
/// member.
fn check_categories_real(cs: &Vec<DbGameCategory>) -> (r: bool)
    ensures
        r == categories_real(cs@),
{
    let n = cs.len();
    let mut i: usize = 0;
    while i < n
        invariant
            n == cs@.len(),
            i <= n,
            forall|k: int| 0 <= k < i ==> cs@[k] != DbGameCategory::Unspecified,
        decreases n - i,
    {
        if cs[i] == DbGameCategory::Unspecified {
            return false;
        }
        i = i + 1;
    }
    true
}

/// Creates a game: validates the price and the classification, assigns a
/// fresh id and creation time, zeroes the aggregates, and inserts the row
/// at status `Draft`.  A colliding id is a `Conflict` and leaves the store
/// unchanged.
pub fn create_game(
    store: &mut GameStore,
    name: String,
    description: String,
    developer_id: u128,
    publisher_id: Option<u128>,
    cover_image: Option<String>,
    trailer_url: Option<String>,
    release_date: i32,
    categories: Vec<DbGameCategory>,
    tags: Vec<String>,
    platforms: Vec<String>,
    price: i64,
) -> (r: Result<DbGame, CatalogError>)
    requires
        old(store).wf(),
    ensures
        final(store).wf(),
        !(price >= 0 && categories_valid(categories@)) ==> r == Err::<DbGame, CatalogError>(
            CatalogError::InvalidArgument,
        ) && final(store)@ == old(store)@,
        price >= 0 && categories_valid(categories@) ==> match r {
            Ok(g) => {
                &&& !contains_id(old(store)@, g@.id)
                &&& final(store)@ == old(store)@.push(g@)
                &&& g@.name == name@
                &&& g@.description == description@
                &&& g@.developer_id == developer_id
                &&& g@.publisher_id == publisher_id
                &&& g@.cover_image == (match cover_image {
                    Some(c) => c@,
                    None => Seq::<char>::empty(),
                })
                &&& g@.trailer_url == (match trailer_url {
                    Some(u) => Some(u@),
                    None => None::<Seq<char>>,
                })
                &&& g@.release_date == release_date
                &&& g@.price == price
                &&& g@.status == DbGameStatus::Draft
                &&& g@.categories == categories@
                &&& g@.tags == tags.deep_view()
                &&& g@.platforms == platforms.deep_view()
                &&& g@.screenshots == Seq::<Seq<char>>::empty()
                &&& g@.rating_count == 0
                &&& g@.rating_sum == 0
                &&& g@.purchase_count == 0
                &&& g@.created_at == g@.updated_at
                &&& g@.deleted_at is None
            },
            Err(e) => e == CatalogError::Conflict && final(store)@ == old(store)@,
        },
        // Success is owed for every draw that cannot collide: the outcome
        // is decided by the one drawn id, not left open.
        price >= 0 && categories_valid(categories@) ==> exists|fresh: u128|
            {
                &&& (!#[trigger] contains_id(old(store)@, fresh) ==> (r matches Ok(g) && g@.id
                    == fresh))
                &&& (contains_id(old(store)@, fresh) ==> r == Err::<DbGame, CatalogError>(
                    CatalogError::Conflict,
                ))
            },
        price >= 0 && categories_valid(categories@) && old(store)@.len() == 0 ==> r is Ok,
{
    if price < 0 {
        return Err(CatalogError::InvalidArgument);
    }
    if !check_categories_valid(&categories) {
        return Err(CatalogError::InvalidArgument);
    }
    let id = new_random_id();
    let now = now_millis();
    let row = DbGame {
        id,
        name,
        description,
        developer_id,
        publisher_id,
        cover_image: match cover_image {
            Some(c) => c,
            None => String::new(),
        },
        trailer_url,
        release_date,
        price,
        status: DbGameStatus::Draft,
        categories,
        tags,
        platforms,
        screenshots: Vec::new(),
        rating_count: 0,
        rating_sum: 0,
        purchase_count: 0,
        created_at: now,
        updated_at: now,
        deleted_at: None,
    };
    proof {
        assert(row@.wf());
        assert(row@.screenshots =~= Seq::<Seq<char>>::empty());
    }
    let ghost rowv = row@;
    let r = store.insert(row);
    proof {
        assert(rowv.id == id);
        assert(!contains_id(old(store)@, id) ==> (r matches Ok(g) && g@.id == id));
        assert(contains_id(old(store)@, id) ==> r == Err::<DbGame, CatalogError>(
            CatalogError::Conflict,
        ));
    }
    r
}


/// Looks a game up by id; soft-deleted rows are invisible.
pub fn get_game_by_id(store: &GameStore, id: u128) -> (r: Option<DbGame>)
    ensures
        r is Some <==> find_live(store@, id) is Some,
        r matches Some(g) ==> find_live(store@, id) == Some(g@),
{
    store.find_by_id(id)
}

/// Patches a game: validates every present field, then applies the patch
/// to the live row with coalesce semantics and returns the post-state.
pub fn update_game(
    store: &mut GameStore,
    id: u128,
    name: Option<String>,
    description: Option<String>,
    price: Option<i64>,
    cover_image: Option<String>,
    trailer_url: Option<String>,
    status: Option<DbGameStatus>,
    categories: Option<Vec<DbGameCategory>>,
    tags: Option<Vec<String>>,
    platforms: Option<Vec<String>>,
    screenshots: Option<Vec<String>>,
) -> (r: Result<DbGame, CatalogError>)
    requires
        old(store).wf(),
    ensures
        final(store).wf(),
        !((price matches Some(p) ==> p >= 0) && (status matches Some(st) ==> st
            != DbGameStatus::Unspecified) && (opt_categories_view(categories) matches Some(cs)
            ==> categories_valid(cs))) ==> r == Err::<DbGame, CatalogError>(
            CatalogError::InvalidArgument,
        ) && final(store)@ == old(store)@,
        ((price matches Some(p) ==> p >= 0) && (status matches Some(st) ==> st
            != DbGameStatus::Unspecified) && (opt_categories_view(categories) matches Some(cs)
            ==> categories_valid(cs))) ==> match find_live(old(store)@, id) {
            None => r == Err::<DbGame, CatalogError>(CatalogError::NotFound) && final(store)@
                == old(store)@,
            Some(g0) => exists|t: i64|
                {
                    &&& r matches Ok(g) && g@ == patched_row(
                        g0,
                        name.deep_view(),
                        description.deep_view(),
                        price,
                        cover_image.deep_view(),
                        trailer_url.deep_view(),
                        status,
                        opt_categories_view(categories),
                        tags.deep_view(),
                        platforms.deep_view(),
                        screenshots.deep_view(),
                        t,
                    )
                    &&& final(store)@ == #[trigger] patched_store(
                        old(store)@,
                        id,
                        name.deep_view(),
                        description.deep_view(),
                        price,
                        cover_image.deep_view(),
                        trailer_url.deep_view(),
                        status,
                        opt_categories_view(categories),
                        tags.deep_view(),
                        platforms.deep_view(),
                        screenshots.deep_view(),
                        t,
                    )
                },
        },
{
    match &price {
        Some(p) => {
            if *p < 0 {
                return Err(CatalogError::InvalidArgument);
            }
        },
        None => {},
    }
    match &status {
        Some(st) => {
            if *st == DbGameStatus::Unspecified {
                return Err(CatalogError::InvalidArgument);
            }
        },
        None => {},
    }
    match &categories {
        Some(cs) => {
            if !check_categories_valid(cs) {
                return Err(CatalogError::InvalidArgument);
            }
        },
        None => {},
    }
    let now = now_millis();
    store.apply_patch(
        id,
        name,
        description,
        price,
        cover_image,
        trailer_url,
        status,
        categories,
        tags,
        platforms,
        screenshots,
        now,
    )
}

/// Soft-deletes a game when the requester owns it; `false` means "no live
/// row matched id and owner", without telling the two apart.
pub fn delete_game(store: &mut GameStore, id: u128, developer_id: u128) -> (r: bool)
    requires
        old(store).wf(),
    ensures
        final(store).wf(),
        r == (find_live(old(store)@, id) matches Some(g) && g.developer_id == developer_id),
        r ==> exists|t: i64| final(store)@ == #[trigger] deleted_store(old(store)@, id, t),
        !r ==> final(store)@ == old(store)@,
{
    let now = now_millis();
    store.soft_delete(id, developer_id, now)
}

/// All live games, most recent first.
pub fn get_all_games(store: &GameStore) -> (r: Vec<DbGame>)
    ensures
        r.deep_view() == ordered(ListOrder::RecentFirst, live_matches(store@, filter_none())),
{
    let f = GameFilter::none();
    let n = store.len();
    let (items, _total) = store.scan(&f, ListOrder::RecentFirst, n, 0);
    proof {
        broadcast use vstd::seq_lib::group_filter_ensures;

        assert(live_matches(store@, filter_none()).len() <= store@.len());
        let m = ordered(ListOrder::RecentFirst, live_matches(store@, filter_none()));
        crate::order::lemma_ordered_multiset(
            ListOrder::RecentFirst,
            live_matches(store@, filter_none()),
        );
        assert(m.subrange(0, m.len() as int) =~= m);
    }
    items
}

/// One page of the catalog under the given filter dimensions, most recent
/// first, with the true total of matching rows.  The page size is clamped
/// into `[1, 100]`, the cursor to be non-negative; a category or status
/// outside the closed vocabulary is rejected before the store is touched.
pub fn list_games(
    store: &GameStore,
    developer_id: Option<u128>,
    categories: Option<Vec<DbGameCategory>>,
    min_price: Option<i64>,
    max_price: Option<i64>,
    status: Option<DbGameStatus>,
    search_query: Option<String>,
    limit: i32,
    offset: i32,
) -> (r: Result<(Vec<DbGame>, u64), CatalogError>)
    ensures
        !((opt_categories_view(categories) matches Some(cs) ==> categories_real(cs)) && (
        status matches Some(st) ==> st != DbGameStatus::Unspecified)) ==> r == Err::<
            (Vec<DbGame>, u64),
            CatalogError,
        >(CatalogError::InvalidArgument),
        ((opt_categories_view(categories) matches Some(cs) ==> categories_real(cs)) && (
        status matches Some(st) ==> st != DbGameStatus::Unspecified)) ==> match r {
            Ok(page) => {
                let fv = filter_of(
                    developer_id,
                    opt_categories_view(categories),
                    min_price,
                    max_price,
                    status,
                    search_query.deep_view(),
                );
                &&& page.1 == live_matches(store@, fv).len()
                &&& page.0.deep_view() == page_of(
                    store@,
                    fv,
                    ListOrder::RecentFirst,
                    clamp_limit(limit),
                    clamp_offset(offset),
                )
            },
            Err(_) => false,
        },
{
    match &categories {
        Some(cs) => {
            if !check_categories_real(cs) {
                return Err(CatalogError::InvalidArgument);
            }
        },
        None => {},
    }
    match &status {
        Some(st) => {
            if *st == DbGameStatus::Unspecified {
                return Err(CatalogError::InvalidArgument);
            }
        },
        None => {},
    }
    let (l, o) = clamp_window(limit, offset);
    let f = GameFilter { developer_id, categories, min_price, max_price, status, search_query };
    let ghost fv = filter_of(
        developer_id,
        opt_categories_view(f.categories),
        min_price,
        max_price,
        status,
        f.search_query.deep_view(),
    );
    proof {
        assert(f@ =~= fv);
    }
    let (items, total) = store.scan(&f, ListOrder::RecentFirst, l, o);
    Ok((items, total as u64))
}

/// One page of the published games carrying the given classification,
/// ordered by popularity.  The sentinel classification is rejected.
pub fn get_games_by_category(
    store: &GameStore,
    category: DbGameCategory,
    limit: i32,
    offset: i32,
) -> (r: Result<Vec<DbGame>, CatalogError>)
    ensures
        category == DbGameCategory::Unspecified ==> r == Err::<Vec<DbGame>, CatalogError>(
            CatalogError::InvalidArgument,
        ),
        category != DbGameCategory::Unspecified ==> match r {
            Ok(items) => items.deep_view() == page_of(
                store@,
                filter_of(
                    None,
                    Some(seq![category]),
                    None,
                    None,
                    Some(DbGameStatus::Published),
                    None,
                ),
                ListOrder::PopularFirst,
                clamp_limit(limit),
                clamp_offset(offset),
            ),
            Err(_) => false,
        },
{
    if category == DbGameCategory::Unspecified {
        return Err(CatalogError::InvalidArgument);
    }
    let (l, o) = clamp_window(limit, offset);
    let mut cs: Vec<DbGameCategory> = Vec::new();
    cs.push(category);
    let f = GameFilter {
        developer_id: None,
        categories: Some(cs),
        min_price: None,
        max_price: None,
        status: Some(DbGameStatus::Published),
        search_query: None,
    };
    proof {
        assert(f@ =~= filter_of(
            None,
            Some(seq![category]),
            None,
            None,
            Some(DbGameStatus::Published),
            None,
        ));
    }
    let (items, _total) = store.scan(&f, ListOrder::PopularFirst, l, o);
    Ok(items)
}

/// The first page of the published games, ordered by popularity.
pub fn get_popular_games(store: &GameStore, limit: i32) -> (r: Vec<DbGame>)
    ensures
        r.deep_view() == page_of(
            store@,
            filter_of(None, None, None, None, Some(DbGameStatus::Published), None),
            ListOrder::PopularFirst,
            clamp_limit(limit),
            0,
        ),
{
    let (l, _o) = clamp_window(limit, 0);
    let f = GameFilter {
        developer_id: None,
        categories: None,
        min_price: None,
        max_price: None,
        status: Some(DbGameStatus::Published),
        search_query: None,
    };
    proof {
        assert(f@ =~= filter_of(None, None, None, None, Some(DbGameStatus::Published), None));
    }
    let (items, _total) = store.scan(&f, ListOrder::PopularFirst, l, 0);
    items
}

/// Records a rating, in hundredths of a star.  A value outside `[0, 5.00]`
/// is rejected before the store is touched; on the live row the exact sum
/// and count grow together at a fresh timestamp.
pub fn update_game_rating(store: &mut GameStore, game_id: u128, new_rating: i64) -> (r: Result<
    (),
    CatalogError,
>)
    requires
        old(store).wf(),
    ensures
        final(store).wf(),
        !(0 <= new_rating <= RATING_MAX_CENTI) ==> r == Err::<(), CatalogError>(
            CatalogError::InvalidArgument,
        ) && final(store)@ == old(store)@,
        0 <= new_rating <= RATING_MAX_CENTI ==> match find_live(old(store)@, game_id) {
            None => r == Err::<(), CatalogError>(CatalogError::NotFound) && final(store)@ == old(
                store,
            )@,
            Some(g) => if g.rating_count < u32::MAX {
                r == Ok::<(), CatalogError>(()) && exists|t: i64|
                    final(store)@ == #[trigger] rated_store(old(store)@, game_id, new_rating as u64, t)
            } else {
                r == Err::<(), CatalogError>(CatalogError::Internal) && final(store)@ == old(
                    store,
                )@
            },
        },
{
    if new_rating < 0 {
        return Err(CatalogError::InvalidArgument);
    }
    let now = now_millis();
    store.record_rating(game_id, new_rating as u64, now)
}

/// Increments the purchase counter of a live game by exactly one.
pub fn increment_purchase_count(store: &mut GameStore, game_id: u128) -> (r: Result<
    (),
    CatalogError,
>)
    requires
        old(store).wf(),
    ensures
        final(store).wf(),
        match find_live(old(store)@, game_id) {
            None => r == Err::<(), CatalogError>(CatalogError::NotFound) && final(store)@ == old(
                store,
            )@,
            Some(g) => if g.purchase_count < u64::MAX {
                r == Ok::<(), CatalogError>(()) && exists|t: i64|
                    final(store)@ == #[trigger] purchased_store(old(store)@, game_id, t)
            } else {
                r == Err::<(), CatalogError>(CatalogError::Internal) && final(store)@ == old(
                    store,
                )@
            },
        },
{
    let now = now_millis();
    store.record_purchase(game_id, now)
}

/// Appends a screenshot URL to a live game; duplicates are kept by design.
pub fn add_screenshot(store: &mut GameStore, game_id: u128, screenshot_url: String) -> (r: Result<
    (),
    CatalogError,
>)
    requires
        old(store).wf(),
    ensures
        final(store).wf(),
        find_live(old(store)@, game_id) is None ==> r == Err::<(), CatalogError>(
            CatalogError::NotFound,
        ) && final(store)@ == old(store)@,
        find_live(old(store)@, game_id) is Some ==> r == Ok::<(), CatalogError>(()) && exists|
            t: i64,
        |
            final(store)@ == #[trigger] screenshot_appended_store(
                old(store)@,
                game_id,
                screenshot_url@,
                t,
            ),
{
    let now = now_millis();
    store.append_screenshot(game_id, screenshot_url, now)
}

/// Removes every occurrence of a screenshot URL from a live game; removing
/// an absent URL is a no-op success, though `updated_at` still advances.
pub fn remove_screenshot(store: &mut GameStore, game_id: u128, screenshot_url: String) -> (r:
    Result<(), CatalogError>)
    requires
        old(store).wf(),
    ensures
        final(store).wf(),
        find_live(old(store)@, game_id) is None ==> r == Err::<(), CatalogError>(
            CatalogError::NotFound,
        ) && final(store)@ == old(store)@,
        find_live(old(store)@, game_id) is Some ==> r == Ok::<(), CatalogError>(()) && exists|
            t: i64,
        |
            final(store)@ == #[trigger] screenshot_removed_store(old(store)@, game_id, screenshot_url@, t),
{
    let now = now_millis();
    store.remove_screenshot(game_id, &screenshot_url, now)
}

/// Whether a further page exists past the current window: the caller
/// compares `offset + limit` with the total the scan reported.
pub fn has_next_page(offset: u64, limit: u64, total: u64) -> (r: bool)
    ensures
        r == (offset + limit < total),
{
    (offset as u128) + (limit as u128) < (total as u128)
}

} // verus!
