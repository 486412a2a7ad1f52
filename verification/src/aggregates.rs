//! Spec-level row transformations of the aggregate updater.
//!
//! Each function gives the abstract value of one atomic read-modify-write
//! against a single row: the incremental rating mean, the purchase counter,
//! and the screenshot list mutations.  Every transformation refreshes
//! `updated_at`.

use vstd::prelude::*;

use crate::game::GameView;
use crate::store::map_live_row;

verus! {

/// One rating applied to a row: the exact sum and the count each grow, so
/// the recorded mean stays the true mean of all ratings ever applied.
pub open spec fn with_rating(g: GameView, value: u64, now: i64) -> GameView {
    GameView {
        rating_count: (g.rating_count + 1) as u32,
        rating_sum: (g.rating_sum + value) as u64,
        updated_at: now,
        ..g
    }
}

/// One purchase applied to a row.
pub open spec fn with_purchase(g: GameView, now: i64) -> GameView {
    GameView { purchase_count: (g.purchase_count + 1) as u64, updated_at: now, ..g }
}

/// A screenshot URL appended to a row; duplicates are kept by design.
pub open spec fn with_screenshot_appended(g: GameView, url: Seq<char>, now: i64) -> GameView {
    GameView { screenshots: g.screenshots.push(url), updated_at: now, ..g }
}

/// All occurrences of a screenshot URL removed from a row; removing an
/// absent URL leaves the sequence unchanged.
pub open spec fn with_screenshot_removed(g: GameView, url: Seq<char>, now: i64) -> GameView {
    GameView { screenshots: g.screenshots.filter(|s: Seq<char>| s != url), updated_at: now, ..g }
}

/// The store after a rating lands on the live row carrying `id`.
pub open spec fn rated_store(s: Seq<GameView>, id: u128, value: u64, now: i64) -> Seq<GameView> {
    map_live_row(s, id, |g: GameView| with_rating(g, value, now))
}

/// The store after a purchase lands on the live row carrying `id`.
pub open spec fn purchased_store(s: Seq<GameView>, id: u128, now: i64) -> Seq<GameView> {
    map_live_row(s, id, |g: GameView| with_purchase(g, now))
}

/// The store after a screenshot append on the live row carrying `id`.
pub open spec fn screenshot_appended_store(
    s: Seq<GameView>,
    id: u128,
    url: Seq<char>,
    now: i64,
) -> Seq<GameView> {
    map_live_row(s, id, |g: GameView| with_screenshot_appended(g, url, now))
}

/// The store after a screenshot removal on the live row carrying `id`.
pub open spec fn screenshot_removed_store(
    s: Seq<GameView>,
    id: u128,
    url: Seq<char>,
    now: i64,
) -> Seq<GameView> {
    map_live_row(s, id, |g: GameView| with_screenshot_removed(g, url, now))
}

/// Removing a URL that never occurs in the sequence leaves the sequence
/// unchanged in content (idempotent no-op removal).
pub proof fn lemma_remove_absent_is_noop(screens: Seq<Seq<char>>, url: Seq<char>)
    requires
        !screens.contains(url),
    ensures
        screens.filter(|s: Seq<char>| s != url) == screens,
    decreases screens.len(),
{
    reveal(Seq::filter);
    let pred = |s: Seq<char>| s != url;
    if screens.len() == 0 {
        assert(screens.filter(pred) =~= screens);
    } else {
        let prefix = screens.drop_last();
        assert(!prefix.contains(url)) by {
            if prefix.contains(url) {
                let i = choose|i: int| 0 <= i < prefix.len() && prefix[i] == url;
                assert(screens[i] == url);
            }
        }
        lemma_remove_absent_is_noop(prefix, url);
        assert(screens.contains(screens.last())) by {
            assert(screens[screens.len() - 1] == screens.last());
        }
        assert(pred(screens.last()));
        assert(screens.filter(pred) =~= screens);
    }
}

} // verus!
