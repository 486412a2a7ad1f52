//! The engine's cross-cutting laws, proved once and for all.
//!
//! Each proof function here states a property that relates several engine
//! operations: the exactness of the incremental rating mean over a whole
//! history, the loss-free purchase counter under any serialization, the
//! completeness of an unwindowed first page, the invisibility of
//! soft-deleted rows on every read path, and the consistency of paging.

use vstd::prelude::*;

use crate::aggregates::with_purchase;
use crate::aggregates::with_rating;
use crate::filter::FilterView;
use crate::filter::live_matches;
use crate::game::GameView;
use crate::order::ListOrder;
use crate::order::lemma_ordered_multiset;
use crate::order::ordered;
use crate::store::deleted_store;
use crate::store::find_live;
use crate::store::lemma_find_live_characterized;
use crate::store::page_of;

verus! {

/// The exact sum of a rating history, in hundredths of a star.
pub open spec fn sum_of(rs: Seq<u64>) -> int
    decreases rs.len(),
{
    if rs.len() == 0 {
        0int
    } else {
        sum_of(rs.drop_last()) + rs.last()
    }
}

/// A rating history applied to a row one rating at a time, in order.
pub open spec fn ratings_applied(g: GameView, rs: Seq<u64>, now: i64) -> GameView
    decreases rs.len(),
{
    if rs.len() == 0 {
        g
    } else {
        with_rating(ratings_applied(g, rs.drop_last(), now), rs.last(), now)
    }
}

/// A history's sum is never negative.
pub proof fn lemma_sum_of_nonneg(rs: Seq<u64>)
    ensures
        sum_of(rs) >= 0,
    decreases rs.len(),
{
    if rs.len() > 0 {
        lemma_sum_of_nonneg(rs.drop_last());
    }
}

/// Incremental mean correctness, aggregate form: applying a history one
/// rating at a time accumulates exactly the history's count and sum, so
/// the recorded average can never drift from a from-scratch recomputation.
pub proof fn lemma_incremental_mean(g: GameView, rs: Seq<u64>, now: i64)
    requires
        g.rating_count + rs.len() <= u32::MAX,
        g.rating_sum + sum_of(rs) <= u64::MAX,
    ensures
        ratings_applied(g, rs, now).rating_count == g.rating_count + rs.len(),
        ratings_applied(g, rs, now).rating_sum == g.rating_sum + sum_of(rs),
    decreases rs.len(),
{
    if rs.len() > 0 {
        lemma_sum_of_nonneg(rs.drop_last());
        lemma_incremental_mean(g, rs.drop_last(), now);
    }
}

/// Incremental mean correctness: for any sequence of ratings applied one
/// at a time to a fresh row, the final count is the history's length and
/// the final average is the exact arithmetic mean of the history, rounded
/// toward zero.
pub proof fn lemma_mean_of_history(g: GameView, rs: Seq<u64>, now: i64)
    requires
        g.rating_count == 0,
        g.rating_sum == 0,
        rs.len() >= 1,
        rs.len() <= u32::MAX,
        sum_of(rs) <= u64::MAX,
    ensures
        ratings_applied(g, rs, now).rating_count == rs.len(),
        ratings_applied(g, rs, now).average_rating_centi() == sum_of(rs) / rs.len() as int,
{
    lemma_sum_of_nonneg(rs);
    lemma_incremental_mean(g, rs, now);
}

/// The recorded average of any well-formed row stays between zero and
/// five stars, and is exactly zero while no rating was applied.
pub proof fn lemma_average_in_range(g: GameView)
    requires
        g.wf(),
    ensures
        0 <= g.average_rating_centi() <= crate::game::RATING_MAX_CENTI,
        g.rating_count == 0 ==> g.average_rating_centi() == 0,
{
    if g.rating_count > 0 {
        let sum = g.rating_sum as int;
        let count = g.rating_count as int;
        let q = sum / count;
        vstd::arithmetic::div_mod::lemma_fundamental_div_mod(sum, count);
        vstd::arithmetic::div_mod::lemma_div_is_ordered(0, sum, count);
        if q > crate::game::RATING_MAX_CENTI {
            vstd::arithmetic::mul::lemma_mul_inequality(
                crate::game::RATING_MAX_CENTI as int + 1,
                q,
                count,
            );
        }
    }
}

/// A purchase history of `k` purchases applied to a row one at a time.
pub open spec fn purchases_applied(g: GameView, k: nat, now: i64) -> GameView
    decreases k,
{
    if k == 0 {
        g
    } else {
        with_purchase(purchases_applied(g, (k - 1) as nat, now), now)
    }
}

/// Purchase safety: `k` purchase calls against the same row increase the
/// counter by exactly `k`, however the calls were interleaved — the store
/// applies each as an atomic read-modify-write, so any serialization has
/// this form and no increment is lost.
pub proof fn lemma_purchases_add_up(g: GameView, k: nat, now: i64)
    requires
        g.purchase_count + k <= u64::MAX,
    ensures
        purchases_applied(g, k, now).purchase_count == g.purchase_count + k,
    decreases k,
{
    if k > 0 {
        lemma_purchases_add_up(g, (k - 1) as nat, now);
    }
}

/// Filter conjunction, count form: with no offset and a window at least as
/// large as the match count, the page is the whole ordered match list, so
/// its length equals the reported total.
pub proof fn lemma_first_page_complete(s: Seq<GameView>, f: FilterView, o: ListOrder, limit: int)
    requires
        limit >= live_matches(s, f).len(),
    ensures
        page_of(s, f, o, limit, 0) == ordered(o, live_matches(s, f)),
        page_of(s, f, o, limit, 0).len() == live_matches(s, f).len(),
{
    lemma_ordered_multiset(o, live_matches(s, f));
    let m = ordered(o, live_matches(s, f));
    assert(m.subrange(0, m.len() as int) =~= m);
}

/// Soft-delete invisibility: after the rows carrying `id` are
/// soft-deleted, a lookup by that id finds nothing, and no scan result —
/// under any filter — includes a row with that id.  A second deletion of
/// the same id then matches no live row either.
pub proof fn lemma_soft_delete_invisible(s: Seq<GameView>, id: u128, now: i64)
    ensures
        find_live(deleted_store(s, id, now), id) is None,
        forall|f: FilterView, j: int|
            0 <= j < live_matches(deleted_store(s, id, now), f).len() ==> (
            #[trigger] live_matches(deleted_store(s, id, now), f)[j]).id != id,
{
    broadcast use vstd::seq_lib::group_filter_ensures;

    let s2 = deleted_store(s, id, now);
    assert forall|k: int| 0 <= k < s2.len() && s2[k].id == id implies !s2[k].is_live() by {
        if s[k].is_live() && s[k].id == id {
        }
    }
    lemma_find_live_characterized(s2, id);
    assert forall|f: FilterView, j: int|
        0 <= j < live_matches(s2, f).len() implies (#[trigger] live_matches(s2, f)[j]).id
        != id by {
        let row = live_matches(s2, f)[j];
        assert(live_matches(s2, f).contains(row));
        s2.lemma_filter_contains_rev(
            |g: GameView| g.is_live() && crate::filter::matches(g, f),
            row,
        );
        let k = choose|k: int| 0 <= k < s2.len() && s2[k] == row;
        assert(row.is_live());
    }
}

/// Every page a scan returns is sorted in the scan's mode: a window of
/// the sorted match list is itself sorted.
pub proof fn lemma_page_sorted(s: Seq<GameView>, f: FilterView, o: ListOrder, limit: int, offset: int)
    requires
        limit >= 0,
        offset >= 0,
    ensures
        crate::order::sorted_rows(o, page_of(s, f, o, limit, offset)),
{
    crate::order::lemma_ordered_sorted(o, live_matches(s, f));
    let m = ordered(o, live_matches(s, f));
    let page = page_of(s, f, o, limit, offset);
    let lo: int = if offset > m.len() {
        m.len() as int
    } else {
        offset
    };
    assert forall|i: int, j: int| 0 <= i < j < page.len() implies !crate::order::precedes(
        o,
        page[j],
        page[i],
    ) by {
        assert(page[i] == m[lo + i] && page[j] == m[lo + j]);
    }
}

/// The first `k` pages of a scan, concatenated in order.
pub open spec fn pages_concat(
    s: Seq<GameView>,
    f: FilterView,
    o: ListOrder,
    limit: int,
    k: nat,
) -> Seq<GameView>
    decreases k,
{
    if k == 0 {
        Seq::empty()
    } else {
        pages_concat(s, f, o, limit, (k - 1) as nat) + page_of(
            s,
            f,
            o,
            limit,
            (k - 1) as int * limit,
        )
    }
}

/// The first `k` pages concatenate to the first `k * limit` rows of the
/// ordered match list.
pub proof fn lemma_pages_prefix(s: Seq<GameView>, f: FilterView, o: ListOrder, limit: int, k: nat)
    requires
        limit >= 1,
    ensures
        pages_concat(s, f, o, limit, k) == ordered(o, live_matches(s, f)).subrange(
            0,
            if k * limit > ordered(o, live_matches(s, f)).len() {
                ordered(o, live_matches(s, f)).len() as int
            } else {
                k * limit
            },
        ),
    decreases k,
{
    let m = ordered(o, live_matches(s, f));
    if k == 0 {
        vstd::arithmetic::mul::lemma_mul_basics(limit);
        assert(k * limit == 0);
        assert(pages_concat(s, f, o, limit, k) =~= m.subrange(0, 0));
    } else {
        let prev: nat = (k - 1) as nat;
        lemma_pages_prefix(s, f, o, limit, prev);
        vstd::arithmetic::mul::lemma_mul_nonnegative(prev as int, limit);
        vstd::arithmetic::mul::lemma_mul_is_distributive_add_other_way(
            limit,
            prev as int,
            1,
        );
        vstd::arithmetic::mul::lemma_mul_basics(limit);
        assert(prev as int * limit + limit == k as int * limit);
        assert(k as int * limit >= prev as int * limit + 1);
        let cut_prev: int = if prev as int * limit > m.len() {
            m.len() as int
        } else {
            prev as int * limit
        };
        let cut: int = if k as int * limit > m.len() {
            m.len() as int
        } else {
            k as int * limit
        };
        let lo: int = if prev as int * limit > m.len() {
            m.len() as int
        } else {
            prev as int * limit
        };
        let hi: int = if prev as int * limit + limit > m.len() {
            m.len() as int
        } else {
            prev as int * limit + limit
        };
        assert(lo == cut_prev && hi == cut);
        assert(page_of(s, f, o, limit, prev as int * limit) == m.subrange(lo, hi));
        assert(m.subrange(0, cut_prev) + m.subrange(cut_prev, cut) =~= m.subrange(0, cut));
    }
}

/// Pagination consistency: the total is a pure function of store and
/// filter, identical on every call, and once `k * limit` reaches it, the
/// `k` pages concatenate, in order, to the entire ordered match list —
/// the same multiset of rows, with no duplicates and no omissions.
pub proof fn lemma_pagination_consistent(
    s: Seq<GameView>,
    f: FilterView,
    o: ListOrder,
    limit: int,
    k: nat,
)
    requires
        limit >= 1,
        k * limit >= live_matches(s, f).len(),
    ensures
        pages_concat(s, f, o, limit, k) == ordered(o, live_matches(s, f)),
        pages_concat(s, f, o, limit, k).to_multiset() == live_matches(s, f).to_multiset(),
{
    lemma_ordered_multiset(o, live_matches(s, f));
    lemma_pages_prefix(s, f, o, limit, k);
    let m = ordered(o, live_matches(s, f));
    assert(m.subrange(0, m.len() as int) =~= m);
}

} // verus!
