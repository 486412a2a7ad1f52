//! The filter compiler: one predicate object for a catalog scan.
//!
//! A filter bundles the independently-optional dimensions of a list
//! request; each present dimension contributes one conjunctive clause, an
//! absent dimension imposes no constraint.  The same predicate drives both
//! the page query and the total count, so the two can never disagree
//! within one logical read.  Live-row exclusion is not part of the filter:
//! every read path applies it implicitly.

use vstd::prelude::*;

use crate::game::DbGame;
use crate::game::GameView;
use crate::models::DbGameCategory;
use crate::models::DbGameStatus;
use crate::text::text_match;
use crate::text::text_matches;

verus! {

/// A compiled filter: every dimension optional, all conjunctive.
pub struct GameFilter {
    /// Exact match on `developer_id`.
    pub developer_id: Option<u128>,
    /// Set overlap with the game's categories (not subset).
    pub categories: Option<Vec<DbGameCategory>>,
    /// Inclusive lower bound on `price`.
    pub min_price: Option<i64>,
    /// Inclusive upper bound on `price`.
    pub max_price: Option<i64>,
    /// Exact match on `status`.
    pub status: Option<DbGameStatus>,
    /// Token match of the query against the game's name.
    pub search_query: Option<String>,
}

/// The abstract value of a filter.
#[verifier::ext_equal]
pub ghost struct FilterView {
    pub developer_id: Option<u128>,
    pub categories: Option<Seq<DbGameCategory>>,
    pub min_price: Option<i64>,
    pub max_price: Option<i64>,
    pub status: Option<DbGameStatus>,
    pub search_query: Option<Seq<char>>,
}

impl View for GameFilter {
    type V = FilterView;

    open spec fn view(&self) -> FilterView {
        FilterView {
            developer_id: self.developer_id,
            categories: match self.categories {
                Some(ref v) => Some(v@),
                None => None,
            },
            min_price: self.min_price,
            max_price: self.max_price,
            status: self.status,
            search_query: match self.search_query {
                Some(ref q) => Some(q@),
                None => None,
            },
        }
    }
}

impl GameFilter {
    /// The filter that matches every live row.
    pub fn none() -> (r: GameFilter)
        ensures
            r@ == filter_none(),
    {
        GameFilter {
            developer_id: None,
            categories: None,
            min_price: None,
            max_price: None,
            status: None,
            search_query: None,
        }
    }
}

/// The abstract value of the empty filter.
pub open spec fn filter_none() -> FilterView {
    FilterView {
        developer_id: None,
        categories: None,
        min_price: None,
        max_price: None,
        status: None,
        search_query: None,
    }
}

/// The abstract value of a filter assembled from request dimensions.
pub open spec fn filter_of(
    developer_id: Option<u128>,
    categories: Option<Seq<DbGameCategory>>,
    min_price: Option<i64>,
    max_price: Option<i64>,
    status: Option<DbGameStatus>,
    search_query: Option<Seq<char>>,
) -> FilterView {
    FilterView { developer_id, categories, min_price, max_price, status, search_query }
}

/// A requested page size clamped into `[1, 100]`.
pub open spec fn clamp_limit(limit: i32) -> int {
    if limit < 1 {
        1int
    } else if limit > 100 {
        100int
    } else {
        limit as int
    }
}

/// A requested cursor clamped to be non-negative.
pub open spec fn clamp_offset(offset: i32) -> int {
    if offset < 0 {
        0int
    } else {
        offset as int
    }
}

/// Clamps the requested window: the page size into `[1, 100]`, the cursor
/// to be non-negative.
pub fn clamp_window(limit: i32, offset: i32) -> (r: (usize, usize))
    ensures
        r.0 == clamp_limit(limit),
        r.1 == clamp_offset(offset),
{
    let l: usize = if limit < 1 {
        1
    } else if limit > 100 {
        100
    } else {
        limit as usize
    };
    let o: usize = if offset < 0 {
        0
    } else {
        offset as usize
    };
    (l, o)
}

/// Whether the two category sets share at least one member.
pub open spec fn sets_overlap(a: Seq<DbGameCategory>, b: Seq<DbGameCategory>) -> bool {
    exists|i: int, j: int| 0 <= i < a.len() && 0 <= j < b.len() && a[i] == b[j]
}

/// The compiled predicate: the conjunction of every present dimension.
pub open spec fn matches(g: GameView, f: FilterView) -> bool {
    &&& match f.developer_id {
        Some(d) => g.developer_id == d,
        None => true,
    }
    &&& match f.categories {
        Some(cs) => sets_overlap(g.categories, cs),
        None => true,
    }
    &&& match f.min_price {
        Some(p) => g.price >= p,
        None => true,
    }
    &&& match f.max_price {
        Some(p) => g.price <= p,
        None => true,
    }
    &&& match f.status {
        Some(st) => g.status == st,
        None => true,
    }
    &&& match f.search_query {
        Some(q) => text_matches(g.name, q),
        None => true,
    }
}

/// The live rows matching the filter, in store order.
pub open spec fn live_matches(s: Seq<GameView>, f: FilterView) -> Seq<GameView> {
    s.filter(|g: GameView| g.is_live() && matches(g, f))
}

/// Decides whether two category lists share a member.
fn categories_overlap(a: &Vec<DbGameCategory>, b: &Vec<DbGameCategory>) -> (r: bool)
    ensures
        r == sets_overlap(a@, b@),
{
    let n = a.len();
    let mut i: usize = 0;
    while i < n
        invariant
            n == a@.len(),
            i <= n,
            forall|x: int, y: int| 0 <= x < i && 0 <= y < b@.len() ==> a@[x] != b@[y],
        decreases n - i,
    {
        let m = b.len();
        let mut j: usize = 0;
        while j < m
            invariant
                n == a@.len(),
                m == b@.len(),
                i < n,
                j <= m,
                forall|y: int| 0 <= y < j ==> a@[i as int] != b@[y],
            decreases m - j,
        {
            if a[i] == b[j] {
                return true;
            }
            j = j + 1;
        }
        i = i + 1;
    }
    false
}

/// Evaluates the compiled predicate on one row.
pub fn game_matches(g: &DbGame, f: &GameFilter) -> (r: bool)
    ensures
        r == matches(g@, f@),
{
    match &f.developer_id {
        Some(d) => {
            if g.developer_id != *d {
                return false;
            }
        },
        None => {},
    }
    match &f.categories {
        Some(cs) => {
            if !categories_overlap(&g.categories, cs) {
                return false;
            }
        },
        None => {},
    }
    match &f.min_price {
        Some(p) => {
            if g.price < *p {
                return false;
            }
        },
        None => {},
    }
    match &f.max_price {
        Some(p) => {
            if g.price > *p {
                return false;
            }
        },
        None => {},
    }
    match &f.status {
        Some(st) => {
            if g.status != *st {
                return false;
            }
        },
        None => {},
    }
    match &f.search_query {
        Some(q) => {
            if !text_match(g.name.as_str(), q.as_str()) {
                return false;
            }
        },
        None => {},
    }
    true
}

} // verus!
