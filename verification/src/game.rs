//! The persisted game record and its mathematical view.
//!
//! A `DbGame` holds only plain values: ids are 128-bit tokens, money and
//! ratings are fixed-point integers (cents and hundredths of a star), and
//! timestamps are unix milliseconds.  The derived aggregates keep the exact
//! rating sum next to the rating count, so the average of record is always
//! the true arithmetic mean of every rating ever applied and can never drift
//! from a from-scratch recomputation.

use vstd::prelude::*;

use crate::models::DbGameCategory;
use crate::models::DbGameStatus;

verus! {

/// Upper bound of a rating value, in hundredths of a star (5.00 stars).
pub const RATING_MAX_CENTI: u64 = 500;

/// A stored game row.
///
/// `rating_sum` is the exact sum of all applied rating values in hundredths
/// of a star; the average on the wire is `rating_sum / rating_count`.
#[derive(Debug)]
pub struct DbGame {
    pub id: u128,
    pub name: String,
    pub description: String,
    pub developer_id: u128,
    pub publisher_id: Option<u128>,
    pub cover_image: String,
    pub trailer_url: Option<String>,
    /// Release day as a day number (days since the unix epoch).
    pub release_date: i32,
    /// Price in cents; never negative.
    pub price: i64,
    pub status: DbGameStatus,
    pub categories: Vec<DbGameCategory>,
    pub tags: Vec<String>,
    pub platforms: Vec<String>,
    pub screenshots: Vec<String>,
    pub rating_count: u32,
    /// Exact sum of all applied rating values, in hundredths of a star.
    pub rating_sum: u64,
    pub purchase_count: u64,
    /// Unix milliseconds.
    pub created_at: i64,
    /// Unix milliseconds.
    pub updated_at: i64,
    /// Unix milliseconds; `None` while the row is live.
    pub deleted_at: Option<i64>,
}

/// The abstract value of a stored game row: every text field as a sequence
/// of characters, every collection as a sequence.
#[verifier::ext_equal]
pub ghost struct GameView {
    pub id: u128,
    pub name: Seq<char>,
    pub description: Seq<char>,
    pub developer_id: u128,
    pub publisher_id: Option<u128>,
    pub cover_image: Seq<char>,
    pub trailer_url: Option<Seq<char>>,
    pub release_date: i32,
    pub price: i64,
    pub status: DbGameStatus,
    pub categories: Seq<DbGameCategory>,
    pub tags: Seq<Seq<char>>,
    pub platforms: Seq<Seq<char>>,
    pub screenshots: Seq<Seq<char>>,
    pub rating_count: u32,
    pub rating_sum: u64,
    pub purchase_count: u64,
    pub created_at: i64,
    pub updated_at: i64,
    pub deleted_at: Option<i64>,
}

impl View for DbGame {
    type V = GameView;

    open spec fn view(&self) -> GameView {
        GameView {
            id: self.id,
            name: self.name@,
            description: self.description@,
            developer_id: self.developer_id,
            publisher_id: self.publisher_id,
            cover_image: self.cover_image@,
            trailer_url: match self.trailer_url {
                Some(u) => Some(u@),
                None => None,
            },
            release_date: self.release_date,
            price: self.price,
            status: self.status,
            categories: self.categories@,
            tags: self.tags.deep_view(),
            platforms: self.platforms.deep_view(),
            screenshots: self.screenshots.deep_view(),
            rating_count: self.rating_count,
            rating_sum: self.rating_sum,
            purchase_count: self.purchase_count,
            created_at: self.created_at,
            updated_at: self.updated_at,
            deleted_at: self.deleted_at,
        }
    }
}

impl DeepView for DbGame {
    type V = GameView;

    open spec fn deep_view(&self) -> GameView {
        self.view()
    }
}

impl GameView {
    /// Well-formedness of a stored row: the price is non-negative, the
    /// status and every category are real vocabulary members, at least one
    /// classification is present, and the rating aggregates are consistent
    /// (an empty history has sum zero, and no rating exceeds 5.00 stars).
    pub open spec fn wf(self) -> bool {
        &&& self.price >= 0
        &&& self.status != DbGameStatus::Unspecified
        &&& self.categories.len() >= 1
        &&& forall|i: int|
            0 <= i < self.categories.len() ==> self.categories[i] != DbGameCategory::Unspecified
        &&& (self.rating_count == 0 ==> self.rating_sum == 0)
        &&& self.rating_sum <= RATING_MAX_CENTI * self.rating_count
    }

    /// A row is live while it has not been soft-deleted.
    pub open spec fn is_live(self) -> bool {
        self.deleted_at is None
    }

    /// The exact arithmetic mean of all applied ratings, in hundredths of a
    /// star, rounded toward zero; zero while no rating was applied.
    pub open spec fn average_rating_centi(self) -> int {
        if self.rating_count == 0 {
            0
        } else {
            self.rating_sum as int / self.rating_count as int
        }
    }
}

impl DbGame {
    /// The exact arithmetic mean of all applied ratings, in hundredths of a
    /// star, rounded toward zero; zero while no rating was applied.
    pub fn average_rating_centi(&self) -> (r: u64)
        ensures
            r == self@.average_rating_centi(),
    {
        if self.rating_count == 0 {
            0
        } else {
            self.rating_sum / (self.rating_count as u64)
        }
    }
}

impl Clone for DbGame {
    /// Cloning a row preserves its abstract value.
    fn clone(&self) -> (res: Self)
        ensures
            res@ == self@,
    {
        let res = DbGame {
            id: self.id,
            name: self.name.clone(),
            description: self.description.clone(),
            developer_id: self.developer_id,
            publisher_id: self.publisher_id,
            cover_image: self.cover_image.clone(),
            trailer_url: match &self.trailer_url {
                Some(u) => Some(u.clone()),
                None => None,
            },
            release_date: self.release_date,
            price: self.price,
            status: self.status,
            categories: clone_categories(&self.categories),
            tags: clone_strings(&self.tags),
            platforms: clone_strings(&self.platforms),
            screenshots: clone_strings(&self.screenshots),
            rating_count: self.rating_count,
            rating_sum: self.rating_sum,
            purchase_count: self.purchase_count,
            created_at: self.created_at,
            updated_at: self.updated_at,
            deleted_at: self.deleted_at,
        };
        proof {
            assert(res@ =~= self@);
        }
        res
    }
}

/// Copies a category list element by element.
fn clone_categories(v: &Vec<DbGameCategory>) -> (res: Vec<DbGameCategory>)
    ensures
        res@ == v@,
{
    let mut res: Vec<DbGameCategory> = Vec::new();
    let mut i: usize = 0;
    while i < v.len()
        invariant
            i <= v.len(),
            res@ == v@.subrange(0, i as int),
        decreases v.len() - i,
    {
        res.push(v[i]);
        i = i + 1;
    }
    proof {
        assert(res@ =~= v@);
    }
    res
}

/// Copies a string list element by element, preserving every element's
/// character sequence.
fn clone_strings(v: &Vec<String>) -> (res: Vec<String>)
    ensures
        res.deep_view() == v.deep_view(),
{
    let mut res: Vec<String> = Vec::new();
    let mut i: usize = 0;
    while i < v.len()
        invariant
            i <= v.len(),
            res@.len() == i,
            forall|j: int| 0 <= j < i ==> #[trigger] res@[j]@ == v@[j]@,
        decreases v.len() - i,
    {
        let s = v[i].clone();
        proof {
            assert(s@ == v@[i as int]@);
        }
        res.push(s);
        i = i + 1;
    }
    proof {
        assert(res.deep_view() =~~= v.deep_view());
    }
    res
}

} // verus!
