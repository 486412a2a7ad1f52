//! The entity store: the owner of the persisted game rows.
//!
//! The store is a row collection keyed by id with soft-delete support.  Its
//! abstract value is the sequence of row views in insertion order; every
//! operation's contract is stated over that sequence.  Soft-deleted rows
//! stay in the store (audit trail) but are invisible to every read path.

use vstd::prelude::*;
use vstd::pervasive::VecAdditionalExecFns;

use crate::aggregates::purchased_store;
use crate::aggregates::rated_store;
use crate::aggregates::screenshot_appended_store;
use crate::aggregates::screenshot_removed_store;
use crate::aggregates::with_purchase;
use crate::aggregates::with_rating;
use crate::aggregates::with_screenshot_appended;
use crate::aggregates::with_screenshot_removed;
use crate::errors::CatalogError;
use crate::filter::FilterView;
use crate::filter::GameFilter;
use crate::filter::game_matches;
use crate::filter::live_matches;
use crate::game::DbGame;
use crate::game::GameView;
use crate::game::RATING_MAX_CENTI;
use crate::models::DbGameCategory;
use crate::models::DbGameStatus;
use crate::order::ListOrder;
use crate::order::insert_ordered;
use crate::order::lemma_insert_ordered_at;
use crate::order::ordered;
use crate::order::precedes;
use crate::order::precedes_exec;

verus! {

/// Whether some row (live or deleted) carries the given id.
pub open spec fn contains_id(s: Seq<GameView>, id: u128) -> bool {
    exists|i: int| 0 <= i < s.len() && s[i].id == id
}

/// The first live row with the given id, scanning in insertion order.
/// With unique ids this is the only one.
pub open spec fn find_live(s: Seq<GameView>, id: u128) -> Option<GameView>
    decreases s.len(),
{
    if s.len() == 0 {
        None
    } else if s[0].is_live() && s[0].id == id {
        Some(s[0])
    } else {
        find_live(s.drop_first(), id)
    }
}

/// `find_live` returns the row at the first index whose row is live and
/// carries the id, and `None` exactly when no index matches.
pub proof fn lemma_find_live_characterized(s: Seq<GameView>, id: u128)
    ensures
        find_live(s, id) is None <==> (forall|i: int|
            0 <= i < s.len() ==> !(#[trigger] s[i].is_live() && s[i].id == id)),
        find_live(s, id) matches Some(g) ==> exists|i: int|
            0 <= i < s.len() && s[i].is_live() && s[i].id == id && s[i] == g && (forall|j: int|
                0 <= j < i ==> !(#[trigger] s[j].is_live() && s[j].id == id)),
    decreases s.len(),
{
    if s.len() > 0 {
        if s[0].is_live() && s[0].id == id {
        } else {
            lemma_find_live_characterized(s.drop_first(), id);
            let rest = s.drop_first();
            assert(forall|j: int| 0 <= j < rest.len() ==> rest[j] == s[j + 1]);
            if find_live(rest, id) is Some {
                let g = find_live(rest, id)->0;
                let i = choose|i: int|
                    0 <= i < rest.len() && rest[i].is_live() && rest[i].id == id && rest[i] == g
                        && (forall|j: int|
                        0 <= j < i ==> !(#[trigger] rest[j].is_live() && rest[j].id == id));
                assert(s[i + 1] == rest[i]);
                assert forall|j: int| 0 <= j < i + 1 implies !(#[trigger] s[j].is_live()
                    && s[j].id == id) by {
                    if j >= 1 {
                        assert(rest[j - 1] == s[j]);
                    }
                }
            } else {
                assert forall|j: int| 0 <= j < s.len() implies !(#[trigger] s[j].is_live()
                    && s[j].id == id) by {
                    if j >= 1 {
                        assert(rest[j - 1] == s[j]);
                    }
                }
            }
        }
    }
}

/// The rows of the store with the row carrying `id` (if live) replaced by
/// `f` of it; every other row is unchanged.
pub open spec fn map_live_row(
    s: Seq<GameView>,
    id: u128,
    f: spec_fn(GameView) -> GameView,
) -> Seq<GameView> {
    Seq::new(
        s.len(),
        |i: int|
            if s[i].is_live() && s[i].id == id {
                f(s[i])
            } else {
                s[i]
            },
    )
}

/// The stored value when a patch field is present, the old value when it
/// is absent.
pub open spec fn coalesce<T>(patch: Option<T>, stored: T) -> T {
    match patch {
        Some(v) => v,
        None => stored,
    }
}

/// The abstract value of a category-list patch field.
pub open spec fn opt_categories_view(o: Option<Vec<DbGameCategory>>) -> Option<
    Seq<DbGameCategory>,
> {
    match o {
        Some(v) => Some(v@),
        None => None,
    }
}

/// A row after a field-level patch: every present field overwrites the
/// stored value, every absent field leaves it unchanged, and `updated_at`
/// is set to the patch time unconditionally.  Identity, ownership, release
/// date and the derived aggregates are never patched.
pub open spec fn patched_row(
    g: GameView,
    name: Option<Seq<char>>,
    description: Option<Seq<char>>,
    price: Option<i64>,
    cover_image: Option<Seq<char>>,
    trailer_url: Option<Seq<char>>,
    status: Option<DbGameStatus>,
    categories: Option<Seq<DbGameCategory>>,
    tags: Option<Seq<Seq<char>>>,
    platforms: Option<Seq<Seq<char>>>,
    screenshots: Option<Seq<Seq<char>>>,
    now: i64,
) -> GameView {
    GameView {
        name: coalesce(name, g.name),
        description: coalesce(description, g.description),
        price: coalesce(price, g.price),
        cover_image: coalesce(cover_image, g.cover_image),
        trailer_url: match trailer_url {
            Some(u) => Some(u),
            None => g.trailer_url,
        },
        status: coalesce(status, g.status),
        categories: coalesce(categories, g.categories),
        tags: coalesce(tags, g.tags),
        platforms: coalesce(platforms, g.platforms),
        screenshots: coalesce(screenshots, g.screenshots),
        updated_at: now,
        ..g
    }
}

/// The store after the live row carrying `id` was patched.
pub open spec fn patched_store(
    s: Seq<GameView>,
    id: u128,
    name: Option<Seq<char>>,
    description: Option<Seq<char>>,
    price: Option<i64>,
    cover_image: Option<Seq<char>>,
    trailer_url: Option<Seq<char>>,
    status: Option<DbGameStatus>,
    categories: Option<Seq<DbGameCategory>>,
    tags: Option<Seq<Seq<char>>>,
    platforms: Option<Seq<Seq<char>>>,
    screenshots: Option<Seq<Seq<char>>>,
    now: i64,
) -> Seq<GameView> {
    map_live_row(
        s,
        id,
        |g: GameView|
            patched_row(
                g,
                name,
                description,
                price,
                cover_image,
                trailer_url,
                status,
                categories,
                tags,
                platforms,
                screenshots,
                now,
            ),
    )
}

/// A row after soft deletion.  The row stays in the store for the audit
/// trail; only the deletion stamp changes.
pub open spec fn with_deleted(g: GameView, now: i64) -> GameView {
    GameView { deleted_at: Some(now), ..g }
}

/// The store after the live row carrying `id` was soft-deleted.
pub open spec fn deleted_store(s: Seq<GameView>, id: u128, now: i64) -> Seq<GameView> {
    map_live_row(s, id, |g: GameView| with_deleted(g, now))
}

/// One page of a scan: the ordered matches, windowed by `offset` and
/// `limit`, both clamped to the match count.
pub open spec fn page_of(
    s: Seq<GameView>,
    f: FilterView,
    o: ListOrder,
    limit: int,
    offset: int,
) -> Seq<GameView>
    recommends
        0 <= limit,
        0 <= offset,
{
    let m = ordered(o, live_matches(s, f));
    let lo = if offset > m.len() {
        m.len() as int
    } else {
        offset
    };
    let hi = if offset + limit > m.len() {
        m.len() as int
    } else {
        offset + limit
    };
    m.subrange(lo, hi)
}

/// The durable collection of game rows.
pub struct GameStore {
    rows: Vec<DbGame>,
}

impl View for GameStore {
    type V = Seq<GameView>;

    closed spec fn view(&self) -> Seq<GameView> {
        self.rows.deep_view()
    }
}

impl GameStore {
    /// Well-formedness of the store: every row is well formed and ids are
    /// unique across live and deleted rows alike.
    pub open spec fn wf(self) -> bool {
        &&& forall|i: int| 0 <= i < self@.len() ==> (#[trigger] self@[i]).wf()
        &&& forall|i: int, j: int|
            0 <= i < self@.len() && 0 <= j < self@.len() && i != j ==> self@[i].id != self@[j].id
    }

    /// An empty store.
    pub fn new() -> (r: GameStore)
        ensures
            r@ == Seq::<GameView>::empty(),
            r.wf(),
    {
        let r = GameStore { rows: Vec::new() };
        proof {
            assert(r@ =~= Seq::<GameView>::empty());
        }
        r
    }

    /// The number of rows, deleted rows included.
    pub fn len(&self) -> (r: usize)
        ensures
            r == self@.len(),
    {
        self.rows.len()
    }

    /// Adds a fresh row.  Fails with `Conflict`, leaving the store
    /// unchanged, exactly when some row (live or deleted) already carries
    /// the same id; otherwise appends the row and returns a copy of it.
    pub fn insert(&mut self, row: DbGame) -> (r: Result<DbGame, CatalogError>)
        requires
            old(self).wf(),
            row@.wf(),
        ensures
            final(self).wf(),
            contains_id(old(self)@, row@.id) ==> r == Err::<DbGame, CatalogError>(
                CatalogError::Conflict,
            ) && final(self)@ == old(self)@,
            !contains_id(old(self)@, row@.id) ==> final(self)@ == old(self)@.push(row@) && (
            r matches Ok(g) && g@ == row@),
    {
        let n = self.rows.len();
        let mut i: usize = 0;
        while i < n
            invariant
                self == old(self),
                old(self).wf(),
                n == self.rows@.len(),
                i <= n,
                forall|j: int| 0 <= j < i ==> (#[trigger] self@[j]).id != row@.id,
            decreases n - i,
        {
            if self.rows[i].id == row.id {
                proof {
                    assert(self@[i as int].id == row@.id);
                }
                return Err(CatalogError::Conflict);
            }
            i = i + 1;
        }
        let copy = row.clone();
        proof {
            assert(forall|j: int| 0 <= j < self@.len() ==> (#[trigger] self@[j]).id != row@.id);
        }
        self.rows.push(row);
        proof {
            assert(self@ =~= old(self)@.push(row@));
            assert forall|k: int| 0 <= k < self@.len() implies (#[trigger] self@[k]).wf() by {
                if k < old(self)@.len() {
                    assert(old(self)@[k].wf());
                }
            }
            assert forall|k1: int, k2: int|
                0 <= k1 < self@.len() && 0 <= k2 < self@.len() && k1 != k2 implies self@[k1].id
                != self@[k2].id by {
                let m = old(self)@.len() as int;
                if k1 < m && k2 < m {
                    assert(old(self)@[k1].id != old(self)@[k2].id);
                } else if k1 == m {
                    assert(old(self)@[k2].id != row@.id);
                } else {
                    assert(old(self)@[k1].id != row@.id);
                }
            }
        }
        Ok(copy)
    }

    /// Looks a row up by id, excluding soft-deleted rows.
    pub fn find_by_id(&self, id: u128) -> (r: Option<DbGame>)
        ensures
            r is Some <==> find_live(self@, id) is Some,
            r matches Some(g) ==> find_live(self@, id) == Some(g@),
    {
        let n = self.rows.len();
        let mut i: usize = 0;
        while i < n
            invariant
                n == self.rows@.len(),
                i <= n,
                forall|j: int|
                    0 <= j < i ==> !((#[trigger] self@[j]).is_live() && self@[j].id == id),
            decreases n - i,
        {
            let live = self.rows[i].deleted_at.is_none();
            if live && self.rows[i].id == id {
                let g = self.rows[i].clone();
                proof {
                    lemma_find_live_prefix_match(self@, id, i as int);
                }
                return Some(g);
            }
            i = i + 1;
        }
        proof {
            lemma_find_live_characterized(self@, id);
        }
        None
    }

    /// One logical read: the page of live rows matching the filter, in the
    /// given order and window, together with the true total of matching
    /// live rows ignoring the window.  Page and total are computed from
    /// the same predicate, so they can never disagree.
    pub fn scan(&self, f: &GameFilter, o: ListOrder, limit: usize, offset: usize) -> (r: (
        Vec<DbGame>,
        usize,
    ))
        ensures
            r.1 == live_matches(self@, f@).len(),
            r.0.deep_view() == page_of(self@, f@, o, limit as int, offset as int),
    {
        let n = self.rows.len();
        let mut ms: Vec<DbGame> = Vec::new();
        let mut i: usize = 0;
        while i < n
            invariant
                n == self.rows@.len(),
                i <= n,
                ms.deep_view() == live_matches(self@.subrange(0, i as int), f@),
            decreases n - i,
        {
            let live = self.rows[i].deleted_at.is_none();
            let hit = game_matches(&self.rows[i], f);
            if live && hit {
                let g = self.rows[i].clone();
                ms.push(g);
            }
            i = i + 1;
            proof {
                reveal(Seq::filter);
                let pre = self@.subrange(0, i as int - 1);
                let ext = self@.subrange(0, i as int);
                assert(ext.drop_last() =~= pre);
                assert(ext.last() == self@[i as int - 1]);
                assert(ms.deep_view() =~~= live_matches(ext, f@));
            }
        }
        proof {
            assert(self@.subrange(0, n as int) =~= self@);
        }
        let total = ms.len();

        let mut sorted: Vec<DbGame> = Vec::new();
        let mut k: usize = 0;
        while k < total
            invariant
                total == ms@.len(),
                k <= total,
                sorted@.len() == k,
                sorted.deep_view() == ordered(o, ms.deep_view().subrange(0, k as int)),
            decreases total - k,
        {
            let g = ms[k].clone();
            let ghost gv = g@;
            proof {
                assert(gv == ms.deep_view()[k as int]);
            }
            let slen = sorted.len();
            let mut p: usize = 0;
            while p < slen && !precedes_exec(o, &g, &sorted[p])
                invariant
                    slen == sorted@.len(),
                    p <= slen,
                    gv == g@,
                    forall|q: int|
                        0 <= q < p ==> !precedes(o, gv, #[trigger] sorted.deep_view()[q]),
                decreases slen - p,
            {
                proof {
                    assert(sorted.deep_view()[p as int] == sorted@[p as int]@);
                }
                p = p + 1;
            }
            proof {
                assert(p < slen ==> precedes(o, gv, sorted.deep_view()[p as int]));
            }
            let ghost prev_sorted = sorted.deep_view();
            sorted.insert(p, g);
            k = k + 1;
            proof {
                lemma_insert_ordered_at(o, prev_sorted, gv, p as int);
                assert(sorted.deep_view() =~~= prev_sorted.insert(p as int, gv));
                let pre = ms.deep_view().subrange(0, k as int - 1);
                let ext = ms.deep_view().subrange(0, k as int);
                assert(ext.drop_last() =~= pre);
                assert(ext.last() == ms.deep_view()[k as int - 1]);
                assert(sorted.deep_view() == insert_ordered(o, ordered(o, pre), gv));
                assert(sorted.deep_view() == ordered(o, ext));
            }
        }
        proof {
            assert(ms.deep_view().subrange(0, total as int) =~= ms.deep_view());
        }

        let start = if offset > total {
            total
        } else {
            offset
        };
        let room = total - start;
        let take = if limit > room {
            room
        } else {
            limit
        };
        let end = start + take;
        let mut out: Vec<DbGame> = Vec::new();
        let mut w: usize = start;
        while w < end
            invariant
                end <= sorted@.len(),
                start <= w <= end,
                out.deep_view() == sorted.deep_view().subrange(start as int, w as int),
            decreases end - w,
        {
            let g = sorted[w].clone();
            proof {
                assert(g@ == sorted.deep_view()[w as int]);
            }
            let ghost prev_out = out.deep_view();
            out.push(g);
            w = w + 1;
            proof {
                assert(out.deep_view() =~~= prev_out.push(sorted.deep_view()[w as int - 1]));
                assert(sorted.deep_view().subrange(start as int, w as int) =~= sorted.deep_view()
                    .subrange(start as int, w as int - 1).push(sorted.deep_view()[w as int - 1]));
            }
        }
        proof {
            assert(out.deep_view() == page_of(self@, f@, o, limit as int, offset as int));
        }
        (out, total)
    }

    /// The index of the live row carrying `id`, if any.
    fn find_live_index(&self, id: u128) -> (r: Option<usize>)
        ensures
            r is None ==> find_live(self@, id) is None,
            r matches Some(i) ==> i < self@.len() && self@[i as int].is_live()
                && self@[i as int].id == id && find_live(self@, id) == Some(self@[i as int]),
    {
        let n = self.rows.len();
        let mut i: usize = 0;
        while i < n
            invariant
                n == self.rows@.len(),
                i <= n,
                forall|j: int|
                    0 <= j < i ==> !((#[trigger] self@[j]).is_live() && self@[j].id == id),
            decreases n - i,
        {
            let live = self.rows[i].deleted_at.is_none();
            if live && self.rows[i].id == id {
                proof {
                    lemma_find_live_prefix_match(self@, id, i as int);
                }
                return Some(i);
            }
            i = i + 1;
        }
        proof {
            lemma_find_live_characterized(self@, id);
        }
        None
    }

    /// Applies one rating to the live row carrying `id`, atomically with
    /// respect to the row: the exact sum and the count grow together, so
    /// the mean of record never drifts.  The value is validated before the
    /// row is touched; a saturated counter is a substrate failure.
    pub fn record_rating(&mut self, id: u128, value: u64, now: i64) -> (r: Result<
        (),
        CatalogError,
    >)
        requires
            old(self).wf(),
        ensures
            final(self).wf(),
            value > RATING_MAX_CENTI ==> r == Err::<(), CatalogError>(CatalogError::InvalidArgument)
                && final(self)@ == old(self)@,
            value <= RATING_MAX_CENTI ==> match find_live(old(self)@, id) {
                None => r == Err::<(), CatalogError>(CatalogError::NotFound) && final(self)@ == old(
                    self,
                )@,
                Some(g) => if g.rating_count < u32::MAX {
                    r == Ok::<(), CatalogError>(()) && final(self)@ == rated_store(
                        old(self)@,
                        id,
                        value,
                        now,
                    )
                } else {
                    r == Err::<(), CatalogError>(CatalogError::Internal) && final(self)@ == old(
                        self,
                    )@
                },
            },
    {
        if value > RATING_MAX_CENTI {
            return Err(CatalogError::InvalidArgument);
        }
        match self.find_live_index(id) {
            None => Err(CatalogError::NotFound),
            Some(i) => {
                if self.rows[i].rating_count == u32::MAX {
                    return Err(CatalogError::Internal);
                }
                let mut g = self.rows[i].clone();
                proof {
                    assert(old(self)@[i as int].wf());
                }
                g.rating_count = g.rating_count + 1;
                g.rating_sum = g.rating_sum + value;
                g.updated_at = now;
                self.rows.set(i, g);
                proof {
                    assert(g@ =~= with_rating(old(self)@[i as int], value, now));
                    assert(g@.wf());
                    assert(self@ =~= old(self)@.update(i as int, g@));
                    self.lemma_single_row_update(
                        old(self)@,
                        i as int,
                        id,
                        |x: GameView| with_rating(x, value, now),
                    );
                    assert(self@ =~= rated_store(old(self)@, id, value, now));
                }
                Ok(())
            },
        }
    }

    /// Increments the purchase counter of the live row carrying `id` by
    /// exactly one, atomically with respect to the row.  A saturated
    /// counter is a substrate failure.
    pub fn record_purchase(&mut self, id: u128, now: i64) -> (r: Result<(), CatalogError>)
        requires
            old(self).wf(),
        ensures
            final(self).wf(),
            match find_live(old(self)@, id) {
                None => r == Err::<(), CatalogError>(CatalogError::NotFound) && final(self)@ == old(
                    self,
                )@,
                Some(g) => if g.purchase_count < u64::MAX {
                    r == Ok::<(), CatalogError>(()) && final(self)@ == purchased_store(
                        old(self)@,
                        id,
                        now,
                    )
                } else {
                    r == Err::<(), CatalogError>(CatalogError::Internal) && final(self)@ == old(
                        self,
                    )@
                },
            },
    {
        match self.find_live_index(id) {
            None => Err(CatalogError::NotFound),
            Some(i) => {
                if self.rows[i].purchase_count == u64::MAX {
                    return Err(CatalogError::Internal);
                }
                let mut g = self.rows[i].clone();
                proof {
                    assert(old(self)@[i as int].wf());
                }
                g.purchase_count = g.purchase_count + 1;
                g.updated_at = now;
                self.rows.set(i, g);
                proof {
                    assert(g@ =~= with_purchase(old(self)@[i as int], now));
                    assert(g@.wf());
                    assert(self@ =~= old(self)@.update(i as int, g@));
                    self.lemma_single_row_update(
                        old(self)@,
                        i as int,
                        id,
                        |x: GameView| with_purchase(x, now),
                    );
                    assert(self@ =~= purchased_store(old(self)@, id, now));
                }
                Ok(())
            },
        }
    }

    /// Appends a screenshot URL to the live row carrying `id`; duplicates
    /// are kept by design.
    pub fn append_screenshot(&mut self, id: u128, url: String, now: i64) -> (r: Result<
        (),
        CatalogError,
    >)
        requires
            old(self).wf(),
        ensures
            final(self).wf(),
            find_live(old(self)@, id) is None ==> r == Err::<(), CatalogError>(
                CatalogError::NotFound,
            ) && final(self)@ == old(self)@,
            find_live(old(self)@, id) is Some ==> r == Ok::<(), CatalogError>(()) && final(self)@
                == screenshot_appended_store(old(self)@, id, url@, now),
    {
        match self.find_live_index(id) {
            None => Err(CatalogError::NotFound),
            Some(i) => {
                let mut g = self.rows[i].clone();
                proof {
                    assert(old(self)@[i as int].wf());
                }
                g.screenshots.push(url);
                g.updated_at = now;
                proof {
                    assert(g@.screenshots =~= old(self)@[i as int].screenshots.push(url@));
                    assert(g@ =~= with_screenshot_appended(old(self)@[i as int], url@, now));
                }
                self.rows.set(i, g);
                proof {
                    assert(g@.wf());
                    assert(self@ =~= old(self)@.update(i as int, g@));
                    self.lemma_single_row_update(
                        old(self)@,
                        i as int,
                        id,
                        |x: GameView| with_screenshot_appended(x, url@, now),
                    );
                    assert(self@ =~= screenshot_appended_store(old(self)@, id, url@, now));
                }
                Ok(())
            },
        }
    }

    /// Removes every occurrence of a screenshot URL from the live row
    /// carrying `id`.  Removing an absent URL is a no-op success: the
    /// sequence keeps its content, though `updated_at` still advances.
    pub fn remove_screenshot(&mut self, id: u128, url: &String, now: i64) -> (r: Result<
        (),
        CatalogError,
    >)
        requires
            old(self).wf(),
        ensures
            final(self).wf(),
            find_live(old(self)@, id) is None ==> r == Err::<(), CatalogError>(
                CatalogError::NotFound,
            ) && final(self)@ == old(self)@,
            find_live(old(self)@, id) is Some ==> r == Ok::<(), CatalogError>(()) && final(self)@
                == screenshot_removed_store(old(self)@, id, url@, now),
    {
        match self.find_live_index(id) {
            None => Err(CatalogError::NotFound),
            Some(i) => {
                let mut g = self.rows[i].clone();
                proof {
                    assert(old(self)@[i as int].wf());
                }
                let mut kept: Vec<String> = Vec::new();
                let m = g.screenshots.len();
                let mut j: usize = 0;
                while j < m
                    invariant
                        m == g.screenshots@.len(),
                        j <= m,
                        kept.deep_view() == g.screenshots.deep_view().subrange(0, j as int).filter(
                            |s: Seq<char>| s != url@,
                        ),
                    decreases m - j,
                {
                    let keep = !string_eq(&g.screenshots[j], url);
                    proof {
                        reveal(Seq::filter);
                        let pred = |s: Seq<char>| s != url@;
                        let prefix = g.screenshots.deep_view().subrange(0, j as int);
                        let ext = g.screenshots.deep_view().subrange(0, j as int + 1);
                        assert(ext.drop_last() =~= prefix);
                        assert(ext.last() == g.screenshots@[j as int]@);
                    }
                    if keep {
                        let s = g.screenshots[j].clone();
                        kept.push(s);
                    }
                    j = j + 1;
                    proof {
                        reveal(Seq::filter);
                        assert(kept.deep_view() =~~= g.screenshots.deep_view().subrange(
                            0,
                            j as int,
                        ).filter(|s: Seq<char>| s != url@));
                    }
                }
                proof {
                    assert(g.screenshots.deep_view().subrange(0, m as int) =~= g
                        .screenshots
                        .deep_view());
                }
                g.screenshots = kept;
                g.updated_at = now;
                proof {
                    assert(g@ =~= with_screenshot_removed(old(self)@[i as int], url@, now));
                }
                self.rows.set(i, g);
                proof {
                    assert(g@.wf());
                    assert(self@ =~= old(self)@.update(i as int, g@));
                    self.lemma_single_row_update(
                        old(self)@,
                        i as int,
                        id,
                        |x: GameView| with_screenshot_removed(x, url@, now),
                    );
                    assert(self@ =~= screenshot_removed_store(old(self)@, id, url@, now));
                }
                Ok(())
            },
        }
    }

    /// Patches the live row carrying `id` with field-level coalesce
    /// semantics and returns the post-state atomically; fails with
    /// `NotFound`, leaving the store unchanged, when no live row matches.
    #[verifier::rlimit(30)]
    pub fn apply_patch(
        &mut self,
        id: u128,
        name: Option<String>,
        description: Option<String>,
        price: Option<i64>,
        cover_image: Option<String>,
        trailer_url: Option<String>,
        status: Option<DbGameStatus>,
        categories: Option<Vec<DbGameCategory>>,
        tags: Option<Vec<String>>,
        platforms: Option<Vec<String>>,
        screenshots: Option<Vec<String>>,
        now: i64,
    ) -> (r: Result<DbGame, CatalogError>)
        requires
            old(self).wf(),
            price matches Some(p) ==> p >= 0,
            status matches Some(st) ==> st != DbGameStatus::Unspecified,
            categories matches Some(c) ==> c@.len() >= 1 && (forall|i: int|
                0 <= i < c@.len() ==> c@[i] != DbGameCategory::Unspecified),
        ensures
            final(self).wf(),
            find_live(old(self)@, id) is None ==> r == Err::<DbGame, CatalogError>(
                CatalogError::NotFound,
            ) && final(self)@ == old(self)@,
            find_live(old(self)@, id) matches Some(g0) ==> {
                &&& final(self)@ == patched_store(
                    old(self)@,
                    id,
                    name.deep_view(),
                    description.deep_view(),
                    price,
                    cover_image.deep_view(),
                    trailer_url.deep_view(),
                    status,
                    opt_categories_view(categories),
                    tags.deep_view(),
                    platforms.deep_view(),
                    screenshots.deep_view(),
                    now,
                )
                &&& r matches Ok(g) && g@ == patched_row(
                    g0,
                    name.deep_view(),
                    description.deep_view(),
                    price,
                    cover_image.deep_view(),
                    trailer_url.deep_view(),
                    status,
                    opt_categories_view(categories),
                    tags.deep_view(),
                    platforms.deep_view(),
                    screenshots.deep_view(),
                    now,
                )
            },
    {
        let ghost nv = name.deep_view();
        let ghost dv = description.deep_view();
        let ghost cv = cover_image.deep_view();
        let ghost uv = trailer_url.deep_view();
        let ghost catv = opt_categories_view(categories);
        let ghost tv = tags.deep_view();
        let ghost pv = platforms.deep_view();
        let ghost sv = screenshots.deep_view();
        match self.find_live_index(id) {
            None => Err(CatalogError::NotFound),
            Some(i) => {
                let mut g = self.rows[i].clone();
                proof {
                    assert(old(self)@[i as int].wf());
                }
                match name {
                    Some(v) => { g.name = v },
                    None => {},
                }
                match description {
                    Some(v) => { g.description = v },
                    None => {},
                }
                match price {
                    Some(v) => { g.price = v },
                    None => {},
                }
                match cover_image {
                    Some(v) => { g.cover_image = v },
                    None => {},
                }
                match trailer_url {
                    Some(v) => { g.trailer_url = Some(v) },
                    None => {},
                }
                match status {
                    Some(v) => { g.status = v },
                    None => {},
                }
                match categories {
                    Some(v) => { g.categories = v },
                    None => {},
                }
                match tags {
                    Some(v) => { g.tags = v },
                    None => {},
                }
                match platforms {
                    Some(v) => { g.platforms = v },
                    None => {},
                }
                match screenshots {
                    Some(v) => { g.screenshots = v },
                    None => {},
                }
                g.updated_at = now;
                proof {
                    assert(g@ =~= patched_row(
                        old(self)@[i as int],
                        nv,
                        dv,
                        price,
                        cv,
                        uv,
                        status,
                        catv,
                        tv,
                        pv,
                        sv,
                        now,
                    ));
                    assert(g@.wf());
                }
                let out = g.clone();
                self.rows.set(i, g);
                proof {
                    assert(self@ =~= old(self)@.update(i as int, g@));
                    self.lemma_single_row_update(
                        old(self)@,
                        i as int,
                        id,
                        |x: GameView|
                            patched_row(x, nv, dv, price, cv, uv, status, catv, tv, pv, sv, now),
                    );
                    assert(self@ =~= patched_store(
                        old(self)@,
                        id,
                        nv,
                        dv,
                        price,
                        cv,
                        uv,
                        status,
                        catv,
                        tv,
                        pv,
                        sv,
                        now,
                    ));
                }
                Ok(out)
            },
        }
    }

    /// Soft-deletes the live row matching both `id` and the requesting
    /// owner, stamping `deleted_at`; returns `false`, not an error, when no
    /// live row matches both.  A caller cannot tell "wrong owner" from
    /// "not found" here; that ambiguity is deliberate.
    pub fn soft_delete(&mut self, id: u128, requester_owner_id: u128, now: i64) -> (r: bool)
        requires
            old(self).wf(),
        ensures
            final(self).wf(),
            r == (find_live(old(self)@, id) matches Some(g) && g.developer_id
                == requester_owner_id),
            r ==> final(self)@ == deleted_store(old(self)@, id, now),
            !r ==> final(self)@ == old(self)@,
    {
        match self.find_live_index(id) {
            None => false,
            Some(i) => {
                if self.rows[i].developer_id != requester_owner_id {
                    return false;
                }
                let mut g = self.rows[i].clone();
                proof {
                    assert(old(self)@[i as int].wf());
                }
                g.deleted_at = Some(now);
                self.rows.set(i, g);
                proof {
                    assert(g@ =~= with_deleted(old(self)@[i as int], now));
                    assert(g@.wf());
                    assert(self@ =~= old(self)@.update(i as int, g@));
                    self.lemma_single_row_update(
                        old(self)@,
                        i as int,
                        id,
                        |x: GameView| with_deleted(x, now),
                    );
                    assert(self@ =~= deleted_store(old(self)@, id, now));
                }
                true
            },
        }
    }

    /// After replacing the single live row carrying `id` at index `i` by
    /// `f` of it, the store's value is `map_live_row` of the old value, and
    /// the store stays well formed when the new row is.
    proof fn lemma_single_row_update(
        &self,
        prev: Seq<GameView>,
        i: int,
        id: u128,
        f: spec_fn(GameView) -> GameView,
    )
        requires
            0 <= i < prev.len(),
            prev[i].is_live(),
            prev[i].id == id,
            forall|k: int| 0 <= k < prev.len() ==> (#[trigger] prev[k]).wf(),
            forall|k1: int, k2: int|
                0 <= k1 < prev.len() && 0 <= k2 < prev.len() && k1 != k2 ==> prev[k1].id
                    != prev[k2].id,
            self@ == prev.update(i, f(prev[i])),
            f(prev[i]).wf(),
            f(prev[i]).id == id,
        ensures
            self@ =~= map_live_row(prev, id, f),
            self.wf(),
    {
        assert forall|k: int| 0 <= k < prev.len() implies self@[k] == map_live_row(prev, id, f)[k]
            by {
            if k != i {
                assert(prev[k].id != prev[i].id);
            }
        }
        assert forall|k: int| 0 <= k < self@.len() implies (#[trigger] self@[k]).wf() by {
            if k != i {
                assert(prev[k].wf());
            }
        }
        assert forall|k1: int, k2: int|
            0 <= k1 < self@.len() && 0 <= k2 < self@.len() && k1 != k2 implies self@[k1].id
            != self@[k2].id by {
            assert(self@[k1].id == prev[k1].id);
            assert(self@[k2].id == prev[k2].id);
        }
    }
}

/// Character-for-character equality of two strings.
pub fn string_eq(a: &String, b: &String) -> (r: bool)
    ensures
        r == (a@ == b@),
{
    a.eq(b)
}

/// If every index before `k` fails the live-and-id test and `k` passes it,
/// `find_live` returns the row at `k`.
pub proof fn lemma_find_live_prefix_match(s: Seq<GameView>, id: u128, k: int)
    requires
        0 <= k < s.len(),
        s[k].is_live() && s[k].id == id,
        forall|j: int| 0 <= j < k ==> !(#[trigger] s[j].is_live() && s[j].id == id),
    ensures
        find_live(s, id) == Some(s[k]),
    decreases s.len(),
{
    if k == 0 {
    } else {
        assert(!(s[0].is_live() && s[0].id == id));
        let rest = s.drop_first();
        assert(rest[k - 1] == s[k]);
        assert(forall|j: int| 0 <= j < k - 1 ==> rest[j] == s[j + 1]);
        lemma_find_live_prefix_match(rest, id, k - 1);
    }
}

} // verus!
