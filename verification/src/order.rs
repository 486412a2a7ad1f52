//! Result ordering for catalog scans.
//!
//! Two modes exist: the default orders by creation time, most recent first;
//! the popularity mode (used by the category-browse and popularity views)
//! orders by the exact average rating descending, then the purchase count
//! descending.  Both modes break every remaining tie by id, so the order
//! is deterministic and page boundaries are stable.
//!
//! The canonical ordered sequence is defined by insertion (`ordered`), and
//! the executable sort is proved to produce exactly that sequence.

use vstd::prelude::*;

use crate::game::DbGame;
use crate::game::GameView;

verus! {

/// The ordering mode of a scan.
#[derive(Clone, Copy, Debug, PartialEq, Eq, Structural)]
pub enum ListOrder {
    /// `created_at` descending, ties broken by id ascending.
    RecentFirst,
    /// Average rating descending, then purchase count descending, ties
    /// broken by id ascending.
    PopularFirst,
}

/// Numerator of the exact average rating of a row.
pub open spec fn avg_num(g: GameView) -> int {
    g.rating_sum as int
}

/// Denominator of the exact average rating of a row; 1 while no rating was
/// applied, so an unrated row averages zero.
pub open spec fn avg_den(g: GameView) -> int {
    if g.rating_count == 0 {
        1int
    } else {
        g.rating_count as int
    }
}

/// Strict precedence of `a` over `b` in the given mode.  Comparing the two
/// exact averages `num/den` cross-multiplies, so no precision is lost.
pub open spec fn precedes(o: ListOrder, a: GameView, b: GameView) -> bool {
    match o {
        ListOrder::RecentFirst => a.created_at > b.created_at || (a.created_at == b.created_at
            && a.id < b.id),
        ListOrder::PopularFirst => {
            let ax = avg_num(a) * avg_den(b);
            let bx = avg_num(b) * avg_den(a);
            ax > bx || (ax == bx && (a.purchase_count > b.purchase_count || (a.purchase_count
                == b.purchase_count && a.id < b.id)))
        },
    }
}

/// `g` inserted into `s` directly before the first element it precedes.
pub open spec fn insert_ordered(o: ListOrder, s: Seq<GameView>, g: GameView) -> Seq<GameView>
    decreases s.len(),
{
    if s.len() == 0 {
        seq![g]
    } else if precedes(o, g, s[0]) {
        seq![g] + s
    } else {
        seq![s[0]] + insert_ordered(o, s.drop_first(), g)
    }
}

/// The canonical ordered arrangement of `s`: each element, in order,
/// inserted into the arrangement of the elements before it.
pub open spec fn ordered(o: ListOrder, s: Seq<GameView>) -> Seq<GameView>
    decreases s.len(),
{
    if s.len() == 0 {
        Seq::empty()
    } else {
        insert_ordered(o, ordered(o, s.drop_last()), s.last())
    }
}

/// When every element before position `j` does not come after `g` and the
/// element at `j` (if any) does, insertion puts `g` exactly at `j`.
pub proof fn lemma_insert_ordered_at(o: ListOrder, s: Seq<GameView>, g: GameView, j: int)
    requires
        0 <= j <= s.len(),
        forall|k: int| 0 <= k < j ==> !precedes(o, g, #[trigger] s[k]),
        j < s.len() ==> precedes(o, g, s[j]),
    ensures
        insert_ordered(o, s, g) == s.insert(j, g),
    decreases s.len(),
{
    if s.len() == 0 {
        assert(insert_ordered(o, s, g) =~= s.insert(0, g));
    } else if j == 0 {
        assert(insert_ordered(o, s, g) =~= s.insert(0, g));
    } else {
        assert(!precedes(o, g, s[0]));
        let rest = s.drop_first();
        assert(forall|k: int| 0 <= k < j - 1 ==> !precedes(o, g, #[trigger] rest[k]));
        lemma_insert_ordered_at(o, rest, g, j - 1);
        assert(insert_ordered(o, s, g) =~= s.insert(j, g));
    }
}

/// Inserting a row keeps the length and the multiset of rows.
pub proof fn lemma_insert_ordered_multiset(o: ListOrder, s: Seq<GameView>, g: GameView)
    ensures
        insert_ordered(o, s, g).len() == s.len() + 1,
        insert_ordered(o, s, g).to_multiset() == s.to_multiset().insert(g),
    decreases s.len(),
{
    broadcast use vstd::seq_lib::group_to_multiset_ensures;
    broadcast use vstd::multiset::group_multiset_axioms;

    if s.len() == 0 {
        assert(insert_ordered(o, s, g) =~= Seq::empty().push(g));
        assert(insert_ordered(o, s, g).to_multiset() =~= s.to_multiset().insert(g));
    } else if precedes(o, g, s[0]) {
        vstd::seq_lib::lemma_multiset_commutative(seq![g], s);
        assert(seq![g] =~= Seq::empty().push(g));
        assert(insert_ordered(o, s, g).to_multiset() =~= s.to_multiset().insert(g));
    } else {
        let rest = s.drop_first();
        lemma_insert_ordered_multiset(o, rest, g);
        let inner = insert_ordered(o, rest, g);
        vstd::seq_lib::lemma_multiset_commutative(seq![s[0]], inner);
        vstd::seq_lib::lemma_multiset_commutative(seq![s[0]], rest);
        assert(s =~= seq![s[0]] + rest);
        assert(seq![s[0]] =~= Seq::empty().push(s[0]));
        assert(insert_ordered(o, s, g).to_multiset() =~= s.to_multiset().insert(g));
    }
}

/// Ordering a sequence keeps its length and its multiset of rows: the
/// arrangement is a permutation, with no duplicates and no omissions.
pub proof fn lemma_ordered_multiset(o: ListOrder, s: Seq<GameView>)
    ensures
        ordered(o, s).len() == s.len(),
        ordered(o, s).to_multiset() == s.to_multiset(),
    decreases s.len(),
{
    broadcast use vstd::seq_lib::group_to_multiset_ensures;

    if s.len() > 0 {
        let prefix = s.drop_last();
        lemma_ordered_multiset(o, prefix);
        lemma_insert_ordered_multiset(o, ordered(o, prefix), s.last());
        assert(s =~= prefix.push(s.last()));
        assert(ordered(o, s).to_multiset() =~= s.to_multiset());
    }
}

/// No row of an arrangement strictly precedes an earlier row.
pub open spec fn sorted_rows(o: ListOrder, m: Seq<GameView>) -> bool {
    forall|i: int, j: int| 0 <= i < j < m.len() ==> !precedes(o, m[j], m[i])
}

/// Fraction comparison is transitive: `a/b > c/d` and `c/d > e/f` give
/// `a/f > e/b` in cross-multiplied form.
proof fn lemma_frac_gt_trans(
    an: int,
    ad: int,
    bn: int,
    bd: int,
    cn: int,
    cd: int,
) by (nonlinear_arith)
    requires
        ad >= 1,
        bd >= 1,
        cd >= 1,
        an * bd > bn * ad,
        bn * cd > cn * bd,
    ensures
        an * cd > cn * ad,
{
}

/// A strict fraction comparison survives replacing one side by an equal
/// fraction.
proof fn lemma_frac_gt_eq_trans(
    an: int,
    ad: int,
    bn: int,
    bd: int,
    cn: int,
    cd: int,
) by (nonlinear_arith)
    requires
        ad >= 1,
        bd >= 1,
        cd >= 1,
        an * bd > bn * ad,
        bn * cd == cn * bd,
    ensures
        an * cd > cn * ad,
{
}

/// A strict fraction comparison survives replacing the other side by an
/// equal fraction.
proof fn lemma_frac_eq_gt_trans(
    an: int,
    ad: int,
    bn: int,
    bd: int,
    cn: int,
    cd: int,
) by (nonlinear_arith)
    requires
        ad >= 1,
        bd >= 1,
        cd >= 1,
        an * bd == bn * ad,
        bn * cd > cn * bd,
    ensures
        an * cd > cn * ad,
{
}

/// Fraction equality is transitive in cross-multiplied form.
proof fn lemma_frac_eq_trans(
    an: int,
    ad: int,
    bn: int,
    bd: int,
    cn: int,
    cd: int,
) by (nonlinear_arith)
    requires
        ad >= 1,
        bd >= 1,
        cd >= 1,
        an * bd == bn * ad,
        bn * cd == cn * bd,
    ensures
        an * cd == cn * ad,
{
}

/// Precedence is transitive in both modes.
pub proof fn lemma_precedes_transitive(o: ListOrder, a: GameView, b: GameView, c: GameView)
    requires
        precedes(o, a, b),
        precedes(o, b, c),
    ensures
        precedes(o, a, c),
{
    match o {
        ListOrder::RecentFirst => {},
        ListOrder::PopularFirst => {
            let an = avg_num(a);
            let ad = avg_den(a);
            let bn = avg_num(b);
            let bd = avg_den(b);
            let cn = avg_num(c);
            let cd = avg_den(c);
            if an * bd > bn * ad {
                if bn * cd > cn * bd {
                    lemma_frac_gt_trans(an, ad, bn, bd, cn, cd);
                } else {
                    lemma_frac_gt_eq_trans(an, ad, bn, bd, cn, cd);
                }
            } else {
                if bn * cd > cn * bd {
                    lemma_frac_eq_gt_trans(an, ad, bn, bd, cn, cd);
                } else {
                    lemma_frac_eq_trans(an, ad, bn, bd, cn, cd);
                }
            }
        },
    }
}

/// Inserting into a sorted arrangement keeps it sorted.
proof fn lemma_insert_ordered_sorted(o: ListOrder, s: Seq<GameView>, g: GameView)
    requires
        sorted_rows(o, s),
    ensures
        sorted_rows(o, insert_ordered(o, s, g)),
    decreases s.len(),
{
    broadcast use vstd::seq_lib::group_to_multiset_ensures;
    broadcast use vstd::multiset::group_multiset_axioms;

    if s.len() == 0 {
    } else if precedes(o, g, s[0]) {
        let out = insert_ordered(o, s, g);
        assert(out =~= seq![g] + s);
        assert forall|i: int, j: int| 0 <= i < j < out.len() implies !precedes(
            o,
            out[j],
            out[i],
        ) by {
            if i == 0 {
                // Were a later row before `g`, it would also be before
                // `s[0]`, against sortedness of `s`.
                if precedes(o, out[j], g) {
                    lemma_precedes_transitive(o, out[j], g, s[0]);
                    if j >= 2 {
                        assert(precedes(o, s[j - 1], s[0]));
                    }
                }
            } else {
                assert(out[i] == s[i - 1] && out[j] == s[j - 1]);
            }
        }
    } else {
        let rest = s.drop_first();
        assert(forall|k: int| 0 <= k < rest.len() ==> rest[k] == s[k + 1]);
        lemma_insert_ordered_sorted(o, rest, g);
        let inner = insert_ordered(o, rest, g);
        lemma_insert_ordered_multiset(o, rest, g);
        let out = insert_ordered(o, s, g);
        assert(out =~= seq![s[0]] + inner);
        assert forall|i: int, j: int| 0 <= i < j < out.len() implies !precedes(
            o,
            out[j],
            out[i],
        ) by {
            if i == 0 {
                let e = inner[j - 1];
                assert(inner.contains(e));
                assert(inner.to_multiset().count(e) > 0);
                if e == g {
                    assert(!precedes(o, g, s[0]));
                } else {
                    assert(rest.to_multiset().count(e) > 0);
                    assert(rest.contains(e));
                    let k = choose|k: int| 0 <= k < rest.len() && rest[k] == e;
                    assert(!precedes(o, s[k + 1], s[0]));
                }
            } else {
                assert(out[i] == inner[i - 1] && out[j] == inner[j - 1]);
            }
        }
    }
}

/// The canonical arrangement is sorted: in the default mode most recent
/// first, in the popularity mode best average first, then most purchased,
/// every tie broken by id.
pub proof fn lemma_ordered_sorted(o: ListOrder, s: Seq<GameView>)
    ensures
        sorted_rows(o, ordered(o, s)),
    decreases s.len(),
{
    if s.len() > 0 {
        lemma_ordered_sorted(o, s.drop_last());
        lemma_insert_ordered_sorted(o, ordered(o, s.drop_last()), s.last());
    }
}

/// Decides strict precedence of `a` over `b` in the given mode.
pub fn precedes_exec(o: ListOrder, a: &DbGame, b: &DbGame) -> (r: bool)
    ensures
        r == precedes(o, a@, b@),
{
    match o {
        ListOrder::RecentFirst => a.created_at > b.created_at || (a.created_at == b.created_at
            && a.id < b.id),
        ListOrder::PopularFirst => {
            let da: u128 = if a.rating_count == 0 {
                1
            } else {
                a.rating_count as u128
            };
            let db: u128 = if b.rating_count == 0 {
                1
            } else {
                b.rating_count as u128
            };
            proof {
                lemma_cross_product_bounded(a.rating_sum as int, db as int);
                lemma_cross_product_bounded(b.rating_sum as int, da as int);
            }
            let ax: u128 = (a.rating_sum as u128) * db;
            let bx: u128 = (b.rating_sum as u128) * da;
            ax > bx || (ax == bx && (a.purchase_count > b.purchase_count || (a.purchase_count
                == b.purchase_count && a.id < b.id)))
        },
    }
}

/// A rating sum times a rating count fits comfortably in 128 bits.
proof fn lemma_cross_product_bounded(x: int, y: int) by (nonlinear_arith)
    requires
        0 <= x <= u64::MAX,
        0 <= y <= u32::MAX,
    ensures
        x * y <= u64::MAX * u32::MAX,
{
}

} // verus!
