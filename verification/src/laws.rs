//! The ordering guarantees of the engine, stated and proved once and for
//! all over the specification functions that the executable contracts use.

use vstd::prelude::*;

use crate::assign::base_of;
use crate::assign::depth_of;
use crate::assign::key_of;
use crate::assign::order_before;
use crate::assign::participant_count;
use crate::assign::participates;
use crate::assign::rank;
use crate::assign::lemma_rank_below_count;
use crate::assign::lemma_rank_strict_mono;
use crate::depth::RenderZCoordinate;
use crate::depth::z_lt;
use crate::depth::lemma_z_lt_by_base;
use crate::depth::lemma_z_lt_same_base;
use crate::layer::LayerIndex;
use crate::scene::Node;
use crate::scene::resolved_layer;
use crate::scene::scene_ordered;
use crate::frame::eff_seq;
use crate::frame::stale_ids;
use crate::frame::write_ids;
use crate::frame::writes_spec;
use crate::frame::writes_upto;
use crate::frame::written;
use crate::frame::ys_seq;

verus! {

/// Every assigned depth is well formed: its fractional offset lies in
/// `[0, 1)`, so the depth is a finite rational in `[base, base + 1)` —
/// in particular, a layer with exactly one object still gets a depth with
/// a positive denominator, never a division by zero.
pub proof fn lemma_depth_wf<L: LayerIndex>(
    ls: Seq<Option<L>>,
    ys: Seq<Option<i64>>,
    n: int,
    y_sort: bool,
)
    requires
        ls.len() <= usize::MAX,
        participates(ls, n),
    ensures
        depth_of(ls, ys, n, y_sort) is Some,
        depth_of(ls, ys, n, y_sort).unwrap().wf(),
        depth_of(ls, ys, n, y_sort).unwrap().base == base_of(ls, n),
{
    lemma_rank_below_count(ls, ys, n, ls.len() as int);
}

/// Layer ordering: an object on a layer with a smaller base depth ends up
/// strictly below an object on a layer with a larger one, whatever the two
/// objects' positions and whether or not y-sorting is enabled. The
/// fractional offsets lie in `[0, 1)` and base depths are whole numbers,
/// so the offsets can never bridge the gap between two distinct layers.
pub proof fn lemma_layer_ordering<L: LayerIndex>(
    ls: Seq<Option<L>>,
    ys: Seq<Option<i64>>,
    a: int,
    b: int,
    y_sort: bool,
)
    requires
        ls.len() <= usize::MAX,
        participates(ls, a),
        participates(ls, b),
        i64::MIN <= ls[a].unwrap().z_value() <= i64::MAX,
        i64::MIN <= ls[b].unwrap().z_value() <= i64::MAX,
        ls[a].unwrap().z_value() < ls[b].unwrap().z_value(),
    ensures
        z_lt(depth_of(ls, ys, a, y_sort).unwrap(), depth_of(ls, ys, b, y_sort).unwrap()),
{
    lemma_depth_wf(ls, ys, a, y_sort);
    lemma_depth_wf(ls, ys, b, y_sort);
    lemma_z_lt_by_base(depth_of(ls, ys, a, y_sort).unwrap(), depth_of(ls, ys, b, y_sort).unwrap());
}

/// Objects on the same layer are ordered by their rank in the y-sorted
/// order: whichever is ordered strictly before the other gets the strictly
/// smaller depth.
proof fn lemma_same_layer_rank_order<L: LayerIndex>(
    ls: Seq<Option<L>>,
    ys: Seq<Option<i64>>,
    a: int,
    b: int,
)
    requires
        ls.len() <= usize::MAX,
        participates(ls, a),
        participates(ls, b),
        base_of(ls, a) == base_of(ls, b),
        order_before(ls, ys, a, b),
    ensures
        z_lt(depth_of(ls, ys, a, true).unwrap(), depth_of(ls, ys, b, true).unwrap()),
{
    lemma_depth_wf(ls, ys, a, true);
    lemma_depth_wf(ls, ys, b, true);
    lemma_rank_below_count(ls, ys, a, ls.len() as int);
    lemma_rank_below_count(ls, ys, b, ls.len() as int);
    lemma_rank_strict_mono(ls, ys, a, b, ls.len() as int);
    let da = depth_of(ls, ys, a, true).unwrap();
    let db = depth_of(ls, ys, b, true).unwrap();
    lemma_z_lt_same_base(da, db);
    vstd::arithmetic::mul::lemma_mul_strict_inequality(
        da.num as int,
        db.num as int,
        da.den as int,
    );
}

/// Y-sort monotonicity, enabled case: within one layer, the object whose
/// sort key comes first — the one with the *higher* vertical position,
/// by the fixed convention of [`crate::depth::ZIndexSortKey`] — gets the
/// strictly smaller depth, so objects lower on the screen draw in front.
pub proof fn lemma_y_sort_monotone<L: LayerIndex>(
    ls: Seq<Option<L>>,
    ys: Seq<Option<i64>>,
    a: int,
    b: int,
)
    requires
        ls.len() <= usize::MAX,
        participates(ls, a),
        participates(ls, b),
        base_of(ls, a) == base_of(ls, b),
        key_of(ys, a).precedes(key_of(ys, b)),
    ensures
        z_lt(depth_of(ls, ys, a, true).unwrap(), depth_of(ls, ys, b, true).unwrap()),
{
    lemma_same_layer_rank_order(ls, ys, a, b);
}

/// Y-sort monotonicity, disabled case: every object gets exactly its
/// layer's base depth, so all objects of one layer tie.
pub proof fn lemma_y_sort_disabled_flattens<L: LayerIndex>(
    ls: Seq<Option<L>>,
    ys: Seq<Option<i64>>,
    n: int,
)
    requires
        participates(ls, n),
    ensures
        depth_of(ls, ys, n, false) == Some(
            RenderZCoordinate { base: base_of(ls, n), num: 0, den: 1 },
        ),
{
}

/// Equivalence of the depth order and the position order: within one
/// layer, sorting by assigned depth and sorting by position (higher
/// positions first, ties broken by arena index) are the same order.
pub proof fn lemma_depth_order_matches_key_order<L: LayerIndex>(
    ls: Seq<Option<L>>,
    ys: Seq<Option<i64>>,
    a: int,
    b: int,
)
    requires
        ls.len() <= usize::MAX,
        participates(ls, a),
        participates(ls, b),
        base_of(ls, a) == base_of(ls, b),
        a != b,
    ensures
        z_lt(depth_of(ls, ys, a, true).unwrap(), depth_of(ls, ys, b, true).unwrap())
            <==> order_before(ls, ys, a, b),
{
    if order_before(ls, ys, a, b) {
        lemma_same_layer_rank_order(ls, ys, a, b);
    } else {
        // The order is total: since the keys are integers and `a != b`,
        // one of the two objects is ordered strictly before the other.
        assert(order_before(ls, ys, b, a));
        lemma_same_layer_rank_order(ls, ys, b, a);
    }
}

/// Inheritance, one step: an object with no explicit layer resolves to
/// whatever its parent resolves to.
pub proof fn lemma_inheritance_step<L: LayerIndex>(s: Seq<Node<L>>, c: int)
    requires
        scene_ordered(s),
        0 <= c < s.len(),
        s[c].layer is None,
        s[c].parent is Some,
    ensures
        resolved_layer(s, c) == resolved_layer(s, s[c].parent.unwrap() as int),
{
}

/// Inheritance, transitively: along any parent chain in which every object
/// below the head lacks an explicit layer, the last object resolves to
/// exactly what the head resolves to — a layer passes unchanged through
/// any number of intermediate objects, including ones with no transform.
pub proof fn lemma_inheritance_chain<L: LayerIndex>(s: Seq<Node<L>>, chain: Seq<int>)
    requires
        scene_ordered(s),
        chain.len() >= 1,
        0 <= chain[0] < s.len(),
        forall|i: int|
            1 <= i < chain.len() ==> 0 <= #[trigger] chain[i] < s.len() && s[chain[i]].layer
                is None && s[chain[i]].parent is Some && s[chain[i]].parent.unwrap() as int
                == chain[i - 1],
    ensures
        resolved_layer(s, chain.last()) == resolved_layer(s, chain[0]),
    decreases chain.len(),
{
    if chain.len() > 1 {
        let k = chain.len() - 1;
        lemma_inheritance_step(s, chain[k as int]);
        let front = chain.drop_last();
        assert forall|i: int|
            1 <= i < front.len() implies 0 <= #[trigger] front[i] < s.len()
            && s[front[i]].layer is None && s[front[i]].parent is Some
            && s[front[i]].parent.unwrap() as int == front[i - 1] by {
            assert(front[i] == chain[i]);
            assert(front[i - 1] == chain[i - 1]);
        }
        lemma_inheritance_chain(s, front);
        assert(front.last() == chain[k as int - 1]);
    }
}

/// Everything a filter keeps comes from the source sequence.
proof fn lemma_filter_member_of_source(s: Seq<u64>, pred: spec_fn(u64) -> bool, x: u64)
    requires
        s.filter(pred).contains(x),
    ensures
        s.contains(x),
    decreases s.len(),
{
    reveal(Seq::filter);
    if s.len() > 0 {
        if x == s.last() {
            assert(s[s.len() - 1] == x);
        } else {
            assert(s.drop_last().filter(pred).contains(x));
            lemma_filter_member_of_source(s.drop_last(), pred, x);
            let i = choose|i: int| 0 <= i < s.drop_last().len() && s.drop_last()[i] == x;
            assert(s[i] == x);
        }
    }
}

/// Cleared state: an object is reset to the neutral baseline exactly when
/// the engine wrote its depth last frame and does not write it this frame
/// — so no stale depth survives on an object that loses its layer, and no
/// object that still participates is reset.
pub proof fn lemma_cleared_iff_stale(prev: Seq<u64>, current: Seq<u64>, id: u64)
    ensures
        stale_ids(prev, current).contains(id) <==> (prev.contains(id) && !current.contains(id)),
{
    let pred = |x: u64| !current.contains(x);
    if stale_ids(prev, current).contains(id) {
        let i = choose|i: int|
            0 <= i < prev.filter(pred).len() && prev.filter(pred)[i] == id;
        prev.lemma_filter_pred(pred, i);
        lemma_filter_member_of_source(prev, pred, id);
    }
    if prev.contains(id) && !current.contains(id) {
        let i = choose|i: int| 0 <= i < prev.len() && prev[i] == id;
        prev.lemma_filter_contains(pred, i);
    }
}

/// A filter that rejects nothing present in `current` keeps nothing when
/// every element of `prev` occurs in `current`.
proof fn lemma_stale_ids_none(prev: Seq<u64>, current: Seq<u64>)
    requires
        forall|i: int| 0 <= i < prev.len() ==> current.contains(#[trigger] prev[i]),
    ensures
        stale_ids(prev, current) =~= Seq::<u64>::empty(),
    decreases prev.len(),
{
    reveal(Seq::filter);
    if prev.len() > 0 {
        lemma_stale_ids_none(prev.drop_last(), current);
    }
}

/// Stability across frames: when a frame runs on the same snapshot as the
/// previous one, nothing is reset — every identity written last frame is
/// written again — and, by the exactness of
/// [`crate::frame::writes_spec`], every object receives the identical
/// depth value again, not merely the same relative order.
pub proof fn lemma_unchanged_scene_clears_nothing<L: LayerIndex>(s: Seq<Node<L>>)
    ensures
        stale_ids(write_ids(s), write_ids(s)) =~= Seq::<u64>::empty(),
{
    lemma_stale_ids_none(write_ids(s), write_ids(s));
}

/// Every write of a frame, below index `k` of the arena, names an object
/// with a resolved layer and carries a well-formed depth whose whole part
/// is that layer's z-coordinate.
proof fn lemma_writes_upto_in_layer_band<L: LayerIndex>(s: Seq<Node<L>>, y_sort: bool, k: int)
    requires
        s.len() <= usize::MAX,
        0 <= k <= s.len(),
    ensures
        forall|i: int|
            0 <= i < writes_upto(s, y_sort, k).len() ==> {
                let w = #[trigger] writes_upto(s, y_sort, k)[i];
                w.1.wf() && exists|n: int|
                    0 <= n < s.len() && #[trigger] written(s, n) && w == (
                        s[n].id,
                        depth_of(eff_seq(s), ys_seq(s), n, y_sort).unwrap(),
                    )
            },
    decreases k,
{
    if k > 0 {
        lemma_writes_upto_in_layer_band(s, y_sort, k - 1);
        let prev = writes_upto(s, y_sort, k - 1);
        let cur = writes_upto(s, y_sort, k);
        if written(s, k - 1) {
            assert(participates(eff_seq(s), k - 1));
            lemma_depth_wf(eff_seq(s), ys_seq(s), k - 1, y_sort);
            let elem = (s[k - 1].id, depth_of(eff_seq(s), ys_seq(s), k - 1, y_sort).unwrap());
            assert(cur == prev.push(elem));
            assert forall|i: int| 0 <= i < cur.len() implies {
                let w = #[trigger] cur[i];
                w.1.wf() && exists|n: int|
                    0 <= n < s.len() && #[trigger] written(s, n) && w == (
                        s[n].id,
                        depth_of(eff_seq(s), ys_seq(s), n, y_sort).unwrap(),
                    )
            } by {
                if i < prev.len() {
                    assert(cur[i] == prev[i]);
                } else {
                    assert(cur[i] == elem);
                    assert(0 <= k - 1 < s.len() && written(s, k - 1) && elem == (
                        s[k - 1].id,
                        depth_of(eff_seq(s), ys_seq(s), k - 1, y_sort).unwrap(),
                    ));
                }
            }
        } else {
            assert(cur == prev);
        }
    }
}

/// The invariant the render-extraction side may assume: after a frame,
/// every written depth belongs to an object with a resolved layer, and
/// equals that layer's base z-coordinate plus an offset in `[0, 1)` —
/// stale depths having been reset separately.
pub proof fn lemma_writes_in_layer_band<L: LayerIndex>(s: Seq<Node<L>>, y_sort: bool, i: int)
    requires
        s.len() <= usize::MAX,
        0 <= i < writes_spec(s, y_sort).len(),
    ensures
        writes_spec(s, y_sort)[i].1.wf(),
        exists|n: int|
            0 <= n < s.len() && resolved_layer(s, n) is Some && writes_spec(s, y_sort)[i] == (
                s[n].id,
                depth_of(eff_seq(s), ys_seq(s), n, y_sort).unwrap(),
            ) && writes_spec(s, y_sort)[i].1.base == resolved_layer(s, n).unwrap().z_value() as i64,
{
    lemma_writes_upto_in_layer_band(s, y_sort, s.len() as int);
    let w = writes_spec(s, y_sort)[i];
    let n = choose|n: int|
        0 <= n < s.len() && #[trigger] written(s, n) && w == (
            s[n].id,
            depth_of(eff_seq(s), ys_seq(s), n, y_sort).unwrap(),
        );
    lemma_depth_wf(eff_seq(s), ys_seq(s), n, y_sort);
}

/// Boundary: an object that is the only participant gets exactly its
/// layer's base depth — the offset is `0 / 1`, deterministic and finite,
/// with no division by zero even though its "bucket" has a single element.
pub proof fn lemma_single_participant_exact_base<L: LayerIndex>(
    ls: Seq<Option<L>>,
    ys: Seq<Option<i64>>,
    n: int,
)
    requires
        ls.len() <= usize::MAX,
        participates(ls, n),
        participant_count(ls) == 1,
    ensures
        depth_of(ls, ys, n, true) == Some(
            RenderZCoordinate { base: base_of(ls, n), num: 0, den: 1 },
        ),
{
    lemma_rank_below_count(ls, ys, n, ls.len() as int);
    assert(rank(ls, ys, n) == 0);
}

} // verus!
