//! Depth assignment: from effective layers and positions to final depths.
//!
//! With y-sorting disabled, every object with a resolved layer simply gets
//! its layer's base depth. With y-sorting enabled, all resolved objects are
//! ordered globally by their sort key — higher positions first, ties broken
//! by arena index so the order is total — and the object of rank `i` among
//! `N` gets the depth `base + i / N`. The fractional offsets stay inside
//! `[0, 1)`, so they can never lift an object past a layer with a larger
//! base depth.

use vstd::prelude::*;

use crate::depth::RenderZCoordinate;
use crate::depth::ZIndexSortKey;
use crate::layer::LayerIndex;

verus! {

/// The object at index `n` has a resolved layer and takes part in depth
/// assignment.
pub open spec fn participates<L: LayerIndex>(ls: Seq<Option<L>>, n: int) -> bool {
    0 <= n < ls.len() && ls[n] is Some
}

/// The sort key of the object at index `n`: its vertical position, or the
/// default position `0` for objects without a transform.
pub open spec fn key_of(ys: Seq<Option<i64>>, n: int) -> ZIndexSortKey {
    match ys[n] {
        Some(y) => ZIndexSortKey { y },
        None => ZIndexSortKey { y: 0 },
    }
}

/// The object at index `m` takes part and is ordered strictly before the
/// object at index `n`: its key sorts first, or the keys tie and `m` comes
/// first in the arena (the tie-break that makes the order total).
pub open spec fn order_before<L: LayerIndex>(
    ls: Seq<Option<L>>,
    ys: Seq<Option<i64>>,
    m: int,
    n: int,
) -> bool {
    participates(ls, m) && (key_of(ys, m).precedes(key_of(ys, n)) || (key_of(ys, m) == key_of(
        ys,
        n,
    ) && m < n))
}

/// How many of the objects at indices below `k` are ordered strictly before
/// the object at index `n`.
pub open spec fn rank_upto<L: LayerIndex>(
    ls: Seq<Option<L>>,
    ys: Seq<Option<i64>>,
    n: int,
    k: int,
) -> nat
    decreases k,
{
    if k <= 0 {
        0
    } else {
        rank_upto(ls, ys, n, k - 1) + if order_before(ls, ys, k - 1, n) {
            1nat
        } else {
            0nat
        }
    }
}

/// The rank of the object at index `n` in the global y-sorted order:
/// how many participating objects are ordered strictly before it.
pub open spec fn rank<L: LayerIndex>(ls: Seq<Option<L>>, ys: Seq<Option<i64>>, n: int) -> nat {
    rank_upto(ls, ys, n, ls.len() as int)
}

/// How many of the objects at indices below `k` take part.
pub open spec fn count_upto<L: LayerIndex>(ls: Seq<Option<L>>, k: int) -> nat
    decreases k,
{
    if k <= 0 {
        0
    } else {
        count_upto(ls, k - 1) + if participates(ls, k - 1) {
            1nat
        } else {
            0nat
        }
    }
}

/// The number of participating objects.
pub open spec fn participant_count<L: LayerIndex>(ls: Seq<Option<L>>) -> nat {
    count_upto(ls, ls.len() as int)
}

/// The base depth of the object at index `n`: its resolved layer's
/// z-coordinate.
pub open spec fn base_of<L: LayerIndex>(ls: Seq<Option<L>>, n: int) -> i64 {
    ls[n].unwrap().z_value() as i64
}

/// The depth assigned to the object at index `n`: `None` for objects with
/// no resolved layer; the layer's base depth plus, when y-sorting is
/// enabled, the fractional offset `rank / participant_count`.
pub open spec fn depth_of<L: LayerIndex>(
    ls: Seq<Option<L>>,
    ys: Seq<Option<i64>>,
    n: int,
    y_sort: bool,
) -> Option<RenderZCoordinate> {
    if participates(ls, n) {
        if y_sort {
            Some(
                RenderZCoordinate {
                    base: base_of(ls, n),
                    num: rank(ls, ys, n) as usize,
                    den: participant_count(ls) as usize,
                },
            )
        } else {
            Some(RenderZCoordinate { base: base_of(ls, n), num: 0, den: 1 })
        }
    } else {
        None
    }
}

/// At most `k` objects lie below index `k`, and an object's rank counts a
/// subset of the participants, never itself — so the rank of a participant
/// is strictly below the participant count, which keeps every fractional
/// offset strictly below one.
pub proof fn lemma_rank_below_count<L: LayerIndex>(
    ls: Seq<Option<L>>,
    ys: Seq<Option<i64>>,
    n: int,
    k: int,
)
    requires
        0 <= k,
    ensures
        count_upto(ls, k) <= k,
        rank_upto(ls, ys, n, k) <= count_upto(ls, k),
        participates(ls, n) && n < k ==> rank_upto(ls, ys, n, k) < count_upto(ls, k),
    decreases k,
{
    if k > 0 {
        lemma_rank_below_count(ls, ys, n, k - 1);
    }
}

/// Ranks respect the sort order: if `a` is ordered strictly before `b`,
/// then fewer objects are ordered before `a` than before `b` — in fact `a`
/// itself is counted for `b`, so the gap is at least one once `a` is in
/// range.
pub proof fn lemma_rank_strict_mono<L: LayerIndex>(
    ls: Seq<Option<L>>,
    ys: Seq<Option<i64>>,
    a: int,
    b: int,
    k: int,
)
    requires
        order_before(ls, ys, a, b),
    ensures
        rank_upto(ls, ys, a, k) + (if a < k {
            1int
        } else {
            0int
        }) <= rank_upto(ls, ys, b, k),
    decreases k,
{
    if k > 0 {
        lemma_rank_strict_mono(ls, ys, a, b, k - 1);
    }
}

/// Counts the participating objects.
pub(crate) fn count_participants<L: LayerIndex>(layers: &Vec<Option<L>>) -> (total: usize)
    ensures
        total == participant_count(layers@),
{
    let len = layers.len();
    let mut total: usize = 0;
    let mut k: usize = 0;
    while k < len
        invariant
            len == layers@.len(),
            k <= len,
            total == count_upto(layers@, k as int),
            total <= k,
        decreases len - k,
    {
        if layers[k].is_some() {
            total = total + 1;
        }
        k = k + 1;
    }
    total
}

/// Counts the objects ordered strictly before the object at index `n`.
fn count_rank<L: LayerIndex>(
    layers: &Vec<Option<L>>,
    ys: &Vec<Option<i64>>,
    n: usize,
) -> (rk: usize)
    requires
        layers@.len() == ys@.len(),
        n < layers@.len(),
    ensures
        rk == rank(layers@, ys@, n as int),
{
    let len = layers.len();
    let key_n = match ys[n] {
        Some(y) => ZIndexSortKey::new(y),
        None => ZIndexSortKey::new(0),
    };
    let mut rk: usize = 0;
    let mut m: usize = 0;
    while m < len
        invariant
            len == layers@.len(),
            layers@.len() == ys@.len(),
            n < len,
            m <= len,
            key_n == key_of(ys@, n as int),
            rk == rank_upto(layers@, ys@, n as int, m as int),
            rk <= m,
        decreases len - m,
    {
        if layers[m].is_some() {
            let key_m = match ys[m] {
                Some(y) => ZIndexSortKey::new(y),
                None => ZIndexSortKey::new(0),
            };
            if key_m.sorts_before(&key_n) || (key_m == key_n && m < n) {
                rk = rk + 1;
            }
        }
        m = m + 1;
    }
    rk
}

/// Computes the depth each object receives: its resolved layer's base
/// z-coordinate plus, when y-sorting is enabled, an offset in `[0, 1)`
/// placing it at its rank in the global y-sorted order (higher positions
/// first, ties by arena index). Objects with no resolved layer get no
/// depth. The result is an exact function of the inputs: re-running the
/// assignment on an unchanged scene reproduces the same depths, not merely
/// the same order.
pub fn set_z_coordinates<L: LayerIndex>(
    layers: &Vec<Option<L>>,
    ys: &Vec<Option<i64>>,
    y_sort: bool,
) -> (r: Vec<Option<RenderZCoordinate>>)
    requires
        layers@.len() == ys@.len(),
    ensures
        r@.len() == layers@.len(),
        forall|n: int|
            0 <= n < layers@.len() ==> r@[n] == depth_of(layers@, ys@, n, y_sort),
        forall|n: int|
            0 <= n < layers@.len() && r@[n] is Some ==> (#[trigger] r@[n]).unwrap().wf(),
{
    let len = layers.len();
    let mut r: Vec<Option<RenderZCoordinate>> = Vec::new();
    if y_sort {
        let total = count_participants(layers);
        let mut n: usize = 0;
        while n < len
            invariant
                len == layers@.len(),
                layers@.len() == ys@.len(),
                total == participant_count(layers@),
                n <= len,
                r@.len() == n,
                forall|i: int| 0 <= i < n ==> r@[i] == depth_of(layers@, ys@, i, true),
                forall|i: int|
                    0 <= i < n && r@[i] is Some ==> (#[trigger] r@[i]).unwrap().wf(),
            decreases len - n,
        {
            let entry = match layers[n] {
                Some(l) => {
                    let rk = count_rank(layers, ys, n);
                    proof {
                        lemma_rank_below_count(layers@, ys@, n as int, len as int);
                    }
                    Some(RenderZCoordinate { base: l.as_z_coordinate(), num: rk, den: total })
                },
                None => None,
            };
            r.push(entry);
            n = n + 1;
        }
    } else {
        let mut n: usize = 0;
        while n < len
            invariant
                len == layers@.len(),
                n <= len,
                r@.len() == n,
                forall|i: int| 0 <= i < n ==> r@[i] == depth_of(layers@, ys@, i, false),
                forall|i: int|
                    0 <= i < n && r@[i] is Some ==> (#[trigger] r@[i]).unwrap().wf(),
            decreases len - n,
        {
            let entry = match layers[n] {
                Some(l) => Some(
                    RenderZCoordinate { base: l.as_z_coordinate(), num: 0, den: 1 },
                ),
                None => None,
            };
            r.push(entry);
            n = n + 1;
        }
    }
    r
}

} // verus!
