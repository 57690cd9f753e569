//! The per-frame pass and the small state it keeps between frames.
//!
//! A frame runs in three stages: layer propagation, depth assignment, and
//! the computation of the transform edits — which depths to write, and
//! which previously managed objects lost their layer and must have their
//! depth reset to the neutral baseline before anything else is written.
//! The engine keeps no semantic state between frames: only the set of
//! identities it wrote last frame (to know what to reset) and a capacity
//! hint (a pure performance cache).

use vstd::prelude::*;

use crate::assign::depth_of;
use crate::assign::participant_count;
use crate::assign::set_z_coordinates;
use crate::assign::count_participants;
use crate::depth::RenderZCoordinate;
use crate::layer::LayerIndex;
use crate::scene::Node;
use crate::scene::Scene;
use crate::scene::resolved_layer;
use crate::scene::propagate_layers;

verus! {

/// Configuration of the engine, owned by the host application and read
/// once at the start of every frame.
pub struct SpriteLayerOptions {
    /// Enables the secondary, position-based ordering within each layer.
    pub y_sort: bool,
}

impl Default for SpriteLayerOptions {
    /// Y-sorting is enabled by default.
    fn default() -> (o: Self)
        ensures
            o.y_sort,
    {
        SpriteLayerOptions { y_sort: true }
    }
}

/// The object at index `n` receives a depth write this frame: it has a
/// resolved layer and a transform to write to.
pub open spec fn written<L: LayerIndex>(s: Seq<Node<L>>, n: int) -> bool {
    resolved_layer(s, n) is Some && s[n].y is Some
}

/// The identities written below index `k`, in arena order.
pub open spec fn write_ids_upto<L: LayerIndex>(s: Seq<Node<L>>, k: int) -> Seq<u64>
    decreases k,
{
    if k <= 0 {
        Seq::empty()
    } else {
        let rest = write_ids_upto(s, k - 1);
        if written(s, k - 1) {
            rest.push(s[k - 1].id)
        } else {
            rest
        }
    }
}

/// The identities that receive a depth write this frame: all objects with
/// a resolved layer and a transform. Note this does not depend on the
/// y-sort option.
pub open spec fn write_ids<L: LayerIndex>(s: Seq<Node<L>>) -> Seq<u64> {
    write_ids_upto(s, s.len() as int)
}

/// The position keys of the snapshot, by arena index.
pub open spec fn ys_seq<L: LayerIndex>(s: Seq<Node<L>>) -> Seq<Option<i64>> {
    Seq::new(s.len(), |n: int| s[n].y)
}

/// The effective layers of the snapshot, by arena index.
pub open spec fn eff_seq<L: LayerIndex>(s: Seq<Node<L>>) -> Seq<Option<L>> {
    Seq::new(s.len(), |n: int| resolved_layer(s, n))
}

/// The depth writes below index `k`, in arena order.
pub open spec fn writes_upto<L: LayerIndex>(s: Seq<Node<L>>, y_sort: bool, k: int) -> Seq<
    (u64, RenderZCoordinate),
>
    decreases k,
{
    if k <= 0 {
        Seq::empty()
    } else {
        let rest = writes_upto(s, y_sort, k - 1);
        if written(s, k - 1) {
            rest.push((s[k - 1].id, depth_of(eff_seq(s), ys_seq(s), k - 1, y_sort).unwrap()))
        } else {
            rest
        }
    }
}

/// The depth writes of a frame: for every object with a resolved layer and
/// a transform, its identity and its assigned depth, in arena order. This
/// is an exact function of the snapshot and the y-sort option alone, so an
/// unchanged scene receives identical depth values frame after frame.
pub open spec fn writes_spec<L: LayerIndex>(s: Seq<Node<L>>, y_sort: bool) -> Seq<
    (u64, RenderZCoordinate),
> {
    writes_upto(s, y_sort, s.len() as int)
}

/// The identities in `prev` that do not occur in `current`, in their order
/// in `prev`: the objects whose depth must be reset to the neutral
/// baseline because the engine managed them last frame but no longer does.
pub open spec fn stale_ids(prev: Seq<u64>, current: Seq<u64>) -> Seq<u64> {
    prev.filter(|id: u64| !current.contains(id))
}

/// Whether `v` holds `x`.
fn contains_id(v: &Vec<u64>, x: u64) -> (r: bool)
    ensures
        r == v@.contains(x),
{
    let len = v.len();
    let mut i: usize = 0;
    while i < len
        invariant
            len == v@.len(),
            i <= len,
            forall|j: int| 0 <= j < i ==> v@[j] != x,
        decreases len - i,
    {
        if v[i] == x {
            return true;
        }
        i = i + 1;
    }
    false
}

/// Computes which objects must have their depth reset to the neutral
/// baseline: exactly those the engine wrote last frame (`prev`) that
/// receive no write this frame (`current`). An object that merely lost its
/// layer this frame is therefore reset rather than left with a stale depth.
pub fn clear_z_coordinates(prev: &Vec<u64>, current: &Vec<u64>) -> (stale: Vec<u64>)
    ensures
        stale@ == stale_ids(prev@, current@),
{
    let len = prev.len();
    let mut stale: Vec<u64> = Vec::new();
    let mut i: usize = 0;
    while i < len
        invariant
            len == prev@.len(),
            i <= len,
            stale@ == stale_ids(prev@.subrange(0, i as int), current@),
        decreases len - i,
    {
        let id = prev[i];
        proof {
            reveal(Seq::filter);
            assert(prev@.subrange(0, i + 1 as int).drop_last() =~= prev@.subrange(0, i as int));
            assert(prev@.subrange(0, i + 1 as int).last() == prev@[i as int]);
        }
        if !contains_id(current, id) {
            stale.push(id);
        }
        i = i + 1;
    }
    proof {
        assert(prev@.subrange(0, len as int) =~= prev@);
    }
    stale
}

/// The edits a frame asks the host to apply to its transform store.
/// Resets come first: a depth write must not be undone by a reset.
pub struct FrameOutput {
    /// Identities whose depth must be reset to the neutral baseline.
    pub clears: Vec<u64>,
    /// For each identity, the depth to write into its world transform,
    /// leaving every other transform component untouched.
    pub writes: Vec<(u64, RenderZCoordinate)>,
}

/// The depth-resolution engine. It holds no scene data; between frames it
/// remembers only which identities it wrote (to reset those that drop out)
/// and how many objects resolved last frame (a capacity hint for the next
/// frame's allocations, never affecting any computed value).
pub struct SpriteLayerEngine {
    /// The largest number of resolved objects seen so far.
    pub capacity_hint: usize,
    /// The identities written last frame.
    pub prev_written: Vec<u64>,
}

impl SpriteLayerEngine {
    /// An engine that has not run yet: nothing to reset, no hint.
    pub fn new() -> (e: Self)
        ensures
            e.capacity_hint == 0,
            e.prev_written@ =~= Seq::<u64>::empty(),
    {
        SpriteLayerEngine { capacity_hint: 0, prev_written: Vec::new() }
    }

    /// Runs one frame on a snapshot: propagates layers, assigns depths,
    /// and returns the transform edits. The depth writes are an exact
    /// function of the snapshot and the y-sort option — the engine's own
    /// state never influences them — so an unchanged scene yields
    /// identical depths frame after frame. The resets are exactly the
    /// identities written last frame that receive no write this frame.
    pub fn run_frame<L: LayerIndex>(&mut self, scene: &Scene<L>, options: &SpriteLayerOptions) -> (
        out: FrameOutput)
        requires
            scene.wf(),
        ensures
            out.writes@ == writes_spec(scene@, options.y_sort),
            out.clears@ == stale_ids(old(self).prev_written@, write_ids(scene@)),
            final(self).prev_written@ == write_ids(scene@),
            final(self).capacity_hint == vstd::math::max(
                old(self).capacity_hint as int,
                participant_count(eff_seq(scene@)) as int,
            ),
    {
        let eff = propagate_layers(scene);
        let ys = scene.y_keys();
        proof {
            assert(eff@ =~= eff_seq(scene@));
            assert(ys@ =~= ys_seq(scene@));
        }
        let depths = set_z_coordinates(&eff, &ys, options.y_sort);

        let len = scene.len();
        let mut writes: Vec<(u64, RenderZCoordinate)> = Vec::new();
        let mut ids: Vec<u64> = Vec::new();
        let mut n: usize = 0;
        while n < len
            invariant
                scene.wf(),
                len == scene@.len(),
                n <= len,
                eff@ == eff_seq(scene@),
                ys@ == ys_seq(scene@),
                depths@.len() == len,
                forall|i: int|
                    0 <= i < len ==> depths@[i] == depth_of(eff_seq(scene@), ys_seq(scene@), i, options.y_sort),
                writes@ == writes_upto(scene@, options.y_sort, n as int),
                ids@ == write_ids_upto(scene@, n as int),
            decreases len - n,
        {
            match depths[n] {
                Some(d) => {
                    if ys[n].is_some() {
                        let id = scene.id_of(n);
                        writes.push((id, d));
                        ids.push(id);
                    }
                },
                None => {},
            }
            n = n + 1;
        }

        let count = count_participants(&eff);
        if count > self.capacity_hint {
            self.capacity_hint = count;
        }
        let clears = clear_z_coordinates(&self.prev_written, &ids);
        self.prev_written = ids;
        FrameOutput { clears, writes }
    }
}

} // verus!
