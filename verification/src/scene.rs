//! The per-frame scene snapshot and layer propagation.
//!
//! The engine never owns the scene graph; once per frame it takes a snapshot
//! of the parts it reads: for every object its stable identity, its parent
//! edge, its explicit layer (if any), and its vertical position (if it has a
//! transform). Objects are stored in an arena and addressed by index, with
//! the well-formedness guarantee that a parent always comes before its
//! children; [`Scene::add`] establishes this by construction, treating an
//! edge to a not-yet-existing parent as external-data corruption and
//! defensively dropping the edge rather than failing. Cyclic hierarchies
//! are thereby unrepresentable, so propagation needs no cycle defence.

use vstd::prelude::*;

use crate::layer::LayerIndex;

verus! {

/// One object of the scene snapshot.
#[derive(Clone, Copy, Debug)]
pub struct Node<L> {
    /// The object's stable identity in the external scene-graph store.
    pub id: u64,
    /// The arena index of the object's parent, if it has one.
    pub parent: Option<usize>,
    /// The object's explicit layer, if it carries one.
    pub layer: Option<L>,
    /// The vertical position of the object's world transform, already
    /// mapped to an order-preserving integer key; `None` for objects
    /// without a transform of their own.
    pub y: Option<i64>,
}

/// A scene snapshot: an arena of nodes in which parents precede children.
pub struct Scene<L> {
    nodes: Vec<Node<L>>,
}

/// Every parent edge points strictly backwards in the arena, so parent
/// chains terminate and a node's resolved layer is well defined.
pub open spec fn scene_ordered<L>(s: Seq<Node<L>>) -> bool {
    forall|i: int|
        0 <= i < s.len() && s[i].parent is Some ==> (#[trigger] s[i].parent)->0 < i
}

/// The parent edge [`Scene::add`] actually records: an edge to a node that
/// does not exist (yet) is dropped, and the new node becomes a root.
pub open spec fn admitted_parent(parent: Option<usize>, len: int) -> Option<usize> {
    match parent {
        Some(p) => if p < len {
            Some(p)
        } else {
            None
        },
        None => None,
    }
}

/// The layer a node resolves to: its own explicit layer if it has one,
/// otherwise the resolved layer of its parent; `None` if no ancestor up to
/// the root carries an explicit layer. Inheritance passes through nodes
/// without transforms unchanged, since only `layer` and `parent` matter.
pub open spec fn resolved_layer<L: LayerIndex>(s: Seq<Node<L>>, n: int) -> Option<L>
    decreases n,
{
    if 0 <= n < s.len() {
        match s[n].layer {
            Some(l) => Some(l),
            None => match s[n].parent {
                Some(p) => if p < n {
                    resolved_layer(s, p as int)
                } else {
                    None
                },
                None => None,
            },
        }
    } else {
        None
    }
}

impl<L: LayerIndex> View for Scene<L> {
    type V = Seq<Node<L>>;

    closed spec fn view(&self) -> Seq<Node<L>> {
        self.nodes@
    }
}

impl<L: LayerIndex> Scene<L> {
    /// A scene is well formed when parents precede their children.
    pub open spec fn wf(&self) -> bool {
        scene_ordered(self@)
    }

    /// An empty snapshot.
    pub fn new() -> (s: Self)
        ensures
            s@ =~= Seq::<Node<L>>::empty(),
            s.wf(),
    {
        Scene { nodes: Vec::new() }
    }

    /// An empty snapshot with room for `capacity` objects — typically the
    /// engine's capacity hint from the previous frame, so that rebuilding
    /// the snapshot every frame does not reallocate. Purely a performance
    /// aid; the snapshot holds the same objects either way.
    pub fn with_capacity(capacity: usize) -> (s: Self)
        ensures
            s@ =~= Seq::<Node<L>>::empty(),
            s.wf(),
    {
        Scene { nodes: Vec::with_capacity(capacity) }
    }

    /// The number of objects in the snapshot.
    pub fn len(&self) -> (n: usize)
        ensures
            n == self@.len(),
    {
        self.nodes.len()
    }

    /// Appends an object and returns its arena index. A parent edge that
    /// refers to an object not in the snapshot is external-data corruption;
    /// it is dropped (the object is treated as a root) rather than
    /// aborting the frame.
    pub fn add(&mut self, id: u64, parent: Option<usize>, layer: Option<L>, y: Option<i64>) -> (n:
        usize)
        ensures
            n == old(self)@.len(),
            final(self)@ == old(self)@.push(
                Node {
                    id,
                    parent: admitted_parent(parent, old(self)@.len() as int),
                    layer,
                    y,
                },
            ),
            old(self).wf() ==> final(self).wf(),
    {
        let n = self.nodes.len();
        let parent = match parent {
            Some(p) => if p < n {
                Some(p)
            } else {
                None
            },
            None => None,
        };
        self.nodes.push(Node { id, parent, layer, y });
        proof {
            assert forall|i: int|
                0 <= i < self@.len() && self@[i].parent is Some && old(self).wf() implies (
            #[trigger] self@[i].parent)->0 < i by {
                if i < old(self)@.len() {
                    assert(self@[i] == old(self)@[i]);
                }
            }
        }
        n
    }

    /// The stable identity of the object at index `n`.
    pub fn id_of(&self, n: usize) -> (id: u64)
        requires
            n < self@.len(),
        ensures
            id == self@[n as int].id,
    {
        self.nodes[n].id
    }

    /// The vertical position keys of all objects, by arena index.
    pub fn y_keys(&self) -> (ys: Vec<Option<i64>>)
        ensures
            ys@.len() == self@.len(),
            forall|n: int| 0 <= n < self@.len() ==> ys@[n] == self@[n].y,
    {
        let mut ys: Vec<Option<i64>> = Vec::new();
        let mut i: usize = 0;
        while i < self.nodes.len()
            invariant
                i <= self@.len(),
                ys@.len() == i,
                forall|n: int| 0 <= n < i ==> ys@[n] == self@[n].y,
            decreases self@.len() - i,
        {
            ys.push(self.nodes[i].y);
            i = i + 1;
        }
        ys
    }
}

/// Resolves the effective layer of every object in the snapshot: an object's
/// own explicit layer if it has one, else the layer inherited from its
/// parent. Inheritance is transitive and passes through objects that have
/// neither a layer nor a transform; an object with an explicit layer always
/// wins over inheritance, and that layer is what its own descendants
/// inherit. Objects with no explicitly layered ancestor get no entry.
pub fn propagate_layers<L: LayerIndex>(scene: &Scene<L>) -> (eff: Vec<Option<L>>)
    requires
        scene.wf(),
    ensures
        eff@.len() == scene@.len(),
        forall|n: int| 0 <= n < scene@.len() ==> eff@[n] == resolved_layer(scene@, n),
{
    let len = scene.len();
    let mut eff: Vec<Option<L>> = Vec::new();
    let mut n: usize = 0;
    while n < len
        invariant
            scene.wf(),
            len == scene@.len(),
            n <= len,
            eff@.len() == n,
            forall|i: int| 0 <= i < n ==> eff@[i] == resolved_layer(scene@, i),
        decreases len - n,
    {
        let node_layer = scene.layer_of(n);
        let entry = match node_layer {
            Some(l) => Some(l),
            None => match scene.parent_of(n) {
                Some(p) => eff[p],
                None => None,
            },
        };
        eff.push(entry);
        n = n + 1;
    }
    eff
}

impl<L: LayerIndex> Scene<L> {
    /// The explicit layer of the object at index `n`, if it carries one.
    pub fn layer_of(&self, n: usize) -> (l: Option<L>)
        requires
            n < self@.len(),
        ensures
            l == self@[n as int].layer,
    {
        self.nodes[n].layer
    }

    /// The parent edge of the object at index `n`.
    pub fn parent_of(&self, n: usize) -> (p: Option<usize>)
        requires
            n < self@.len(),
        ensures
            p == self@[n as int].parent,
    {
        self.nodes[n].parent
    }
}

} // verus!
