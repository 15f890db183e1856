//! The scene model: entities with their markers, their parent and their
//! local transform, and the queue of trackers that wait for adoption.
//!
//! An entity is named by the order of its creation: the first is 0. The
//! scene never removes one.

use vstd::prelude::*;
use crate::markers::{Marker, MarkerSet};
use crate::pose::{SceneQuat, SceneTransform, SceneVec3};

verus! {

/// One entity of the scene.
#[derive(Clone, Copy, Debug)]
pub struct Node {
    pub markers: MarkerSet,
    pub parent: Option<u64>,
    pub transform: SceneTransform,
}

/// What a search for the one entity of some kind found.
#[derive(Clone, Copy, Debug, PartialEq, Eq, Structural)]
pub enum Lookup {
    /// No entity matched.
    Missing,
    /// Exactly this entity matched.
    Unique(u64),
    /// Several matched; this one was found first.
    Ambiguous(u64),
}

impl Lookup {
    /// The entity to go by: the only one, or the first of several.
    pub open spec fn first_spec(self) -> Option<u64> {
        match self {
            Lookup::Missing => None,
            Lookup::Unique(id) => Some(id),
            Lookup::Ambiguous(id) => Some(id),
        }
    }

    /// The entity to go by: the only one, or the first of several.
    pub fn first(&self) -> (r: Option<u64>)
        ensures
            r == self.first_spec(),
    {
        match self {
            Lookup::Missing => None,
            Lookup::Unique(id) => Some(*id),
            Lookup::Ambiguous(id) => Some(*id),
        }
    }
}

/// The lookup that a list of candidates amounts to.
pub open spec fn classify_spec(ids: Seq<u64>) -> Lookup {
    if ids.len() == 0 {
        Lookup::Missing
    } else if ids.len() == 1 {
        Lookup::Unique(ids[0])
    } else {
        Lookup::Ambiguous(ids[0])
    }
}

/// Decides by the number of candidates: none, exactly one, or several, of
/// which the first is named.
pub fn classify(ids: &Vec<u64>) -> (found: Lookup)
    ensures
        found == classify_spec(ids@),
{
    if ids.len() == 0 {
        Lookup::Missing
    } else if ids.len() == 1 {
        Lookup::Unique(ids[0])
    } else {
        Lookup::Ambiguous(ids[0])
    }
}

/// Whether `node` carries `with` and, where one is given, not `without`.
pub open spec fn selects(node: Node, with: Marker, without: Option<Marker>) -> bool {
    node.markers.contains(with) && match without {
        Some(m) => !node.markers.contains(m),
        None => true,
    }
}

/// The entities that `selects` accepts, in the order of their creation.
pub open spec fn matching(nodes: Seq<Node>, with: Marker, without: Option<Marker>) -> Seq<u64>
    decreases nodes.len(),
{
    if nodes.len() == 0 {
        Seq::empty()
    } else {
        let rest = matching(nodes.drop_last(), with, without);
        if selects(nodes.last(), with, without) {
            rest.push((nodes.len() - 1) as u64)
        } else {
            rest
        }
    }
}

/// Every entity that `matching` lists exists and is accepted, and every
/// accepted entity is listed.
pub proof fn lemma_matching_members(nodes: Seq<Node>, with: Marker, without: Option<Marker>)
    requires
        nodes.len() <= u64::MAX,
    ensures
        forall|k: int|
            0 <= k < matching(nodes, with, without).len() ==> {
                let id = #[trigger] matching(nodes, with, without)[k];
                id < nodes.len() && selects(nodes[id as int], with, without)
            },
        forall|i: int|
            0 <= i < nodes.len() && selects(#[trigger] nodes[i], with, without) ==> matching(
                nodes,
                with,
                without,
            ).contains(i as u64),
    decreases nodes.len(),
{
    if nodes.len() > 0 {
        let init = nodes.drop_last();
        let rest = matching(init, with, without);
        lemma_matching_members(init, with, without);
        let all = matching(nodes, with, without);
        let last = (nodes.len() - 1) as u64;
        assert forall|i: int| 0 <= i < nodes.len() && selects(#[trigger] nodes[i], with, without)
            implies all.contains(i as u64) by {
            if i < nodes.len() - 1 {
                assert(init[i] == nodes[i]);
                let k = choose|k: int| 0 <= k < rest.len() && rest[k] == i as u64;
                assert(all[k] == i as u64);
            } else {
                assert(all[all.len() - 1] == last);
            }
        }
        assert forall|k: int| 0 <= k < all.len() implies {
            let id = #[trigger] all[k];
            id < nodes.len() && selects(nodes[id as int], with, without)
        } by {
            if k < rest.len() {
                assert(all[k] == rest[k]);
                assert(init[rest[k] as int] == nodes[rest[k] as int]);
            }
        }
    }
}

/// What `matching` lists depends on the markers alone.
pub proof fn lemma_matching_by_markers(
    a: Seq<Node>,
    b: Seq<Node>,
    with: Marker,
    without: Option<Marker>,
)
    requires
        a.len() == b.len(),
        forall|i: int| 0 <= i < a.len() ==> a[i].markers == b[i].markers,
    ensures
        matching(a, with, without) == matching(b, with, without),
    decreases a.len(),
{
    if a.len() > 0 {
        lemma_matching_by_markers(a.drop_last(), b.drop_last(), with, without);
    }
}

/// The validity of a scene: a parent exists and is another entity, and
/// what waits for adoption exists and is a tracker.
pub open spec fn scene_wf(nodes: Seq<Node>, pending: Seq<u64>) -> bool {
    &&& nodes.len() <= u64::MAX
    &&& forall|i: int|
        0 <= i < nodes.len() ==> match (#[trigger] nodes[i]).parent {
            Some(p) => p < nodes.len() && p != i,
            None => true,
        }
    &&& forall|k: int|
        0 <= k < pending.len() ==> (#[trigger] pending[k]) < nodes.len() && nodes[pending[k] as int].markers.contains(
            Marker::Tracker,
        )
}

/// A list with the same entities in the same order.
pub fn copy_ids(ids: &Vec<u64>) -> (copy: Vec<u64>)
    ensures
        copy@ == ids@,
{
    let mut copy: Vec<u64> = Vec::new();
    let mut i: usize = 0;
    while i < ids.len()
        invariant
            i <= ids.len(),
            copy@ == ids@.take(i as int),
        decreases ids.len() - i,
    {
        copy.push(ids[i]);
        proof {
            assert(ids@.take(i + 1) == ids@.take(i as int).push(ids@[i as int]));
        }
        i += 1;
    }
    proof {
        assert(ids@.take(i as int) == ids@);
    }
    copy
}

/// The scene graph as this library sees it.
pub struct Scene {
    nodes: Vec<Node>,
    pending: Vec<u64>,
}

impl Scene {
    /// The entities, by the order of their creation.
    pub closed spec fn view(&self) -> Seq<Node> {
        self.nodes@
    }

    /// The trackers created since the last adoption, oldest first.
    pub closed spec fn pending(&self) -> Seq<u64> {
        self.pending@
    }

    /// The scene is valid.
    pub open spec fn wf(&self) -> bool {
        scene_wf(self@, self.pending())
    }

    /// A scene without entities.
    pub fn new() -> (s: Scene)
        ensures
            s.wf(),
            s@ == Seq::<Node>::empty(),
            s.pending() == Seq::<u64>::empty(),
    {
        Scene { nodes: Vec::new(), pending: Vec::new() }
    }

    /// The number of entities.
    pub fn len(&self) -> (n: usize)
        ensures
            n == self@.len(),
    {
        self.nodes.len()
    }

    /// The number of trackers that wait for adoption.
    pub fn pending_len(&self) -> (n: usize)
        ensures
            n == self.pending().len(),
    {
        self.pending.len()
    }

    /// The entity `id`, if there is one.
    pub fn node(&self, id: u64) -> (r: Option<Node>)
        ensures
            r == if id < self@.len() {
                Some(self@[id as int])
            } else {
                None
            },
    {
        if id < self.nodes.len() as u64 {
            Some(self.nodes[id as usize])
        } else {
            None
        }
    }

    /// Creates an entity without a parent and returns its name. One that
    /// carries the tracker marker then waits for adoption.
    pub fn spawn(&mut self, markers: MarkerSet, transform: SceneTransform) -> (id: u64)
        requires
            old(self).wf(),
        ensures
            final(self).wf(),
            id == old(self)@.len(),
            final(self)@ == old(self)@.push(Node { markers, parent: None, transform }),
            final(self).pending() == if markers.contains(Marker::Tracker) {
                old(self).pending().push(id)
            } else {
                old(self).pending()
            },
    {
        let id: u64 = self.nodes.len() as u64;
        self.nodes.push(Node { markers, parent: None, transform });
        if markers.has(Marker::Tracker) {
            self.pending.push(id);
        }
        let grown: usize = self.nodes.len();
        proof {
            assert(self.nodes@.len() == grown);
            assert forall|i: int| 0 <= i < self.nodes@.len() implies match (#[trigger] self.nodes@[i]).parent {
                Some(p) => p < self.nodes@.len() && p != i,
                None => true,
            } by {
                if i < id {
                    assert(self.nodes@[i] == old(self).nodes@[i]);
                }
            }
            assert forall|k: int| 0 <= k < self.pending@.len() implies (#[trigger] self.pending@[k])
                < self.nodes@.len() && self.nodes@[self.pending@[k] as int].markers.contains(
                Marker::Tracker,
            ) by {
                if k < old(self).pending@.len() {
                    assert(self.pending@[k] == old(self).pending@[k]);
                    assert(self.nodes@[self.pending@[k] as int] == old(self).nodes@[self.pending@[k] as int]);
                }
            }
        }
        id
    }

    /// The entities that carry `with` and, where one is given, not
    /// `without`, in the order of their creation.
    pub fn entities_with(&self, with: Marker, without: Option<Marker>) -> (ids: Vec<u64>)
        requires
            self.wf(),
        ensures
            ids@ == matching(self@, with, without),
    {
        let mut ids: Vec<u64> = Vec::new();
        let mut i: usize = 0;
        while i < self.nodes.len()
            invariant
                i <= self.nodes.len(),
                self.nodes@.len() <= u64::MAX,
                ids@ == matching(self.nodes@.take(i as int), with, without),
            decreases self.nodes.len() - i,
        {
            let markers = self.nodes[i].markers;
            let keep = markers.has(with) && match without {
                Some(m) => !markers.has(m),
                None => true,
            };
            proof {
                let next = self.nodes@.take(i + 1);
                assert(next.drop_last() == self.nodes@.take(i as int));
                assert(next.last() == self.nodes@[i as int]);
            }
            if keep {
                ids.push(i as u64);
            }
            i += 1;
        }
        proof {
            assert(self.nodes@.take(i as int) == self.nodes@);
        }
        ids
    }

    /// The trackers that wait for adoption, oldest first.
    pub fn pending_trackers(&self) -> (ids: Vec<u64>)
        ensures
            ids@ == self.pending(),
    {
        copy_ids(&self.pending)
    }

    /// Forgets the trackers that wait for adoption.
    pub fn clear_pending(&mut self)
        requires
            old(self).wf(),
        ensures
            final(self).wf(),
            final(self)@ == old(self)@,
            final(self).pending() == Seq::<u64>::empty(),
    {
        self.pending = Vec::new();
    }

    /// Makes `parent` the one parent of `child`. Nothing happens, and the
    /// answer is `false`, where either does not exist or both are the same
    /// entity.
    pub fn set_parent(&mut self, child: u64, parent: u64) -> (done: bool)
        requires
            old(self).wf(),
        ensures
            final(self).wf(),
            final(self).pending() == old(self).pending(),
            done == (child < old(self)@.len() && parent < old(self)@.len() && child != parent),
            done ==> final(self)@ == old(self)@.update(
                child as int,
                Node { parent: Some(parent), ..old(self)@[child as int] },
            ),
            !done ==> final(self)@ == old(self)@,
    {
        let n: u64 = self.nodes.len() as u64;
        if child < n && parent < n && child != parent {
            let node = self.nodes[child as usize];
            self.nodes[child as usize] = Node { parent: Some(parent), ..node };
            true
        } else {
            false
        }
    }

    /// Writes translation and rotation of `id` in one update; the scale,
    /// the markers and the parent stay. Nothing happens, and the answer is
    /// `false`, where `id` does not exist.
    pub fn write_pose(&mut self, id: u64, translation: SceneVec3, rotation: SceneQuat) -> (done:
        bool)
        requires
            old(self).wf(),
        ensures
            final(self).wf(),
            final(self).pending() == old(self).pending(),
            done == (id < old(self)@.len()),
            done ==> final(self)@ == old(self)@.update(
                id as int,
                Node {
                    transform: SceneTransform {
                        translation,
                        rotation,
                        scale: old(self)@[id as int].transform.scale,
                    },
                    ..old(self)@[id as int]
                },
            ),
            !done ==> final(self)@ == old(self)@,
    {
        if id < self.nodes.len() as u64 {
            let node = self.nodes[id as usize];
            self.nodes[id as usize] = Node {
                transform: SceneTransform { translation, rotation, scale: node.transform.scale },
                ..node
            };
            true
        } else {
            false
        }
    }
}

} // verus!
