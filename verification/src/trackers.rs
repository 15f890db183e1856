//! The two passes of the tracking core: adoption of new trackers under the
//! tracking root, and the per-tick write of controller poses.
//!
//! Each pass exists twice. The planning functions work on plain values, for
//! a caller that keeps its entities elsewhere and carries out the plan
//! itself. The passes on a `Scene` plan and carry out on the model.

use vstd::prelude::*;
use crate::markers::{Hand, Marker};
use crate::pose::{FrameState, NativePose, SceneQuat, SceneTransform, SceneVec3};
use crate::scene::{
    classify, classify_spec, copy_ids, lemma_matching_by_markers, lemma_matching_members, matching,
    scene_wf, Lookup, Node, Scene,
};

verus! {

/// `ids` without every occurrence of `x`, the order kept.
pub open spec fn excluding(ids: Seq<u64>, x: u64) -> Seq<u64>
    decreases ids.len(),
{
    if ids.len() == 0 {
        Seq::empty()
    } else {
        let rest = excluding(ids.drop_last(), x);
        if ids.last() != x {
            rest.push(ids.last())
        } else {
            rest
        }
    }
}

/// `excluding(ids, x)` holds what `ids` holds, but for `x`.
pub proof fn lemma_excluding_members(ids: Seq<u64>, x: u64)
    ensures
        forall|c: u64| #[trigger] excluding(ids, x).contains(c) <==> (ids.contains(c) && c != x),
    decreases ids.len(),
{
    if ids.len() > 0 {
        let init = ids.drop_last();
        let rest = excluding(init, x);
        let all = excluding(ids, x);
        lemma_excluding_members(init, x);
        assert forall|c: u64| #[trigger] all.contains(c) <==> (ids.contains(c) && c != x) by {
            if all.contains(c) {
                let k = choose|k: int| 0 <= k < all.len() && all[k] == c;
                if k < rest.len() {
                    assert(rest[k] == c);
                    assert(rest.contains(c));
                    let j = choose|j: int| 0 <= j < init.len() && init[j] == c;
                    assert(ids[j] == c);
                } else {
                    assert(ids[ids.len() - 1] == c);
                }
            }
            if ids.contains(c) && c != x {
                let j = choose|j: int| 0 <= j < ids.len() && ids[j] == c;
                if j < init.len() {
                    assert(init[j] == c);
                    assert(init.contains(c));
                    assert(rest.contains(c));
                    let k = choose|k: int| 0 <= k < rest.len() && rest[k] == c;
                    assert(all[k] == c);
                } else {
                    assert(all[all.len() - 1] == c);
                }
            }
        }
    }
}

/// What one adoption pass decides: which root it goes by, and which
/// entities become its children.
pub struct AdoptionPlan {
    /// The root that was looked for. `Ambiguous` is to be reported: the
    /// pass then goes by the root found first.
    pub root: Lookup,
    /// The entities to put under the root, oldest first.
    pub children: Vec<u64>,
    /// The trackers that wait for the next pass, oldest first.
    pub waiting: Vec<u64>,
}

/// The children of a plan: with a root, the new trackers but for the root
/// itself; without one, none.
pub open spec fn planned_children(root: Lookup, fresh: Seq<u64>) -> Seq<u64> {
    match root.first_spec() {
        Some(r) => excluding(fresh, r),
        None => Seq::empty(),
    }
}

/// The trackers that a plan leaves waiting: without a root, all of them;
/// with one, none.
pub open spec fn planned_waiting(root: Lookup, fresh: Seq<u64>) -> Seq<u64> {
    match root.first_spec() {
        Some(_) => Seq::empty(),
        None => fresh,
    }
}

/// Plans one adoption pass from the roots that exist and the trackers that
/// wait. Without a root nothing is adopted and all go on waiting. With
/// several, the first found is taken. The root is never made its own child.
pub fn plan_adoption(roots: &Vec<u64>, fresh: &Vec<u64>) -> (plan: AdoptionPlan)
    ensures
        plan.root == classify_spec(roots@),
        plan.children@ == planned_children(plan.root, fresh@),
        plan.waiting@ == planned_waiting(plan.root, fresh@),
{
    let found = classify(roots);
    let mut children: Vec<u64> = Vec::new();
    let mut waiting: Vec<u64> = Vec::new();
    match found.first() {
        None => {
            waiting = copy_ids(fresh);
        },
        Some(root) => {
            let mut i: usize = 0;
            while i < fresh.len()
                invariant
                    i <= fresh.len(),
                    children@ == excluding(fresh@.take(i as int), root),
                decreases fresh.len() - i,
            {
                proof {
                    let next = fresh@.take(i + 1);
                    assert(next.drop_last() == fresh@.take(i as int));
                    assert(next.last() == fresh@[i as int]);
                }
                if fresh[i] != root {
                    children.push(fresh[i]);
                }
                i += 1;
            }
            proof {
                assert(fresh@.take(i as int) == fresh@);
            }
        },
    }
    AdoptionPlan { root: found, children, waiting }
}

/// The root lookup of a scene.
pub open spec fn root_of(nodes: Seq<Node>) -> Lookup {
    classify_spec(matching(nodes, Marker::TrackingRoot, None))
}

/// The entities after each of `children` got `root` as its parent.
pub open spec fn adopted(nodes: Seq<Node>, root: u64, children: Seq<u64>) -> Seq<Node> {
    Seq::new(
        nodes.len(),
        |i: int|
            if children.contains(i as u64) {
                Node { parent: Some(root), ..nodes[i] }
            } else {
                nodes[i]
            },
    )
}

/// The entities and the waiting trackers after one adoption pass.
pub open spec fn after_adoption(nodes: Seq<Node>, pending: Seq<u64>) -> (Seq<Node>, Seq<u64>) {
    let root = root_of(nodes);
    match root.first_spec() {
        None => (nodes, planned_waiting(root, pending)),
        Some(r) => (adopted(nodes, r, planned_children(root, pending)), planned_waiting(root, pending)),
    }
}

/// One adoption pass on the scene. While no root exists, nothing changes
/// and the trackers go on waiting. With a root, every waiting tracker gets
/// it as its parent and waits no longer.
pub fn adopt_open_xr_trackers(scene: &mut Scene) -> (plan: AdoptionPlan)
    requires
        old(scene).wf(),
    ensures
        final(scene).wf(),
        plan.root == root_of(old(scene)@),
        plan.children@ == planned_children(plan.root, old(scene).pending()),
        plan.waiting@ == final(scene).pending(),
        final(scene)@ == after_adoption(old(scene)@, old(scene).pending()).0,
        final(scene).pending() == after_adoption(old(scene)@, old(scene).pending()).1,
{
    let ghost before = scene@;
    let ghost waiting = scene.pending();
    let roots = scene.entities_with(Marker::TrackingRoot, None);
    let fresh = scene.pending_trackers();
    let plan = plan_adoption(&roots, &fresh);
    match plan.root.first() {
        None => {},
        Some(root) => {
            proof {
                lemma_matching_members(before, Marker::TrackingRoot, None);
                lemma_excluding_members(waiting, root);
                assert(roots@[0] == root);
                assert forall|k: int| 0 <= k < plan.children@.len() implies (
                #[trigger] plan.children@[k]) < before.len() && plan.children@[k] != root by {
                    assert(plan.children@.contains(plan.children@[k]));
                }
                assert(adopted(before, root, plan.children@.take(0)) =~= before);
            }
            let mut k: usize = 0;
            while k < plan.children.len()
                invariant
                    k <= plan.children.len(),
                    scene.wf(),
                    scene.pending() == waiting,
                    before.len() <= u64::MAX,
                    root < before.len(),
                    forall|j: int|
                        0 <= j < plan.children@.len() ==> (#[trigger] plan.children@[j])
                            < before.len() && plan.children@[j] != root,
                    scene@ == adopted(before, root, plan.children@.take(k as int)),
                decreases plan.children.len() - k,
            {
                let child: u64 = plan.children[k];
                let done = scene.set_parent(child, root);
                proof {
                    let sofar = plan.children@.take(k as int);
                    let next = plan.children@.take(k + 1);
                    assert(next == sofar.push(child));
                    assert forall|c: u64| next.contains(c) <==> (sofar.contains(c) || c == child) by {
                        if next.contains(c) {
                            let j = choose|j: int| 0 <= j < next.len() && next[j] == c;
                            if j < sofar.len() {
                                assert(sofar[j] == c);
                            }
                        }
                        if sofar.contains(c) {
                            let j = choose|j: int| 0 <= j < sofar.len() && sofar[j] == c;
                            assert(next[j] == c);
                        }
                        if c == child {
                            assert(next[k as int] == c);
                        }
                    }
                    assert(done);
                    assert(scene@ =~= adopted(before, root, next));
                }
                k += 1;
            }
            proof {
                assert(plan.children@.take(k as int) == plan.children@);
            }
            scene.clear_pending();
        },
    }
    plan
}

/// What became of one role in one tick.
#[derive(Clone, Copy, Debug, PartialEq, Eq, Structural)]
pub enum RoleOutcome {
    /// The pose goes to `entity`: translation and rotation together.
    Written { entity: u64, translation: SceneVec3, rotation: SceneQuat },
    /// The device gave no pose in this tick.
    NoPose,
    /// No entity carries the role.
    NoEntity,
    /// Several entities carry the role; this one was found first.
    ManyEntities(u64),
}

/// The outcome for a role: a write where there is a pose and exactly one
/// entity, else the reason why there is none.
pub open spec fn role_outcome_spec(target: Lookup, pose: Option<NativePose>) -> RoleOutcome {
    match pose {
        None => RoleOutcome::NoPose,
        Some(p) => match target {
            Lookup::Missing => RoleOutcome::NoEntity,
            Lookup::Ambiguous(first) => RoleOutcome::ManyEntities(first),
            Lookup::Unique(entity) => RoleOutcome::Written {
                entity,
                translation: p.position.to_vec3_spec(),
                rotation: p.orientation.to_quat_spec(),
            },
        },
    }
}

/// Decides what to do for one role from the entity lookup and the pose
/// that the device gave, and converts the pose where it is to be written.
pub fn plan_role_update(target: Lookup, pose: Option<NativePose>) -> (outcome: RoleOutcome)
    ensures
        outcome == role_outcome_spec(target, pose),
{
    match pose {
        None => RoleOutcome::NoPose,
        Some(p) => match target {
            Lookup::Missing => RoleOutcome::NoEntity,
            Lookup::Ambiguous(first) => RoleOutcome::ManyEntities(first),
            Lookup::Unique(entity) => RoleOutcome::Written {
                entity,
                translation: p.position.to_vec3(),
                rotation: p.orientation.to_quat(),
            },
        },
    }
}

/// The lookup of the controller entity of `hand`: the entities that carry
/// its marker and not that of the other hand.
pub open spec fn role_target(nodes: Seq<Node>, hand: Hand) -> Lookup {
    classify_spec(matching(nodes, hand.marker_spec(), Some(hand.excluded_spec())))
}

/// The entities after `outcome` was carried out.
pub open spec fn apply_outcome(nodes: Seq<Node>, outcome: RoleOutcome) -> Seq<Node> {
    match outcome {
        RoleOutcome::Written { entity, translation, rotation } => if entity < nodes.len() {
            nodes.update(
                entity as int,
                Node {
                    transform: SceneTransform {
                        translation,
                        rotation,
                        scale: nodes[entity as int].transform.scale,
                    },
                    ..nodes[entity as int]
                },
            )
        } else {
            nodes
        },
        _ => nodes,
    }
}

/// The entities after the role of `hand` was synchronized with `pose`.
pub open spec fn apply_role(nodes: Seq<Node>, hand: Hand, pose: Option<NativePose>) -> Seq<Node> {
    apply_outcome(nodes, role_outcome_spec(role_target(nodes, hand), pose))
}

/// Synchronizes one role: looks up its entity, and writes the pose where
/// there is a pose and exactly one entity.
pub fn sync_role(scene: &mut Scene, hand: Hand, pose: Option<NativePose>) -> (outcome: RoleOutcome)
    requires
        old(scene).wf(),
    ensures
        final(scene).wf(),
        final(scene).pending() == old(scene).pending(),
        outcome == role_outcome_spec(role_target(old(scene)@, hand), pose),
        final(scene)@ == apply_role(old(scene)@, hand, pose),
{
    let ids = scene.entities_with(hand.marker(), Some(hand.excluded()));
    let outcome = plan_role_update(classify(&ids), pose);
    match outcome {
        RoleOutcome::Written { entity, translation, rotation } => {
            let _ = scene.write_pose(entity, translation, rotation);
        },
        _ => {},
    }
    outcome
}

/// What became of one tick.
#[derive(Clone, Copy, Debug, PartialEq, Eq, Structural)]
pub enum SyncReport {
    /// No frame state was to be had: nothing was written.
    FrameUnavailable,
    /// Both roles were gone through, each by itself.
    Synced { left: RoleOutcome, right: RoleOutcome },
}

/// The entities after one synchronization pass.
pub open spec fn after_sync(
    nodes: Seq<Node>,
    frame: Option<FrameState>,
    left: Option<NativePose>,
    right: Option<NativePose>,
) -> Seq<Node> {
    match frame {
        None => nodes,
        Some(_) => apply_role(apply_role(nodes, Hand::Left, left), Hand::Right, right),
    }
}

/// The report of one synchronization pass.
pub open spec fn sync_report_spec(
    nodes: Seq<Node>,
    frame: Option<FrameState>,
    left: Option<NativePose>,
    right: Option<NativePose>,
) -> SyncReport {
    match frame {
        None => SyncReport::FrameUnavailable,
        Some(_) => SyncReport::Synced {
            left: role_outcome_spec(role_target(nodes, Hand::Left), left),
            right: role_outcome_spec(role_target(nodes, Hand::Right), right),
        },
    }
}

/// One synchronization pass. Without a frame state the tick is skipped and
/// every entity keeps what it had. With one, the left role and then the
/// right role are synchronized with the poses sampled for that frame; a
/// role without a pose, or without exactly one entity, is skipped by itself.
pub fn update_open_xr_controllers(
    scene: &mut Scene,
    frame: Option<FrameState>,
    left: Option<NativePose>,
    right: Option<NativePose>,
) -> (report: SyncReport)
    requires
        old(scene).wf(),
    ensures
        final(scene).wf(),
        final(scene).pending() == old(scene).pending(),
        report == sync_report_spec(old(scene)@, frame, left, right),
        final(scene)@ == after_sync(old(scene)@, frame, left, right),
{
    match frame {
        None => SyncReport::FrameUnavailable,
        Some(_) => {
            let ghost before = scene@;
            let l = sync_role(scene, Hand::Left, left);
            proof {
                lemma_role_write_keeps_targets(before, Hand::Left, left, Hand::Right);
            }
            let r = sync_role(scene, Hand::Right, right);
            SyncReport::Synced { left: l, right: r }
        },
    }
}

/// Synchronizing one role changes no marker and no parent, so every role
/// finds afterwards the entities it found before.
pub proof fn lemma_role_write_keeps_targets(
    nodes: Seq<Node>,
    hand: Hand,
    pose: Option<NativePose>,
    other: Hand,
)
    ensures
        apply_role(nodes, hand, pose).len() == nodes.len(),
        forall|i: int|
            0 <= i < nodes.len() ==> (#[trigger] apply_role(nodes, hand, pose)[i]).markers
                == nodes[i].markers && apply_role(nodes, hand, pose)[i].parent == nodes[i].parent,
        role_target(apply_role(nodes, hand, pose), other) == role_target(nodes, other),
        root_of(apply_role(nodes, hand, pose)) == root_of(nodes),
{
    let after = apply_role(nodes, hand, pose);
    lemma_matching_by_markers(after, nodes, other.marker_spec(), Some(other.excluded_spec()));
    lemma_matching_by_markers(after, nodes, Marker::TrackingRoot, None);
}

/// With a root, one adoption pass leaves no tracker waiting and puts every
/// tracker that waited, but for the root itself, under the root. It writes
/// no transform and no marker, and gives no other entity a new parent.
pub proof fn lemma_adoption_settles(nodes: Seq<Node>, pending: Seq<u64>, root: u64)
    requires
        scene_wf(nodes, pending),
        root_of(nodes).first_spec() == Some(root),
    ensures
        root < nodes.len(),
        nodes[root as int].markers.contains(Marker::TrackingRoot),
        after_adoption(nodes, pending).1.len() == 0,
        after_adoption(nodes, pending).0.len() == nodes.len(),
        scene_wf(after_adoption(nodes, pending).0, after_adoption(nodes, pending).1),
        forall|k: int|
            0 <= k < pending.len() && (#[trigger] pending[k]) != root ==> after_adoption(
                nodes,
                pending,
            ).0[pending[k] as int].parent == Some(root),
        forall|i: int|
            0 <= i < nodes.len() ==> {
                let now = #[trigger] after_adoption(nodes, pending).0[i];
                &&& now.markers == nodes[i].markers
                &&& now.transform == nodes[i].transform
                &&& now.parent == if pending.contains(i as u64) && i != root {
                    Some(root)
                } else {
                    nodes[i].parent
                }
            },
{
    lemma_matching_members(nodes, Marker::TrackingRoot, None);
    lemma_excluding_members(pending, root);
    let roots = matching(nodes, Marker::TrackingRoot, None);
    assert(roots[0] == root);
    let after = after_adoption(nodes, pending).0;
    assert forall|k: int| 0 <= k < pending.len() && (#[trigger] pending[k]) != root implies after[pending[k] as int].parent
        == Some(root) by {
        assert(pending.contains(pending[k]));
        assert(excluding(pending, root).contains(pending[k]));
    }
    assert forall|i: int| 0 <= i < after.len() implies match (#[trigger] after[i]).parent {
        Some(p) => p < after.len() && p != i,
        None => true,
    } by {
        assert(after[i].parent == nodes[i].parent || (after[i].parent == Some(root) && i != root));
    }
}

/// A second adoption pass right after the first changes nothing: no entity
/// is reparented again, and none waits again.
pub proof fn lemma_adoption_idempotent(nodes: Seq<Node>, pending: Seq<u64>)
    requires
        scene_wf(nodes, pending),
    ensures
        ({
            let once = after_adoption(nodes, pending);
            after_adoption(once.0, once.1) == once
        }),
{
    let once = after_adoption(nodes, pending);
    match root_of(nodes).first_spec() {
        None => {},
        Some(r) => {
            lemma_matching_by_markers(once.0, nodes, Marker::TrackingRoot, None);
            let empty = Seq::<u64>::empty();
            assert(excluding(empty, r) == empty);
            assert(adopted(once.0, r, empty) =~= once.0);
            let twice = after_adoption(once.0, once.1);
            assert(twice.0 == once.0);
            assert(twice.1 == once.1);
        },
    }
}

/// While no entity carries the root marker, an adoption pass changes
/// nothing: every parent stays, and every tracker goes on waiting.
pub proof fn lemma_no_root_no_change(nodes: Seq<Node>, pending: Seq<u64>)
    requires
        nodes.len() <= u64::MAX,
        forall|i: int| 0 <= i < nodes.len() ==> !(#[trigger] nodes[i]).markers.contains(Marker::TrackingRoot),
    ensures
        root_of(nodes) == Lookup::Missing,
        after_adoption(nodes, pending) == (nodes, pending),
{
    lemma_matching_members(nodes, Marker::TrackingRoot, None);
    let roots = matching(nodes, Marker::TrackingRoot, None);
    if roots.len() > 0 {
        let id = roots[0];
        assert(nodes[id as int].markers.contains(Marker::TrackingRoot));
    }
}

/// Without a frame state a pass leaves every entity as it was, whatever
/// poses it was handed.
pub proof fn lemma_skipped_tick_keeps_poses(
    nodes: Seq<Node>,
    left: Option<NativePose>,
    right: Option<NativePose>,
)
    ensures
        after_sync(nodes, None, left, right) == nodes,
        sync_report_spec(nodes, None, left, right) == SyncReport::FrameUnavailable,
{
}

/// After a pass, the transform of an entity is the one it had, or has
/// translation and rotation both from the left sample, or both from the
/// right sample: never one part from one sample and the other part from
/// elsewhere. Markers, parents and scales stay.
pub proof fn lemma_pose_atomic(
    nodes: Seq<Node>,
    frame: Option<FrameState>,
    left: Option<NativePose>,
    right: Option<NativePose>,
    i: int,
)
    requires
        0 <= i < nodes.len(),
    ensures
        after_sync(nodes, frame, left, right).len() == nodes.len(),
        after_sync(nodes, frame, left, right)[i].markers == nodes[i].markers,
        after_sync(nodes, frame, left, right)[i].parent == nodes[i].parent,
        ({
            let had = nodes[i].transform;
            let has = after_sync(nodes, frame, left, right)[i].transform;
            ||| has == had
            ||| (frame is Some && left is Some && has == had.posed(left.unwrap()))
            ||| (frame is Some && right is Some && has == had.posed(right.unwrap()))
        }),
{
    let mid = apply_role(nodes, Hand::Left, left);
    lemma_role_write_keeps_targets(nodes, Hand::Left, left, Hand::Right);
    lemma_role_write_keeps_targets(mid, Hand::Right, right, Hand::Left);
    assert(mid[i].transform == nodes[i].transform || (left is Some && mid[i].transform
        == nodes[i].transform.posed(left.unwrap())));
}

/// The pose of one hand reaches the one entity of that hand whatever
/// holds of the other hand: its pose, the number of its entities.
pub proof fn lemma_role_isolation(
    nodes: Seq<Node>,
    frame: FrameState,
    hand: Hand,
    pose: NativePose,
    other: Option<NativePose>,
    entity: u64,
)
    requires
        nodes.len() <= u64::MAX,
        role_target(nodes, hand) == Lookup::Unique(entity),
    ensures
        entity < nodes.len(),
        ({
            let left = if hand == Hand::Left { Some(pose) } else { other };
            let right = if hand == Hand::Left { other } else { Some(pose) };
            let after = after_sync(nodes, Some(frame), left, right);
            after.len() == nodes.len()
                && after[entity as int].transform == nodes[entity as int].transform.posed(pose)
        }),
{
    let left = if hand == Hand::Left { Some(pose) } else { other };
    let right = if hand == Hand::Left { other } else { Some(pose) };
    let mine = matching(nodes, hand.marker_spec(), Some(hand.excluded_spec()));
    let theirs = matching(nodes, hand.excluded_spec(), Some(hand.marker_spec()));
    lemma_matching_members(nodes, hand.marker_spec(), Some(hand.excluded_spec()));
    lemma_matching_members(nodes, hand.excluded_spec(), Some(hand.marker_spec()));
    assert(mine[0] == entity);
    if theirs.len() > 0 {
        assert(theirs[0] != entity);
    }
    lemma_role_write_keeps_targets(nodes, Hand::Left, left, Hand::Right);
}

} // verus!
