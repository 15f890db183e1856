use xr_trackers::markers::{
    Hand, Marker, MarkerSet, MarkerTag, OpenXRController, OpenXRHMD, OpenXRLeftController,
    OpenXRLeftEye, OpenXRRightController, OpenXRRightEye, OpenXRTracker, OpenXRTrackingRoot,
};
use xr_trackers::pose::{
    FrameState, NativePose, NativeQuat, NativeVec3, SceneQuat, SceneTransform, SceneVec3,
    ONE_BITS, ZERO_BITS,
};
use xr_trackers::scene::{Lookup, Scene};
use xr_trackers::trackers::{
    adopt_open_xr_trackers, plan_role_update, sync_role, update_open_xr_controllers, RoleOutcome,
    SyncReport,
};

fn bits(x: f32) -> u32 {
    x.to_bits()
}

fn pose(p: (f32, f32, f32), q: (f32, f32, f32, f32)) -> NativePose {
    NativePose {
        orientation: NativeQuat { x: bits(q.0), y: bits(q.1), z: bits(q.2), w: bits(q.3) },
        position: NativeVec3 { x: bits(p.0), y: bits(p.1), z: bits(p.2) },
    }
}

fn vec3(x: f32, y: f32, z: f32) -> SceneVec3 {
    SceneVec3 { x: bits(x), y: bits(y), z: bits(z) }
}

fn quat(x: f32, y: f32, z: f32, w: f32) -> SceneQuat {
    SceneQuat { x: bits(x), y: bits(y), z: bits(z), w: bits(w) }
}

fn frame() -> Option<FrameState> {
    Some(FrameState { predicted_display_time: 1_000, should_render: true })
}

fn left_markers() -> MarkerSet {
    MarkerSet::empty()
        .tagged(OpenXRLeftController)
        .tagged(OpenXRController)
        .tagged(OpenXRTracker)
}

fn right_markers() -> MarkerSet {
    MarkerSet::empty()
        .tagged(OpenXRRightController)
        .tagged(OpenXRController)
        .tagged(OpenXRTracker)
}

#[test]
fn bit_constants_are_zero_and_one() {
    assert_eq!(ZERO_BITS, bits(0.0));
    assert_eq!(ONE_BITS, bits(1.0));
    let id = SceneTransform::identity();
    assert_eq!(id.translation, vec3(0.0, 0.0, 0.0));
    assert_eq!(id.rotation, quat(0.0, 0.0, 0.0, 1.0));
    assert_eq!(id.scale, vec3(1.0, 1.0, 1.0));
}

#[test]
fn marker_types_stand_for_their_values() {
    assert_eq!(OpenXRTrackingRoot::marker(), Marker::TrackingRoot);
    assert_eq!(OpenXRTracker::marker(), Marker::Tracker);
    assert_eq!(OpenXRLeftEye::marker(), Marker::LeftEye);
    assert_eq!(OpenXRRightEye::marker(), Marker::RightEye);
    assert_eq!(OpenXRHMD::marker(), Marker::HMD);
    assert_eq!(OpenXRLeftController::marker(), Marker::LeftController);
    assert_eq!(OpenXRRightController::marker(), Marker::RightController);
    assert_eq!(OpenXRController::marker(), Marker::Controller);
    assert_eq!(Hand::Left.marker(), Marker::LeftController);
    assert_eq!(Hand::Left.excluded(), Marker::RightController);
    assert_eq!(Hand::Right.marker(), Marker::RightController);
    assert_eq!(Hand::Right.excluded(), Marker::LeftController);
}

#[test]
fn marker_set_adds_one_marker_at_a_time() {
    let all = [
        Marker::TrackingRoot,
        Marker::Tracker,
        Marker::LeftEye,
        Marker::RightEye,
        Marker::HMD,
        Marker::LeftController,
        Marker::RightController,
        Marker::Controller,
    ];
    for m in all {
        assert!(!MarkerSet::empty().has(m));
        let one = MarkerSet::empty().with(m);
        for k in all {
            assert_eq!(one.has(k), k == m);
        }
        assert_eq!(one.with(m), one);
    }
    let set = MarkerSet::empty().tagged(OpenXRHMD).tagged(OpenXRLeftEye);
    assert!(set.has(Marker::HMD) && set.has(Marker::LeftEye) && !set.has(Marker::RightEye));
}

#[test]
fn conversion_carries_every_component_over() {
    let p = pose((1.5, -2.25, 3.0), (0.5, -0.5, 0.5, 0.5));
    assert_eq!(p.position.to_vec3(), vec3(1.5, -2.25, 3.0));
    assert_eq!(p.orientation.to_quat(), quat(0.5, -0.5, 0.5, 0.5));
    assert_ne!(p.position.to_vec3(), vec3(3.0, -2.25, 1.5));
    assert_ne!(p.orientation.to_quat(), quat(0.5, 0.5, 0.5, -0.5));
}

#[test]
fn conversion_twice_gives_the_same_bits() {
    let p = pose((0.1, 0.2, 0.3), (0.0, 0.0, 0.0, 1.0));
    assert_eq!(p.position.to_vec3(), p.position.to_vec3());
    assert_eq!(p.orientation.to_quat(), p.orientation.to_quat());
    let odd = NativeVec3 { x: 0x7FC0_0001, y: 0x8000_0000, z: 0xFFFF_FFFF };
    assert_eq!(odd.to_vec3(), SceneVec3 { x: 0x7FC0_0001, y: 0x8000_0000, z: 0xFFFF_FFFF });
}

#[test]
fn conversion_does_not_normalize() {
    let q = NativeQuat { x: bits(2.0), y: bits(0.0), z: bits(0.0), w: bits(2.0) };
    assert_eq!(q.to_quat(), quat(2.0, 0.0, 0.0, 2.0));
}

#[test]
fn with_pose_keeps_the_scale() {
    let t = SceneTransform {
        translation: vec3(9.0, 9.0, 9.0),
        rotation: quat(1.0, 0.0, 0.0, 0.0),
        scale: vec3(2.0, 3.0, 4.0),
    };
    let u = t.with_pose(&pose((1.0, 2.0, 3.0), (0.0, 0.0, 0.0, 1.0)));
    assert_eq!(u.translation, vec3(1.0, 2.0, 3.0));
    assert_eq!(u.rotation, quat(0.0, 0.0, 0.0, 1.0));
    assert_eq!(u.scale, vec3(2.0, 3.0, 4.0));
}

#[test]
fn role_plan_names_each_reason() {
    let p = pose((1.0, 2.0, 3.0), (0.0, 0.0, 0.0, 1.0));
    assert_eq!(plan_role_update(Lookup::Unique(4), None), RoleOutcome::NoPose);
    assert_eq!(plan_role_update(Lookup::Missing, None), RoleOutcome::NoPose);
    assert_eq!(plan_role_update(Lookup::Missing, Some(p)), RoleOutcome::NoEntity);
    assert_eq!(plan_role_update(Lookup::Ambiguous(2), Some(p)), RoleOutcome::ManyEntities(2));
    assert_eq!(
        plan_role_update(Lookup::Unique(4), Some(p)),
        RoleOutcome::Written {
            entity: 4,
            translation: vec3(1.0, 2.0, 3.0),
            rotation: quat(0.0, 0.0, 0.0, 1.0),
        }
    );
}

#[test]
fn adopted_left_controller_takes_the_fed_pose() {
    let mut scene = Scene::new();
    let root = scene.spawn(MarkerSet::empty().tagged(OpenXRTrackingRoot), SceneTransform::identity());
    let left = scene.spawn(left_markers(), SceneTransform::identity());
    adopt_open_xr_trackers(&mut scene);
    assert_eq!(scene.node(left).unwrap().parent, Some(root));

    let p = pose((1.0, 2.0, 3.0), (0.0, 0.0, 0.0, 1.0));
    let report = update_open_xr_controllers(&mut scene, frame(), Some(p), None);
    assert_eq!(
        report,
        SyncReport::Synced {
            left: RoleOutcome::Written {
                entity: left,
                translation: vec3(1.0, 2.0, 3.0),
                rotation: quat(0.0, 0.0, 0.0, 1.0),
            },
            right: RoleOutcome::NoPose,
        }
    );
    let node = scene.node(left).unwrap();
    assert_eq!(node.transform.translation, vec3(1.0, 2.0, 3.0));
    assert_eq!(node.transform.rotation, quat(0.0, 0.0, 0.0, 1.0));
    assert_eq!(node.transform.scale, vec3(1.0, 1.0, 1.0));
    assert_eq!(node.parent, Some(root));
    assert_eq!(scene.node(root).unwrap().transform, SceneTransform::identity());
}

#[test]
fn unready_frames_keep_the_last_pose() {
    let mut scene = Scene::new();
    let left = scene.spawn(left_markers(), SceneTransform::identity());
    let first = pose((1.0, 2.0, 3.0), (0.0, 1.0, 0.0, 0.0));
    update_open_xr_controllers(&mut scene, frame(), Some(first), None);
    let at_tick_0 = scene.node(left).unwrap().transform;
    assert_eq!(at_tick_0.translation, vec3(1.0, 2.0, 3.0));
    assert_eq!(at_tick_0.rotation, quat(0.0, 1.0, 0.0, 0.0));

    let later = pose((7.0, 8.0, 9.0), (0.0, 0.0, 0.0, 1.0));
    for _ in 0..2 {
        let report = update_open_xr_controllers(&mut scene, None, Some(later), Some(later));
        assert_eq!(report, SyncReport::FrameUnavailable);
        assert_eq!(scene.node(left).unwrap().transform, at_tick_0);
    }
    assert_ne!(scene.node(left).unwrap().transform, SceneTransform::identity());
}

#[test]
fn left_is_updated_while_right_has_no_entity() {
    let mut scene = Scene::new();
    let left = scene.spawn(left_markers(), SceneTransform::identity());
    let l = pose((1.0, 0.0, 0.0), (0.0, 0.0, 1.0, 0.0));
    let r = pose((5.0, 5.0, 5.0), (1.0, 0.0, 0.0, 0.0));
    let report = update_open_xr_controllers(&mut scene, frame(), Some(l), Some(r));
    match report {
        SyncReport::Synced { left: lo, right: ro } => {
            assert!(matches!(lo, RoleOutcome::Written { entity, .. } if entity == left));
            assert_eq!(ro, RoleOutcome::NoEntity);
        }
        SyncReport::FrameUnavailable => panic!("the frame was there"),
    }
    let t = scene.node(left).unwrap().transform;
    assert_eq!(t.translation, vec3(1.0, 0.0, 0.0));
    assert_eq!(t.rotation, quat(0.0, 0.0, 1.0, 0.0));
}

#[test]
fn right_is_updated_while_left_has_no_entity() {
    let mut scene = Scene::new();
    let right = scene.spawn(right_markers(), SceneTransform::identity());
    let l = pose((1.0, 0.0, 0.0), (0.0, 0.0, 1.0, 0.0));
    let r = pose((5.0, 6.0, 7.0), (1.0, 0.0, 0.0, 0.0));
    let report = update_open_xr_controllers(&mut scene, frame(), Some(l), Some(r));
    assert_eq!(
        report,
        SyncReport::Synced {
            left: RoleOutcome::NoEntity,
            right: RoleOutcome::Written {
                entity: right,
                translation: vec3(5.0, 6.0, 7.0),
                rotation: quat(1.0, 0.0, 0.0, 0.0),
            },
        }
    );
    assert_eq!(scene.node(right).unwrap().transform.translation, vec3(5.0, 6.0, 7.0));
}

#[test]
fn each_hand_gets_its_own_pose() {
    let mut scene = Scene::new();
    let right = scene.spawn(right_markers(), SceneTransform::identity());
    let left = scene.spawn(left_markers(), SceneTransform::identity());
    let l = pose((-1.0, 1.0, 0.0), (0.0, 0.0, 0.0, 1.0));
    let r = pose((1.0, 1.0, 0.0), (0.0, 1.0, 0.0, 0.0));
    update_open_xr_controllers(&mut scene, frame(), Some(l), Some(r));
    assert_eq!(scene.node(left).unwrap().transform.translation, vec3(-1.0, 1.0, 0.0));
    assert_eq!(scene.node(left).unwrap().transform.rotation, quat(0.0, 0.0, 0.0, 1.0));
    assert_eq!(scene.node(right).unwrap().transform.translation, vec3(1.0, 1.0, 0.0));
    assert_eq!(scene.node(right).unwrap().transform.rotation, quat(0.0, 1.0, 0.0, 0.0));
}

#[test]
fn a_later_sample_replaces_both_parts() {
    let mut scene = Scene::new();
    let left = scene.spawn(left_markers(), SceneTransform::identity());
    let k0 = pose((1.0, 1.0, 1.0), (1.0, 0.0, 0.0, 0.0));
    let k1 = pose((2.0, 2.0, 2.0), (0.0, 1.0, 0.0, 0.0));
    update_open_xr_controllers(&mut scene, frame(), Some(k0), None);
    update_open_xr_controllers(&mut scene, frame(), Some(k1), None);
    let t = scene.node(left).unwrap().transform;
    assert_eq!((t.translation, t.rotation), (vec3(2.0, 2.0, 2.0), quat(0.0, 1.0, 0.0, 0.0)));
    update_open_xr_controllers(&mut scene, frame(), None, None);
    let t = scene.node(left).unwrap().transform;
    assert_eq!((t.translation, t.rotation), (vec3(2.0, 2.0, 2.0), quat(0.0, 1.0, 0.0, 0.0)));
}

#[test]
fn several_entities_for_a_role_are_reported_and_left_alone() {
    let mut scene = Scene::new();
    let a = scene.spawn(left_markers(), SceneTransform::identity());
    let b = scene.spawn(left_markers(), SceneTransform::identity());
    let right = scene.spawn(right_markers(), SceneTransform::identity());
    let p = pose((1.0, 2.0, 3.0), (0.0, 0.0, 0.0, 1.0));
    let report = update_open_xr_controllers(&mut scene, frame(), Some(p), Some(p));
    assert!(matches!(
        report,
        SyncReport::Synced { left: RoleOutcome::ManyEntities(first), right: RoleOutcome::Written { entity, .. } }
            if first == a && entity == right
    ));
    assert_eq!(scene.node(a).unwrap().transform, SceneTransform::identity());
    assert_eq!(scene.node(b).unwrap().transform, SceneTransform::identity());
    assert_eq!(scene.node(right).unwrap().transform.translation, vec3(1.0, 2.0, 3.0));
}

#[test]
fn an_entity_with_both_hand_markers_belongs_to_neither() {
    let mut scene = Scene::new();
    let both = scene.spawn(left_markers().with(Marker::RightController), SceneTransform::identity());
    let p = pose((1.0, 2.0, 3.0), (0.0, 0.0, 0.0, 1.0));
    let report = update_open_xr_controllers(&mut scene, frame(), Some(p), Some(p));
    assert_eq!(
        report,
        SyncReport::Synced { left: RoleOutcome::NoEntity, right: RoleOutcome::NoEntity }
    );
    assert_eq!(scene.node(both).unwrap().transform, SceneTransform::identity());
}

#[test]
fn sync_role_writes_one_role_only() {
    let mut scene = Scene::new();
    let left = scene.spawn(left_markers(), SceneTransform::identity());
    let right = scene.spawn(right_markers(), SceneTransform::identity());
    let p = pose((4.0, 5.0, 6.0), (0.0, 0.0, 0.0, 1.0));
    let outcome = sync_role(&mut scene, Hand::Right, Some(p));
    assert!(matches!(outcome, RoleOutcome::Written { entity, .. } if entity == right));
    assert_eq!(scene.node(left).unwrap().transform, SceneTransform::identity());
    assert_eq!(scene.node(right).unwrap().transform.translation, vec3(4.0, 5.0, 6.0));
    assert_eq!(sync_role(&mut scene, Hand::Left, None), RoleOutcome::NoPose);
    assert_eq!(scene.pending_len(), 2);
}

#[test]
fn write_pose_refuses_what_does_not_exist() {
    let mut scene = Scene::new();
    let a = scene.spawn(MarkerSet::empty(), SceneTransform::identity());
    assert!(!scene.write_pose(1, vec3(1.0, 1.0, 1.0), quat(0.0, 0.0, 0.0, 1.0)));
    assert_eq!(scene.node(a).unwrap().transform, SceneTransform::identity());
    assert!(scene.write_pose(a, vec3(1.0, 1.0, 1.0), quat(0.0, 1.0, 0.0, 0.0)));
    let t = scene.node(a).unwrap().transform;
    assert_eq!(t.translation, vec3(1.0, 1.0, 1.0));
    assert_eq!(t.rotation, quat(0.0, 1.0, 0.0, 0.0));
    assert_eq!(t.scale, vec3(1.0, 1.0, 1.0));
}
