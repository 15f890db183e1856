//! Marker capabilities that an application attaches to the entities it
//! creates, and the closed set of them that an entity carries.

use vstd::prelude::*;

verus! {

/// Marks the node under which every tracked entity is parented.
#[derive(Clone, Copy, Debug, Default)]
pub struct OpenXRTrackingRoot;

/// Marks an entity that follows a physical device.
#[derive(Clone, Copy, Debug, Default)]
pub struct OpenXRTracker;

/// Marks the proxy of the left eye.
#[derive(Clone, Copy, Debug, Default)]
pub struct OpenXRLeftEye;

/// Marks the proxy of the right eye.
#[derive(Clone, Copy, Debug, Default)]
pub struct OpenXRRightEye;

/// Marks the proxy of the head-mounted display.
#[derive(Clone, Copy, Debug, Default)]
pub struct OpenXRHMD;

/// Marks the proxy of the left hand controller.
#[derive(Clone, Copy, Debug, Default)]
pub struct OpenXRLeftController;

/// Marks the proxy of the right hand controller.
#[derive(Clone, Copy, Debug, Default)]
pub struct OpenXRRightController;

/// Marks the proxy of any hand controller.
#[derive(Clone, Copy, Debug, Default)]
pub struct OpenXRController;

/// The closed set of marker capabilities, as values.
#[derive(Clone, Copy, Debug, PartialEq, Eq, Structural)]
pub enum Marker {
    TrackingRoot,
    Tracker,
    LeftEye,
    RightEye,
    HMD,
    LeftController,
    RightController,
    Controller,
}

/// A marker type, seen as the `Marker` value it stands for.
pub trait MarkerTag {
    /// The value that the type stands for.
    spec fn marker_spec() -> Marker;

    /// The value that the type stands for.
    fn marker() -> (m: Marker)
        ensures
            m == Self::marker_spec(),
    ;
}

impl MarkerTag for OpenXRTrackingRoot {
    open spec fn marker_spec() -> Marker {
        Marker::TrackingRoot
    }

    fn marker() -> (m: Marker) {
        Marker::TrackingRoot
    }
}

impl MarkerTag for OpenXRTracker {
    open spec fn marker_spec() -> Marker {
        Marker::Tracker
    }

    fn marker() -> (m: Marker) {
        Marker::Tracker
    }
}

impl MarkerTag for OpenXRLeftEye {
    open spec fn marker_spec() -> Marker {
        Marker::LeftEye
    }

    fn marker() -> (m: Marker) {
        Marker::LeftEye
    }
}

impl MarkerTag for OpenXRRightEye {
    open spec fn marker_spec() -> Marker {
        Marker::RightEye
    }

    fn marker() -> (m: Marker) {
        Marker::RightEye
    }
}

impl MarkerTag for OpenXRHMD {
    open spec fn marker_spec() -> Marker {
        Marker::HMD
    }

    fn marker() -> (m: Marker) {
        Marker::HMD
    }
}

impl MarkerTag for OpenXRLeftController {
    open spec fn marker_spec() -> Marker {
        Marker::LeftController
    }

    fn marker() -> (m: Marker) {
        Marker::LeftController
    }
}

impl MarkerTag for OpenXRRightController {
    open spec fn marker_spec() -> Marker {
        Marker::RightController
    }

    fn marker() -> (m: Marker) {
        Marker::RightController
    }
}

impl MarkerTag for OpenXRController {
    open spec fn marker_spec() -> Marker {
        Marker::Controller
    }

    fn marker() -> (m: Marker) {
        Marker::Controller
    }
}

/// The markers that one entity carries.
#[derive(Clone, Copy, Debug, PartialEq, Eq, Structural)]
pub struct MarkerSet {
    pub tracking_root: bool,
    pub tracker: bool,
    pub left_eye: bool,
    pub right_eye: bool,
    pub hmd: bool,
    pub left_controller: bool,
    pub right_controller: bool,
    pub controller: bool,
}

impl MarkerSet {
    /// Whether the set holds `m`.
    pub open spec fn contains(self, m: Marker) -> bool {
        match m {
            Marker::TrackingRoot => self.tracking_root,
            Marker::Tracker => self.tracker,
            Marker::LeftEye => self.left_eye,
            Marker::RightEye => self.right_eye,
            Marker::HMD => self.hmd,
            Marker::LeftController => self.left_controller,
            Marker::RightController => self.right_controller,
            Marker::Controller => self.controller,
        }
    }

    /// The set with no marker in it.
    pub fn empty() -> (s: MarkerSet)
        ensures
            forall|m: Marker| !s.contains(m),
    {
        MarkerSet {
            tracking_root: false,
            tracker: false,
            left_eye: false,
            right_eye: false,
            hmd: false,
            left_controller: false,
            right_controller: false,
            controller: false,
        }
    }

    /// Whether the set holds `m`.
    pub fn has(&self, m: Marker) -> (b: bool)
        ensures
            b == self.contains(m),
    {
        match m {
            Marker::TrackingRoot => self.tracking_root,
            Marker::Tracker => self.tracker,
            Marker::LeftEye => self.left_eye,
            Marker::RightEye => self.right_eye,
            Marker::HMD => self.hmd,
            Marker::LeftController => self.left_controller,
            Marker::RightController => self.right_controller,
            Marker::Controller => self.controller,
        }
    }

    /// The set with `m` added; every other marker stays as it was.
    pub fn with(self, m: Marker) -> (s: MarkerSet)
        ensures
            forall|k: Marker| s.contains(k) == (k == m || self.contains(k)),
    {
        let mut s = self;
        match m {
            Marker::TrackingRoot => { s.tracking_root = true; },
            Marker::Tracker => { s.tracker = true; },
            Marker::LeftEye => { s.left_eye = true; },
            Marker::RightEye => { s.right_eye = true; },
            Marker::HMD => { s.hmd = true; },
            Marker::LeftController => { s.left_controller = true; },
            Marker::RightController => { s.right_controller = true; },
            Marker::Controller => { s.controller = true; },
        }
        s
    }

    /// The set with the marker of the type `T` added.
    pub fn tagged<T: MarkerTag>(self, tag: T) -> (s: MarkerSet)
        ensures
            forall|k: Marker| s.contains(k) == (k == T::marker_spec() || self.contains(k)),
    {
        self.with(T::marker())
    }
}

/// The two hands whose controllers are synchronized.
#[derive(Clone, Copy, Debug, PartialEq, Eq, Structural)]
pub enum Hand {
    Left,
    Right,
}

impl Hand {
    /// The marker that the controller entity of this hand carries.
    pub open spec fn marker_spec(self) -> Marker {
        match self {
            Hand::Left => Marker::LeftController,
            Hand::Right => Marker::RightController,
        }
    }

    /// The marker that the controller entity of this hand must not carry.
    pub open spec fn excluded_spec(self) -> Marker {
        match self {
            Hand::Left => Marker::RightController,
            Hand::Right => Marker::LeftController,
        }
    }

    /// The marker that the controller entity of this hand carries.
    pub fn marker(self) -> (m: Marker)
        ensures
            m == self.marker_spec(),
    {
        match self {
            Hand::Left => Marker::LeftController,
            Hand::Right => Marker::RightController,
        }
    }

    /// The marker that the controller entity of this hand must not carry.
    pub fn excluded(self) -> (m: Marker)
        ensures
            m == self.excluded_spec(),
    {
        match self {
            Hand::Left => Marker::RightController,
            Hand::Right => Marker::LeftController,
        }
    }
}

} // verus!
