//! Cell features: fortifications and obstacles layered on top of terrain.

use vstd::prelude::*;
use crate::unit::UnitType;

verus! {

/// A feature that a cell may carry, at most one of each kind.
#[derive(Clone, Copy, Debug, PartialEq, Eq, Structural, Hash)]
pub enum Feature {
    Bridge,
    Sandbags,
    BarbedWire,
}

/// Dice-count protection granted by one feature, independent of the
/// defender's type.
pub open spec fn feature_protection_spec(f: Feature) -> int {
    match f {
        Feature::Bridge => 0,
        Feature::Sandbags => 1,
        Feature::BarbedWire => 0,
    }
}

impl Feature {
    /// Protection this feature grants the cell's occupant.
    pub fn protection(&self) -> (p: u8)
        ensures
            p == feature_protection_spec(*self),
    {
        match *self {
            Feature::Bridge => 0,
            Feature::Sandbags => 1,
            Feature::BarbedWire => 0,
        }
    }
}

/// The set of features on a cell: a subset of the three feature kinds.
#[derive(Clone, Copy, Debug, PartialEq, Eq, Structural)]
pub struct Features {
    pub bridge: bool,
    pub sandbags: bool,
    pub barbed_wire: bool,
}

/// Whether the feature set holds the given feature.
pub open spec fn contains_spec(fs: Features, f: Feature) -> bool {
    match f {
        Feature::Bridge => fs.bridge,
        Feature::Sandbags => fs.sandbags,
        Feature::BarbedWire => fs.barbed_wire,
    }
}

/// The largest protection value over the features present on the cell.
pub open spec fn features_protection_spec(fs: Features) -> int {
    let b = if fs.bridge {
        feature_protection_spec(Feature::Bridge)
    } else {
        0
    };
    let s = if fs.sandbags {
        feature_protection_spec(Feature::Sandbags)
    } else {
        0
    };
    let w = if fs.barbed_wire {
        feature_protection_spec(Feature::BarbedWire)
    } else {
        0
    };
    if b >= s && b >= w {
        b
    } else if s >= w {
        s
    } else {
        w
    }
}

/// Whether the feature set ends a move for the given unit type: barbed
/// wire stops infantry and nothing else.
pub open spec fn features_stop_spec(fs: Features, unit_type: UnitType) -> bool {
    unit_type is Infantry && fs.barbed_wire
}

impl Features {
    /// The empty feature set.
    pub fn none() -> (fs: Features)
        ensures
            fs == (Features { bridge: false, sandbags: false, barbed_wire: false }),
    {
        Features { bridge: false, sandbags: false, barbed_wire: false }
    }

    /// The largest protection value over the features present.
    pub fn protection(&self) -> (p: u8)
        ensures
            p == features_protection_spec(*self),
    {
        let b: u8 = if self.bridge {
            Feature::Bridge.protection()
        } else {
            0
        };
        let s: u8 = if self.sandbags {
            Feature::Sandbags.protection()
        } else {
            0
        };
        let w: u8 = if self.barbed_wire {
            Feature::BarbedWire.protection()
        } else {
            0
        };
        if b >= s && b >= w {
            b
        } else if s >= w {
            s
        } else {
            w
        }
    }

    /// Whether the set holds the given feature.
    pub fn contains(&self, feature: &Feature) -> (b: bool)
        ensures
            b == contains_spec(*self, *feature),
    {
        match *feature {
            Feature::Bridge => self.bridge,
            Feature::Sandbags => self.sandbags,
            Feature::BarbedWire => self.barbed_wire,
        }
    }

    /// Remove the given feature; the other features are unchanged.
    pub fn remove(&mut self, feature: &Feature)
        ensures
            !contains_spec(*final(self), *feature),
            forall|g: Feature|
                g != *feature ==> contains_spec(*final(self), g) == contains_spec(*old(self), g),
    {
        match *feature {
            Feature::Bridge => {
                self.bridge = false;
            },
            Feature::Sandbags => {
                self.sandbags = false;
            },
            Feature::BarbedWire => {
                self.barbed_wire = false;
            },
        }
    }

    /// Insert the given feature; the other features are unchanged.
    pub fn insert(&mut self, feature: &Feature)
        ensures
            contains_spec(*final(self), *feature),
            forall|g: Feature|
                g != *feature ==> contains_spec(*final(self), g) == contains_spec(*old(self), g),
    {
        match *feature {
            Feature::Bridge => {
                self.bridge = true;
            },
            Feature::Sandbags => {
                self.sandbags = true;
            },
            Feature::BarbedWire => {
                self.barbed_wire = true;
            },
        }
    }

    /// Whether the features end a move for the given unit type.
    pub fn stops_movement(&self, unit_type: UnitType) -> (b: bool)
        ensures
            b == features_stop_spec(*self, unit_type),
    {
        match unit_type {
            UnitType::Infantry => self.contains(&Feature::BarbedWire),
            _ => false,
        }
    }
}

impl Default for Features {
    /// A cell carries no features by default.
    fn default() -> (fs: Features)
        ensures
            fs == (Features { bridge: false, sandbags: false, barbed_wire: false }),
    {
        Features { bridge: false, sandbags: false, barbed_wire: false }
    }
}

} // verus!
