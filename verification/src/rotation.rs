//! Rotation of the current image.
//!
//! The rotation state holds one of the four quarter-turn orientations, in
//! degrees.  Every update is normalized into `[0, 360)`, so the angle never
//! accumulates beyond a full turn.  Rotation is a per-image transform: it is
//! reset whenever the current image changes.

use vstd::prelude::*;

verus! {

/// A rotation intent: one quarter turn clockwise or counter-clockwise.
#[derive(Clone, Debug)]
pub enum Rotation {
    Right,
    Left,
}

/// Degrees in a quarter turn.
pub const QUARTER_TURN: u16 = 90;

/// Degrees in a full turn.
pub const FULL_TURN: u16 = 360;

/// A normalized orientation: one of 0, 90, 180 or 270 degrees.
pub open spec fn is_normalized(angle: int) -> bool {
    angle == 0 || angle == 90 || angle == 180 || angle == 270
}

/// The angle one quarter turn from `angle`, normalized into `[0, 360)`:
/// turning right adds 90 degrees, turning left subtracts 90 degrees (that
/// is, adds 270), both taken modulo 360.
pub open spec fn rotated_angle(angle: int, rotation: Rotation) -> int {
    match rotation {
        Rotation::Right => (angle + 90) % 360,
        Rotation::Left => (angle + 270) % 360,
    }
}

/// Law: four quarter turns in the same direction return a normalized angle
/// to its original value, in either direction.
pub proof fn lemma_rotate_full_turn(angle: int, rotation: Rotation)
    requires
        is_normalized(angle),
    ensures
        rotated_angle(
            rotated_angle(rotated_angle(rotated_angle(angle, rotation), rotation), rotation),
            rotation,
        ) == angle,
{
}

/// Holds the current image's orientation in quarter-turn steps.
pub struct RotationState {
    angle: u16,
}

impl RotationState {
    /// The orientation, in degrees.
    pub closed spec fn angle(self) -> int {
        self.angle as int
    }

    /// Invariant: the angle is one of the four quarter-turn orientations.
    pub open spec fn wf(self) -> bool {
        is_normalized(self.angle())
    }

    /// A freshly opened image is not rotated.
    pub fn new() -> (s: Self)
        ensures
            s.wf(),
            s.angle() == 0,
    {
        RotationState { angle: 0 }
    }

    /// Applies one quarter turn, keeping the angle normalized.
    pub fn rotate(&mut self, rotation: &Rotation)
        requires
            old(self).wf(),
        ensures
            final(self).wf(),
            final(self).angle() == rotated_angle(old(self).angle(), *rotation),
    {
        self.angle = match rotation {
            Rotation::Right => {
                if self.angle == 270 {
                    0
                } else {
                    self.angle + QUARTER_TURN
                }
            },
            Rotation::Left => {
                if self.angle == 0 {
                    270
                } else {
                    self.angle - QUARTER_TURN
                }
            },
        };
    }

    /// Forgets any rotation; the next image starts upright.
    pub fn reset(&mut self)
        ensures
            final(self).wf(),
            final(self).angle() == 0,
    {
        self.angle = 0;
    }

    /// The orientation, in degrees, for the presentation layer.
    pub fn degrees(&self) -> (d: u16)
        ensures
            d as int == self.angle(),
    {
        self.angle
    }
}

impl Default for RotationState {
    /// Same as `new`: an upright orientation.
    fn default() -> (s: Self)
        ensures
            s.wf(),
            s.angle() == 0,
    {
        RotationState { angle: 0 }
    }
}

} // verus!
