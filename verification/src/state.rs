//! The per-player control state, created at spawn and updated once per
//! tick.

use vstd::prelude::*;

use crate::fx::FX_ONE;
use crate::vec2::Vec2;

verus! {

/// The bound on a contact normal's coordinates: the physics engine hands
/// in unit normals, and the control law only needs them bounded.
pub const NORMAL_BOUND: i64 = 131072;

/// A contact normal the control law can work with: bounded coordinates.
pub open spec fn normal_wf(n: Vec2) -> bool {
    &&& -NORMAL_BOUND as int <= n.x <= NORMAL_BOUND as int
    &&& -NORMAL_BOUND as int <= n.y <= NORMAL_BOUND as int
}

/// The control state of one player body.
#[derive(Clone, Copy, Debug, PartialEq, Eq, Structural)]
pub struct PlayerControl {
    /// True only while the current upward motion is a self-initiated jump
    /// still in its uninterrupted rising phase.
    pub mid_jump: bool,
    /// The direction of the most recent supporting contact normal.
    pub last_stood_on: Vec2,
    /// Decaying confidence in the last stood-on surface: one right on
    /// contact, falling linearly while airborne, floored at zero.
    pub stood_on_potential: i64,
}

impl PlayerControl {
    pub open spec fn wf(self) -> bool {
        &&& 0 <= self.stood_on_potential <= FX_ONE as int
        &&& normal_wf(self.last_stood_on)
    }

    /// The state a freshly spawned player starts with: not jumping, no
    /// stood-on confidence, and the world's up as the remembered surface.
    pub fn spawn() -> (r: PlayerControl)
        ensures
            r == (PlayerControl {
                mid_jump: false,
                last_stood_on: Vec2 { x: 0, y: FX_ONE },
                stood_on_potential: 0,
            }),
            r.wf(),
    {
        PlayerControl { mid_jump: false, last_stood_on: Vec2 { x: 0, y: FX_ONE }, stood_on_potential: 0 }
    }
}

} // verus!
