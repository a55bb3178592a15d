//! How the player is shown.

use vstd::prelude::*;

verus! {

/// The animation of a player in the air.
pub const JUMP: &'static str = "jump";

/// The animation of a player who runs.
pub const RUN: &'static str = "run";

/// The animation of a player who stands.
pub const IDLE: &'static str = "idle";

/// How the player moved in a pass.
#[derive(Clone, Copy, Debug, PartialEq, Eq, Structural)]
pub struct EPlayerMovement {
    pub is_moving: bool,
    pub grounded: bool,
    pub facing_left: bool,
}

/// What the sprite of the player is told: the animation to play and, where
/// its direction is to change, whether it is flipped.
#[derive(Clone, Copy, Debug, PartialEq, Eq)]
pub struct Animation {
    pub name: &'static str,
    pub flip_h: Option<bool>,
}

/// What the sprite is told for a movement: in the air it jumps; on the ground
/// it runs, turned the way the player faces, or stands.
pub open spec fn animation_of(movement: EPlayerMovement) -> Animation {
    if !movement.grounded {
        Animation { name: JUMP, flip_h: None }
    } else if movement.is_moving {
        Animation { name: RUN, flip_h: Some(movement.facing_left) }
    } else {
        Animation { name: IDLE, flip_h: None }
    }
}

/// Chooses what the sprite is told for a movement.
pub fn set_animation(movement: &EPlayerMovement) -> (animation: Animation)
    ensures
        animation == animation_of(*movement),
{
    if !movement.grounded {
        Animation { name: JUMP, flip_h: None }
    } else if movement.is_moving {
        Animation { name: RUN, flip_h: Some(movement.facing_left) }
    } else {
        Animation { name: IDLE, flip_h: None }
    }
}

} // verus!
