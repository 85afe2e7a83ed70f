//! Collision layers, and the rule that turns one-way platforms solid.
use vstd::prelude::*;

verus! {

pub const PLAYER: usize = 1;
pub const BULLET: usize = 2;
/// One-way platforms start on a layer the player passes through ...
pub const ONEWAY_INACTIVE: usize = 3;
/// ... and move to one that collides with the player once it is above them.
pub const ONEWAY_ACTIVE: usize = 4;
pub const SPIKE_ROLLER: usize = 5;
pub const ENEMY: usize = 6;

/// The layer of a collider that the probe below the player's feet found:
/// an inactive one-way platform becomes active, any other layer stays.
pub fn activate_oneway(layer: usize) -> (r: usize)
    ensures
        r == (if layer == ONEWAY_INACTIVE {
            ONEWAY_ACTIVE
        } else {
            layer
        }),
{
    if layer == ONEWAY_INACTIVE {
        ONEWAY_ACTIVE
    } else {
        layer
    }
}

} // verus!
