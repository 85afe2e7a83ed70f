//! Enemies: bats that sleep until they see the player, then chase it.
use vstd::prelude::*;
use crate::physics_layers::PLAYER;

verus! {

/// Speed of a chasing bat, in milli-tiles per second.
pub const BAT_CHASE_SPEED: i64 = 3_000;
/// Distance within which a bat looks for the player, in milli-tiles.
pub const BAT_SPOT_RANGE: i64 = 8_000;

#[derive(Clone, Copy, Debug, PartialEq, Eq, Structural)]
pub enum Enemy {
    Bat { is_active: bool },
}

/// What a bat does this tick.
#[derive(Clone, Copy, Debug, PartialEq, Eq, Structural)]
pub enum BatAction {
    /// Fly straight at the player at `BAT_CHASE_SPEED`.
    Chase,
    /// Cast a ray at the player, exactly as long as the distance to it, and
    /// report the layer of the first collider it hits to `Enemy::sighted`.
    LookForPlayer,
    /// Nothing to do.
    Wait,
}

/// The offset `(dx, dy)` between bat and player lies within spotting range.
pub open spec fn within_spot_range(dx: int, dy: int) -> bool {
    dx * dx + dy * dy <= BAT_SPOT_RANGE * BAT_SPOT_RANGE
}

/// A bat's activity after a ray cast whose first hit had layer `hit_layer`
/// (`None`: it hit nothing).
pub open spec fn active_after_sighting(active: bool, hit_layer: Option<usize>) -> bool {
    active || hit_layer == Some(PLAYER)
}

/// A bat's activity after a series of ray casts.
pub open spec fn active_after_sightings(active: bool, hits: Seq<Option<usize>>) -> bool
    decreases hits.len(),
{
    if hits.len() == 0 {
        active
    } else {
        active_after_sighting(active_after_sightings(active, hits.drop_last()), hits.last())
    }
}

impl Enemy {
    pub open spec fn spec_is_active(self) -> bool {
        match self {
            Enemy::Bat { is_active } => is_active,
        }
    }

    /// A dormant bat.
    pub fn bat() -> (r: Self)
        ensures
            r == (Enemy::Bat { is_active: false }),
    {
        Enemy::Bat { is_active: false }
    }

    pub fn is_active(&self) -> (r: bool)
        ensures
            r == self.spec_is_active(),
    {
        match self {
            Enemy::Bat { is_active } => *is_active,
        }
    }

    /// Decides what a bat at `(bat_x, bat_y)` does about the player at
    /// `(player_x, player_y)` (milli-tiles): an active bat chases; a dormant
    /// one within range looks for the player; otherwise it waits.
    pub fn tick(&self, bat_x: i64, bat_y: i64, player_x: i64, player_y: i64) -> (r: BatAction)
        ensures
            r == (if self.spec_is_active() {
                BatAction::Chase
            } else if within_spot_range(player_x - bat_x, player_y - bat_y) {
                BatAction::LookForPlayer
            } else {
                BatAction::Wait
            }),
    {
        if self.is_active() {
            return BatAction::Chase;
        }
        let dx: i128 = player_x as i128 - bat_x as i128;
        let dy: i128 = player_y as i128 - bat_y as i128;
        let range: i128 = BAT_SPOT_RANGE as i128;
        if dx > range || dx < -range || dy > range || dy < -range {
            proof {
                let r = range as int;
                if dx > range || dx < -range {
                    assert(dx * dx > r * r) by (nonlinear_arith)
                        requires
                            dx > r || dx < -r,
                            r >= 0,
                    ;
                    assert(dy * dy >= 0) by (nonlinear_arith);
                } else {
                    assert(dy * dy > r * r) by (nonlinear_arith)
                        requires
                            dy > r || dy < -r,
                            r >= 0,
                    ;
                    assert(dx * dx >= 0) by (nonlinear_arith);
                }
            }
            BatAction::Wait
        } else {
            proof {
                assert(0 <= dx * dx <= 64_000_000 && 0 <= dy * dy <= 64_000_000) by (nonlinear_arith)
                    requires
                        -8000 <= dx <= 8000,
                        -8000 <= dy <= 8000,
                ;
            }
            if dx * dx + dy * dy <= range * range {
                BatAction::LookForPlayer
            } else {
                BatAction::Wait
            }
        }
    }

    /// Records the ray cast of `BatAction::LookForPlayer`: the bat wakes up
    /// if the first thing the ray hit is on the player's layer. Once awake it
    /// stays awake.
    pub fn sighted(&mut self, hit_layer: Option<usize>)
        ensures
            final(self).spec_is_active() == active_after_sighting(
                old(self).spec_is_active(),
                hit_layer,
            ),
    {
        if let Some(layer) = hit_layer {
            if layer == PLAYER {
                *self = Enemy::Bat { is_active: true };
            }
        }
    }
}

/// A bat that is awake stays awake through any later ray casts.
pub proof fn lemma_bat_stays_active(active: bool, hits: Seq<Option<usize>>, i: int, j: int)
    requires
        0 <= i <= j <= hits.len(),
        active_after_sightings(active, hits.take(i)),
    ensures
        active_after_sightings(active, hits.take(j)),
    decreases j - i,
{
    if j > i {
        assert(hits.take(j).drop_last() =~= hits.take(j - 1));
        lemma_bat_stays_active(active, hits, i, j - 1);
    }
}

/// A bat wakes up at most once: two ray casts that each turn it from
/// dormant to active are the same one.
pub proof fn lemma_bat_wakes_once(active: bool, hits: Seq<Option<usize>>, k1: int, k2: int)
    requires
        0 <= k1 < hits.len(),
        0 <= k2 < hits.len(),
        !active_after_sightings(active, hits.take(k1)),
        active_after_sightings(active, hits.take(k1 + 1)),
        !active_after_sightings(active, hits.take(k2)),
        active_after_sightings(active, hits.take(k2 + 1)),
    ensures
        k1 == k2,
{
    if k1 < k2 {
        lemma_bat_stays_active(active, hits, k1 + 1, k2);
    } else if k2 < k1 {
        lemma_bat_stays_active(active, hits, k2 + 1, k1);
    }
}

} // verus!
