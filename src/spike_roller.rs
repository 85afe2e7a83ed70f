//! The spike roller: a band of spikes that rises with the camera and
//! destroys whatever it touches.
use vstd::prelude::*;
use crate::tile::{BreakableTile, spec_hazard_contact, sub_clamped};

verus! {

/// Height seen on camera at any time, in milli-tiles.
pub const VIEW_HEIGHT: i64 = 14_000;
/// How far below the camera's centre the roller sits: half the view, less
/// half a tile, in milli-tiles.
pub const ROLLER_DEPTH: i64 = 6_500;

#[derive(Clone, Copy, Debug, PartialEq, Eq, Structural)]
pub struct TickResult {
    pub player_hit: bool,
}

impl Default for TickResult {
    fn default() -> (r: Self)
        ensures
            r == (TickResult { player_hit: false }),
    {
        TickResult { player_hit: false }
    }
}

/// What the roller's sensor touched.
#[derive(Clone, Copy, Debug, PartialEq, Eq, Structural)]
pub enum RollerContact {
    /// A breakable tile, by its position in the caller's tile list.
    Tile(usize),
    /// The player.
    Player,
    /// Any other entity.
    Other(u64),
}

/// What one roller tick asks of the world.
pub struct RollerTick {
    /// The roller's new height, in milli-tiles.
    pub y: i64,
    /// Entities to despawn.
    pub despawn: Vec<u64>,
    pub result: TickResult,
}

pub struct SpikeRoller {
    entity: u64,
}

/// The height the camera at `camera_y` puts the roller at: its lower view
/// edge plus half a tile.
pub open spec fn target_height(camera_y: i64) -> i64 {
    sub_clamped(camera_y, ROLLER_DEPTH)
}

/// The contacts handled in order, up to the first contact with the player:
/// tiles are set breaking, other entities are despawned. Returns the tiles,
/// the entities to despawn and whether the player was touched.
pub open spec fn apply_contacts(tiles: Seq<BreakableTile>, cs: Seq<RollerContact>) -> (
    Seq<BreakableTile>,
    Seq<u64>,
    bool,
)
    decreases cs.len(),
{
    if cs.len() == 0 {
        (tiles, Seq::empty(), false)
    } else {
        match cs[0] {
            RollerContact::Player => (tiles, Seq::empty(), true),
            RollerContact::Tile(i) => if i < tiles.len() {
                apply_contacts(
                    tiles.update(i as int, spec_hazard_contact(tiles[i as int])),
                    cs.drop_first(),
                )
            } else {
                apply_contacts(tiles, cs.drop_first())
            },
            RollerContact::Other(e) => {
                let (t, d, hit) = apply_contacts(tiles, cs.drop_first());
                (t, seq![e].add(d), hit)
            },
        }
    }
}

impl SpikeRoller {
    pub fn new(entity: u64) -> (r: Self)
        ensures
            r.spec_entity() == entity,
    {
        SpikeRoller { entity }
    }

    pub closed spec fn spec_entity(&self) -> u64 {
        self.entity
    }

    pub fn entity(&self) -> (r: u64)
        ensures
            r == self.spec_entity(),
    {
        self.entity
    }

    /// Where the roller starts: below the camera's first position, at height 0.
    pub fn start_height() -> (r: i64)
        ensures
            r == target_height(0),
    {
        -ROLLER_DEPTH
    }

    /// One roller tick. `y` is the roller's height, `camera_y` the camera's,
    /// `tiles` the breakable tiles and `contacts` what the roller's sensor
    /// touched in this tick's physics step.
    pub fn tick(
        &self,
        y: i64,
        camera_y: i64,
        tiles: &mut Vec<BreakableTile>,
        contacts: &Vec<RollerContact>,
    ) -> (r: RollerTick)
        ensures
            r.y == (if target_height(camera_y) > y {
                target_height(camera_y)
            } else {
                y
            }),
            r.y >= y,
            (final(tiles)@, r.despawn@, r.result.player_hit) == apply_contacts(
                old(tiles)@,
                contacts@,
            ),
    {
        let target = if camera_y >= i64::MIN + ROLLER_DEPTH {
            camera_y - ROLLER_DEPTH
        } else {
            i64::MIN
        };
        let new_y = if target > y {
            target
        } else {
            y
        };

        let ghost before = tiles@;
        let mut despawn: Vec<u64> = Vec::new();
        let mut i: usize = 0;
        proof {
            assert(contacts@.skip(0) =~= contacts@);
            let (t, d, hit) = apply_contacts(tiles@, contacts@);
            assert(despawn@ + d =~= d);
        }
        while i < contacts.len()
            invariant
                0 <= i <= contacts@.len(),
                before == old(tiles)@,
                new_y == (if target_height(camera_y) > y {
                    target_height(camera_y)
                } else {
                    y
                }),
                ({
                    let (t, d, hit) = apply_contacts(tiles@, contacts@.skip(i as int));
                    (t, despawn@ + d, hit) == apply_contacts(before, contacts@)
                }),
            decreases contacts@.len() - i,
        {
            let ghost rest = contacts@.skip(i as int);
            proof {
                assert(rest.drop_first() =~= contacts@.skip(i + 1));
                assert(rest[0] == contacts@[i as int]);
            }
            match contacts[i] {
                RollerContact::Player => {
                    proof {
                        assert(apply_contacts(tiles@, rest) == (tiles@, Seq::<u64>::empty(), true));
                        assert(despawn@ + Seq::<u64>::empty() =~= despawn@);
                    }
                    return RollerTick { y: new_y, despawn, result: TickResult { player_hit: true } };
                },
                RollerContact::Tile(k) => {
                    if k < tiles.len() {
                        let mut t = tiles[k];
                        t.hazard_contact();
                        tiles.set(k, t);
                    }
                },
                RollerContact::Other(e) => {
                    let ghost (t0, d0, h0) = apply_contacts(tiles@, contacts@.skip(i + 1));
                    proof {
                        assert(despawn@ + (seq![e] + d0) =~= despawn@.push(e) + d0);
                    }
                    despawn.push(e);
                },
            }
            i += 1;
        }
        proof {
            assert(despawn@ + Seq::<u64>::empty() =~= despawn@);
        }
        RollerTick { y: new_y, despawn, result: TickResult::default() }
    }
}

} // verus!
