//! The player controller: grounding, coyote time, double jump, jump cut,
//! enemy knockback, aiming and shooting.
use vstd::prelude::*;

verus! {

/// Horizontal running speed, in milli-tiles per second.
pub const MAX_XSPEED: i64 = 7_000;
/// Vertical speed a jump starts with, in milli-tiles per second.
pub const JUMP_YSPEED: i64 = 12_000;
/// Frames after leaving the ground during which a jump still counts as a ground jump.
pub const COYOTE_TIME_FRAMES: u32 = 3;
/// Horizontal speed of the push away from an enemy, in milli-tiles per second.
pub const KNOCKBACK_SPEED: i64 = 15_000;
/// Number of ticks a knockback takes control away from the player.
pub const KNOCKBACK_FRAMES: usize = 60;
/// A contact normal whose y component (in thousandths) lies below this is ground underfoot.
pub const GROUND_NORMAL_Y: i64 = -900;
/// Width of the player's collider and of the probe for one-way platforms, in milli-tiles.
pub const COLLIDER_WIDTH: i64 = 800;
/// The one-way platform probe starts this far above the player's centre, in milli-tiles.
pub const ONEWAY_PROBE_OFFSET: i64 = 300;
/// How far down the one-way platform probe reaches, in milli-tiles.
pub const ONEWAY_PROBE_LENGTH: i64 = 5_000;

/// One of the two directions of an input axis, or neither.
#[derive(Clone, Copy, Debug, PartialEq, Eq, Structural)]
pub enum Axis {
    Negative,
    Neutral,
    Positive,
}

impl Axis {
    pub open spec fn spec_sign(self) -> int {
        match self {
            Axis::Negative => -1,
            Axis::Neutral => 0,
            Axis::Positive => 1,
        }
    }

    pub fn sign(self) -> (r: i64)
        ensures
            r == self.spec_sign(),
    {
        match self {
            Axis::Negative => -1,
            Axis::Neutral => 0,
            Axis::Positive => 1,
        }
    }
}

/// An aiming direction, as the pair of input axes held when it was set.
/// The vector it points along is `(x.sign(), y.sign())`.
#[derive(Clone, Copy, Debug, PartialEq, Eq, Structural)]
pub struct Aim {
    pub x: Axis,
    pub y: Axis,
}

/// A projectile; it moves along `dir` on its own and is never pushed by physics.
#[derive(Clone, Copy, Debug, PartialEq, Eq, Structural)]
pub struct Bullet {
    pub dir: Aim,
}

/// A linear velocity in milli-tiles per second.
#[derive(Clone, Copy, Debug, PartialEq, Eq, Structural)]
pub struct Velocity {
    pub x: i64,
    pub y: i64,
}

/// What the other side of a contact is.
#[derive(Clone, Copy, Debug, PartialEq, Eq, Structural)]
pub enum Touched {
    /// A collider that belongs to no entity.
    Nothing,
    /// Any entity that is not an enemy.
    Entity(u64),
    /// An enemy, with its horizontal position in milli-tiles.
    Enemy { id: u64, x: i64 },
}

/// One contact of the player's collider, as the physics step reported it.
#[derive(Clone, Copy, Debug, PartialEq, Eq, Structural)]
pub struct PlayerContact {
    pub other: Touched,
    /// The y component of the contact normal, in thousandths.
    pub normal_y: i64,
}

/// The controls read this tick.
#[derive(Clone, Copy, Debug, PartialEq, Eq, Structural)]
pub struct PlayerInput {
    pub horizontal: Axis,
    pub vertical: Axis,
    /// The jump button went down this tick.
    pub jump: bool,
    /// The jump button came up this tick.
    pub jump_released: bool,
    /// The shoot button went down this tick.
    pub shoot: bool,
}

/// What one controller tick asks of the world.
pub struct PlayerTick {
    /// The velocity to give the player's body.
    pub velocity: Velocity,
    /// Enemies the player ran into; they are to be despawned.
    pub enemies_hit: Vec<u64>,
    /// Entities the player stands on; breakable tiles among them start breaking.
    pub tiles_touched: Vec<u64>,
    /// A bullet to spawn at the player's position.
    pub bullet: Option<Bullet>,
    /// Whether to show the player with the double jump available.
    pub doublejump_ready: bool,
}

/// The controller's state, as contracts speak of it.
pub struct PlayerModel {
    pub entity: u64,
    pub has_doublejump: bool,
    pub frames_since_on_ground: u32,
    pub holding_jump: bool,
    pub aim_dir: Aim,
    pub knockback_frames: usize,
}

/// Per-run state of the player controller.
pub struct PlayerState {
    pub entity: u64,
    has_doublejump: bool,
    frames_since_on_ground: u32,
    holding_jump: bool,
    // kept so that a shot without a direction held goes where the last one did
    aim_dir: Aim,
    knockback_frames: usize,
}

impl View for PlayerState {
    type V = PlayerModel;

    closed spec fn view(&self) -> PlayerModel {
        PlayerModel {
            entity: self.entity,
            has_doublejump: self.has_doublejump,
            frames_since_on_ground: self.frames_since_on_ground,
            holding_jump: self.holding_jump,
            aim_dir: self.aim_dir,
            knockback_frames: self.knockback_frames,
        }
    }
}

pub open spec fn touched_id(t: Touched) -> Option<u64> {
    match t {
        Touched::Nothing => None,
        Touched::Entity(id) => Some(id),
        Touched::Enemy { id, .. } => Some(id),
    }
}

pub open spec fn touches_ground(c: PlayerContact) -> bool {
    c.normal_y < GROUND_NORMAL_Y
}

/// Some contact has the player standing on something.
pub open spec fn on_ground(cs: Seq<PlayerContact>) -> bool {
    exists|i: int| 0 <= i < cs.len() && touches_ground(#[trigger] cs[i])
}

/// The entities of the ground contacts, in contact order.
pub open spec fn ground_entities(cs: Seq<PlayerContact>) -> Seq<u64>
    decreases cs.len(),
{
    if cs.len() == 0 {
        Seq::empty()
    } else {
        let rest = ground_entities(cs.drop_last());
        let c = cs.last();
        if touches_ground(c) && touched_id(c.other) is Some {
            rest.push(touched_id(c.other)->0)
        } else {
            rest
        }
    }
}

/// The enemies among the contacts, in contact order.
pub open spec fn enemies_touched(cs: Seq<PlayerContact>) -> Seq<u64>
    decreases cs.len(),
{
    if cs.len() == 0 {
        Seq::empty()
    } else {
        let rest = enemies_touched(cs.drop_last());
        match cs.last().other {
            Touched::Enemy { id, .. } => rest.push(id),
            _ => rest,
        }
    }
}

/// The horizontal knockback speed from the last enemy contact, away from that
/// enemy; `None` when no contact is with an enemy.
pub open spec fn knockback_push(cs: Seq<PlayerContact>, player_x: i64) -> Option<i64>
    decreases cs.len(),
{
    if cs.len() == 0 {
        None
    } else {
        match cs.last().other {
            Touched::Enemy { x, .. } => Some(
                if player_x < x {
                    (-KNOCKBACK_SPEED) as i64
                } else {
                    KNOCKBACK_SPEED
                },
            ),
            _ => knockback_push(cs.drop_last(), player_x),
        }
    }
}

/// The airborne frame counter after a tick: reset on the ground, else one
/// more (held at its maximum).
pub open spec fn frames_after(frames: u32, grounded: bool) -> u32 {
    if grounded {
        0
    } else if frames == u32::MAX {
        u32::MAX
    } else {
        (frames + 1) as u32
    }
}

/// The knockback counter after a tick, given whether an enemy was hit in it.
pub open spec fn knockback_after(frames: usize, hit: bool) -> usize {
    if hit {
        (KNOCKBACK_FRAMES - 1) as usize
    } else if frames > 0 {
        (frames - 1) as usize
    } else {
        0
    }
}

/// Whether the tick ignores the controls, given the knockback counter before
/// it and whether an enemy was hit in it.
pub open spec fn input_ignored(frames: usize, hit: bool) -> bool {
    hit || frames > 0
}

/// The coyote window is open after the frame counter has been updated.
pub open spec fn in_coyote_time(m: PlayerModel, cs: Seq<PlayerContact>) -> bool {
    frames_after(m.frames_since_on_ground, on_ground(cs)) < COYOTE_TIME_FRAMES
}

/// The double jump is available once grounding and knockback have been applied.
pub open spec fn doublejump_before_controls(
    m: PlayerModel,
    cs: Seq<PlayerContact>,
    player_x: i64,
) -> bool {
    on_ground(cs) || knockback_push(cs, player_x) is Some || m.has_doublejump
}

/// The tick jumps: controls are live, jump is pressed, and either the coyote
/// window is open or the double jump is available.
pub open spec fn jumps(m: PlayerModel, input: PlayerInput, cs: Seq<PlayerContact>, player_x: i64) -> bool {
    &&& !input_ignored(m.knockback_frames, knockback_push(cs, player_x) is Some)
    &&& input.jump
    &&& (in_coyote_time(m, cs) || doublejump_before_controls(m, cs, player_x))
}

/// The tick cuts a jump short: controls are live, a jump is held and the
/// button came up.
pub open spec fn cuts_jump(m: PlayerModel, input: PlayerInput, cs: Seq<PlayerContact>, player_x: i64) -> bool {
    &&& !input_ignored(m.knockback_frames, knockback_push(cs, player_x) is Some)
    &&& (jumps(m, input, cs, player_x) || m.holding_jump)
    &&& input.jump_released
}

/// The aim after a tick: the held direction, or the previous aim when none is held.
pub open spec fn aim_after(aim: Aim, input: PlayerInput) -> Aim {
    if input.horizontal != Axis::Neutral || input.vertical != Axis::Neutral {
        Aim { x: input.horizontal, y: input.vertical }
    } else {
        aim
    }
}

/// The player's velocity after the controls of a tick.
pub open spec fn velocity_after(
    m: PlayerModel,
    input: PlayerInput,
    cs: Seq<PlayerContact>,
    player_x: i64,
    v: Velocity,
) -> Velocity {
    if input_ignored(m.knockback_frames, knockback_push(cs, player_x) is Some) {
        match knockback_push(cs, player_x) {
            Some(push) => Velocity { x: push, y: 0 },
            None => v,
        }
    } else {
            let y = if jumps(m, input, cs, player_x) {
                JUMP_YSPEED
            } else {
                v.y
            };
            Velocity {
                x: (input.horizontal.spec_sign() * MAX_XSPEED) as i64,
                y: if cuts_jump(m, input, cs, player_x) && y > 0 {
                    (y / 4) as i64
                } else {
                    y
                },
            }
    }
}

impl PlayerState {
    /// A fresh controller for the player entity `entity`: on the ground, with
    /// the double jump available and aiming right.
    pub fn new(entity: u64) -> (r: Self)
        ensures
            r@ == (PlayerModel {
                entity,
                has_doublejump: true,
                frames_since_on_ground: 0,
                holding_jump: false,
                aim_dir: Aim { x: Axis::Positive, y: Axis::Neutral },
                knockback_frames: 0,
            }),
    {
        PlayerState {
            entity,
            has_doublejump: true,
            frames_since_on_ground: 0,
            holding_jump: false,
            aim_dir: Aim { x: Axis::Positive, y: Axis::Neutral },
            knockback_frames: 0,
        }
    }

    pub fn has_doublejump(&self) -> (r: bool)
        ensures
            r == self@.has_doublejump,
    {
        self.has_doublejump
    }

    pub fn frames_since_on_ground(&self) -> (r: u32)
        ensures
            r == self@.frames_since_on_ground,
    {
        self.frames_since_on_ground
    }

    pub fn holding_jump(&self) -> (r: bool)
        ensures
            r == self@.holding_jump,
    {
        self.holding_jump
    }

    pub fn aim_dir(&self) -> (r: Aim)
        ensures
            r == self@.aim_dir,
    {
        self.aim_dir
    }

    pub fn knockback_frames(&self) -> (r: usize)
        ensures
            r == self@.knockback_frames,
    {
        self.knockback_frames
    }

    /// One controller tick. `contacts` are the player collider's contacts
    /// from the physics step, `player_x` the player's horizontal position and
    /// `velocity` its body's velocity, both in milli-tile units.
    pub fn tick(
        &mut self,
        input: &PlayerInput,
        contacts: &Vec<PlayerContact>,
        player_x: i64,
        velocity: Velocity,
    ) -> (r: PlayerTick)
        ensures
            final(self)@.entity == old(self)@.entity,
            final(self)@.frames_since_on_ground == frames_after(
                old(self)@.frames_since_on_ground,
                on_ground(contacts@),
            ),
            final(self)@.knockback_frames == knockback_after(
                old(self)@.knockback_frames,
                knockback_push(contacts@, player_x) is Some,
            ),
            final(self)@.has_doublejump == (doublejump_before_controls(old(self)@, contacts@, player_x)
                && !(jumps(old(self)@, *input, contacts@, player_x) && !in_coyote_time(
                old(self)@,
                contacts@,
            ))),
            on_ground(contacts@) ==> final(self)@.has_doublejump,
            final(self)@.holding_jump == ((jumps(old(self)@, *input, contacts@, player_x)
                || old(self)@.holding_jump) && !cuts_jump(old(self)@, *input, contacts@, player_x)),
            final(self)@.aim_dir == aim_after(old(self)@.aim_dir, *input),
            r.velocity == velocity_after(old(self)@, *input, contacts@, player_x, velocity),
            r.enemies_hit@ == enemies_touched(contacts@),
            r.tiles_touched@ == ground_entities(contacts@),
            r.bullet == (if input.shoot {
                Some(Bullet { dir: final(self)@.aim_dir })
            } else {
                None
            }),
            r.doublejump_ready == (final(self)@.has_doublejump && final(self)@.knockback_frames == 0),
    {
        let ghost m = self@;
        // gather what the contacts say first, act on it afterwards
        let mut grounded = false;
        let mut push: Option<i64> = None;
        let mut tiles_touched: Vec<u64> = Vec::new();
        let mut enemies_hit: Vec<u64> = Vec::new();
        let mut i: usize = 0;
        while i < contacts.len()
            invariant
                0 <= i <= contacts@.len(),
                grounded == (exists|j: int| 0 <= j < i && touches_ground(#[trigger] contacts@[j])),
                push == knockback_push(contacts@.take(i as int), player_x),
                tiles_touched@ == ground_entities(contacts@.take(i as int)),
                enemies_hit@ == enemies_touched(contacts@.take(i as int)),
            decreases contacts@.len() - i,
        {
            let c = contacts[i];
            proof {
                assert(contacts@.take(i + 1).drop_last() =~= contacts@.take(i as int));
            }
            if let Touched::Enemy { id, x } = c.other {
                enemies_hit.push(id);
                push = Some(
                    if player_x < x {
                        -KNOCKBACK_SPEED
                    } else {
                        KNOCKBACK_SPEED
                    },
                );
            }
            if c.normal_y < GROUND_NORMAL_Y {
                grounded = true;
                match c.other {
                    Touched::Entity(id) => tiles_touched.push(id),
                    Touched::Enemy { id, .. } => tiles_touched.push(id),
                    Touched::Nothing => {},
                }
            }
            i += 1;
        }
        proof {
            assert(contacts@.take(contacts@.len() as int) =~= contacts@);
        }

        if grounded {
            self.has_doublejump = true;
            self.frames_since_on_ground = 0;
        } else {
            self.frames_since_on_ground = self.frames_since_on_ground.saturating_add(1);
        }
        let is_coyote_time = self.frames_since_on_ground < COYOTE_TIME_FRAMES;

        let mut vel = velocity;
        if let Some(x) = push {
            vel = Velocity { x, y: 0 };
            self.knockback_frames = KNOCKBACK_FRAMES;
            self.has_doublejump = true;
        }
        if self.knockback_frames > 0 {
            self.knockback_frames -= 1;
        } else {
            vel.x = input.horizontal.sign() * MAX_XSPEED;
            if input.jump && (is_coyote_time || self.has_doublejump) {
                vel.y = JUMP_YSPEED;
                self.holding_jump = true;
                if !is_coyote_time {
                    self.has_doublejump = false;
                }
            }
            // releasing the button cuts a rising jump short
            if self.holding_jump && input.jump_released {
                self.holding_jump = false;
                if vel.y > 0 {
                    vel.y = vel.y / 4;
                }
            }
        }
        let doublejump_ready = self.has_doublejump && self.knockback_frames == 0;

        if input.horizontal != Axis::Neutral || input.vertical != Axis::Neutral {
            self.aim_dir = Aim { x: input.horizontal, y: input.vertical };
        }
        let bullet = if input.shoot {
            Some(Bullet { dir: self.aim_dir })
        } else {
            None
        };
        PlayerTick { velocity: vel, enemies_hit, tiles_touched, bullet, doublejump_ready }
    }

    /// Moves the camera up to the player; the camera never scrolls down.
    /// Heights are in milli-tiles.
    pub fn move_camera(&self, player_y: i64, camera_y: &mut i64)
        ensures
            *final(camera_y) == (if player_y > *old(camera_y) {
                player_y
            } else {
                *old(camera_y)
            }),
    {
        if player_y > *camera_y {
            *camera_y = player_y;
        }
    }
}

/// The knockback counter after the ticks of `hits`, each of which says
/// whether an enemy was hit in that tick, starting from `frames`.
pub open spec fn knockback_after_ticks(frames: usize, hits: Seq<bool>) -> usize
    decreases hits.len(),
{
    if hits.len() == 0 {
        frames
    } else {
        knockback_after(knockback_after_ticks(frames, hits.drop_last()), hits.last())
    }
}

proof fn lemma_knockback_countdown(frames: usize, hits: Seq<bool>, k: int)
    requires
        1 <= k <= hits.len(),
        hits[0],
        forall|i: int| 1 <= i < hits.len() ==> !hits[i],
    ensures
        knockback_after_ticks(frames, hits.take(k)) == (if k <= KNOCKBACK_FRAMES {
            KNOCKBACK_FRAMES - k
        } else {
            0
        }),
    decreases k,
{
    assert(hits.take(k).drop_last() =~= hits.take(k - 1));
    if k > 1 {
        lemma_knockback_countdown(frames, hits, k - 1);
    } else {
        assert(hits.take(0) =~= Seq::<bool>::empty());
    }
}

/// An enemy hit takes the controls away for exactly `KNOCKBACK_FRAMES`
/// ticks, the tick of the hit included, as long as no further enemy is hit;
/// every tick after those obeys the controls again. `hits[t]` says whether an
/// enemy is hit in tick `t`.
pub proof fn lemma_knockback_duration(frames: usize, hits: Seq<bool>, t: int)
    requires
        0 <= t < hits.len(),
        hits[0],
        forall|i: int| 1 <= i < hits.len() ==> !hits[i],
    ensures
        input_ignored(knockback_after_ticks(frames, hits.take(t)), hits[t]) <==> t
            < KNOCKBACK_FRAMES,
{
    if t > 0 {
        lemma_knockback_countdown(frames, hits, t);
    }
}

} // verus!
