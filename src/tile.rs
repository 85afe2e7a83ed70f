use vstd::prelude::*;
use rand::rngs::StdRng;
use crate::rng::gen_ratio;

verus! {

/// Time that a bullet hit takes off a tile's break timer (half a second).
pub const BULLET_TILE_DAMAGE: i64 = 500_000;

/// Ceiling that contact with the spike roller puts on a tile's break timer.
pub const HAZARD_BREAK_TIME: i64 = 250_000;

/// The kinds of terrain cell a level is built from.
#[derive(Clone, Copy, Debug, PartialEq, Eq, Structural)]
pub enum Tile {
    Empty,
    Cloud,
    GroundWeak,
    GroundStrong,
    /// Only used for the starting platform.
    GroundUnbreakable,
}

/// State that tracks when a block needs to break.
#[derive(Clone, Copy, Debug, PartialEq, Eq, Structural)]
pub struct BreakableTile {
    /// Remaining time before the tile disappears, in microseconds.
    pub time_to_break: i64,
    pub is_breaking: bool,
    pub blocks_bullets: bool,
}

/// The pattern symbol that marks a place where a bat may spawn.
pub const ENEMY_SYMBOL: char = 'B';

/// The tile a pattern symbol stands for and its chance to appear, in percent:
/// upper case for certain ground, lower case for a coin flip.
pub open spec fn spec_symbol(c: char) -> (Tile, u32) {
    if c == 'X' {
        (Tile::GroundStrong, 100)
    } else if c == 'x' {
        (Tile::GroundStrong, 50)
    } else if c == 'W' {
        (Tile::GroundWeak, 100)
    } else if c == 'w' {
        (Tile::GroundWeak, 50)
    } else if c == 'C' {
        (Tile::Cloud, 100)
    } else if c == 'c' {
        (Tile::Cloud, 50)
    } else {
        (Tile::Empty, 100)
    }
}

/// The tile a symbol gives when its coin flip (if it has one) came up `roll`.
pub open spec fn spec_pick_with(c: char, roll: bool) -> Tile {
    if spec_symbol(c).1 == 100 || roll {
        spec_symbol(c).0
    } else {
        Tile::Empty
    }
}

/// Initial break timer of each kind of tile, in microseconds.
pub open spec fn spec_time_to_break(t: Tile) -> Option<i64> {
    match t {
        Tile::Empty | Tile::GroundUnbreakable => None,
        Tile::GroundStrong => Some(2_000_000),
        Tile::GroundWeak => Some(750_000),
        Tile::Cloud => Some(500_000),
    }
}

/// The breakable state a freshly spawned tile carries, if any.
pub open spec fn spec_breakable(t: Tile) -> Option<BreakableTile> {
    match spec_time_to_break(t) {
        Some(time) => Some(
            BreakableTile { time_to_break: time, is_breaking: false, blocks_bullets: t != Tile::Cloud },
        ),
        None => None,
    }
}

/// `t - d`, held at `i64::MIN` where it would fall below.
pub open spec fn sub_clamped(t: i64, d: i64) -> i64 {
    if t - d < i64::MIN {
        i64::MIN
    } else {
        (t - d) as i64
    }
}

/// A tile's state after one simulation step of `dt` microseconds.
pub open spec fn spec_advance(b: BreakableTile, dt: i64) -> BreakableTile {
    if b.is_breaking {
        BreakableTile { time_to_break: sub_clamped(b.time_to_break, dt), ..b }
    } else {
        b
    }
}

/// A tile's state after a bullet hit: it starts breaking and loses
/// `BULLET_TILE_DAMAGE` of its timer.
pub open spec fn spec_bullet_hit(b: BreakableTile) -> BreakableTile {
    BreakableTile {
        time_to_break: sub_clamped(b.time_to_break, BULLET_TILE_DAMAGE),
        is_breaking: true,
        ..b
    }
}

/// A tile's state after touching the spike roller: it starts breaking, with
/// at most `HAZARD_BREAK_TIME` left.
pub open spec fn spec_hazard_contact(b: BreakableTile) -> BreakableTile {
    BreakableTile {
        time_to_break: if b.time_to_break < HAZARD_BREAK_TIME {
            b.time_to_break
        } else {
            HAZARD_BREAK_TIME
        },
        is_breaking: true,
        ..b
    }
}

/// Whether a tile in state `b` (already stepped) is removed this step.
pub open spec fn spec_expired(b: BreakableTile) -> bool {
    b.is_breaking && b.time_to_break <= 0
}

fn sub_clamp(t: i64, d: i64) -> (r: i64)
    requires
        d >= 0,
    ensures
        r == sub_clamped(t, d),
{
    if t >= i64::MIN + d {
        t - d
    } else {
        i64::MIN
    }
}

impl Tile {
    /// Looks a pattern symbol up in the symbol table.
    pub fn symbol(c: char) -> (r: (Tile, u32))
        ensures
            r == spec_symbol(c),
    {
        match c {
            'X' => (Tile::GroundStrong, 100),
            'x' => (Tile::GroundStrong, 50),
            'W' => (Tile::GroundWeak, 100),
            'w' => (Tile::GroundWeak, 50),
            'C' => (Tile::Cloud, 100),
            'c' => (Tile::Cloud, 50),
            _ => (Tile::Empty, 100),
        }
    }

    /// The tile for symbol `c`, given the outcome `roll` of its coin flip;
    /// symbols with a certain tile ignore `roll`.
    pub fn pick_with(c: char, roll: bool) -> (r: Tile)
        ensures
            r == spec_pick_with(c, roll),
    {
        let (tile, chance) = Tile::symbol(c);
        if chance == 100 || roll {
            tile
        } else {
            Tile::Empty
        }
    }

    /// The tile for symbol `c`; a symbol with a chance below certain flips a
    /// coin with that chance, and gives no tile when it fails.
    pub fn pick(c: char, rng: &mut StdRng) -> (r: Tile)
        ensures
            r == spec_symbol(c).0 || r == Tile::Empty,
            spec_symbol(c).1 == 100 ==> r == spec_symbol(c).0,
    {
        let (tile, chance) = Tile::symbol(c);
        if chance == 100 {
            return tile;
        }
        let roll = gen_ratio(rng, chance, 100);
        Tile::pick_with(c, roll)
    }

    /// Initial break timer in microseconds; `None` for tiles that never break.
    pub fn time_to_break(&self) -> (r: Option<i64>)
        ensures
            r == spec_time_to_break(*self),
    {
        match self {
            Tile::GroundUnbreakable | Tile::Empty => None,
            Tile::GroundStrong => Some(2_000_000),
            Tile::GroundWeak => Some(750_000),
            Tile::Cloud => Some(500_000),
        }
    }

    /// The breakable state to attach when this tile is spawned: every tile
    /// with a timer gets one, and all of them but clouds stop bullets.
    pub fn breakable(&self) -> (r: Option<BreakableTile>)
        ensures
            r == spec_breakable(*self),
    {
        match self.time_to_break() {
            Some(time) => Some(
                BreakableTile {
                    time_to_break: time,
                    is_breaking: false,
                    blocks_bullets: !matches!(self, Tile::Cloud),
                },
            ),
            None => None,
        }
    }
}

impl BreakableTile {
    /// The player stands on the tile: its timer starts running.
    pub fn start_breaking(&mut self)
        ensures
            *final(self) == (BreakableTile { is_breaking: true, ..*old(self) }),
    {
        self.is_breaking = true;
    }

    /// A bullet hits the tile. Returns whether the bullet is stopped (and so
    /// destroyed) by it.
    pub fn take_bullet_hit(&mut self) -> (stops_bullet: bool)
        ensures
            *final(self) == spec_bullet_hit(*old(self)),
            stops_bullet == old(self).blocks_bullets,
    {
        self.is_breaking = true;
        self.time_to_break = sub_clamp(self.time_to_break, BULLET_TILE_DAMAGE);
        self.blocks_bullets
    }

    /// The spike roller touches the tile: it breaks within
    /// `HAZARD_BREAK_TIME`, and sooner if its timer was already shorter.
    pub fn hazard_contact(&mut self)
        ensures
            *final(self) == spec_hazard_contact(*old(self)),
    {
        self.is_breaking = true;
        if self.time_to_break > HAZARD_BREAK_TIME {
            self.time_to_break = HAZARD_BREAK_TIME;
        }
    }

    /// One simulation step of `dt` microseconds. Returns whether the tile
    /// has run out of time and is to be removed.
    pub fn advance(&mut self, dt: i64) -> (expired: bool)
        requires
            dt >= 0,
        ensures
            *final(self) == spec_advance(*old(self), dt),
            expired == spec_expired(*final(self)),
    {
        if self.is_breaking {
            self.time_to_break = sub_clamp(self.time_to_break, dt);
            self.time_to_break <= 0
        } else {
            false
        }
    }
}

/// The positions, in order, of the tiles that are removed after a step.
pub open spec fn expired_positions(tiles: Seq<BreakableTile>) -> Seq<usize>
    decreases tiles.len(),
{
    if tiles.len() == 0 {
        Seq::empty()
    } else {
        let rest = expired_positions(tiles.drop_last());
        if spec_expired(tiles.last()) {
            rest.push((tiles.len() - 1) as usize)
        } else {
            rest
        }
    }
}

/// Steps every tile's timer by `dt` microseconds and returns the positions of
/// the tiles that ran out of time, for the caller to despawn.
pub fn break_tiles(tiles: &mut Vec<BreakableTile>, dt: i64) -> (expired: Vec<usize>)
    requires
        dt >= 0,
    ensures
        final(tiles)@.len() == old(tiles)@.len(),
        forall|i: int|
            0 <= i < old(tiles)@.len() ==> #[trigger] final(tiles)@[i] == spec_advance(
                old(tiles)@[i],
                dt,
            ),
        expired@ == expired_positions(final(tiles)@),
{
    let ghost before = tiles@;
    let mut expired: Vec<usize> = Vec::new();
    let mut i: usize = 0;
    while i < tiles.len()
        invariant
            0 <= i <= tiles@.len(),
            dt >= 0,
            tiles@.len() == before.len(),
            forall|j: int| 0 <= j < i ==> #[trigger] tiles@[j] == spec_advance(before[j], dt),
            forall|j: int| i <= j < tiles@.len() ==> #[trigger] tiles@[j] == before[j],
            expired@ == expired_positions(tiles@.take(i as int)),
        decreases before.len() - i,
    {
        let mut t = tiles[i];
        let gone = t.advance(dt);
        let ghost prefix = tiles@.take(i as int);
        tiles.set(i, t);
        proof {
            assert(tiles@.take(i as int) =~= prefix);
            assert(tiles@.take(i + 1).drop_last() =~= tiles@.take(i as int));
        }
        if gone {
            expired.push(i);
        }
        i += 1;
    }
    proof {
        assert(tiles@.take(tiles@.len() as int) =~= tiles@);
    }
    expired
}

/// A tile's state after `k` steps of `dt` microseconds.
pub open spec fn advance_steps(b: BreakableTile, dt: i64, k: nat) -> BreakableTile
    decreases k,
{
    if k == 0 {
        b
    } else {
        spec_advance(advance_steps(b, dt, (k - 1) as nat), dt)
    }
}

proof fn lemma_advance_steps_value(b: BreakableTile, dt: i64, k: nat)
    requires
        b.is_breaking,
        dt > 0,
        b.time_to_break - k * dt >= i64::MIN,
    ensures
        advance_steps(b, dt, k).is_breaking,
        advance_steps(b, dt, k).time_to_break == b.time_to_break - k * dt,
    decreases k,
{
    if k > 0 {
        assert(b.time_to_break - (k - 1) * dt >= i64::MIN) by (nonlinear_arith)
            requires
                b.time_to_break - k * dt >= i64::MIN,
                dt > 0,
                k > 0,
        ;
        let km1 = (k - 1) as nat;
        lemma_advance_steps_value(b, dt, km1);
        let prev = advance_steps(b, dt, km1);
        assert(b.time_to_break - km1 * dt - dt == b.time_to_break - k * dt) by (nonlinear_arith)
            requires
                km1 == k - 1,
        ;
        assert(prev.time_to_break - dt >= i64::MIN);
        assert(advance_steps(b, dt, k) == spec_advance(prev, dt));
    } else {
        assert(k * dt == 0) by (nonlinear_arith)
            requires
                k == 0,
        ;
    }
}

/// A breaking tile's timer falls by `dt` at every step, and the tile is
/// removed after step `k` exactly when `k` steps have used up its time
/// (`k * dt >= time_to_break`); so it is never removed before its timer
/// reaches zero. Stated while the timer stays above `i64::MIN`.
pub proof fn lemma_breaking_timer(b: BreakableTile, dt: i64, k: nat)
    requires
        b.is_breaking,
        dt > 0,
        b.time_to_break - (k + 1) * dt >= i64::MIN,
    ensures
        advance_steps(b, dt, k + 1).time_to_break < advance_steps(b, dt, k).time_to_break,
        spec_expired(advance_steps(b, dt, k)) <==> k * dt >= b.time_to_break,
{
    lemma_advance_steps_value(b, dt, k + 1);
    assert(b.time_to_break - k * dt >= i64::MIN) by (nonlinear_arith)
        requires
            b.time_to_break - (k + 1) * dt >= i64::MIN,
            dt > 0,
    ;
    lemma_advance_steps_value(b, dt, k);
    assert(b.time_to_break - (k + 1) * dt == b.time_to_break - k * dt - dt) by (nonlinear_arith);
}

/// A breaking tile is removed on exactly one step: two steps that both are
/// the first at which it has expired are the same step.
pub proof fn lemma_tile_removed_once(b: BreakableTile, dt: i64, k1: nat, k2: nat)
    requires
        b.is_breaking,
        dt > 0,
        b.time_to_break - (k1 + k2 + 1) * dt >= i64::MIN,
        k1 >= 1,
        k2 >= 1,
        spec_expired(advance_steps(b, dt, k1)),
        !spec_expired(advance_steps(b, dt, (k1 - 1) as nat)),
        spec_expired(advance_steps(b, dt, k2)),
        !spec_expired(advance_steps(b, dt, (k2 - 1) as nat)),
    ensures
        k1 == k2,
{
    assert(b.time_to_break - (k1 + 1) * dt >= i64::MIN && b.time_to_break - (k2 + 1) * dt
        >= i64::MIN && b.time_to_break - k1 * dt >= i64::MIN && b.time_to_break - k2 * dt
        >= i64::MIN) by (nonlinear_arith)
        requires
            b.time_to_break - (k1 + k2 + 1) * dt >= i64::MIN,
            dt > 0,
            k1 >= 1,
            k2 >= 1,
    ;
    lemma_breaking_timer(b, dt, k1);
    lemma_breaking_timer(b, dt, (k1 - 1) as nat);
    lemma_breaking_timer(b, dt, k2);
    lemma_breaking_timer(b, dt, (k2 - 1) as nat);
    if k1 < k2 {
        assert((k2 - 1) * dt >= k1 * dt) by (nonlinear_arith)
            requires
                k1 < k2,
                dt > 0,
        ;
    } else if k2 < k1 {
        assert((k1 - 1) * dt >= k2 * dt) by (nonlinear_arith)
            requires
                k2 < k1,
                dt > 0,
        ;
    }
}

} // verus!
