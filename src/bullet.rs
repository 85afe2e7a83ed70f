//! Bullet hits: what the first thing each bullet's sweep met does to it.
//!
//! Each tick every bullet sweeps ahead, over the distance it is about to
//! travel, for the first collider in its way; the caller then moves it by that
//! same distance. Sweeping before moving gives at most one hit per bullet per
//! tick and keeps bullets from passing through thin tiles. The hits are applied
//! here in a second pass, after all bullets have swept.
use vstd::prelude::*;
use crate::tile::{BreakableTile, spec_bullet_hit};

verus! {

/// Radius of a bullet's sweep, in milli-tiles.
pub const BULLET_RADIUS: i64 = 400;
/// Speed of a bullet, in milli-tiles per second.
pub const BULLET_SPEED: i64 = 25_000;

/// The first collider that a bullet's sweep met.
#[derive(Clone, Copy, Debug, PartialEq, Eq, Structural)]
pub enum HitTarget {
    /// A breakable tile, by its position in the caller's tile list.
    Tile(usize),
    /// An enemy entity.
    Enemy(u64),
    /// Anything else; the bullet flies on.
    Other,
}

/// A bullet entity and what its sweep hit first.
#[derive(Clone, Copy, Debug, PartialEq, Eq, Structural)]
pub struct BulletHit {
    pub bullet: u64,
    pub target: HitTarget,
}

/// The distance a bullet covers in a step of `dt` microseconds, in
/// milli-tiles: both the length of its sweep and of its move.
pub open spec fn spec_travel(dt: i64) -> int {
    BULLET_SPEED * dt / 1_000_000
}

/// One hit applied to the tiles and to the list of entities to despawn.
/// A tile hit damages the tile and removes the bullet only where the tile
/// stops bullets; an enemy hit removes both, unless the enemy is already gone.
pub open spec fn apply_hit(
    tiles: Seq<BreakableTile>,
    gone: Seq<u64>,
    h: BulletHit,
) -> (Seq<BreakableTile>, Seq<u64>) {
    match h.target {
        HitTarget::Tile(i) => if i < tiles.len() {
            (
                tiles.update(i as int, spec_bullet_hit(tiles[i as int])),
                if tiles[i as int].blocks_bullets {
                    gone.push(h.bullet)
                } else {
                    gone
                },
            )
        } else {
            (tiles, gone)
        },
        HitTarget::Enemy(e) => if gone.contains(e) {
            (tiles, gone)
        } else {
            (tiles, gone.push(e).push(h.bullet))
        },
        HitTarget::Other => (tiles, gone),
    }
}

/// The hits applied in order, starting with nothing to despawn.
pub open spec fn apply_hits(tiles: Seq<BreakableTile>, hits: Seq<BulletHit>) -> (
    Seq<BreakableTile>,
    Seq<u64>,
)
    decreases hits.len(),
{
    if hits.len() == 0 {
        (tiles, Seq::empty())
    } else {
        let (t, g) = apply_hits(tiles, hits.drop_last());
        apply_hit(t, g, hits.last())
    }
}

/// How far a bullet travels in a step of `dt` microseconds, in milli-tiles.
pub fn travel(dt: i64) -> (r: i64)
    requires
        0 <= dt <= 1_000_000_000_000,
    ensures
        r == spec_travel(dt),
{
    BULLET_SPEED * dt / 1_000_000
}

fn contains(v: &Vec<u64>, x: u64) -> (r: bool)
    ensures
        r == v@.contains(x),
{
    let mut i: usize = 0;
    while i < v.len()
        invariant
            0 <= i <= v@.len(),
            forall|j: int| 0 <= j < i ==> v@[j] != x,
        decreases v@.len() - i,
    {
        if v[i] == x {
            return true;
        }
        i += 1;
    }
    false
}

/// Applies this tick's bullet hits, in order, to the breakable tiles, and
/// returns the entities to despawn.
pub fn handle_bullets(tiles: &mut Vec<BreakableTile>, hits: &Vec<BulletHit>) -> (gone: Vec<u64>)
    ensures
        (final(tiles)@, gone@) == apply_hits(old(tiles)@, hits@),
{
    let ghost before = tiles@;
    let mut gone: Vec<u64> = Vec::new();
    let mut i: usize = 0;
    while i < hits.len()
        invariant
            0 <= i <= hits@.len(),
            (tiles@, gone@) == apply_hits(before, hits@.take(i as int)),
        decreases hits@.len() - i,
    {
        let h = hits[i];
        proof {
            assert(hits@.take(i + 1).drop_last() =~= hits@.take(i as int));
        }
        match h.target {
            HitTarget::Tile(k) => {
                if k < tiles.len() {
                    let mut t = tiles[k];
                    let stops = t.take_bullet_hit();
                    tiles.set(k, t);
                    if stops {
                        gone.push(h.bullet);
                    }
                }
            },
            HitTarget::Enemy(e) => {
                if !contains(&gone, e) {
                    gone.push(e);
                    gone.push(h.bullet);
                }
            },
            HitTarget::Other => {},
        }
        i += 1;
    }
    proof {
        assert(hits@.take(hits@.len() as int) =~= hits@);
    }
    gone
}

/// A hit has a single outcome: at most the one tile it names changes, and
/// at most the bullet and the enemy it names are despawned.
pub proof fn lemma_single_outcome(tiles: Seq<BreakableTile>, gone: Seq<u64>, h: BulletHit)
    ensures
        ({
            let (t, g) = apply_hit(tiles, gone, h);
            &&& t.len() == tiles.len()
            &&& forall|j: int|
                0 <= j < tiles.len() && h.target != HitTarget::Tile(j as usize) ==> t[j]
                    == tiles[j]
            &&& g.len() <= gone.len() + 2
            &&& g.subrange(0, gone.len() as int) == gone
            &&& forall|j: int|
                gone.len() <= j < g.len() ==> g[j] == h.bullet || h.target == HitTarget::Enemy(
                    g[j],
                )
        }),
{
    let (t, g) = apply_hit(tiles, gone, h);
    assert(g.subrange(0, gone.len() as int) =~= gone);
}

} // verus!
