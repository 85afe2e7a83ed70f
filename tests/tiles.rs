use rand::rngs::StdRng;
use rand::SeedableRng;
use velgi::bullet::{handle_bullets, BulletHit, HitTarget};
use velgi::tile::{break_tiles, BreakableTile, Tile, BULLET_TILE_DAMAGE, HAZARD_BREAK_TIME};

const STEP: i64 = 16_667;

fn breaking(time_to_break: i64, blocks_bullets: bool) -> BreakableTile {
    BreakableTile { time_to_break, is_breaking: true, blocks_bullets }
}

#[test]
fn initial_timers_per_tile() {
    assert_eq!(Tile::GroundStrong.time_to_break(), Some(2_000_000));
    assert_eq!(Tile::GroundWeak.time_to_break(), Some(750_000));
    assert_eq!(Tile::Cloud.time_to_break(), Some(500_000));
    assert_eq!(Tile::GroundUnbreakable.time_to_break(), None);
    assert_eq!(Tile::Empty.time_to_break(), None);
}

#[test]
fn clouds_let_bullets_through() {
    let cloud = Tile::Cloud.breakable().unwrap();
    assert!(!cloud.blocks_bullets);
    assert!(!cloud.is_breaking);
    assert_eq!(cloud.time_to_break, 500_000);
    assert!(Tile::GroundWeak.breakable().unwrap().blocks_bullets);
    assert!(Tile::GroundStrong.breakable().unwrap().blocks_bullets);
    assert_eq!(Tile::GroundUnbreakable.breakable(), None);
    assert_eq!(Tile::Empty.breakable(), None);
}

#[test]
fn symbol_table() {
    assert_eq!(Tile::symbol('X'), (Tile::GroundStrong, 100));
    assert_eq!(Tile::symbol('x'), (Tile::GroundStrong, 50));
    assert_eq!(Tile::symbol('W'), (Tile::GroundWeak, 100));
    assert_eq!(Tile::symbol('w'), (Tile::GroundWeak, 50));
    assert_eq!(Tile::symbol('C'), (Tile::Cloud, 100));
    assert_eq!(Tile::symbol('c'), (Tile::Cloud, 50));
    assert_eq!(Tile::symbol('.'), (Tile::Empty, 100));
    assert_eq!(Tile::symbol('B'), (Tile::Empty, 100));
}

#[test]
fn pick_with_roll() {
    assert_eq!(Tile::pick_with('w', true), Tile::GroundWeak);
    assert_eq!(Tile::pick_with('w', false), Tile::Empty);
    assert_eq!(Tile::pick_with('W', false), Tile::GroundWeak);
    assert_eq!(Tile::pick_with(' ', true), Tile::Empty);
}

#[test]
fn pick_certain_symbols_never_miss() {
    let mut rng = StdRng::seed_from_u64(7);
    for _ in 0..100 {
        assert_eq!(Tile::pick('X', &mut rng), Tile::GroundStrong);
        assert_eq!(Tile::pick('C', &mut rng), Tile::Cloud);
    }
}

#[test]
fn pick_chancy_symbols_give_both_outcomes() {
    let mut rng = StdRng::seed_from_u64(11);
    let mut hits = 0;
    let mut misses = 0;
    for _ in 0..200 {
        match Tile::pick('c', &mut rng) {
            Tile::Cloud => hits += 1,
            Tile::Empty => misses += 1,
            other => panic!("unexpected tile {:?}", other),
        }
    }
    assert!(hits > 0 && misses > 0);
}

#[test]
fn idle_tiles_keep_their_timer() {
    let mut tiles = vec![Tile::GroundWeak.breakable().unwrap()];
    let gone = break_tiles(&mut tiles, STEP);
    assert!(gone.is_empty());
    assert_eq!(tiles[0].time_to_break, 750_000);
}

#[test]
fn breaking_tile_falls_every_step_and_goes_once() {
    let mut t = Tile::GroundWeak.breakable().unwrap();
    t.start_breaking();
    let mut tiles = vec![t];
    let mut last = tiles[0].time_to_break;
    for step in 1..=44 {
        let gone = break_tiles(&mut tiles, STEP);
        assert!(gone.is_empty(), "removed early at step {}", step);
        assert!(tiles[0].time_to_break < last);
        assert!(tiles[0].time_to_break > 0);
        last = tiles[0].time_to_break;
    }
    let gone = break_tiles(&mut tiles, STEP);
    assert_eq!(gone, vec![0]);
    assert_eq!(tiles[0].time_to_break, 750_000 - 45 * STEP);
}

#[test]
fn break_tiles_reports_positions_in_order() {
    let mut tiles = vec![
        breaking(10, true),
        Tile::Cloud.breakable().unwrap(),
        breaking(STEP, false),
        breaking(STEP + 1, true),
    ];
    let gone = break_tiles(&mut tiles, STEP);
    assert_eq!(gone, vec![0, 2]);
    assert_eq!(tiles[3].time_to_break, 1);
    assert_eq!(tiles[1].time_to_break, 500_000);
}

#[test]
fn break_timer_holds_at_the_bottom() {
    let mut t = breaking(i64::MIN + 5, true);
    assert!(t.advance(10));
    assert_eq!(t.time_to_break, i64::MIN);
}

#[test]
fn strong_ground_takes_four_bullet_hits() {
    let mut t = Tile::GroundStrong.breakable().unwrap();
    for hit in 1..=4 {
        let stops = t.take_bullet_hit();
        assert!(stops);
        assert!(t.is_breaking);
        assert_eq!(t.time_to_break, 2_000_000 - hit * BULLET_TILE_DAMAGE);
        if hit < 4 {
            assert!(t.time_to_break > 0);
        }
    }
    assert!(t.time_to_break <= 0);
}

#[test]
fn bullet_into_strong_ground_is_despawned_after_one_hit() {
    let mut tiles = vec![Tile::GroundStrong.breakable().unwrap()];
    let hits = vec![BulletHit { bullet: 42, target: HitTarget::Tile(0) }];
    let gone = handle_bullets(&mut tiles, &hits);
    assert_eq!(gone, vec![42]);
    assert!(tiles[0].is_breaking);
    assert_eq!(tiles[0].time_to_break, 1_500_000);
}

#[test]
fn bullet_through_cloud_flies_on() {
    let mut tiles = vec![Tile::Cloud.breakable().unwrap()];
    let hits = vec![BulletHit { bullet: 5, target: HitTarget::Tile(0) }];
    let gone = handle_bullets(&mut tiles, &hits);
    assert!(gone.is_empty());
    assert!(tiles[0].is_breaking);
    assert_eq!(tiles[0].time_to_break, 0);
}

#[test]
fn bullets_and_enemies() {
    let mut tiles = vec![Tile::GroundWeak.breakable().unwrap()];
    let hits = vec![
        BulletHit { bullet: 1, target: HitTarget::Enemy(9) },
        BulletHit { bullet: 2, target: HitTarget::Enemy(9) },
        BulletHit { bullet: 3, target: HitTarget::Other },
        BulletHit { bullet: 4, target: HitTarget::Tile(0) },
        BulletHit { bullet: 6, target: HitTarget::Tile(0) },
        BulletHit { bullet: 7, target: HitTarget::Tile(3) },
    ];
    let gone = handle_bullets(&mut tiles, &hits);
    assert_eq!(gone, vec![9, 1, 4, 6]);
    assert_eq!(tiles[0].time_to_break, 750_000 - 2 * BULLET_TILE_DAMAGE);
}

#[test]
fn bullet_travel_per_step() {
    assert_eq!(velgi::bullet::travel(1_000_000), 25_000);
    assert_eq!(velgi::bullet::travel(STEP), 416);
    assert_eq!(velgi::bullet::travel(0), 0);
}

#[test]
fn hazard_clamps_cloud_timer() {
    let mut cloud = Tile::Cloud.breakable().unwrap();
    cloud.hazard_contact();
    assert!(cloud.is_breaking);
    assert_eq!(cloud.time_to_break, HAZARD_BREAK_TIME);
    assert_eq!(cloud.time_to_break, 250_000.min(500_000));
}

#[test]
fn hazard_never_extends_a_timer() {
    let mut t = breaking(100_000, false);
    t.hazard_contact();
    assert_eq!(t.time_to_break, 100_000);
}
