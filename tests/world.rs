use velgi::enemy::{BatAction, Enemy, BAT_SPOT_RANGE};
use velgi::game::{GameplayState, StateAction};
use velgi::physics_layers::{activate_oneway, ENEMY, ONEWAY_ACTIVE, ONEWAY_INACTIVE, PLAYER};
use velgi::spike_roller::{RollerContact, SpikeRoller, TickResult};
use velgi::tile::{BreakableTile, Tile};

#[test]
fn bat_starts_dormant() {
    assert_eq!(Enemy::bat(), Enemy::Bat { is_active: false });
    assert!(!Enemy::bat().is_active());
}

#[test]
fn dormant_bat_looks_only_within_range() {
    let bat = Enemy::bat();
    assert_eq!(bat.tick(0, 0, BAT_SPOT_RANGE, 0), BatAction::LookForPlayer);
    assert_eq!(bat.tick(0, 0, BAT_SPOT_RANGE + 1, 0), BatAction::Wait);
    assert_eq!(bat.tick(1_000, 1_000, 1_000 + 4_800, 1_000 - 6_400), BatAction::LookForPlayer);
    assert_eq!(bat.tick(0, 0, 5_700, 5_700), BatAction::Wait);
    assert_eq!(bat.tick(i64::MIN, 0, i64::MAX, 0), BatAction::Wait);
}

#[test]
fn bat_wakes_on_seeing_the_player_and_stays_awake() {
    let mut bat = Enemy::bat();
    bat.sighted(None);
    assert!(!bat.is_active());
    bat.sighted(Some(ENEMY));
    assert!(!bat.is_active());
    bat.sighted(Some(PLAYER));
    assert!(bat.is_active());
    bat.sighted(None);
    bat.sighted(Some(ENEMY));
    assert!(bat.is_active());
    assert_eq!(bat.tick(0, 0, 100_000, 0), BatAction::Chase);
}

#[test]
fn oneway_platforms_turn_solid() {
    assert_eq!(activate_oneway(ONEWAY_INACTIVE), ONEWAY_ACTIVE);
    assert_eq!(activate_oneway(ONEWAY_ACTIVE), ONEWAY_ACTIVE);
    assert_eq!(activate_oneway(PLAYER), PLAYER);
}

#[test]
fn roller_follows_the_camera_up_only() {
    let roller = SpikeRoller::new(4);
    assert_eq!(roller.entity(), 4);
    let mut tiles: Vec<BreakableTile> = Vec::new();
    let start = SpikeRoller::start_height();
    assert_eq!(start, -6_500);
    let mut y = start;
    let mut heights = vec![y];
    for camera_y in [3_000, 10_000, 8_000, 8_000, 20_000, 0] {
        let out = roller.tick(y, camera_y, &mut tiles, &vec![]);
        assert!(out.y >= y);
        y = out.y;
        heights.push(y);
    }
    assert_eq!(heights, vec![-6_500, -3_500, 3_500, 3_500, 3_500, 13_500, 13_500]);
}

#[test]
fn roller_contacts() {
    let roller = SpikeRoller::new(4);
    let mut tiles = vec![Tile::Cloud.breakable().unwrap(), Tile::GroundStrong.breakable().unwrap()];
    let contacts = vec![
        RollerContact::Tile(0),
        RollerContact::Other(12),
        RollerContact::Tile(1),
        RollerContact::Player,
        RollerContact::Other(13),
    ];
    let out = roller.tick(0, 0, &mut tiles, &contacts);
    assert_eq!(out.result, TickResult { player_hit: true });
    assert_eq!(out.despawn, vec![12]);
    assert_eq!(tiles[0].time_to_break, 250_000);
    assert_eq!(tiles[1].time_to_break, 250_000);
    assert!(tiles[0].is_breaking && tiles[1].is_breaking);

    let out = roller.tick(0, 0, &mut tiles, &vec![RollerContact::Other(13)]);
    assert_eq!(out.result, TickResult::default());
    assert_eq!(out.despawn, vec![13]);
}

#[test]
fn game_over_and_restart() {
    assert_eq!(
        GameplayState::Playing.next(false, true),
        (GameplayState::Playing, StateAction::Continue)
    );
    assert_eq!(
        GameplayState::Playing.next(true, false),
        (GameplayState::GameOver, StateAction::ShowGameOver)
    );
    assert_eq!(
        GameplayState::GameOver.next(true, false),
        (GameplayState::GameOver, StateAction::Continue)
    );
    assert_eq!(
        GameplayState::GameOver.next(false, true),
        (GameplayState::Playing, StateAction::Reset)
    );
}
