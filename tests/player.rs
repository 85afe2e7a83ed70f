use velgi::player::{
    Aim, Axis, Bullet, PlayerContact, PlayerInput, PlayerState, Touched, Velocity,
    JUMP_YSPEED, KNOCKBACK_FRAMES, KNOCKBACK_SPEED, MAX_XSPEED,
};

fn idle() -> PlayerInput {
    PlayerInput {
        horizontal: Axis::Neutral,
        vertical: Axis::Neutral,
        jump: false,
        jump_released: false,
        shoot: false,
    }
}

fn ground(id: u64) -> PlayerContact {
    PlayerContact { other: Touched::Entity(id), normal_y: -1000 }
}

fn still() -> Velocity {
    Velocity { x: 0, y: 0 }
}

#[test]
fn grounded_for_five_ticks() {
    let mut p = PlayerState::new(1);
    let contacts = vec![ground(7)];
    for _ in 0..5 {
        let out = p.tick(&idle(), &contacts, 0, still());
        assert_eq!(out.tiles_touched, vec![7]);
    }
    assert_eq!(p.frames_since_on_ground(), 0);
    assert!(p.has_doublejump());
}

#[test]
fn ground_needs_a_steep_normal() {
    let mut p = PlayerState::new(1);
    let wall = vec![PlayerContact { other: Touched::Entity(3), normal_y: -900 }];
    let out = p.tick(&idle(), &wall, 0, still());
    assert!(out.tiles_touched.is_empty());
    assert_eq!(p.frames_since_on_ground(), 1);
}

#[test]
fn coyote_jump_keeps_double_jump() {
    let mut p = PlayerState::new(1);
    p.tick(&idle(), &vec![ground(2)], 0, still());
    p.tick(&idle(), &vec![], 0, still());
    let jump = PlayerInput { jump: true, ..idle() };
    let out = p.tick(&jump, &vec![], 0, still());
    assert_eq!(p.frames_since_on_ground(), 2);
    assert_eq!(out.velocity.y, JUMP_YSPEED);
    assert!(p.has_doublejump());
    assert!(p.holding_jump());
}

#[test]
fn late_jump_spends_double_jump() {
    let mut p = PlayerState::new(1);
    for _ in 0..3 {
        p.tick(&idle(), &vec![], 0, still());
    }
    let jump = PlayerInput { jump: true, ..idle() };
    let out = p.tick(&jump, &vec![], 0, still());
    assert_eq!(out.velocity.y, JUMP_YSPEED);
    assert!(!p.has_doublejump());
    assert!(!out.doublejump_ready);
    let again = p.tick(&jump, &vec![], 0, Velocity { x: 0, y: -500 });
    assert_eq!(again.velocity.y, -500);
}

#[test]
fn releasing_jump_cuts_it_short() {
    let mut p = PlayerState::new(1);
    let jump = PlayerInput { jump: true, ..idle() };
    p.tick(&jump, &vec![ground(2)], 0, still());
    let release = PlayerInput { jump_released: true, ..idle() };
    let out = p.tick(&release, &vec![], 0, Velocity { x: 0, y: 10_000 });
    assert_eq!(out.velocity.y, 2_500);
    assert!(!p.holding_jump());
    let falling = p.tick(&release, &vec![], 0, Velocity { x: 0, y: -3_000 });
    assert_eq!(falling.velocity.y, -3_000);
}

#[test]
fn running_follows_the_axis() {
    let mut p = PlayerState::new(1);
    let right = PlayerInput { horizontal: Axis::Positive, ..idle() };
    let out = p.tick(&right, &vec![ground(2)], 0, Velocity { x: 0, y: -100 });
    assert_eq!(out.velocity, Velocity { x: MAX_XSPEED, y: -100 });
    let left = PlayerInput { horizontal: Axis::Negative, ..idle() };
    assert_eq!(p.tick(&left, &vec![], 0, still()).velocity.x, -MAX_XSPEED);
}

#[test]
fn knockback_ignores_input_for_its_duration() {
    let mut p = PlayerState::new(1);
    let enemy = vec![PlayerContact { other: Touched::Enemy { id: 77, x: 5_000 }, normal_y: 0 }];
    let right = PlayerInput { horizontal: Axis::Positive, jump: true, ..idle() };
    let out = p.tick(&right, &enemy, 1_000, Velocity { x: 7_000, y: 3_000 });
    assert_eq!(out.velocity, Velocity { x: -KNOCKBACK_SPEED, y: 0 });
    assert_eq!(out.enemies_hit, vec![77]);
    assert!(p.has_doublejump());
    let mut ignored = 1;
    loop {
        let out = p.tick(&right, &vec![], 0, Velocity { x: 123, y: 0 });
        if out.velocity.x == MAX_XSPEED {
            break;
        }
        assert_eq!(out.velocity.x, 123);
        ignored += 1;
        assert!(ignored <= KNOCKBACK_FRAMES);
    }
    assert_eq!(ignored, KNOCKBACK_FRAMES);
    assert_eq!(p.knockback_frames(), 0);
}

#[test]
fn knockback_pushes_away_from_the_enemy() {
    let mut p = PlayerState::new(1);
    let enemy = vec![PlayerContact { other: Touched::Enemy { id: 3, x: -2_000 }, normal_y: 0 }];
    let out = p.tick(&idle(), &enemy, 0, still());
    assert_eq!(out.velocity.x, KNOCKBACK_SPEED);
    assert_eq!(p.knockback_frames(), KNOCKBACK_FRAMES - 1);
    assert!(!out.doublejump_ready);
}

#[test]
fn aim_and_shoot() {
    let mut p = PlayerState::new(1);
    let shoot = PlayerInput { shoot: true, ..idle() };
    let out = p.tick(&shoot, &vec![], 0, still());
    assert_eq!(out.bullet, Some(Bullet { dir: Aim { x: Axis::Positive, y: Axis::Neutral } }));
    let up_left = PlayerInput { horizontal: Axis::Negative, vertical: Axis::Positive, ..idle() };
    assert_eq!(p.tick(&up_left, &vec![], 0, still()).bullet, None);
    let out = p.tick(&shoot, &vec![], 0, still());
    assert_eq!(out.bullet, Some(Bullet { dir: Aim { x: Axis::Negative, y: Axis::Positive } }));
    assert_eq!(p.aim_dir(), Aim { x: Axis::Negative, y: Axis::Positive });
}

#[test]
fn camera_only_rises() {
    let p = PlayerState::new(1);
    let mut camera_y = 3_000;
    p.move_camera(5_500, &mut camera_y);
    assert_eq!(camera_y, 5_500);
    p.move_camera(1_000, &mut camera_y);
    assert_eq!(camera_y, 5_500);
}
