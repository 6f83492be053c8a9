use coin_pusher::geometry::{cylinders_overlap, BodyKind, Shape, Vec3i};
use coin_pusher::input::{drain_spawn_events, drop_point, is_spawn_trigger, ButtonEvent, MouseButton, Transition};
use coin_pusher::physics::{apply_physics, clamp_frame_time, BodyUpdate, MAX_STEP_MICROS};
use coin_pusher::scene::{bootstrap, spawn_coin, BOOTSTRAP_LEN, COIN_HALF_HEIGHT, COIN_RADIUS, PUSHER_LEG_MICROS};
use coin_pusher::tween::{Direction, Tween, TweenError, EASE_SCALE};
use coin_pusher::world::{Body, EntityId, World};

fn pusher_tween() -> Tween {
    Tween::new(Vec3i::new(0, 0, -1300), Vec3i::new(0, 0, -1500), 3_000_000).unwrap()
}

fn press(button: MouseButton) -> ButtonEvent {
    ButtonEvent { button, transition: Transition::Pressed }
}

fn release(button: MouseButton) -> ButtonEvent {
    ButtonEvent { button, transition: Transition::Released }
}

#[test]
fn tween_rejects_zero_and_negative_duration() {
    let a = Vec3i::new(0, 0, 0);
    let b = Vec3i::new(0, 0, 10);
    assert_eq!(Tween::new(a, b, 0), Err(TweenError::NonPositiveDuration));
    assert_eq!(Tween::new(a, b, -5), Err(TweenError::NonPositiveDuration));
    assert_eq!(Tween::new(a, b, i64::MIN), Err(TweenError::NonPositiveDuration));
    let t = Tween::new(a, b, 1).unwrap();
    assert_eq!(t.duration, 1);
    assert_eq!(t.cursor, 0);
    assert_eq!(t.direction, Direction::Forward);
}

#[test]
fn tween_full_cycle_returns_to_start() {
    let start = pusher_tween();
    let mut t = start;
    for _ in 0..600 {
        t.advance(10_000);
        let p = t.position_at(EASE_SCALE / 3);
        assert!(p.z <= -1300 && p.z >= -1500);
    }
    assert_eq!(t, start);
    assert_eq!(t.position_at(0), Vec3i::new(0, 0, -1300));
}

#[test]
fn tween_arrives_after_one_leg() {
    let mut t = pusher_tween();
    for _ in 0..300 {
        t.advance(10_000);
    }
    assert_eq!(t.progress(), (3_000_000, 3_000_000));
    assert_eq!(t.direction, Direction::Backward);
    assert_eq!(t.position_at(EASE_SCALE), Vec3i::new(0, 0, -1500));
}

#[test]
fn tween_turns_round_within_one_step() {
    let mut t = pusher_tween();
    t.advance(4_500_000);
    assert_eq!(t.direction, Direction::Backward);
    assert_eq!(t.cursor, 1_500_000);
    assert_eq!(t.progress(), (1_500_000, 3_000_000));
    t.advance(14_000_000);
    assert_eq!(t.direction, Direction::Forward);
    assert_eq!(t.cursor, 500_000);
}

#[test]
fn tween_position_interpolates() {
    let t = Tween::new(Vec3i::new(-100, 7, -1300), Vec3i::new(100, 7, -1500), 10).unwrap();
    assert_eq!(t.position_at(0), Vec3i::new(-100, 7, -1300));
    assert_eq!(t.position_at(EASE_SCALE), Vec3i::new(100, 7, -1500));
    assert_eq!(t.position_at(EASE_SCALE / 2), Vec3i::new(0, 7, -1400));
    assert_eq!(t.position_at(EASE_SCALE / 4), Vec3i::new(-50, 7, -1350));
    assert_eq!(t.position_at(1), Vec3i::new(-100, 7, -1300));
}

#[test]
fn presses_spawn_one_coin_each() {
    let mut w = bootstrap();
    let mut queue = vec![
        press(MouseButton::Primary),
        release(MouseButton::Primary),
        press(MouseButton::Secondary),
        press(MouseButton::Primary),
        press(MouseButton::Other(7)),
        press(MouseButton::Primary),
        release(MouseButton::Middle),
    ];
    let ids = drain_spawn_events(&mut w, &mut queue);
    assert!(queue.is_empty());
    assert_eq!(ids, vec![EntityId(27), EntityId(28), EntityId(29)]);
    assert_eq!(w.len(), BOOTSTRAP_LEN + 3);
    for id in ids {
        assert_eq!(w.get_transform(id), Some(Vec3i::new(0, 200, -400)));
        assert_eq!(w.get_body(id).unwrap().kind, BodyKind::Dynamic);
    }
    assert_eq!(drop_point(), Vec3i::new(0, 200, -400));
}

#[test]
fn releases_spawn_nothing() {
    let mut w = bootstrap();
    let before = w.snapshot();
    let mut queue = vec![release(MouseButton::Primary), release(MouseButton::Secondary)];
    let ids = drain_spawn_events(&mut w, &mut queue);
    assert!(ids.is_empty());
    assert!(queue.is_empty());
    assert_eq!(w.snapshot(), before);
    let mut empty: Vec<ButtonEvent> = Vec::new();
    assert!(drain_spawn_events(&mut w, &mut empty).is_empty());
    assert!(!is_spawn_trigger(release(MouseButton::Primary)));
    assert!(is_spawn_trigger(press(MouseButton::Primary)));
}

#[test]
fn bootstrap_declares_the_playfield() {
    let w = bootstrap();
    let s = w.snapshot();
    assert_eq!(s.len(), 27);
    assert_eq!(s[0].transform, Some(Vec3i::new(0, -100, 0)));
    assert_eq!(s[1].transform, Some(Vec3i::new(-500, 0, 0)));
    assert_eq!(s[2].transform, Some(Vec3i::new(500, 0, 0)));
    assert_eq!(s[3].transform, Some(Vec3i::new(0, 0, -1300)));
    assert_eq!(s[0].body.unwrap().shape, Shape::Cuboid { hx: 1000, hy: 100, hz: 500 });
    assert_eq!(s[3].body.unwrap().kind, BodyKind::KinematicPositionBased);
    assert_eq!(s[3].animator, Some(pusher_tween()));
    assert_eq!(s.iter().filter(|r| r.pusher).count(), 1);
    assert!(s[3].pusher);
    assert_eq!(s[4].transform, Some(Vec3i::new(-354, 5, 0)));
    assert_eq!(s[11].transform, Some(Vec3i::new(353, 5, 0)));
    assert_eq!(s[12].transform, Some(Vec3i::new(-303, 5, -100)));
    assert_eq!(s[18].transform, Some(Vec3i::new(303, 5, -100)));
    assert_eq!(s[19].transform, Some(Vec3i::new(-354, 5, -200)));
    assert_eq!(s[26].transform, Some(Vec3i::new(353, 5, -200)));
    assert_eq!(PUSHER_LEG_MICROS, 3_000_000);
    let fixed = w.entities_with_kind(BodyKind::Fixed);
    assert_eq!(fixed, vec![EntityId(0), EntityId(1), EntityId(2)]);
    let coins = w.entities_with_kind(BodyKind::Dynamic);
    assert_eq!(coins.len(), 23);
    assert_eq!(coins[0], EntityId(4));
    assert_eq!(coins[22], EntityId(26));
}

#[test]
fn zero_frames_snapshot_is_bootstrap() {
    let a = bootstrap().snapshot();
    let b = bootstrap().snapshot();
    assert_eq!(a, b);
}

#[test]
fn bootstrap_coins_do_not_overlap() {
    let w = bootstrap();
    let coins = w.entities_with_kind(BodyKind::Dynamic);
    for i in 0..coins.len() {
        for j in 0..coins.len() {
            if i != j {
                let a = w.get_transform(coins[i]).unwrap();
                let b = w.get_transform(coins[j]).unwrap();
                assert!(!cylinders_overlap(a, COIN_RADIUS, COIN_HALF_HEIGHT, b, COIN_RADIUS, COIN_HALF_HEIGHT));
            }
        }
    }
}

#[test]
fn overlap_test_measures_depth() {
    let a = Vec3i::new(0, 5, 0);
    assert!(cylinders_overlap(a, 50, 5, a, 50, 5));
    assert!(!cylinders_overlap(a, 50, 5, Vec3i::new(100, 5, 0), 50, 5));
    assert!(cylinders_overlap(a, 50, 5, Vec3i::new(99, 5, 0), 50, 5));
    assert!(cylinders_overlap(a, 50, 5, Vec3i::new(60, 5, 79), 50, 5));
    assert!(!cylinders_overlap(a, 50, 5, Vec3i::new(60, 5, 80), 50, 5));
    assert!(!cylinders_overlap(a, 50, 5, Vec3i::new(0, 15, 0), 50, 5));
    assert!(cylinders_overlap(a, 50, 5, Vec3i::new(0, 14, 0), 50, 5));
}

#[test]
fn frame_time_is_clamped() {
    assert_eq!(clamp_frame_time(0), 0);
    assert_eq!(clamp_frame_time(16_000), 16_000);
    assert_eq!(clamp_frame_time(MAX_STEP_MICROS), MAX_STEP_MICROS);
    assert_eq!(clamp_frame_time(2_000_000), 16_667);
    assert_eq!(clamp_frame_time(u64::MAX), 16_667);
}

#[test]
fn walls_never_move_over_frames() {
    let mut w = bootstrap();
    let walls = w.entities_with_kind(BodyKind::Fixed);
    let before: Vec<Option<Vec3i>> = walls.iter().map(|id| w.get_transform(*id)).collect();
    let pusher = EntityId(3);
    for frame in 0..20i64 {
        let mut queue = vec![press(MouseButton::Primary)];
        drain_spawn_events(&mut w, &mut queue);
        let dt = clamp_frame_time(40_000);
        let updates = vec![
            BodyUpdate { id: EntityId(0), position: Vec3i::new(1, 2, 3) },
            BodyUpdate { id: EntityId(2), position: Vec3i::new(frame, 0, 0) },
            BodyUpdate { id: pusher, position: Vec3i::new(0, 0, 0) },
            BodyUpdate { id: EntityId(5), position: Vec3i::new(frame, 5, 0) },
            BodyUpdate { id: EntityId(10_000), position: Vec3i::new(0, 0, 0) },
        ];
        assert_eq!(apply_physics(&mut w, &updates), 1);
        w.advance_animations(dt);
        assert!(w.apply_animation(pusher, EASE_SCALE / 2));
    }
    let after: Vec<Option<Vec3i>> = walls.iter().map(|id| w.get_transform(*id)).collect();
    assert_eq!(before, after);
    assert_eq!(w.get_transform(EntityId(5)), Some(Vec3i::new(19, 5, 0)));
    assert_eq!(w.get_transform(pusher), Some(Vec3i::new(0, 0, -1400)));
    assert_eq!(w.len(), BOOTSTRAP_LEN + 20);
    let t = w.get_animator(pusher).unwrap();
    assert_eq!(t.cursor, 20 * 16_667);
}

#[test]
fn animation_moves_only_animated_kinematic_bodies() {
    let mut w = bootstrap();
    assert!(!w.apply_animation(EntityId(0), 0));
    assert!(!w.apply_animation(EntityId(4), 0));
    assert!(!w.apply_animation(EntityId(99), 0));
    w.advance_animations(1_500_000);
    assert_eq!(w.get_animator(EntityId(3)).unwrap().progress(), (1_500_000, 3_000_000));
    assert!(w.apply_animation(EntityId(3), EASE_SCALE));
    assert_eq!(w.get_transform(EntityId(3)), Some(Vec3i::new(0, 0, -1500)));
}

#[test]
fn missing_components_read_as_absent() {
    let mut w = World::new();
    assert_eq!(w.len(), 0);
    assert_eq!(w.get_transform(EntityId(0)), None);
    assert!(!w.attach_transform(EntityId(0), Vec3i::new(1, 1, 1)));
    let id = w.create_entity();
    assert_eq!(id, EntityId(0));
    assert_eq!(w.get_transform(id), None);
    assert_eq!(w.get_body(id), None);
    assert_eq!(w.get_animator(id), None);
    assert!(w.attach_transform(id, Vec3i::new(1, 2, 3)));
    let body = Body { shape: Shape::Cylinder { half_height: 5, radius: 50 }, kind: BodyKind::Dynamic };
    assert!(w.attach_body(id, body));
    assert!(w.attach_pusher_tag(id));
    assert!(w.attach_animator(id, pusher_tween()));
    let rec = w.get(id).unwrap();
    assert_eq!(rec.transform, Some(Vec3i::new(1, 2, 3)));
    assert_eq!(rec.body, Some(body));
    assert!(rec.pusher);
    assert!(w.move_dynamic(id, Vec3i::new(4, 5, 6)));
    assert_eq!(w.get_transform(id), Some(Vec3i::new(4, 5, 6)));
    let coin = spawn_coin(&mut w, Vec3i::new(0, 0, 0));
    assert_eq!(coin, EntityId(1));
    assert_eq!(w.entities_with_kind(BodyKind::Dynamic), vec![EntityId(0), EntityId(1)]);
}

#[test]
fn pusher_stays_unique_across_spawns() {
    let mut w = bootstrap();
    assert_eq!(w.find_pusher(), Some(EntityId(3)));
    let mut queue = vec![press(MouseButton::Primary), press(MouseButton::Primary)];
    drain_spawn_events(&mut w, &mut queue);
    assert_eq!(w.find_pusher(), Some(EntityId(3)));
    let s = w.snapshot();
    assert_eq!(s.iter().filter(|r| r.pusher).count(), 1);
    assert_eq!(World::new().find_pusher(), None);
}
