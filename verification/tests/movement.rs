use bevy::input::keyboard::KeyCode;
use bevy::input::Input;
use third_person_scene::input::Held;
use third_person_scene::camera::Camera;
use third_person_scene::player::{frame_distance, player_movement, Transform, EDGE, FRAME_REACH};
use third_person_scene::vector::{Vec3, ONE};

fn level_camera() -> Camera {
    Camera::new(Vec3::new(0, 0, ONE), Vec3::new(ONE, 0, 0)).unwrap()
}

fn start() -> Transform {
    Transform { translation: Vec3::new(0, 500_000, 0), facing: Vec3::new(0, 0, -ONE) }
}

fn keys_down(codes: &[KeyCode]) -> Input<KeyCode> {
    let mut keys = Input::<KeyCode>::default();
    for code in codes {
        keys.press(*code);
    }
    keys
}

fn after_frame(camera: Option<&Camera>, codes: &[KeyCode]) -> Transform {
    let mut player = start();
    player_movement(2_000_000, &mut player, camera, &keys_down(codes), 500_000);
    player
}

#[test]
fn no_keys_leave_the_player_in_place() {
    let player = after_frame(Some(&level_camera()), &[]);
    assert_eq!(player, start());
}

#[test]
fn forward_moves_along_the_camera_by_speed_times_time() {
    let player = after_frame(Some(&level_camera()), &[KeyCode::W]);
    assert_eq!(player.translation, Vec3::new(0, 500_000, 1_000_000));
    assert_eq!(player.facing, Vec3::new(0, 0, ONE));
}

#[test]
fn forward_and_right_move_along_the_diagonal() {
    let player = after_frame(Some(&level_camera()), &[KeyCode::W, KeyCode::D]);
    assert_eq!(player.translation, Vec3::new(707_106, 500_000, 707_106));
    assert_eq!(player.facing, Vec3::new(707_106, 0, 707_106));
}

#[test]
fn the_diagonal_is_no_faster_than_straight_ahead() {
    let straight = after_frame(Some(&level_camera()), &[KeyCode::W]);
    let diagonal = after_frame(Some(&level_camera()), &[KeyCode::W, KeyCode::D]);
    let length_squared = |v: Vec3| (v.x as i128).pow(2) + (v.z as i128).pow(2);
    assert_eq!(length_squared(straight.translation), 1_000_000_000_000);
    assert!(length_squared(diagonal.translation) <= 1_000_000_000_000);
    assert!(length_squared(diagonal.translation) >= 999_990_000_000);
}

#[test]
fn forward_and_back_cancel() {
    let player = after_frame(Some(&level_camera()), &[KeyCode::W, KeyCode::S]);
    assert_eq!(player, start());
}

#[test]
fn left_and_right_cancel() {
    let player = after_frame(Some(&level_camera()), &[KeyCode::A, KeyCode::D]);
    assert_eq!(player, start());
}

#[test]
fn all_four_cancel() {
    let codes = [KeyCode::W, KeyCode::S, KeyCode::A, KeyCode::D];
    let player = after_frame(Some(&level_camera()), &codes);
    assert_eq!(player, start());
}

#[test]
fn a_cancelled_pair_leaves_the_third_key() {
    let player = after_frame(Some(&level_camera()), &[KeyCode::W, KeyCode::S, KeyCode::A]);
    assert_eq!(player.translation, Vec3::new(-1_000_000, 500_000, 0));
    assert_eq!(player.facing, Vec3::new(-ONE, 0, 0));
}

#[test]
fn back_and_left_are_the_reverse_of_forward_and_right() {
    let back = after_frame(Some(&level_camera()), &[KeyCode::S]);
    assert_eq!(back.translation, Vec3::new(0, 500_000, -1_000_000));
    assert_eq!(back.facing, Vec3::new(0, 0, -ONE));
    let left = after_frame(Some(&level_camera()), &[KeyCode::A]);
    assert_eq!(left.translation, Vec3::new(-1_000_000, 500_000, 0));
    assert_eq!(left.facing, Vec3::new(-ONE, 0, 0));
    let right = after_frame(Some(&level_camera()), &[KeyCode::D]);
    assert_eq!(right.translation, Vec3::new(1_000_000, 500_000, 0));
    assert_eq!(right.facing, Vec3::new(ONE, 0, 0));
    let both = after_frame(Some(&level_camera()), &[KeyCode::S, KeyCode::A]);
    assert_eq!(both.translation, Vec3::new(-707_106, 500_000, -707_106));
    assert_eq!(both.facing, Vec3::new(-707_106, 0, -707_106));
}

#[test]
fn the_arrow_keys_do_as_the_letters() {
    let camera = level_camera();
    assert_eq!(after_frame(Some(&camera), &[KeyCode::Up]), after_frame(Some(&camera), &[KeyCode::W]));
    assert_eq!(after_frame(Some(&camera), &[KeyCode::Down]), after_frame(Some(&camera), &[KeyCode::S]));
    assert_eq!(after_frame(Some(&camera), &[KeyCode::Left]), after_frame(Some(&camera), &[KeyCode::A]));
    assert_eq!(after_frame(Some(&camera), &[KeyCode::Right]), after_frame(Some(&camera), &[KeyCode::D]));
    assert_eq!(
        after_frame(Some(&camera), &[KeyCode::W, KeyCode::Up]),
        after_frame(Some(&camera), &[KeyCode::W])
    );
}

#[test]
fn other_keys_do_nothing() {
    let codes = [KeyCode::Space, KeyCode::Q, KeyCode::E, KeyCode::Return, KeyCode::ShiftLeft];
    assert_eq!(after_frame(Some(&level_camera()), &codes), start());
}

#[test]
fn a_camera_that_looks_down_does_not_lower_the_player() {
    let camera = Camera::new(Vec3::new(0, -800_000, 600_000), Vec3::new(ONE, 0, 0)).unwrap();
    let player = after_frame(Some(&camera), &[KeyCode::W]);
    assert_eq!(player.translation, Vec3::new(0, 500_000, 1_000_000));
    assert_eq!(player.facing, Vec3::new(0, 0, ONE));
    let player = after_frame(Some(&camera), &[KeyCode::W, KeyCode::D]);
    assert_eq!(player.translation, Vec3::new(857_492, 500_000, 514_495));
    assert_eq!(player.facing, Vec3::new(857_492, 0, 514_495));
    let player = after_frame(Some(&camera), &[KeyCode::S]);
    assert_eq!(player.translation.y, 500_000);
}

#[test]
fn a_camera_that_looks_straight_down_gives_no_way_forward() {
    let camera = Camera::new(Vec3::new(0, -ONE, 0), Vec3::new(ONE, 0, 0)).unwrap();
    assert_eq!(after_frame(Some(&camera), &[KeyCode::W]), start());
}

#[test]
fn a_turned_camera_turns_the_movement() {
    let camera = Camera::new(Vec3::new(500_000, 0, 866_025), Vec3::new(866_025, 0, -500_000)).unwrap();
    let player = after_frame(Some(&camera), &[KeyCode::W]);
    assert_eq!(player.facing, Vec3::new(500_000, 0, 866_025));
    assert_eq!(player.translation, Vec3::new(500_000, 500_000, 866_025));
    let player = after_frame(Some(&camera), &[KeyCode::W, KeyCode::D]);
    assert_eq!(player.facing, Vec3::new(965_925, 0, 258_818));
    let player = after_frame(Some(&camera), &[KeyCode::W, KeyCode::A]);
    assert_eq!(player.facing, Vec3::new(-258_818, 0, 965_925));
}

#[test]
fn without_a_camera_nothing_moves() {
    let codes = [KeyCode::W, KeyCode::D];
    assert_eq!(after_frame(None, &codes), start());
}

#[test]
fn a_player_at_rest_keeps_its_facing_after_it_moved() {
    let mut player = start();
    let camera = level_camera();
    player_movement(2_000_000, &mut player, Some(&camera), &keys_down(&[KeyCode::D]), 500_000);
    assert_eq!(player.facing, Vec3::new(ONE, 0, 0));
    player_movement(2_000_000, &mut player, Some(&camera), &keys_down(&[]), 500_000);
    assert_eq!(player.facing, Vec3::new(ONE, 0, 0));
    assert_eq!(player.translation, Vec3::new(1_000_000, 500_000, 0));
}

#[test]
fn a_player_without_speed_turns_but_stays() {
    let mut player = start();
    player_movement(0, &mut player, Some(&level_camera()), &keys_down(&[KeyCode::D]), 500_000);
    assert_eq!(player.translation, start().translation);
    assert_eq!(player.facing, Vec3::new(ONE, 0, 0));
}

#[test]
fn a_frame_of_no_time_turns_but_stays() {
    let mut player = start();
    player_movement(2_000_000, &mut player, Some(&level_camera()), &keys_down(&[KeyCode::D]), 0);
    assert_eq!(player.translation, start().translation);
    assert_eq!(player.facing, Vec3::new(ONE, 0, 0));
}

#[test]
fn frames_add_up() {
    let mut player = start();
    let camera = level_camera();
    let keys = keys_down(&[KeyCode::W, KeyCode::A]);
    for _ in 0..60 {
        player_movement(2_000_000, &mut player, Some(&camera), &keys, 16_667);
    }
    assert_eq!(player.translation, Vec3::new(-60 * 23_570, 500_000, 60 * 23_570));
}

#[test]
fn the_longest_frame_at_the_edge_stays_within_the_numbers() {
    let mut player = Transform { translation: Vec3::new(EDGE, 0, -EDGE), facing: Vec3::new(0, 0, -ONE) };
    let keys = keys_down(&[KeyCode::D]);
    player_movement(u32::MAX, &mut player, Some(&level_camera()), &keys, u32::MAX);
    assert_eq!(player.translation, Vec3::new(i64::MAX, 0, -EDGE));
    assert_eq!(EDGE, i64::MAX - FRAME_REACH as i64);

    let mut player = Transform { translation: Vec3::new(EDGE, 0, -EDGE), facing: Vec3::new(0, 0, -ONE) };
    let keys = keys_down(&[KeyCode::S]);
    player_movement(u32::MAX, &mut player, Some(&level_camera()), &keys, u32::MAX);
    assert_eq!(player.translation, Vec3::new(EDGE, 0, -i64::MAX));
}

#[test]
fn distance_is_speed_times_time() {
    assert_eq!(frame_distance(2_000_000, 500_000), 1_000_000);
    assert_eq!(frame_distance(2_000_000, 16_667), 33_334);
    assert_eq!(frame_distance(1, 999_999), 0);
    assert_eq!(frame_distance(3, 500_000), 1);
    assert_eq!(frame_distance(0, 500_000), 0);
    assert_eq!(frame_distance(u32::MAX, u32::MAX), 18_446_744_065_119);
}

#[test]
fn held_reads_each_pair_of_keys() {
    let none = Held::none();
    assert_eq!(Held::read(&keys_down(&[])), none);
    assert_eq!(Held::read(&keys_down(&[KeyCode::W])), Held { forward: true, ..none });
    assert_eq!(Held::read(&keys_down(&[KeyCode::Up])), Held { forward: true, ..none });
    assert_eq!(Held::read(&keys_down(&[KeyCode::S])), Held { back: true, ..none });
    assert_eq!(Held::read(&keys_down(&[KeyCode::Down])), Held { back: true, ..none });
    assert_eq!(Held::read(&keys_down(&[KeyCode::A])), Held { left: true, ..none });
    assert_eq!(Held::read(&keys_down(&[KeyCode::Left])), Held { left: true, ..none });
    assert_eq!(Held::read(&keys_down(&[KeyCode::D])), Held { right: true, ..none });
    assert_eq!(Held::read(&keys_down(&[KeyCode::Right])), Held { right: true, ..none });
    let all = [KeyCode::Up, KeyCode::S, KeyCode::Left, KeyCode::D];
    assert_eq!(
        Held::read(&keys_down(&all)),
        Held { forward: true, back: true, left: true, right: true }
    );
}

#[test]
fn held_forgets_a_key_let_go() {
    let mut keys = keys_down(&[KeyCode::W, KeyCode::Up, KeyCode::D]);
    keys.release(KeyCode::W);
    assert_eq!(Held::read(&keys), Held { forward: true, right: true, ..Held::none() });
    keys.release(KeyCode::Up);
    assert_eq!(Held::read(&keys), Held { right: true, ..Held::none() });
}
