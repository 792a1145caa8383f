use third_person_scene::input::{Direction, Held, Key};
use third_person_scene::camera::Camera;
use third_person_scene::vector::{Vec3, ONE};

#[test]
fn a_camera_has_four_axes() {
    let camera = Camera::new(Vec3::new(0, -800_000, 600_000), Vec3::new(ONE, 0, 0)).unwrap();
    assert_eq!(camera.forward(), Vec3::new(0, -800_000, 600_000));
    assert_eq!(camera.back(), Vec3::new(0, 800_000, -600_000));
    assert_eq!(camera.right(), Vec3::new(ONE, 0, 0));
    assert_eq!(camera.left(), Vec3::new(-ONE, 0, 0));
    assert_eq!(camera.axis(Direction::Forward), camera.forward());
    assert_eq!(camera.axis(Direction::Back), camera.back());
    assert_eq!(camera.axis(Direction::Left), camera.left());
    assert_eq!(camera.axis(Direction::Right), camera.right());
}

#[test]
fn a_camera_takes_no_axis_longer_than_one() {
    assert!(Camera::new(Vec3::new(0, 0, ONE + 1), Vec3::new(ONE, 0, 0)).is_none());
    assert!(Camera::new(Vec3::new(0, 0, ONE), Vec3::new(0, -ONE - 1, 0)).is_none());
    assert!(Camera::new(Vec3::new(i64::MIN, 0, 0), Vec3::new(ONE, 0, 0)).is_none());
    assert!(Camera::new(Vec3::new(ONE, -ONE, ONE), Vec3::new(-ONE, ONE, -ONE)).is_some());
    assert!(Camera::new(Vec3::zero(), Vec3::zero()).is_some());
}

#[test]
fn the_heading_is_the_flat_sum_of_the_axes_asked_for() {
    let camera = Camera::new(Vec3::new(0, -800_000, 600_000), Vec3::new(ONE, 0, 0)).unwrap();
    let none = Held::none();
    assert_eq!(camera.heading(none), Vec3::zero());
    assert_eq!(camera.heading(Held { forward: true, ..none }), Vec3::new(0, 0, 600_000));
    assert_eq!(camera.heading(Held { back: true, ..none }), Vec3::new(0, 0, -600_000));
    assert_eq!(camera.heading(Held { left: true, ..none }), Vec3::new(-ONE, 0, 0));
    assert_eq!(camera.heading(Held { right: true, ..none }), Vec3::new(ONE, 0, 0));
    assert_eq!(
        camera.heading(Held { forward: true, right: true, ..none }),
        Vec3::new(ONE, 0, 600_000)
    );
    assert_eq!(
        camera.heading(Held { forward: true, back: true, left: true, right: true }),
        Vec3::zero()
    );
}

#[test]
fn the_displacement_is_the_unit_heading_times_the_distance() {
    let camera = Camera::new(Vec3::new(0, 0, ONE), Vec3::new(ONE, 0, 0)).unwrap();
    let none = Held::none();
    assert_eq!(camera.displacement(none, 2_000_000, 500_000), Vec3::zero());
    assert_eq!(
        camera.displacement(Held { forward: true, ..none }, 2_000_000, 500_000),
        Vec3::new(0, 0, 1_000_000)
    );
    assert_eq!(
        camera.displacement(Held { forward: true, right: true, ..none }, 2_000_000, 500_000),
        Vec3::new(707_106, 0, 707_106)
    );
    assert_eq!(
        camera.displacement(Held { back: true, right: true, ..none }, 2_000_000, 16_667),
        Vec3::new(23_570, 0, -23_570)
    );
    assert_eq!(
        camera.displacement(Held { forward: true, back: true, ..none }, 2_000_000, 500_000),
        Vec3::zero()
    );
}

#[test]
fn each_key_stands_for_a_direction() {
    assert_eq!(Key::W.direction(), Direction::Forward);
    assert_eq!(Key::Up.direction(), Direction::Forward);
    assert_eq!(Key::S.direction(), Direction::Back);
    assert_eq!(Key::Down.direction(), Direction::Back);
    assert_eq!(Key::A.direction(), Direction::Left);
    assert_eq!(Key::Left.direction(), Direction::Left);
    assert_eq!(Key::D.direction(), Direction::Right);
    assert_eq!(Key::Right.direction(), Direction::Right);
}

#[test]
fn held_holds_what_it_was_given() {
    let held = Held { forward: true, back: false, left: true, right: false };
    assert!(held.holds(Direction::Forward));
    assert!(!held.holds(Direction::Back));
    assert!(held.holds(Direction::Left));
    assert!(!held.holds(Direction::Right));
    assert!(!Held::none().holds(Direction::Forward));
}
