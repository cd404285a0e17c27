use sim_core::entities::entity_components::Position;
use sim_core::entities::entity_components::Quadrant;
use sim_core::entities::entity_components::Velocity;
use sim_core::geometry::Point;
use sim_core::library::globalcomponents::ScreenInfo;
use sim_core::library::globalcomponents::ScreenSize;
use sim_core::systems::physics::Physics;
use sim_core::world::Components;
use sim_core::world::World;

const SCREEN: ScreenSize = ScreenSize::Size { width: 800, height: 600 };

fn moving(x: i8, y: i8) -> Velocity {
    let mut v = Velocity { speed: 0, max_speed: 10, acc: 3, last_dir: None };
    v.encode_speed(x, y);
    v
}

fn at(x: i32, y: i32, quadrant: Quadrant) -> Position {
    Position { point: Point::new(x, y), quadrant }
}

#[test]
fn quadrants_are_cut_at_the_middle_of_the_screen() {
    assert_eq!(Physics::quadrant(Point::new(0, 0), SCREEN), Quadrant::Q2);
    assert_eq!(Physics::quadrant(Point::new(399, 299), SCREEN), Quadrant::Q2);
    assert_eq!(Physics::quadrant(Point::new(400, 299), SCREEN), Quadrant::Q1);
    assert_eq!(Physics::quadrant(Point::new(399, 300), SCREEN), Quadrant::Q3);
    assert_eq!(Physics::quadrant(Point::new(400, 300), SCREEN), Quadrant::Q4);
    assert_eq!(Physics::quadrant(Point::new(799, 599), SCREEN), Quadrant::Q4);
}

#[test]
fn the_quadrant_of_a_point_off_the_screen_is_that_of_the_point_wrapped() {
    assert_eq!(Physics::quadrant(Point::new(800, 600), SCREEN), Quadrant::Q2);
    assert_eq!(Physics::quadrant(Point::new(-1, -1), SCREEN), Quadrant::Q4);
    assert_eq!(Physics::quadrant(Point::new(-401, 10), SCREEN), Quadrant::Q2);
    assert_eq!(Physics::quadrant(Point::new(1210, -310), SCREEN), Quadrant::Q1);
    assert_eq!(Physics::quadrant(Point::new(-410, 910), SCREEN), Quadrant::Q3);
}

#[test]
fn one_unit_of_speed_is_one_pixel_per_frame() {
    let mut p = at(0, 0, Quadrant::Q1);
    let mut v = moving(3, 0);
    Physics::integrate(&mut p, &mut v, SCREEN);
    assert_eq!(p, at(3, 0, Quadrant::Q2));
    assert_eq!(v, moving(2, 0));
}

#[test]
fn friction_takes_one_unit_from_each_axis_towards_zero() {
    let mut p = at(100, 100, Quadrant::Q2);
    let mut v = moving(-3, 1);
    Physics::integrate(&mut p, &mut v, SCREEN);
    assert_eq!(v.unencode_speed(), (-2, 0));
    Physics::integrate(&mut p, &mut v, SCREEN);
    assert_eq!(v.unencode_speed(), (-1, 0));
    Physics::integrate(&mut p, &mut v, SCREEN);
    assert_eq!(v.unencode_speed(), (0, 0));
    Physics::integrate(&mut p, &mut v, SCREEN);
    assert_eq!(v.unencode_speed(), (0, 0));
    assert_eq!(p.point, Point::new(94, 101));
}

#[test]
fn friction_at_the_ends_of_a_signed_byte() {
    let mut p = at(400, 300, Quadrant::Q4);
    let mut v = moving(127, -128);
    Physics::integrate(&mut p, &mut v, SCREEN);
    assert_eq!(v.unencode_speed(), (126, -127));
    assert_eq!(p, at(527, 172, Quadrant::Q1));
}

#[test]
fn the_screen_wraps_around_on_both_axes() {
    let mut p = at(799, 599, Quadrant::Q4);
    let mut v = moving(2, 2);
    Physics::integrate(&mut p, &mut v, SCREEN);
    assert_eq!(p, at(1, 1, Quadrant::Q2));
    let mut q = at(0, 0, Quadrant::Q2);
    let mut w = moving(-3, -2);
    Physics::integrate(&mut q, &mut w, SCREEN);
    assert_eq!(q, at(797, 598, Quadrant::Q4));
    assert_eq!(w.unencode_speed(), (-2, -1));
}

#[test]
fn a_position_far_off_the_screen_is_wrapped_onto_it() {
    let mut p = at(-1601, 1800, Quadrant::Q1);
    let mut v = moving(0, 0);
    Physics::integrate(&mut p, &mut v, SCREEN);
    assert_eq!(p, at(799, 0, Quadrant::Q1));
}

#[test]
fn a_screen_of_one_pixel_holds_everything_at_its_origin() {
    let mut p = at(17, -4, Quadrant::Q2);
    let mut v = moving(5, 5);
    Physics::integrate(&mut p, &mut v, ScreenSize::Size { width: 1, height: 1 });
    assert_eq!(p, at(0, 0, Quadrant::Q4));
}

#[test]
fn the_pass_moves_only_entities_with_position_and_velocity() {
    let mut world = World::new();
    let mut runner = Components::none();
    runner.position = Some(at(398, 298, Quadrant::Q2));
    runner.velocity = Some(moving(4, 4));
    let mut statue = Components::none();
    statue.position = Some(at(5, 5, Quadrant::Q4));
    let mut wind = Components::none();
    wind.velocity = Some(moving(9, 9));
    world.create_entity(runner);
    world.create_entity(statue);
    world.create_entity(wind);
    Physics.run(&mut world, &ScreenInfo { screen_size: SCREEN });
    assert_eq!(world.entity(0).components.position, Some(at(402, 302, Quadrant::Q4)));
    assert_eq!(world.entity(0).components.velocity, Some(moving(3, 3)));
    assert_eq!(world.entity(1).components, statue);
    assert_eq!(world.entity(2).components, wind);
}
