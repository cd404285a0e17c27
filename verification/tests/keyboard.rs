use sim_core::entities::entity_components::Direction;
use sim_core::entities::entity_components::Velocity;
use sim_core::entities::entity_flags::KeyboardControlled;
use sim_core::library::commands::MovementCommand;
use sim_core::systems::keyboard::Keyboard;
use sim_core::world::Components;
use sim_core::world::World;

fn player_velocity() -> Velocity {
    Velocity { speed: 0, max_speed: 10, acc: 3, last_dir: None }
}

#[test]
fn a_command_adds_the_acceleration_and_holds_at_top_speed() {
    let right = MovementCommand::Move(Direction::MoveDelta { x: 1, y: 0 });
    let mut v = player_velocity();
    let mut seen = Vec::new();
    for _ in 0..4 {
        Keyboard::steer(&mut v, &right);
        seen.push(v.unencode_speed());
    }
    assert_eq!(seen, vec![(3, 0), (6, 0), (9, 0), (10, 0)]);
}

#[test]
fn a_command_to_the_left_holds_at_minus_top_speed() {
    let left = MovementCommand::Move(Direction::MoveDelta { x: -1, y: -1 });
    let mut v = player_velocity();
    let mut seen = Vec::new();
    for _ in 0..5 {
        Keyboard::steer(&mut v, &left);
        seen.push(v.unencode_speed());
    }
    assert_eq!(seen, vec![(-3, -3), (-6, -6), (-9, -9), (-10, -10), (-10, -10)]);
}

#[test]
fn repeated_commands_never_leave_the_top_speed() {
    let steps = [(1i8, 1i8), (1, -1), (-1, -1), (-1, 1), (0, 1), (1, 0), (0, 0)];
    let mut v = Velocity { speed: 0, max_speed: 7, acc: 5, last_dir: None };
    for round in 0..200usize {
        let (x, y) = steps[(round * 5 + round / 3) % steps.len()];
        Keyboard::steer(&mut v, &MovementCommand::Move(Direction::MoveDelta { x, y }));
        let (vx, vy) = v.unencode_speed();
        assert!(-7 <= vx && vx <= 7);
        assert!(-7 <= vy && vy <= 7);
    }
}

#[test]
fn a_velocity_beyond_top_speed_is_brought_back_by_one_command() {
    let mut v = Velocity { speed: 0, max_speed: 10, acc: 3, last_dir: None };
    v.encode_speed(100, -100);
    Keyboard::steer(&mut v, &MovementCommand::Move(Direction::MoveDelta { x: 0, y: 0 }));
    assert_eq!(v.unencode_speed(), (10, -10));
}

#[test]
fn a_huge_acceleration_saturates() {
    let mut v = Velocity { speed: 0, max_speed: 127, acc: u32::MAX, last_dir: None };
    Keyboard::steer(&mut v, &MovementCommand::Move(Direction::MoveDelta { x: 1, y: -1 }));
    assert_eq!(v.unencode_speed(), (127, -127));
    let mut w = Velocity { speed: 0, max_speed: 127, acc: 200, last_dir: None };
    Keyboard::steer(&mut w, &MovementCommand::Move(Direction::MoveDelta { x: -128, y: 127 }));
    assert_eq!(w.unencode_speed(), (-127, 127));
}

#[test]
fn only_a_step_along_x_is_kept_as_the_last_direction() {
    let mut v = player_velocity();
    let up = Direction::MoveDelta { x: 0, y: -1 };
    Keyboard::steer(&mut v, &MovementCommand::Move(up));
    assert_eq!(v.last_dir, None);
    let left = Direction::MoveDelta { x: -1, y: 1 };
    Keyboard::steer(&mut v, &MovementCommand::Move(left));
    assert_eq!(v.last_dir, Some(left));
    Keyboard::steer(&mut v, &MovementCommand::Move(up));
    assert_eq!(v.last_dir, Some(left));
}

#[test]
fn the_pass_steers_only_entities_that_take_commands() {
    let mut world = World::new();
    let mut steered = Components::none();
    steered.velocity = Some(player_velocity());
    steered.keyboard_controlled = Some(KeyboardControlled);
    let mut bystander = Components::none();
    bystander.velocity = Some(player_velocity());
    let mut no_velocity = Components::none();
    no_velocity.keyboard_controlled = Some(KeyboardControlled);
    world.create_entity(steered);
    world.create_entity(bystander);
    world.create_entity(no_velocity);
    let command = Some(MovementCommand::Move(Direction::MoveDelta { x: 1, y: 1 }));
    Keyboard.run(&command, &mut world);
    assert_eq!(world.entity(0).components.velocity.unwrap().unencode_speed(), (3, 3));
    assert_eq!(world.entity(1).components, bystander);
    assert_eq!(world.entity(2).components, no_velocity);
    assert_eq!(world.entity(0).id, 0);
    assert_eq!(world.len(), 3);
}

#[test]
fn without_a_command_the_pass_leaves_every_velocity_as_it_is() {
    let mut world = World::new();
    let mut moving = Components::none();
    let mut v = player_velocity();
    v.encode_speed(4, -2);
    moving.velocity = Some(v);
    moving.keyboard_controlled = Some(KeyboardControlled);
    world.create_entity(moving);
    world.create_entity(Components::none());
    Keyboard.run(&None, &mut world);
    assert_eq!(world.entity(0).components, moving);
    assert_eq!(world.entity(1).components, Components::none());
    assert_eq!(world.len(), 2);
}

#[test]
fn a_negative_top_speed_is_taken_as_it_stands() {
    let mut v = Velocity { speed: 0, max_speed: -5, acc: 3, last_dir: None };
    Keyboard::steer(&mut v, &MovementCommand::Move(Direction::MoveDelta { x: 1, y: 0 }));
    assert_eq!(v.unencode_speed(), (-5, -5));
    let mut w = Velocity { speed: 0, max_speed: -5, acc: 3, last_dir: None };
    w.encode_speed(-100, -6);
    Keyboard::steer(&mut w, &MovementCommand::Move(Direction::MoveDelta { x: 1, y: 0 }));
    assert_eq!(w.unencode_speed(), (5, 5));
    let mut lowest = Velocity { speed: 0, max_speed: -128, acc: 1, last_dir: None };
    Keyboard::steer(&mut lowest, &MovementCommand::Move(Direction::MoveDelta { x: 0, y: 0 }));
    assert_eq!(lowest.unencode_speed(), (-128, -128));
}
