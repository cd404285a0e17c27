use sim_core::entities::entity_components::Damage;
use sim_core::entities::entity_components::Health;
use sim_core::entities::entity_components::Position;
use sim_core::entities::entity_components::Quadrant;
use sim_core::entities::entity_components::Velocity;
use sim_core::entities::entity_flags::SingleDamage;
use sim_core::geometry::Point;
use sim_core::geometry::Rect;
use sim_core::systems::damagesys::DamageSys;
use sim_core::world::CommandBuffer;
use sim_core::world::Components;
use sim_core::world::World;

fn moving(x: i8, y: i8) -> Velocity {
    let mut v = Velocity { speed: 0, max_speed: 100, acc: 30, last_dir: None };
    v.encode_speed(x, y);
    v
}

fn at(x: i32, y: i32) -> Position {
    Position { point: Point::new(x, y), quadrant: Quadrant::Q2 }
}

fn target(hp: u32) -> Components {
    let mut c = Components::none();
    c.health = Some(Health { hp, hurt_box: Rect::new(10, 10, 16, 36) });
    c.position = Some(at(0, 0));
    c
}

fn bullet(dmg: u32) -> Components {
    let mut c = Components::none();
    c.damage = Some(Damage { dmg, dmg_box: Rect::new(0, 0, 5, 5) });
    c.position = Some(at(-20, 0));
    c.velocity = Some(moving(30, 0));
    c.single_damage = Some(SingleDamage);
    c
}

fn table(rows: usize, hits: &[(usize, usize)]) -> Vec<Vec<bool>> {
    let mut t = vec![vec![false; rows]; rows];
    for &(i, j) in hits {
        t[i][j] = true;
    }
    t
}

#[test]
fn the_hurt_box_is_taken_around_the_position() {
    let r = DamageSys::hurt_box(
        &Health { hp: 100, hurt_box: Rect::new(10, 10, 16, 36) },
        &at(100, 50),
    );
    assert_eq!((r.left(), r.right(), r.top(), r.bottom()), (92, 108, 32, 68));
}

#[test]
fn the_four_corners_are_swept_along_the_velocity() {
    let lines = DamageSys::sweep(
        &Damage { dmg: 10, dmg_box: Rect::new(0, 0, 5, 5) },
        &at(10, 10),
        &moving(3, 4),
    );
    assert_eq!(
        lines,
        [
            (Point::new(8, 13), Point::new(11, 17)),
            (Point::new(13, 13), Point::new(16, 17)),
            (Point::new(8, 8), Point::new(11, 12)),
            (Point::new(13, 8), Point::new(16, 12)),
        ]
    );
}

#[test]
fn a_box_at_rest_sweeps_four_points() {
    let lines = DamageSys::sweep(
        &Damage { dmg: 1, dmg_box: Rect::new(3, 3, 2, 4) },
        &at(0, 0),
        &moving(0, 0),
    );
    for (from, to) in lines {
        assert_eq!(from, to);
    }
    assert_eq!(lines[2].0, Point::new(-1, -2));
    assert_eq!(lines[1].0, Point::new(1, 2));
}

#[test]
fn one_crossing_line_is_a_hit() {
    assert!(!DamageSys::is_hit(&[false, false, false, false]));
    assert!(DamageSys::is_hit(&[true, false, false, false]));
    assert!(DamageSys::is_hit(&[false, false, false, true]));
    assert!(DamageSys::is_hit(&[false, true, true, false]));
    assert!(DamageSys::is_hit(&[true, true, true, true]));
}

#[test]
fn a_hit_takes_exactly_the_damage() {
    let mut h = Health { hp: 100, hurt_box: Rect::new(10, 10, 16, 36) };
    DamageSys::wound(&mut h, &Damage { dmg: 10, dmg_box: Rect::new(0, 0, 5, 5) });
    assert_eq!(h, Health { hp: 90, hurt_box: Rect::new(10, 10, 16, 36) });
    assert!(!DamageSys::is_spent(&h));
}

#[test]
fn hit_points_never_wrap_below_zero() {
    let mut h = Health { hp: 5, hurt_box: Rect::new(0, 0, 1, 1) };
    DamageSys::wound(&mut h, &Damage { dmg: 10, dmg_box: Rect::new(0, 0, 5, 5) });
    assert_eq!(h.hp, 0);
    assert!(DamageSys::is_spent(&h));
    DamageSys::wound(&mut h, &Damage { dmg: u32::MAX, dmg_box: Rect::new(0, 0, 5, 5) });
    assert_eq!(h.hp, 0);
    let mut exact = Health { hp: 10, hurt_box: Rect::new(0, 0, 1, 1) };
    DamageSys::wound(&mut exact, &Damage { dmg: 10, dmg_box: Rect::new(0, 0, 5, 5) });
    assert_eq!(exact.hp, 0);
}

#[test]
fn a_projectile_that_hits_is_used_up_and_the_target_loses_its_damage() {
    let mut world = World::new();
    world.create_entity(target(100));
    world.create_entity(bullet(10));
    let mut buffer = CommandBuffer::new();
    DamageSys.run(&mut world, &table(2, &[(0, 1)]), &mut buffer);
    assert_eq!(world.entity(0).components.health.unwrap().hp, 90);
    assert_eq!(world.entity(1).components, bullet(10));
    assert!(buffer.is_deleted(1));
    assert!(!buffer.is_deleted(0));
    world.maintain(&mut buffer);
    assert_eq!(world.len(), 1);
    assert_eq!(world.entity(0).id, 0);
}

#[test]
fn a_target_without_hit_points_left_goes_in_the_same_frame() {
    let mut world = World::new();
    world.create_entity(target(10));
    world.create_entity(bullet(10));
    let mut buffer = CommandBuffer::new();
    DamageSys.run(&mut world, &table(2, &[(0, 1)]), &mut buffer);
    assert_eq!(world.entity(0).components.health.unwrap().hp, 0);
    assert!(buffer.is_deleted(0));
    assert!(buffer.is_deleted(1));
    world.maintain(&mut buffer);
    assert_eq!(world.len(), 0);
}

#[test]
fn a_miss_changes_nothing() {
    let mut world = World::new();
    world.create_entity(target(100));
    world.create_entity(bullet(10));
    let mut buffer = CommandBuffer::new();
    DamageSys.run(&mut world, &table(2, &[]), &mut buffer);
    assert_eq!(world.entity(0).components, target(100));
    assert_eq!(world.entity(1).components, bullet(10));
    assert!(buffer.is_empty());
}

#[test]
fn an_entity_without_hit_points_goes_even_when_nothing_hits_it() {
    let mut world = World::new();
    world.create_entity(target(0));
    let mut buffer = CommandBuffer::new();
    DamageSys.run(&mut world, &table(1, &[]), &mut buffer);
    assert!(buffer.is_deleted(0));
}

#[test]
fn a_lasting_source_is_not_used_up() {
    let mut world = World::new();
    world.create_entity(target(100));
    let mut blade = bullet(7);
    blade.single_damage = None;
    world.create_entity(blade);
    let mut buffer = CommandBuffer::new();
    DamageSys.run(&mut world, &table(2, &[(0, 1)]), &mut buffer);
    assert_eq!(world.entity(0).components.health.unwrap().hp, 93);
    assert!(buffer.is_empty());
}

#[test]
fn several_sources_add_up_and_several_targets_are_hit_by_one_source() {
    let mut world = World::new();
    world.create_entity(target(100));
    world.create_entity(bullet(10));
    world.create_entity(target(15));
    world.create_entity(bullet(25));
    let mut buffer = CommandBuffer::new();
    DamageSys.run(&mut world, &table(4, &[(0, 1), (0, 3), (2, 3)]), &mut buffer);
    assert_eq!(world.entity(0).components.health.unwrap().hp, 65);
    assert_eq!(world.entity(2).components.health.unwrap().hp, 0);
    assert!(buffer.is_deleted(1));
    assert!(buffer.is_deleted(3));
    assert!(buffer.is_deleted(2));
    assert!(!buffer.is_deleted(0));
    world.maintain(&mut buffer);
    assert_eq!(world.len(), 1);
    assert_eq!(world.entity(0).components.health.unwrap().hp, 65);
}

#[test]
fn an_answer_for_a_pair_that_cannot_hit_is_ignored() {
    let mut world = World::new();
    world.create_entity(target(100));
    let mut still = bullet(10);
    still.velocity = None;
    world.create_entity(still);
    let mut buffer = CommandBuffer::new();
    DamageSys.run(&mut world, &table(2, &[(0, 1), (1, 0), (0, 0), (1, 1)]), &mut buffer);
    assert_eq!(world.entity(0).components, target(100));
    assert!(buffer.is_empty());
}

#[test]
fn a_table_that_is_too_small_holds_no_hits() {
    let mut world = World::new();
    world.create_entity(target(100));
    world.create_entity(bullet(10));
    let mut buffer = CommandBuffer::new();
    DamageSys.run(&mut world, &Vec::new(), &mut buffer);
    assert_eq!(world.entity(0).components, target(100));
    DamageSys.run(&mut world, &vec![vec![true]], &mut buffer);
    assert_eq!(world.entity(0).components, target(100));
    assert!(buffer.is_empty());
}

#[test]
fn a_probe_names_the_box_and_the_lines_for_a_pair_that_can_hit() {
    let mut world = World::new();
    world.create_entity(target(100));
    world.create_entity(bullet(10));
    let (hurt_box, lines) = DamageSys::probe(&world, 0, 1).unwrap();
    assert_eq!(
        (hurt_box.left(), hurt_box.right(), hurt_box.top(), hurt_box.bottom()),
        (-8, 8, -18, 18)
    );
    assert_eq!(
        lines,
        [
            (Point::new(-22, 3), Point::new(8, 3)),
            (Point::new(-17, 3), Point::new(13, 3)),
            (Point::new(-22, -2), Point::new(8, -2)),
            (Point::new(-17, -2), Point::new(13, -2)),
        ]
    );
}

#[test]
fn there_is_nothing_to_probe_for_a_pair_that_cannot_hit() {
    let mut world = World::new();
    world.create_entity(target(100));
    world.create_entity(bullet(10));
    assert!(DamageSys::probe(&world, 1, 0).is_none());
    assert!(DamageSys::probe(&world, 0, 0).is_none());
    assert!(DamageSys::probe(&world, 1, 1).is_none());
    assert!(DamageSys::probe(&world, 0, 2).is_none());
    assert!(DamageSys::probe(&world, 2, 1).is_none());
}

#[test]
fn a_table_made_from_the_probes_drives_the_pass() {
    let mut world = World::new();
    world.create_entity(target(100));
    world.create_entity(bullet(10));
    let mut far = bullet(50);
    far.position = Some(at(500, 500));
    world.create_entity(far);
    let n = world.len();
    let mut crossed = vec![vec![false; n]; n];
    for i in 0..n {
        for j in 0..n {
            if let Some((hurt_box, lines)) = DamageSys::probe(&world, i, j) {
                let mut crossings = [false; 4];
                for (k, (from, to)) in lines.iter().enumerate() {
                    let level = from.y() == to.y()
                        && hurt_box.top() <= from.y()
                        && from.y() < hurt_box.bottom();
                    crossings[k] =
                        level && from.x() < hurt_box.right() && to.x() >= hurt_box.left();
                }
                crossed[i][j] = DamageSys::is_hit(&crossings);
            }
        }
    }
    assert_eq!(crossed, vec![vec![false, true, false], vec![false; 3], vec![false; 3]]);
    let mut buffer = CommandBuffer::new();
    DamageSys.run(&mut world, &crossed, &mut buffer);
    assert_eq!(world.entity(0).components.health.unwrap().hp, 90);
    assert!(buffer.is_deleted(1));
    assert!(!buffer.is_deleted(2));
}
