use sim_core::entities::entity_components::Sprite;
use sim_core::geometry::Point;
use sim_core::geometry::Rect;
use sim_core::geometry::MAX_COORDINATE;
use sim_core::spriteengine::character_animation_frames;
use sim_core::spriteengine::direction_spritesheet_row;
use sim_core::spriteengine::Direction;
use sim_core::spriteengine::Player;
use sim_core::spriteengine::PLAYER_MOVE_SPEED;
use std::path::PathBuf;

fn walker(speed: i32, direction: Direction) -> Player {
    let mut p = Player::new(
        Point::new(0, 0),
        Rect::new(0, 0, 26, 36),
        speed,
        PathBuf::from("assets/reaper.png"),
    );
    p.direction = direction;
    p
}

#[test]
fn each_direction_has_its_row() {
    assert_eq!(direction_spritesheet_row(Direction::Down), 0);
    assert_eq!(direction_spritesheet_row(Direction::Left), 1);
    assert_eq!(direction_spritesheet_row(Direction::Right), 2);
    assert_eq!(direction_spritesheet_row(Direction::Up), 3);
}

#[test]
fn the_frames_of_an_animation_lie_side_by_side_in_the_row_of_the_direction() {
    let frames = character_animation_frames(4, Rect::new(0, 0, 26, 36), Direction::Right);
    assert_eq!(
        frames,
        vec![
            Sprite { spritesheet: 4, region: Rect::new(0, 72, 26, 36), mouse_rot_flag: false },
            Sprite { spritesheet: 4, region: Rect::new(26, 72, 26, 36), mouse_rot_flag: false },
            Sprite { spritesheet: 4, region: Rect::new(52, 72, 26, 36), mouse_rot_flag: false },
        ]
    );
    let down = character_animation_frames(0, Rect::new(5, 7, 10, 20), Direction::Down);
    assert_eq!(down[0].region, Rect::new(5, 7, 10, 20));
    assert_eq!(down[2].region, Rect::new(25, 7, 10, 20));
    let up = character_animation_frames(0, Rect::new(5, 7, 10, 20), Direction::Up);
    assert_eq!(up[1].region, Rect::new(15, 67, 10, 20));
}

#[test]
fn frames_beyond_the_coordinate_range_are_held_at_the_rim() {
    let frames = character_animation_frames(
        0,
        Rect::new(MAX_COORDINATE, MAX_COORDINATE, u32::MAX, u32::MAX),
        Direction::Up,
    );
    assert_eq!(frames.len(), 3);
    for f in frames {
        assert_eq!(f.region.x(), MAX_COORDINATE);
        assert_eq!(f.region.y(), MAX_COORDINATE);
        assert_eq!(f.region.width(), MAX_COORDINATE as u32);
    }
}

#[test]
fn a_new_player_faces_right_on_the_first_frame() {
    let p = walker(PLAYER_MOVE_SPEED, Direction::Right);
    assert_eq!(p.position, Point::new(0, 0));
    assert_eq!(p.sprite, Rect::new(0, 0, 26, 36));
    assert_eq!(p.speed, 10);
    assert_eq!(p.cur_frame, 0);
    assert_eq!(p.path, PathBuf::from("assets/reaper.png"));
    let fresh = Player::new(Point::new(1, 1), Rect::new(0, 0, 1, 1), 0, PathBuf::new());
    assert_eq!(fresh.direction, Direction::Right);
}

#[test]
fn a_walking_player_moves_one_stride_and_one_frame() {
    let mut p = walker(10, Direction::Right);
    let mut frames = Vec::new();
    for _ in 0..4 {
        p.update_sprite();
        frames.push(p.cur_frame);
    }
    assert_eq!(frames, vec![1, 2, 0, 1]);
    assert_eq!(p.position, Point::new(40, 0));
    p.direction = Direction::Up;
    p.update_sprite();
    assert_eq!(p.position, Point::new(40, -10));
    p.direction = Direction::Left;
    p.update_sprite();
    assert_eq!(p.position, Point::new(30, -10));
    p.direction = Direction::Down;
    p.update_sprite();
    assert_eq!(p.position, Point::new(30, 0));
    assert_eq!(p.path, PathBuf::from("assets/reaper.png"));
}

#[test]
fn a_standing_player_keeps_its_frame() {
    let mut p = walker(0, Direction::Left);
    p.cur_frame = 2;
    p.update_sprite();
    assert_eq!(p.cur_frame, 2);
    assert_eq!(p.position, Point::new(0, 0));
}

#[test]
fn strides_and_frames_at_the_ends_of_i32() {
    let mut p = walker(i32::MIN, Direction::Up);
    p.cur_frame = i32::MAX;
    p.update_sprite();
    assert_eq!(p.position, Point::new(0, MAX_COORDINATE));
    assert_eq!(p.cur_frame, 2);
    let mut q = walker(1, Direction::Right);
    q.cur_frame = -6;
    q.update_sprite();
    assert_eq!(q.cur_frame, -2);
    q.update_sprite();
    assert_eq!(q.cur_frame, -1);
    q.update_sprite();
    assert_eq!(q.cur_frame, 0);
}
