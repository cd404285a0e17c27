//! A walking character that is drawn from a sheet of animation frames.

use crate::entities::entity_components::Sprite;
use crate::geometry::Point;
use crate::geometry::Rect;
use std::path::PathBuf;
use vstd::prelude::*;

verus! {

pub const PLAYER_MOVE_SPEED: i32 = 10;

/// The number of frames in one walking animation.
pub const ANIMATION_FRAMES: i32 = 3;

/// `std::path::PathBuf`, which a player carries along. Nothing is said of what a path
/// holds, and nothing here reads one.
#[verifier::external_type_specification]
#[verifier::external_body]
pub struct ExPathBuf(std::path::PathBuf);

/// One of the four ways that a character can walk.
#[derive(Debug, Copy, Clone, PartialEq, Eq, Structural)]
pub enum Direction {
    Up,
    Down,
    Left,
    Right,
}

pub struct Player {
    pub position: Point,
    pub sprite: Rect,
    pub speed: i32,
    pub direction: Direction,
    pub cur_frame: i32,
    pub path: PathBuf,
}

/// The row of the sprite sheet that holds the frames for walking in `direction`.
pub open spec fn spritesheet_row(direction: Direction) -> int {
    match direction {
        Direction::Up => 3,
        Direction::Down => 0,
        Direction::Left => 1,
        Direction::Right => 2,
    }
}

/// Frame `i` of the animation for walking in `direction`: the frames of one animation
/// lie side by side, and each direction has a row of its own below the first frame.
pub open spec fn animation_frame(
    spritesheet: usize,
    top_left_frame: Rect,
    direction: Direction,
    i: int,
) -> Sprite {
    Sprite {
        spritesheet,
        region: Rect::at(
            top_left_frame.x() + top_left_frame.width() * i,
            top_left_frame.y() + top_left_frame.height() * spritesheet_row(direction),
            top_left_frame.width() as int,
            top_left_frame.height() as int,
        ),
        mouse_rot_flag: false,
    }
}

/// The step that a character walking in `direction` at `speed` takes in one frame.
pub open spec fn stride(direction: Direction, speed: i32) -> (int, int) {
    match direction {
        Direction::Up => (0, -speed),
        Direction::Left => (-speed, 0),
        Direction::Down => (0, speed as int),
        Direction::Right => (speed as int, 0),
    }
}

/// The animation frame that follows `cur_frame`. Frames below zero are counted
/// towards zero.
pub open spec fn frame_after(cur_frame: i32) -> int {
    if cur_frame + 1 >= 0 {
        (cur_frame + 1) % 3
    } else {
        -((-(cur_frame + 1)) % 3)
    }
}

pub fn direction_spritesheet_row(direction: Direction) -> (row: i32)
    ensures
        row == spritesheet_row(direction),
{
    match direction {
        Direction::Up => 3,
        Direction::Down => 0,
        Direction::Left => 1,
        Direction::Right => 2,
    }
}

pub fn character_animation_frames(
    spritesheet: usize,
    top_left_frame: Rect,
    direction: Direction,
) -> (frames: Vec<Sprite>)
    ensures
        frames@.len() == ANIMATION_FRAMES,
        forall|i: int|
            0 <= i < ANIMATION_FRAMES ==> frames@[i] == animation_frame(
                spritesheet,
                top_left_frame,
                direction,
                i,
            ),
{
    let frame_width = top_left_frame.width();
    let frame_height = top_left_frame.height();
    let row = direction_spritesheet_row(direction);
    assert(0 <= frame_height * row <= 0x3fff_ffff * 3) by (nonlinear_arith)
        requires
            1 <= frame_height <= 0x3fff_ffff,
            0 <= row <= 3,
    ;
    let y_off = top_left_frame.y() as i64 + (frame_height as i64) * (row as i64);
    let mut frames: Vec<Sprite> = Vec::new();
    let mut i: i32 = 0;
    while i < ANIMATION_FRAMES
        invariant
            0 <= i <= ANIMATION_FRAMES,
            frame_width == top_left_frame.width(),
            frame_height == top_left_frame.height(),
            1 <= frame_width <= crate::geometry::MAX_COORDINATE,
            y_off == top_left_frame.y() + top_left_frame.height() * spritesheet_row(direction),
            frames@.len() == i,
            forall|k: int|
                0 <= k < i ==> frames@[k] == animation_frame(
                    spritesheet,
                    top_left_frame,
                    direction,
                    k,
                ),
        decreases ANIMATION_FRAMES - i,
    {
        assert(0 <= frame_width * i <= 0x3fff_ffff * 3) by (nonlinear_arith)
            requires
                1 <= frame_width <= 0x3fff_ffff,
                0 <= i < 3,
        ;
        let x_off = top_left_frame.x() as i64 + (frame_width as i64) * (i as i64);
        frames.push(
            Sprite {
                spritesheet,
                region: Rect::nearest(
                    x_off,
                    y_off,
                    frame_width,
                    frame_height,
                ),
                mouse_rot_flag: false,
            },
        );
        i += 1;
    }
    return frames;
}

impl Player {
    pub fn new(pos: Point, rec: Rect, speed: i32, path: PathBuf) -> (player: Player)
        ensures
            player.position == pos,
            player.sprite == rec,
            player.speed == speed,
            player.direction == Direction::Right,
            player.cur_frame == 0,
            player.path == path,
    {
        return Player {
            position: pos,
            sprite: rec,
            speed,
            direction: Direction::Right,
            cur_frame: 0,
            path,
        };
    }

    /// One frame of walking: the character moves one stride the way it faces, and the
    /// animation goes on by one frame unless the character stands.
    pub fn update_sprite(&mut self)
        ensures
            final(self).position == old(self).position.shifted(
                stride(old(self).direction, old(self).speed).0,
                stride(old(self).direction, old(self).speed).1,
            ),
            final(self).cur_frame == if old(self).speed != 0 {
                frame_after(old(self).cur_frame)
            } else {
                old(self).cur_frame as int
            },
            final(self).sprite == old(self).sprite,
            final(self).speed == old(self).speed,
            final(self).direction == old(self).direction,
            final(self).path == old(self).path,
    {
        let x = self.position.x() as i64;
        let y = self.position.y() as i64;
        let speed = self.speed as i64;
        match self.direction {
            Direction::Up => {
                self.position = Point::nearest(x, y - speed);
            },
            Direction::Left => {
                self.position = Point::nearest(x - speed, y);
            },
            Direction::Down => {
                self.position = Point::nearest(x, y + speed);
            },
            Direction::Right => {
                self.position = Point::nearest(x + speed, y);
            },
        }
        if self.speed != 0 {
            let next = self.cur_frame as i64 + 1;
            if next >= 0 {
                self.cur_frame = ((next as u64) % 3) as i32;
            } else {
                self.cur_frame = -((((-next) as u64) % 3) as i32);
            }
        }
    }
}

} // verus!
