//! Mouse: sprites that follow the pointer turn about a pivot towards it.
//!
//! This module finds the pivot and the two legs of the triangle between pivot and
//! pointer. The angle that belongs to them is computed where they are used.

use crate::entities::entity_components::half_extent;
use crate::entities::entity_components::Position;
use crate::entities::entity_components::Quadrant;
use crate::entities::entity_components::Sprite;
use crate::geometry::Point;
use crate::geometry::Rect;
use crate::library::globalcomponents::ScreenSize;
use vstd::prelude::*;

verus! {

pub struct MouseSys;

/// The pointer as the world sees it, given where it is on the screen: the world has
/// its origin in the middle of the screen.
pub open spec fn pointer_at(x: i32, y: i32, screen: ScreenSize) -> Point {
    match screen {
        ScreenSize::Size { width, height } => Point::at(x as int, y as int).shifted(
            -half_extent(width),
            -half_extent(height),
        ),
    }
}

/// The frame in which a sprite of the size of `region` is drawn for an entity at
/// `position`.
pub open spec fn frame_around(position: Position, region: Rect) -> Rect {
    Rect::centered(position.point, region.width() as int, region.height() as int)
}

/// The point that a sprite turns about: `rot_point` counted from the top left corner
/// of its frame, or the middle of the frame where none is given.
pub open spec fn pivot_of(position: Position, region: Rect, rot_point: Option<Point>) -> Point {
    let frame = frame_around(position, region);
    match rot_point {
        Some(p) => Point::at(frame.top_left().x() + p.x(), frame.top_left().y() + p.y()),
        None => frame.center(),
    }
}

/// Whether the sprite follows the pointer.
pub open spec fn follows(sprite: Sprite) -> bool {
    sprite.mouse_rot_flag
}

impl MouseSys {
    /// The pointer in world coordinates.
    pub fn pointer(x: i32, y: i32, screen: ScreenSize) -> (p: Point)
        ensures
            p == pointer_at(x, y, screen),
    {
        let mut at = Position { point: Point::new(x, y), quadrant: Quadrant::Q1 };
        at.translate_coordinate(screen);
        at.point
    }

    /// The pivot of a sprite of an entity at `position`.
    pub fn pivot(position: &Position, sprite: &Sprite, rot_point: Option<Point>) -> (p: Point)
        ensures
            p == pivot_of(*position, sprite.region, rot_point),
    {
        let rect = Rect::from_center(position.point, sprite.region.width(), sprite.region.height());
        match rot_point {
            Some(p) => {
                let corner = rect.top_left();
                Point::new(corner.x() + p.x(), corner.y() + p.y())
            },
            None => rect.center(),
        }
    }

    /// The legs of the triangle from `pivot` to `pointer`: how far the pointer is below
    /// the pivot, and how far it is to the right of it.
    pub fn legs(pointer: Point, pivot: Point) -> (legs: (i32, i32))
        ensures
            legs.0 == pointer.y() - pivot.y(),
            legs.1 == pointer.x() - pivot.x(),
    {
        (pointer.y() - pivot.y(), pointer.x() - pivot.x())
    }
}

} // verus!
