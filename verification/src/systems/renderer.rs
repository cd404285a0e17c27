//! Rendering: where on the screen a sprite goes. Drawing itself is not done here.

use crate::entities::entity_components::half_extent;
use crate::entities::entity_components::halved;
use crate::entities::entity_components::Position;
use crate::entities::entity_components::Sprite;
use crate::geometry::Point;
use crate::geometry::Rect;
use vstd::prelude::*;

verus! {

/// The rectangle of the screen that a sprite of the size of `region` covers for an
/// entity at `position`, on a canvas of the given size: the origin of the world is the
/// middle of the canvas.
pub open spec fn screen_rect_of(position: Position, region: Rect, width: u32, height: u32) -> Rect {
    Rect::centered(
        position.point.shifted(half_extent(width), half_extent(height)),
        region.width() as int,
        region.height() as int,
    )
}

/// Where the sprite of an entity is drawn.
pub fn screen_rect(position: &Position, sprite: &Sprite, width: u32, height: u32) -> (rect: Rect)
    ensures
        rect == screen_rect_of(*position, sprite.region, width, height),
{
    let middle = Point::new(halved(width), halved(height));
    let screen_position = position.point.offset(middle.x(), middle.y());
    Rect::from_center(screen_position, sprite.region.width(), sprite.region.height())
}

} // verus!
