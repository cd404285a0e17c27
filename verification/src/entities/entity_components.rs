//! Components that carry data, and the packing of a velocity into one word.

use crate::geometry::Point;
use crate::geometry::Rect;
use crate::library::globalcomponents::ScreenSize;
use vstd::prelude::*;

verus! {

/// A step or an aim, one signed amount per axis.
#[derive(Debug, Copy, Clone, PartialEq, Eq, Structural)]
pub enum Direction {
    MoveDelta { x: i8, y: i8 },
}

/// One of the four quarters of the screen: `Q1` is the top right quarter, `Q2` the top
/// left, `Q3` the bottom left and `Q4` the bottom right.
#[derive(Debug, Copy, Clone, PartialEq, Eq, Structural)]
pub enum Quadrant {
    Q1,
    Q2,
    Q3,
    Q4,
}

/// Where an entity is, and the quarter of the screen that this was in when the
/// position was last integrated.
#[derive(Debug, Copy, Clone, PartialEq, Eq, Structural)]
pub struct Position {
    pub point: Point,
    pub quadrant: Quadrant,
}

/// The box by which an entity collides. Only its width and height count: the box is
/// taken around the entity's position.
#[derive(Debug, Copy, Clone, PartialEq, Eq, Structural)]
pub struct Collideable {
    pub col_box: Rect,
}

#[derive(Debug, Copy, Clone, PartialEq, Eq, Structural)]
pub struct GravityAfflicted {
    pub max_vel: i32,
    pub grounded: bool,
}

/// The frames that an entity has left.
#[derive(Debug, Copy, Clone, PartialEq, Eq, Structural)]
pub struct DecayLife {
    pub life: i32,
}

/// Hit points, and the box in which the entity can be hurt. Only the width and height
/// of the box count.
#[derive(Debug, Copy, Clone, PartialEq, Eq, Structural)]
pub struct Health {
    pub hp: u32,
    pub hurt_box: Rect,
}

/// The hit points that the entity takes, and the box with which it hurts. Only the
/// width and height of the box count.
#[derive(Debug, Copy, Clone, PartialEq, Eq, Structural)]
pub struct Damage {
    pub dmg: u32,
    pub dmg_box: Rect,
}

/// The two axis speeds packed into `speed`, and what steers them.
#[derive(Debug, Copy, Clone, PartialEq, Eq, Structural)]
pub struct Velocity {
    pub speed: u16,
    pub max_speed: i8,
    pub acc: u32,
    pub last_dir: Option<Direction>,
}

/// What is drawn for an entity: a region of a sprite sheet.
#[derive(Debug, Copy, Clone, PartialEq, Eq, Structural)]
pub struct Sprite {
    pub spritesheet: usize,
    pub region: Rect,
    pub mouse_rot_flag: bool,
}

/// The byte that holds the signed value `v` in two's complement.
pub open spec fn byte_of(v: i8) -> int {
    if v < 0 {
        v + 256
    } else {
        v as int
    }
}

/// The signed value that the byte `b` holds in two's complement.
pub open spec fn signed_of(b: int) -> i8 {
    if b >= 128 {
        (b - 256) as i8
    } else {
        b as i8
    }
}

/// The speed word for the axis speeds `x` and `y`: the low byte holds `x`, the high
/// byte `y`.
pub open spec fn encoded(x: i8, y: i8) -> u16 {
    (byte_of(y) * 256 + byte_of(x)) as u16
}

/// The axis speeds `(x, y)` that the speed word holds.
pub open spec fn decoded(speed: u16) -> (i8, i8) {
    (signed_of(speed as int % 256), signed_of(speed as int / 256))
}

/// The speed nearest to `v` that fits a signed byte.
pub open spec fn saturated(v: int) -> i8 {
    if v > i8::MAX {
        i8::MAX
    } else if v < i8::MIN {
        i8::MIN
    } else {
        v as i8
    }
}

/// Decoding gives back what was encoded.
pub proof fn lemma_decode_encode(x: i8, y: i8)
    ensures
        decoded(encoded(x, y)) == (x, y),
{
}

/// Encoding gives back what was decoded: every speed word is the code of one pair of
/// axis speeds.
pub proof fn lemma_encode_decode(speed: u16)
    ensures
        encoded(decoded(speed).0, decoded(speed).1) == speed,
{
}

/// The speed word is zero exactly when both axis speeds are.
pub proof fn lemma_encoded_zero(x: i8, y: i8)
    ensures
        encoded(x, y) == 0 <==> x == 0 && y == 0,
{
}

pub fn encode_speed(x_speed: i8, y_speed: i8) -> (speed: u16)
    ensures
        speed == encoded(x_speed, y_speed),
        decoded(speed) == (x_speed, y_speed),
{
    let tmp = (((y_speed as u16) << 8) & 0xff00) | ((x_speed as u16) & 0xff);
    assert(tmp == (if y_speed < 0 {
        y_speed + 256
    } else {
        y_speed as int
    }) * 256 + (if x_speed < 0 {
        x_speed + 256
    } else {
        x_speed as int
    })) by (bit_vector)
        requires
            tmp == (((y_speed as u16) << 8) & 0xff00) | ((x_speed as u16) & 0xff),
    ;
    return tmp;
}

pub fn unencode_speed(vel: u16) -> (speeds: (i8, i8))
    ensures
        speeds == decoded(vel),
        encoded(speeds.0, speeds.1) == vel,
{
    let x_speed: i8 = (vel & 0xff) as i8;
    let y_speed: i8 = ((vel >> 8) & 0xff) as i8;
    assert(x_speed == (if vel % 256 >= 128 {
        vel % 256 - 256
    } else {
        (vel % 256) as int
    })) by (bit_vector)
        requires
            x_speed == (vel & 0xff) as i8,
    ;
    assert(y_speed == (if vel / 256 >= 128 {
        vel / 256 - 256
    } else {
        (vel / 256) as int
    })) by (bit_vector)
        requires
            y_speed == ((vel >> 8) & 0xff) as i8,
    ;
    return (x_speed, y_speed);
}

pub(crate) fn saturate(v: i64) -> (r: i8)
    ensures
        r == saturated(v as int),
{
    if v > 127 {
        127
    } else if v < -128 {
        -128
    } else {
        v as i8
    }
}

impl Velocity {
    /// The axis speeds `(x, y)` of this velocity.
    pub open spec fn axes(self) -> (i8, i8) {
        decoded(self.speed)
    }

    /// This velocity with the axis speeds replaced.
    pub open spec fn with_axes(self, x: i8, y: i8) -> Velocity {
        Velocity { speed: encoded(x, y), ..self }
    }

    pub fn encode_speed(&mut self, x_speed: i8, y_speed: i8)
        ensures
            *final(self) == old(self).with_axes(x_speed, y_speed),
            final(self).axes() == (x_speed, y_speed),
    {
        self.speed = encode_speed(x_speed, y_speed);
    }

    pub fn unencode_speed(&self) -> (speeds: (i8, i8))
        ensures
            speeds == self.axes(),
    {
        unencode_speed(self.speed)
    }
}

/// Half of a screen side as the screen's middle is computed: sides beyond the range of
/// `i32` wrap around to a negative length before they are halved towards zero.
pub open spec fn half_extent(side: u32) -> int {
    if side <= i32::MAX {
        side as int / 2
    } else {
        -((0x1_0000_0000 - side) / 2)
    }
}

pub(crate) fn halved(side: u32) -> (half: i32)
    ensures
        half == half_extent(side),
        crate::geometry::MIN_COORDINATE <= half <= crate::geometry::MAX_COORDINATE,
{
    if side <= i32::MAX as u32 {
        (side / 2) as i32
    } else {
        -(((u32::MAX - side + 1) / 2) as i32)
    }
}

impl Position {
    /// Turns a point given from the top left corner of the screen into one given from
    /// the screen's middle.
    pub fn translate_coordinate(&mut self, screen: ScreenSize)
        ensures
            final(self).quadrant == old(self).quadrant,
            final(self).point == match screen {
                ScreenSize::Size { width, height } => old(self).point.shifted(
                    -half_extent(width),
                    -half_extent(height),
                ),
            },
    {
        match screen {
            ScreenSize::Size { width: w, height: h } => {
                let middle = Point::new(halved(w), halved(h));
                self.point = self.point.offset(-middle.x(), -middle.y());
            },
        };
    }
}

} // verus!
