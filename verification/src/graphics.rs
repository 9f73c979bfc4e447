//! The quad that the commands move: its place in pixel space and the
//! corners it is drawn with.

use crate::pipeline::Direction;
use vstd::prelude::*;

verus! {

/// The length of one move, in pixels.
pub const STEP: i32 = 32;

/// A quad as a mathematical value: the pixel at its origin and its size.
pub struct QuadState {
    pub x: int,
    pub y: int,
    pub width: int,
    pub height: int,
}

impl QuadState {
    /// The quad one step further in `direction`. `Up` and `Down` change the
    /// vertical coordinate, `Left` and `Right` the horizontal one; `Up` and
    /// `Left` lower it.
    pub open spec fn translated(self, direction: Direction) -> QuadState {
        match direction {
            Direction::Up => QuadState { y: self.y - STEP, ..self },
            Direction::Down => QuadState { y: self.y + STEP, ..self },
            Direction::Left => QuadState { x: self.x - STEP, ..self },
            Direction::Right => QuadState { x: self.x + STEP, ..self },
        }
    }

    /// Whether the origin can be held in a pair of `i32`.
    pub open spec fn representable(self) -> bool {
        &&& i32::MIN <= self.x <= i32::MAX
        &&& i32::MIN <= self.y <= i32::MAX
    }
}

/// The direction that undoes a move in `direction`.
pub open spec fn opposite(direction: Direction) -> Direction {
    match direction {
        Direction::Up => Direction::Down,
        Direction::Down => Direction::Up,
        Direction::Left => Direction::Right,
        Direction::Right => Direction::Left,
    }
}

/// A move and the move in the opposite direction bring the quad back to
/// where it was, exactly, wherever that is.
pub proof fn lemma_opposite_moves_cancel(quad: QuadState, direction: Direction)
    ensures
        quad.translated(direction).translated(opposite(direction)) == quad,
        quad.translated(Direction::Up).translated(Direction::Down) == quad,
        quad.translated(Direction::Down).translated(Direction::Up) == quad,
        quad.translated(Direction::Left).translated(Direction::Right) == quad,
        quad.translated(Direction::Right).translated(Direction::Left) == quad,
{
}

/// A move shifts the origin by exactly one step along one axis and leaves
/// the other axis and the size alone.
pub proof fn lemma_move_is_one_step(quad: QuadState, direction: Direction)
    ensures
        quad.translated(direction).width == quad.width,
        quad.translated(direction).height == quad.height,
        direction == Direction::Up || direction == Direction::Down ==> {
            &&& quad.translated(direction).x == quad.x
            &&& vstd::math::abs(quad.translated(direction).y - quad.y) == 32
        },
        direction == Direction::Left || direction == Direction::Right ==> {
            &&& quad.translated(direction).y == quad.y
            &&& vstd::math::abs(quad.translated(direction).x - quad.x) == 32
        },
{
}

/// A movable quad in pixel space.
#[derive(Debug, Clone, Copy, PartialEq, Eq, Structural)]
pub struct Quad {
    x: i32,
    y: i32,
    width: i32,
    height: i32,
}

impl View for Quad {
    type V = QuadState;

    closed spec fn view(&self) -> QuadState {
        QuadState {
            x: self.x as int,
            y: self.y as int,
            width: self.width as int,
            height: self.height as int,
        }
    }
}

impl Quad {
    /// A quad of the given size with its origin at `origin`.
    pub fn new(origin: (i32, i32), size: (i32, i32)) -> (quad: Quad)
        ensures
            quad@ == (QuadState {
                x: origin.0 as int,
                y: origin.1 as int,
                width: size.0 as int,
                height: size.1 as int,
            }),
    {
        Quad { x: origin.0, y: origin.1, width: size.0, height: size.1 }
    }

    /// Whether one step in `direction` keeps the origin within the range of
    /// its coordinates.
    pub fn can_translate(&self, direction: Direction) -> (fits: bool)
        ensures
            fits == self@.translated(direction).representable(),
    {
        match direction {
            Direction::Up => self.y >= i32::MIN + STEP,
            Direction::Down => self.y <= i32::MAX - STEP,
            Direction::Left => self.x >= i32::MIN + STEP,
            Direction::Right => self.x <= i32::MAX - STEP,
        }
    }

    /// Moves the quad one step in `direction`.
    pub fn translate(&mut self, direction: Direction)
        requires
            old(self)@.translated(direction).representable(),
        ensures
            final(self)@ == old(self)@.translated(direction),
    {
        match direction {
            Direction::Up => self.y = self.y - STEP,
            Direction::Down => self.y = self.y + STEP,
            Direction::Left => self.x = self.x - STEP,
            Direction::Right => self.x = self.x + STEP,
        }
    }

    /// The origin of the quad.
    pub fn position(&self) -> (origin: (i32, i32))
        ensures
            origin.0 == self@.x,
            origin.1 == self@.y,
    {
        (self.x, self.y)
    }

    /// The size of the quad.
    pub fn size(&self) -> (size: (i32, i32))
        ensures
            size.0 == self@.width,
            size.1 == self@.height,
    {
        (self.width, self.height)
    }
}

/// The edges of a quad in a window, in pixels counted from the window's
/// lower left corner.
pub struct Edges {
    pub left: int,
    pub right: int,
    pub upper: int,
    pub lower: int,
}

impl Edges {
    /// Whether each edge can be held in an `i32`.
    pub open spec fn representable(self) -> bool {
        &&& i32::MIN <= self.left <= i32::MAX
        &&& i32::MIN <= self.right <= i32::MAX
        &&& i32::MIN <= self.upper <= i32::MAX
        &&& i32::MIN <= self.lower <= i32::MAX
    }
}

/// The edges of a quad in a window of the given height. The origin of the
/// quad is its upper left corner, counted from the window's upper left
/// corner; the edges are counted from the window's lower left corner.
pub open spec fn edges_of(origin: (int, int), size: (int, int), window_height: int) -> Edges {
    Edges {
        left: origin.0,
        right: origin.0 + size.0,
        upper: window_height - origin.1,
        lower: window_height - origin.1 - size.1,
    }
}

/// Computes the four corners of a quad in a window of the given height, in
/// pixels counted from the window's lower left corner: upper left, upper
/// right, lower left, lower right, the order of a triangle strip. Returns
/// `None` where the height or an edge leaves the range of `i32`.
pub fn pixel_corners(origin: (i32, i32), size: (i32, i32), window_height: u32) -> (corners: Option<
    [(i32, i32); 4],
>)
    ensures
        corners is Some <==> window_height <= i32::MAX && edges_of(
            (origin.0 as int, origin.1 as int),
            (size.0 as int, size.1 as int),
            window_height as int,
        ).representable(),
        corners matches Some(pixels) ==> {
            let edges = edges_of(
                (origin.0 as int, origin.1 as int),
                (size.0 as int, size.1 as int),
                window_height as int,
            );
            &&& pixels[0].0 == edges.left && pixels[0].1 == edges.upper
            &&& pixels[1].0 == edges.right && pixels[1].1 == edges.upper
            &&& pixels[2].0 == edges.left && pixels[2].1 == edges.lower
            &&& pixels[3].0 == edges.right && pixels[3].1 == edges.lower
        },
{
    let left: i64 = origin.0 as i64;
    let right: i64 = origin.0 as i64 + size.0 as i64;
    let upper: i64 = window_height as i64 - origin.1 as i64;
    let lower: i64 = window_height as i64 - origin.1 as i64 - size.1 as i64;
    let least: i64 = i32::MIN as i64;
    let most: i64 = i32::MAX as i64;
    if window_height as i64 <= most && least <= right && right <= most && least <= upper && upper
        <= most && least <= lower && lower <= most {
        Some(
            [
                (left as i32, upper as i32),
                (right as i32, upper as i32),
                (left as i32, lower as i32),
                (right as i32, lower as i32),
            ],
        )
    } else {
        None
    }
}

/// The source of the vertex shader that the quad is drawn with.
pub fn vertex_shader() -> (source: &'static str)
    ensures
        source@ == r#"
        #version 140
        in vec2 position;
        void main() {
            gl_Position = vec4(position, 0.0, 1.0);
        }
    "#@,
{
    r#"
        #version 140
        in vec2 position;
        void main() {
            gl_Position = vec4(position, 0.0, 1.0);
        }
    "#
}

/// The source of the fragment shader that the quad is drawn with.
pub fn fragment_shader() -> (source: &'static str)
    ensures
        source@ == r#"
        #version 140
        out vec4 color;
        void main() {
            color = vec4(1.0, 0.0, 0.0, 1.0);
        }
    "#@,
{
    r#"
        #version 140
        out vec4 color;
        void main() {
            color = vec4(1.0, 0.0, 0.0, 1.0);
        }
    "#
}

} // verus!
