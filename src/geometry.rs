//! Positions and directions shared by every game.

use vstd::prelude::*;

verus! {

/// Direction of gravity as the tilt classifier reports it: the direction model
/// that drives every movement.
#[derive(Debug, Clone, Copy, PartialEq, Eq, Structural)]
pub enum Gd {
    Flat,
    Up,
    Right,
    Down,
    Left,
}

/// Direction of acceleration as the accelerometer reports it, including the two
/// vertical directions.
#[derive(Debug, Clone, Copy, PartialEq, Eq, Structural)]
pub enum Ad {
    Flat,
    Front,
    Right,
    Back,
    Left,
    Up,
    Down,
}

/// One of the four directions an object can travel in.
#[derive(Debug, Clone, Copy, PartialEq, Eq, Structural)]
pub enum Direction {
    Up,
    Right,
    Down,
    Left,
}

impl Direction {
    /// The direction pointing the other way.
    pub fn opposite(&self) -> (r: Direction)
        ensures
            *self == Direction::Up <==> r == Direction::Down,
            *self == Direction::Down <==> r == Direction::Up,
            *self == Direction::Left <==> r == Direction::Right,
            *self == Direction::Right <==> r == Direction::Left,
    {
        match self {
            Direction::Up => Direction::Down,
            Direction::Right => Direction::Left,
            Direction::Down => Direction::Up,
            Direction::Left => Direction::Right,
        }
    }
}

/// The acceleration direction of a travel direction: up is to the front, down
/// to the back.
pub open spec fn ad_of_direction(d: Direction) -> Ad {
    match d {
        Direction::Up => Ad::Front,
        Direction::Right => Ad::Right,
        Direction::Down => Ad::Back,
        Direction::Left => Ad::Left,
    }
}

impl From<Direction> for Ad {
    fn from(d: Direction) -> (r: Ad) {
        match d {
            Direction::Up => Ad::Front,
            Direction::Right => Ad::Right,
            Direction::Down => Ad::Back,
            Direction::Left => Ad::Left,
        }
    }
}

impl vstd::std_specs::convert::FromSpecImpl<Direction> for Ad {
    open spec fn obeys_from_spec() -> bool {
        true
    }

    open spec fn from_spec(d: Direction) -> Ad {
        ad_of_direction(d)
    }
}

/// The planar direction of an acceleration direction: front is up, back is down,
/// and the two vertical directions move nothing.
pub open spec fn gd_of_ad(a: Ad) -> Gd {
    match a {
        Ad::Front => Gd::Up,
        Ad::Right => Gd::Right,
        Ad::Back => Gd::Down,
        Ad::Left => Gd::Left,
        _ => Gd::Flat,
    }
}

impl Ad {
    /// The planar direction that this acceleration moves a map actor in.
    pub fn planar(&self) -> (r: Gd)
        ensures
            r == gd_of_ad(*self),
    {
        match self {
            Ad::Front => Gd::Up,
            Ad::Right => Gd::Right,
            Ad::Back => Gd::Down,
            Ad::Left => Gd::Left,
            _ => Gd::Flat,
        }
    }
}

/// A position in global map coordinates; `x` grows to the right, `y` downwards.
#[derive(Debug, Clone, Copy, PartialEq, Eq, Structural)]
pub struct Point {
    pub x: i32,
    pub y: i32,
}

/// The unit offset of a direction along x.
pub open spec fn dx(d: Gd) -> int {
    match d {
        Gd::Right => 1,
        Gd::Left => -1,
        _ => 0,
    }
}

/// The unit offset of a direction along y.
pub open spec fn dy(d: Gd) -> int {
    match d {
        Gd::Up => -1,
        Gd::Down => 1,
        _ => 0,
    }
}

/// A point can take one step in any direction without leaving `i32`.
pub open spec fn steppable(p: Point) -> bool {
    i32::MIN < p.x < i32::MAX && i32::MIN < p.y < i32::MAX
}

/// `p` moved one unit in direction `d` (not moved for `Gd::Flat`).
pub open spec fn shifted(p: Point, d: Gd) -> Point {
    Point { x: (p.x + dx(d)) as i32, y: (p.y + dy(d)) as i32 }
}

impl Point {
    pub fn new(x: i32, y: i32) -> (r: Point)
        ensures
            r == (Point { x, y }),
    {
        Point { x, y }
    }

    /// This point moved one unit in direction `d`.
    pub fn step(&self, d: Gd) -> (r: Point)
        requires
            steppable(*self),
        ensures
            r == shifted(*self, d),
    {
        match d {
            Gd::Up => Point { x: self.x, y: self.y - 1 },
            Gd::Right => Point { x: self.x + 1, y: self.y },
            Gd::Down => Point { x: self.x, y: self.y + 1 },
            Gd::Left => Point { x: self.x - 1, y: self.y },
            Gd::Flat => *self,
        }
    }
}

impl From<(i32, i32)> for Point {
    fn from(t: (i32, i32)) -> (r: Point) {
        Point { x: t.0, y: t.1 }
    }
}

impl vstd::std_specs::convert::FromSpecImpl<(i32, i32)> for Point {
    open spec fn obeys_from_spec() -> bool {
        true
    }

    open spec fn from_spec(t: (i32, i32)) -> Point {
        Point { x: t.0, y: t.1 }
    }
}

/// A small position on the 8 by 8 display; `x` grows to the right, `y` downwards.
#[derive(Debug, Clone, Copy, PartialEq, Eq, Structural)]
pub struct Position {
    pub x: i8,
    pub y: i8,
}

/// The x offset of a travel direction.
pub open spec fn dir_dx(d: Direction) -> int {
    match d {
        Direction::Right => 1,
        Direction::Left => -1,
        _ => 0,
    }
}

/// The y offset of a travel direction.
pub open spec fn dir_dy(d: Direction) -> int {
    match d {
        Direction::Up => -1,
        Direction::Down => 1,
        _ => 0,
    }
}

/// `p` can take one step in any direction without leaving `i8`.
pub open spec fn position_steppable(p: Position) -> bool {
    i8::MIN < p.x < i8::MAX && i8::MIN < p.y < i8::MAX
}

impl Position {
    pub fn new(x: i8, y: i8) -> (r: Position)
        ensures
            r == (Position { x, y }),
    {
        Position { x, y }
    }

    /// The position one unit away in direction `d`.
    pub fn next(&self, d: Direction) -> (r: Position)
        requires
            position_steppable(*self),
        ensures
            r.x == self.x + dir_dx(d),
            r.y == self.y + dir_dy(d),
    {
        let mut pos = *self;
        match d {
            Direction::Up => pos.y = pos.y - 1,
            Direction::Right => pos.x = pos.x + 1,
            Direction::Down => pos.y = pos.y + 1,
            Direction::Left => pos.x = pos.x - 1,
        }
        pos
    }

    /// Moves one unit in direction `d`.
    pub fn advance(&mut self, d: Direction)
        requires
            position_steppable(*old(self)),
        ensures
            final(self).x == old(self).x + dir_dx(d),
            final(self).y == old(self).y + dir_dy(d),
    {
        *self = self.next(d);
    }
}

} // verus!
