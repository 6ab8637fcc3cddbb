//! Grid cells: the executable `Pos` and its mathematical model `Point`.

use vstd::prelude::*;

verus! {

/// What a robot can do in one tick: keep its cell, or move to one of the
/// four cells next to it.
#[derive(Clone, Copy, Debug, PartialEq, Eq, Structural)]
pub enum Step {
    Stay,
    Up,
    Down,
    Left,
    Right,
}

/// A cell of the unbounded integer grid: `x` is the column, `y` the row.
/// Rows grow downwards, so "up" is the row with the smaller number.
pub struct Point {
    pub x: int,
    pub y: int,
}

impl Point {
    /// The cell one row above.
    pub open spec fn up(self) -> Point {
        Point { x: self.x, y: self.y - 1 }
    }

    /// The cell one row below.
    pub open spec fn down(self) -> Point {
        Point { x: self.x, y: self.y + 1 }
    }

    /// The cell one column to the left.
    pub open spec fn left(self) -> Point {
        Point { x: self.x - 1, y: self.y }
    }

    /// The cell one column to the right.
    pub open spec fn right(self) -> Point {
        Point { x: self.x + 1, y: self.y }
    }

    /// The cell that one step of the given kind leads to.
    pub open spec fn moved(self, step: Step) -> Point {
        match step {
            Step::Stay => self,
            Step::Up => self.up(),
            Step::Down => self.down(),
            Step::Left => self.left(),
            Step::Right => self.right(),
        }
    }

    /// Both coordinates fit a `Pos`.
    pub open spec fn representable(self) -> bool {
        i32::MIN <= self.x <= i32::MAX && i32::MIN <= self.y <= i32::MAX
    }

    /// `other` is one unit away from `self` along exactly one axis.
    pub open spec fn adjacent(self, other: Point) -> bool {
        ||| (other.x == self.x && (other.y == self.y - 1 || other.y == self.y + 1))
        ||| (other.y == self.y && (other.x == self.x - 1 || other.x == self.x + 1))
    }
}

/// The cell that stands for "no task assigned" or "no value".
pub open spec fn sentinel() -> Point {
    Point { x: -1, y: -1 }
}

/// A grid cell with machine coordinates.
#[derive(Clone, Copy, Debug, PartialEq, Eq, Structural)]
pub struct Pos {
    pub x: i32,
    pub y: i32,
}

impl View for Pos {
    type V = Point;

    open spec fn view(&self) -> Point {
        Point { x: self.x as int, y: self.y as int }
    }
}

/// The cells that a sequence of positions stands for, in the same order.
pub open spec fn points(s: Seq<Pos>) -> Seq<Point> {
    s.map_values(|p: Pos| p@)
}

impl Pos {
    /// The position with column `x` and row `y`.
    pub fn new(x: i32, y: i32) -> (p: Self)
        ensures
            p.x == x,
            p.y == y,
            p@ == (Point { x: x as int, y: y as int }),
    {
        Self { x, y }
    }

    /// The position that marks an empty slot, `(-1, -1)`.
    pub fn none() -> (p: Self)
        ensures
            p@ == sentinel(),
    {
        Self { x: -1, y: -1 }
    }

    /// The position one row above.
    pub fn up(&self) -> (p: Self)
        requires
            self.y > i32::MIN,
        ensures
            p@ == self@.up(),
    {
        Self::new(self.x, self.y - 1)
    }

    /// The position one row below.
    pub fn down(&self) -> (p: Self)
        requires
            self.y < i32::MAX,
        ensures
            p@ == self@.down(),
    {
        Self::new(self.x, self.y + 1)
    }

    /// The position one column to the left.
    pub fn left(&self) -> (p: Self)
        requires
            self.x > i32::MIN,
        ensures
            p@ == self@.left(),
    {
        Self::new(self.x - 1, self.y)
    }

    /// The position one column to the right.
    pub fn right(&self) -> (p: Self)
        requires
            self.x < i32::MAX,
        ensures
            p@ == self@.right(),
    {
        Self::new(self.x + 1, self.y)
    }

    /// Tells whether the cell that `step` leads to has coordinates that fit
    /// a `Pos`.
    pub fn can_step(&self, step: Step) -> (fits: bool)
        ensures
            fits == self@.moved(step).representable(),
    {
        match step {
            Step::Stay => true,
            Step::Up => self.y > i32::MIN,
            Step::Down => self.y < i32::MAX,
            Step::Left => self.x > i32::MIN,
            Step::Right => self.x < i32::MAX,
        }
    }

    /// The position that `step` leads to.
    pub fn step(&self, step: Step) -> (p: Self)
        requires
            self@.moved(step).representable(),
        ensures
            p@ == self@.moved(step),
    {
        match step {
            Step::Stay => *self,
            Step::Up => self.up(),
            Step::Down => self.down(),
            Step::Left => self.left(),
            Step::Right => self.right(),
        }
    }
}

} // verus!
