//! Integer vectors: grid positions, axis directions and world positions.

use vstd::prelude::*;

verus! {

/// A point of the integer lattice, or a step between two such points.
pub struct Cell {
    pub x: int,
    pub y: int,
    pub z: int,
}

impl Cell {
    /// The componentwise sum.
    pub open spec fn plus(self, other: Cell) -> Cell {
        Cell { x: self.x + other.x, y: self.y + other.y, z: self.z + other.z }
    }

    /// The step in the opposite direction.
    pub open spec fn negated(self) -> Cell {
        Cell { x: -self.x, y: -self.y, z: -self.z }
    }

    /// One of the three unit steps along an axis.
    pub open spec fn is_axis(self) -> bool {
        ||| self == (Cell { x: 1, y: 0, z: 0 })
        ||| self == (Cell { x: 0, y: 1, z: 0 })
        ||| self == (Cell { x: 0, y: 0, z: 1 })
    }

    /// The product `d * t`, written out for the factors 0 and 1, which are
    /// the components of an axis.
    pub open spec fn times(d: int, t: int) -> int {
        if d == 0 {
            0
        } else if d == 1 {
            t
        } else {
            d * t
        }
    }

    /// The point reached from `self` by `t` steps of `d`.
    pub open spec fn step(self, d: Cell, t: int) -> Cell {
        Cell {
            x: self.x + Self::times(d.x, t),
            y: self.y + Self::times(d.y, t),
            z: self.z + Self::times(d.z, t),
        }
    }

    /// The coordinate of `self` along the axis `d`.
    pub open spec fn along(self, d: Cell) -> int {
        Self::times(d.x, self.x) + Self::times(d.y, self.y) + Self::times(d.z, self.z)
    }

    /// Every coordinate is at least 0 and below `size`.
    pub open spec fn within(self, size: int) -> bool {
        0 <= self.x < size && 0 <= self.y < size && 0 <= self.z < size
    }
}

/// A vector of three unsigned components: a cell of a grid, an axis, or the
/// extent of a box of cells.
#[derive(Clone, Copy, Debug, PartialEq, Eq, Structural)]
pub struct Vec3 {
    pub x: usize,
    pub y: usize,
    pub z: usize,
}

impl View for Vec3 {
    type V = Cell;

    open spec fn view(&self) -> Cell {
        Cell { x: self.x as int, y: self.y as int, z: self.z as int }
    }
}

impl Vec3 {
    /// The vector with the given components.
    pub fn new(x: usize, y: usize, z: usize) -> (v: Vec3)
        ensures
            v == (Vec3 { x, y, z }),
    {
        Vec3 { x, y, z }
    }

    /// The componentwise sum.
    pub fn add_v(&self, other: &Vec3) -> (sum: Vec3)
        requires
            self.x + other.x <= usize::MAX,
            self.y + other.y <= usize::MAX,
            self.z + other.z <= usize::MAX,
        ensures
            sum@ == self@.plus(other@),
    {
        Vec3 { x: self.x + other.x, y: self.y + other.y, z: self.z + other.z }
    }

    /// Every component multiplied by `s`.
    pub fn mul_s(&self, s: usize) -> (scaled: Vec3)
        requires
            Cell::times(self.x as int, s as int) <= usize::MAX,
            Cell::times(self.y as int, s as int) <= usize::MAX,
            Cell::times(self.z as int, s as int) <= usize::MAX,
        ensures
            scaled.x == Cell::times(self.x as int, s as int),
            scaled.y == Cell::times(self.y as int, s as int),
            scaled.z == Cell::times(self.z as int, s as int),
    {
        proof {
            lemma_times_is_product(self.x as int, s as int);
            lemma_times_is_product(self.y as int, s as int);
            lemma_times_is_product(self.z as int, s as int);
        }
        Vec3 { x: self.x * s, y: self.y * s, z: self.z * s }
    }

    /// The componentwise product.
    pub fn mul_v(&self, other: &Vec3) -> (product: Vec3)
        requires
            Cell::times(self.x as int, other.x as int) <= usize::MAX,
            Cell::times(self.y as int, other.y as int) <= usize::MAX,
            Cell::times(self.z as int, other.z as int) <= usize::MAX,
        ensures
            product.x == Cell::times(self.x as int, other.x as int),
            product.y == Cell::times(self.y as int, other.y as int),
            product.z == Cell::times(self.z as int, other.z as int),
    {
        proof {
            lemma_times_is_product(self.x as int, other.x as int);
            lemma_times_is_product(self.y as int, other.y as int);
            lemma_times_is_product(self.z as int, other.z as int);
        }
        Vec3 { x: self.x * other.x, y: self.y * other.y, z: self.z * other.z }
    }
}

/// A vector of three signed components: a face normal or a position in the
/// world.
#[derive(Clone, Copy, Debug, PartialEq, Eq, Structural)]
pub struct Vec3i {
    pub x: i64,
    pub y: i64,
    pub z: i64,
}

impl View for Vec3i {
    type V = Cell;

    open spec fn view(&self) -> Cell {
        Cell { x: self.x as int, y: self.y as int, z: self.z as int }
    }
}

/// `Cell::times` is multiplication.
pub proof fn lemma_times_is_product(d: int, t: int)
    ensures
        Cell::times(d, t) == d * t,
{
    assert(0 * t == 0) by (nonlinear_arith);
    assert(1 * t == t) by (nonlinear_arith);
}

} // verus!
