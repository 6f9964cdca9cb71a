//! Integer vectors and points in three dimensions.
use vstd::prelude::*;

verus! {

/// `v` lies in the range of `i64`.
pub open spec fn fits_i64(v: int) -> bool {
    i64::MIN <= v <= i64::MAX
}

/// The cross product of `a` and `b`, component by component.
pub open spec fn cross_of(a: Vector, b: Vector) -> (int, int, int) {
    (
        a.y * b.z - a.z * b.y,
        a.z * b.x - a.x * b.z,
        a.x * b.y - a.y * b.x,
    )
}

/// The products and sums that the cross product of `a` and `b` computes all
/// fit in an `i64`.
pub open spec fn cross_fits(a: Vector, b: Vector) -> bool {
    &&& fits_i64(a.y * b.z)
    &&& fits_i64(a.z * b.y)
    &&& fits_i64(a.z * b.x)
    &&& fits_i64(a.x * b.z)
    &&& fits_i64(a.x * b.y)
    &&& fits_i64(a.y * b.x)
    &&& fits_i64(cross_of(a, b).0)
    &&& fits_i64(cross_of(a, b).1)
    &&& fits_i64(cross_of(a, b).2)
}

/// The cross product of two vectors.
pub fn cross_product(vector1: &Vector, vector2: &Vector) -> (r: Vector)
    requires
        cross_fits(*vector1, *vector2),
    ensures
        (r.x as int, r.y as int, r.z as int) == cross_of(*vector1, *vector2),
{
    let x = vector1.y * vector2.z - vector1.z * vector2.y;
    let y = vector1.z * vector2.x - vector1.x * vector2.z;
    let z = vector1.x * vector2.y - vector1.y * vector2.x;
    Vector::new(x, y, z)
}

/// A direction in three dimensions.
pub struct Vector {
    pub x: i64,
    pub y: i64,
    pub z: i64,
}

/// A location in three dimensions.
pub struct Point {
    pub position: Vector,
}

impl Point {
    /// The point at `(x, y, z)`.
    pub fn new(x: i64, y: i64, z: i64) -> (r: Point)
        ensures
            r.position == (Vector { x, y, z }),
    {
        Point { position: Vector { x, y, z } }
    }

    /// The point that `vector` leads to from the origin.
    pub fn from_vector(vector: &Vector) -> (r: Point)
        ensures
            r.position == *vector,
    {
        Point { position: Vector { x: vector.x, y: vector.y, z: vector.z } }
    }

    /// The origin.
    pub fn zero() -> (r: Point)
        ensures
            r.position == (Vector { x: 0, y: 0, z: 0 }),
    {
        Point { position: Vector::zero() }
    }

    /// The vector from `point` to `self`.
    pub fn direction(&self, point: &Point) -> (r: Vector)
        requires
            fits_i64(self.position.x - point.position.x),
            fits_i64(self.position.y - point.position.y),
            fits_i64(self.position.z - point.position.z),
        ensures
            r.x == self.position.x - point.position.x,
            r.y == self.position.y - point.position.y,
            r.z == self.position.z - point.position.z,
    {
        let x_dir = self.position.x - point.position.x;
        let y_dir = self.position.y - point.position.y;
        let z_dir = self.position.z - point.position.z;
        Vector::new(x_dir, y_dir, z_dir)
    }

    /// Whether the two points are the same.
    pub fn compare(&self, point: &Point) -> (r: bool)
        ensures
            r == (self.position == point.position),
    {
        self.position.is_same(&point.position)
    }
}

impl Vector {
    /// The vector `(x, y, z)`.
    pub fn new(x: i64, y: i64, z: i64) -> (r: Vector)
        ensures
            r == (Vector { x, y, z }),
    {
        Vector { x, y, z }
    }

    /// The zero vector.
    pub fn zero() -> (r: Vector)
        ensures
            r == (Vector { x: 0, y: 0, z: 0 }),
    {
        Vector::new(0, 0, 0)
    }

    /// A copy of `vector`.
    pub fn copy(vector: &Vector) -> (r: Vector)
        ensures
            r == *vector,
    {
        Vector::new(vector.x, vector.y, vector.z)
    }

    /// A copy of `self`.
    pub fn clone(&self) -> (r: Vector)
        ensures
            r == *self,
    {
        Vector::copy(self)
    }

    /// Negates every component.
    pub fn invert(&mut self)
        requires
            old(self).x > i64::MIN,
            old(self).y > i64::MIN,
            old(self).z > i64::MIN,
        ensures
            final(self).x == -old(self).x,
            final(self).y == -old(self).y,
            final(self).z == -old(self).z,
    {
        let mut inverted = Vector::zero();
        inverted.subtract(self);
        self.overwrite(&inverted);
    }

    /// Subtracts `vector` component by component.
    pub fn subtract(&mut self, vector: &Vector)
        requires
            fits_i64(old(self).x - vector.x),
            fits_i64(old(self).y - vector.y),
            fits_i64(old(self).z - vector.z),
        ensures
            final(self).x == old(self).x - vector.x,
            final(self).y == old(self).y - vector.y,
            final(self).z == old(self).z - vector.z,
    {
        self.x = self.x - vector.x;
        self.y = self.y - vector.y;
        self.z = self.z - vector.z;
    }

    /// Adds `vector` component by component and returns the point that the
    /// new value leads to.
    pub fn apply(&mut self, vector: &Vector) -> (r: Point)
        requires
            fits_i64(old(self).x + vector.x),
            fits_i64(old(self).y + vector.y),
            fits_i64(old(self).z + vector.z),
        ensures
            final(self).x == old(self).x + vector.x,
            final(self).y == old(self).y + vector.y,
            final(self).z == old(self).z + vector.z,
            r.position == *final(self),
    {
        self.x = self.x + vector.x;
        self.y = self.y + vector.y;
        self.z = self.z + vector.z;
        Point { position: Vector::new(self.x, self.y, self.z) }
    }

    /// Sets every component to that of `vector`.
    pub fn overwrite(&mut self, vector: &Vector)
        ensures
            *final(self) == *vector,
    {
        self.x = vector.x;
        self.y = vector.y;
        self.z = vector.z;
    }

    /// Whether the two vectors agree in every component. On integer
    /// components, agreeing within a tolerance below one is agreeing exactly.
    pub fn is_same(&self, vector: &Vector) -> (r: bool)
        ensures
            r == (*self == *vector),
    {
        if self.x != vector.x {
            return false;
        }
        if self.y != vector.y {
            return false;
        }
        if self.z != vector.z {
            return false;
        }
        true
    }

    /// Multiplies every component by `scale`.
    pub fn scale(&mut self, scale: i64)
        requires
            fits_i64(old(self).x * scale),
            fits_i64(old(self).y * scale),
            fits_i64(old(self).z * scale),
        ensures
            final(self).x == old(self).x * scale,
            final(self).y == old(self).y * scale,
            final(self).z == old(self).z * scale,
    {
        self.x = self.x * scale;
        self.y = self.y * scale;
        self.z = self.z * scale;
    }

    /// The dot product.
    pub fn dot_product(&self, vector: &Vector) -> (r: i64)
        requires
            fits_i64(self.x * vector.x),
            fits_i64(self.y * vector.y),
            fits_i64(self.z * vector.z),
            fits_i64(self.x * vector.x + self.y * vector.y),
            fits_i64(self.x * vector.x + self.y * vector.y + self.z * vector.z),
        ensures
            r == self.x * vector.x + self.y * vector.y + self.z * vector.z,
    {
        let x = self.x * vector.x;
        let y = self.y * vector.y;
        let z = self.z * vector.z;
        x + y + z
    }
}

} // verus!
