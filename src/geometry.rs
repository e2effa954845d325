use vstd::prelude::*;

verus! {

/// A screen-space pixel coordinate.
#[derive(Clone, Copy, PartialEq, Eq, Structural)]
pub struct Vec2 {
    pub x: isize,
    pub y: isize,
}

impl Vec2 {
    pub fn new(x: isize, y: isize) -> (r: Self)
        ensures
            r.x == x,
            r.y == y,
    {
        Self { x, y }
    }
}

/// A world-space location in integer units.
#[derive(Clone, Copy, PartialEq, Eq, Structural)]
pub struct Vec3 {
    pub x: i32,
    pub y: i32,
    pub z: i32,
}

/// Whether `v` fits in `i32`.
pub open spec fn fits_i32(v: int) -> bool {
    i32::MIN <= v <= i32::MAX
}

impl Vec3 {
    pub fn new(x: i32, y: i32, z: i32) -> (r: Self)
        ensures
            r.x == x,
            r.y == y,
            r.z == z,
    {
        Self { x, y, z }
    }

    pub open spec fn translate_spec(self, x: int, y: int, z: int) -> Vec3 {
        Vec3 { x: (self.x + x) as i32, y: (self.y + y) as i32, z: (self.z + z) as i32 }
    }

    /// The point moved by `(x, y, z)`.
    pub fn translate(&self, x: i32, y: i32, z: i32) -> (r: Self)
        requires
            fits_i32(self.x + x),
            fits_i32(self.y + y),
            fits_i32(self.z + z),
        ensures
            r.x == self.x + x,
            r.y == self.y + y,
            r.z == self.z + z,
            r == self.translate_spec(x as int, y as int, z as int),
    {
        Self { x: self.x + x, y: self.y + y, z: self.z + z }
    }
}

/// An RGBA color, one byte per channel.
#[derive(Clone, Copy, PartialEq, Eq, Structural)]
pub struct Color {
    pub r: u8,
    pub g: u8,
    pub b: u8,
    pub a: u8,
}

impl Color {
    pub fn new(r: u8, g: u8, b: u8, a: u8) -> (c: Self)
        ensures
            c.r == r,
            c.g == g,
            c.b == b,
            c.a == a,
    {
        Color { r, g, b, a }
    }

    /// The channels in R, G, B, A order.
    pub open spec fn bytes(self) -> Seq<u8> {
        seq![self.r, self.g, self.b, self.a]
    }
}

} // verus!
