use vstd::prelude::*;
use vstd::arithmetic::div_mod::{lemma_fundamental_div_mod, lemma_fundamental_div_mod_converse, lemma_mod_bound, lemma_div_is_ordered};
use crate::arith::floor_div;
use crate::geometry::{Vec2, Vec3, fits_i32};
use crate::raster::SVert;
use crate::zbuffer::{WIDTH, HEIGHT};

verus! {

/// Fixed-point one: sines, cosines and the camera scale are stored as
/// multiples of `1 / UNIT`.
pub const UNIT: i32 = 4096;

/// A camera orientation as the sines and cosines of its pitch (about X), yaw
/// (about Y) and roll (about Z), in fixed point.
#[derive(Clone, Copy, PartialEq, Eq, Structural)]
pub struct Rotation {
    pub sin_x: i32,
    pub cos_x: i32,
    pub sin_y: i32,
    pub cos_y: i32,
    pub sin_z: i32,
    pub cos_z: i32,
}

pub open spec fn unit_bounded(v: int) -> bool {
    -(UNIT as int) <= v <= UNIT as int
}

impl Rotation {
    /// Every factor lies in `[-UNIT, UNIT]`, as a sine or cosine does.
    pub open spec fn wf(&self) -> bool {
        unit_bounded(self.sin_x as int) && unit_bounded(self.cos_x as int)
            && unit_bounded(self.sin_y as int) && unit_bounded(self.cos_y as int)
            && unit_bounded(self.sin_z as int) && unit_bounded(self.cos_z as int)
    }

    /// All three angles zero.
    pub open spec fn spec_is_identity(&self) -> bool {
        self.sin_x == 0 && self.sin_y == 0 && self.sin_z == 0
            && self.cos_x == UNIT && self.cos_y == UNIT && self.cos_z == UNIT
    }

    pub fn new(sin_x: i32, cos_x: i32, sin_y: i32, cos_y: i32, sin_z: i32, cos_z: i32) -> (r: Self)
        ensures
            r == (Rotation { sin_x, cos_x, sin_y, cos_y, sin_z, cos_z }),
    {
        Rotation { sin_x, cos_x, sin_y, cos_y, sin_z, cos_z }
    }

    /// The rotation by three zero angles.
    pub fn identity() -> (r: Self)
        ensures
            r.wf(),
            r.spec_is_identity(),
    {
        Rotation { sin_x: 0, cos_x: UNIT, sin_y: 0, cos_y: UNIT, sin_z: 0, cos_z: UNIT }
    }

    pub fn is_identity(&self) -> (r: bool)
        ensures
            r == self.spec_is_identity(),
    {
        self.sin_x == 0 && self.sin_y == 0 && self.sin_z == 0
            && self.cos_x == UNIT && self.cos_y == UNIT && self.cos_z == UNIT
    }
}

/// The view: eye position, orientation, projection (`z` the focal distance,
/// `x` and `y` the principal-point offset) and a fixed-point screen scale.
#[derive(Clone, Copy)]
pub struct Camera {
    pub pos: Vec3,
    pub rot: Rotation,
    pub proj: Vec3,
    pub sc: i32,
}

impl Camera {
    pub open spec fn wf(&self) -> bool {
        self.rot.wf()
    }

    pub fn new(pos: Vec3, rot: Rotation, proj: Vec3, sc: i32) -> (r: Self)
        ensures
            r.pos == pos,
            r.rot == rot,
            r.proj == proj,
            r.sc == sc,
    {
        Self { pos, rot, proj, sc }
    }

    /// Moves the eye by `(x, y, z)`.
    pub fn translate_mut(&mut self, x: i32, y: i32, z: i32)
        requires
            fits_i32(old(self).pos.x + x),
            fits_i32(old(self).pos.y + y),
            fits_i32(old(self).pos.z + z),
        ensures
            final(self).pos == old(self).pos.translate_spec(x as int, y as int, z as int),
            final(self).rot == old(self).rot,
            final(self).proj == old(self).proj,
            final(self).sc == old(self).sc,
    {
        self.pos = self.pos.translate(x, y, z);
    }
}

/// Camera-space coordinates of world point `p`: relative to the eye, the
/// vertical axis flipped, then turned about Y, X and Z by the closed-form
/// combined matrix, each rounded down.
pub open spec fn cam_space(p: Vec3, cam: Camera) -> (int, int, int) {
    let u = UNIT as int;
    let r = cam.rot;
    let xp = p.x - cam.pos.x;
    let yp = -(p.y - cam.pos.y);
    let zp = p.z - cam.pos.z;
    let w = r.sin_z * yp + r.cos_z * xp;
    let v = r.cos_z * yp - r.sin_z * xp;
    let t = r.cos_y * zp * u + r.sin_y * w;
    (
        (r.cos_y * w - r.sin_y * zp * u) / (u * u),
        (r.sin_x * t + r.cos_x * v * u) / (u * u * u),
        (r.cos_x * t - r.sin_x * v * u) / (u * u * u),
    )
}

/// `n / d` rounded down, for a divisor of either sign.
pub open spec fn floor_frac(n: int, d: int) -> int {
    if d > 0 { n / d } else { (-n) / (-d) }
}

/// One screen coordinate: `half + scale * (focal * d / dz + offset)`, rounded
/// down, with the scale in fixed point.
pub open spec fn screen_coord(half: int, sc: int, focal: int, offset: int, d: int, dz: int) -> int {
    floor_frac(half * (UNIT as int) * dz + sc * (focal * d + offset * dz), (UNIT as int) * dz)
}

/// Where `p` lands on screen and at what depth, or `None` when its
/// camera-space depth is zero or its pixel does not fit in `i32`.
pub open spec fn project_spec(p: Vec3, cam: Camera) -> Option<SVert> {
    let (dx, dy, dz) = cam_space(p, cam);
    let sx = screen_coord(WIDTH as int / 2, cam.sc as int, cam.proj.z as int, cam.proj.x as int, dx, dz);
    let sy = screen_coord(HEIGHT as int / 2, cam.sc as int, cam.proj.z as int, cam.proj.y as int, dy, dz);
    if dz == 0 || !fits_i32(sx) || !fits_i32(sy) {
        None
    } else {
        Some(SVert { p: Vec2 { x: sx as isize, y: sy as isize }, z: dz as i64 })
    }
}

/// With all three angles zero the camera-space point is the eye-relative
/// point with the vertical axis flipped, which is what the fast path uses.
pub proof fn lemma_identity_is_translation(p: Vec3, cam: Camera)
    requires
        cam.rot.spec_is_identity(),
    ensures
        cam_space(p, cam) == (
            (p.x - cam.pos.x) as int,
            -(p.y - cam.pos.y) as int,
            (p.z - cam.pos.z) as int,
        ),
{
    let u = UNIT as int;
    let xp = p.x - cam.pos.x;
    let yp = -(p.y - cam.pos.y);
    let zp = p.z - cam.pos.z;
    assert((u * (u * xp)) == xp * (u * u)) by (nonlinear_arith);
    assert((u * (u * zp * u)) == zp * (u * u * u)) by (nonlinear_arith);
    assert((u * (u * yp) * u) == yp * (u * u * u)) by (nonlinear_arith);
    lemma_fundamental_div_mod_converse(xp * (u * u), u * u, xp, 0);
    lemma_fundamental_div_mod_converse(yp * (u * u * u), u * u * u, yp, 0);
    lemma_fundamental_div_mod_converse(zp * (u * u * u), u * u * u, zp, 0);
}

/// A common positive factor of numerator and divisor does not change a
/// quotient.
proof fn lemma_cancel(k: int, u: int, m: int)
    requires
        u > 0,
        m > 0,
    ensures
        (k * m) / (u * m) == k / u,
{
    lemma_fundamental_div_mod(k, u);
    lemma_mod_bound(k, u);
    let q = k / u;
    let r = k % u;
    assert(k * m == q * (u * m) + r * m && 0 <= r * m < u * m) by (nonlinear_arith)
        requires k == u * q + r, 0 <= r < u, m > 0;
    lemma_fundamental_div_mod_converse(k * m, u * m, q, r * m);
}

/// A point on the optical axis (camera-space x and y zero, depth nonzero)
/// lands at the screen center moved by the principal-point offset alone,
/// whatever the focal distance.
pub proof fn lemma_axis_point_at_center(half: int, sc: int, focal: int, offset: int, dz: int)
    requires
        dz != 0,
    ensures
        screen_coord(half, sc, focal, offset, 0, dz)
            == (half * (UNIT as int) + sc * offset) / (UNIT as int),
{
    let u = UNIT as int;
    let k = half * u + sc * offset;
    if dz > 0 {
        assert(half * u * dz + sc * (focal * 0 + offset * dz) == k * dz) by (nonlinear_arith)
            requires k == half * u + sc * offset;
        lemma_cancel(k, u, dz);
    } else {
        assert(-(half * u * dz + sc * (focal * 0 + offset * dz)) == k * (-dz)) by (nonlinear_arith)
            requires k == half * u + sc * offset;
        assert(-(u * dz) == u * (-dz)) by (nonlinear_arith);
        lemma_cancel(k, u, -dz);
    }
}

proof fn lemma_mul_abs(a: int, b: int, ba: int, bb: int)
    requires
        -ba <= a <= ba,
        -bb <= b <= bb,
    ensures
        -(ba * bb) <= a * b <= ba * bb,
{
    assert(-(ba * bb) <= a * b <= ba * bb) by (nonlinear_arith)
        requires -ba <= a <= ba, -bb <= b <= bb;
}

/// A quotient by `d > 0` of a value within `k * d` of zero lies within `k`.
proof fn lemma_div_abs(n: int, d: int, k: int)
    requires
        d > 0,
        k >= 0,
        -(k * d) <= n <= k * d,
    ensures
        -k <= n / d <= k,
{
    lemma_div_is_ordered(n, k * d, d);
    lemma_div_is_ordered(-(k * d), n, d);
    lemma_fundamental_div_mod_converse(k * d, d, k, 0);
    assert(-(k * d) == (-k) * d) by (nonlinear_arith);
    lemma_fundamental_div_mod_converse(-(k * d), d, -k, 0);
}

/// `n / d` rounded down for a nonzero divisor of either sign.
fn floor_frac_exec(n: i128, d: i128) -> (q: i128)
    requires
        d != 0,
        n > i128::MIN,
        d > i128::MIN,
    ensures
        q == floor_frac(n as int, d as int),
{
    if d > 0 {
        floor_div(n, d)
    } else {
        floor_div(-n, -d)
    }
}

/// Camera-space coordinates of `p`, each within `2^35`.
fn cam_space_exec(p: &Vec3, cam: &Camera) -> (r: (i64, i64, i64))
    requires
        cam.wf(),
    ensures
        (r.0 as int, r.1 as int, r.2 as int) == cam_space(*p, *cam),
        -0x8_0000_0000 <= r.0 <= 0x8_0000_0000,
        -0x8_0000_0000 <= r.1 <= 0x8_0000_0000,
        -0x8_0000_0000 <= r.2 <= 0x8_0000_0000,
{
    let xp: i64 = p.x as i64 - cam.pos.x as i64;
    let yp: i64 = -(p.y as i64 - cam.pos.y as i64);
    let zp: i64 = p.z as i64 - cam.pos.z as i64;
    if cam.rot.is_identity() {
        proof {
            lemma_identity_is_translation(*p, *cam);
        }
        return (xp, yp, zp);
    }
    let r = cam.rot;
    let u: i128 = UNIT as i128;
    let (sx, cx, sy, cy, sz, cz) = (r.sin_x as i128, r.cos_x as i128, r.sin_y as i128, r.cos_y as i128, r.sin_z as i128, r.cos_z as i128);
    let (xp, yp, zp) = (xp as i128, yp as i128, zp as i128);
    let ghost b0: int = 0x1_0000_0000;
    proof {
        lemma_mul_abs(sz as int, yp as int, 4096, b0);
        lemma_mul_abs(cz as int, xp as int, 4096, b0);
        lemma_mul_abs(cz as int, yp as int, 4096, b0);
        lemma_mul_abs(sz as int, xp as int, 4096, b0);
    }
    let w: i128 = sz * yp + cz * xp;
    let v: i128 = cz * yp - sz * xp;
    proof {
        lemma_mul_abs(cy as int, zp as int, 4096, b0);
        lemma_mul_abs(sy as int, zp as int, 4096, b0);
        lemma_mul_abs((cy * zp) as int, u as int, 4096 * b0, 4096);
        lemma_mul_abs((sy * zp) as int, u as int, 4096 * b0, 4096);
        lemma_mul_abs(sy as int, w as int, 4096, 2 * 4096 * b0);
        lemma_mul_abs(cy as int, w as int, 4096, 2 * 4096 * b0);
    }
    let t: i128 = cy * zp * u + sy * w;
    let nx: i128 = cy * w - sy * zp * u;
    proof {
        lemma_mul_abs(sx as int, t as int, 4096, 4 * 4096 * 4096 * b0);
        lemma_mul_abs(cx as int, t as int, 4096, 4 * 4096 * 4096 * b0);
        lemma_mul_abs(cx as int, v as int, 4096, 2 * 4096 * b0);
        lemma_mul_abs(sx as int, v as int, 4096, 2 * 4096 * b0);
        lemma_mul_abs((cx * v) as int, u as int, 2 * 4096 * 4096 * b0, 4096);
        lemma_mul_abs((sx * v) as int, u as int, 2 * 4096 * 4096 * b0, 4096);
    }
    let ny: i128 = sx * t + cx * v * u;
    let nz: i128 = cx * t - sx * v * u;
    proof {
        lemma_div_abs(nx as int, 4096int * 4096, 0x8_0000_0000);
        lemma_div_abs(ny as int, 4096int * 4096 * 4096, 0x8_0000_0000);
        lemma_div_abs(nz as int, 4096int * 4096 * 4096, 0x8_0000_0000);
    }
    let dx = floor_div(nx, u * u);
    let dy = floor_div(ny, u * u * u);
    let dz = floor_div(nz, u * u * u);
    (dx as i64, dy as i64, dz as i64)
}

impl Vec3 {
    /// Projects the point through `cam`: its pixel and camera-space depth, or
    /// `None` when the depth is zero or the pixel does not fit in `i32`.
    pub fn project(&self, cam: &Camera) -> (r: Option<SVert>)
        requires
            cam.wf(),
        ensures
            r == project_spec(*self, *cam),
    {
        let (dx, dy, dz) = cam_space_exec(self, cam);
        if dz == 0 {
            return None;
        }
        let u: i128 = UNIT as i128;
        let (dx, dy, dz) = (dx as i128, dy as i128, dz as i128);
        let sc: i128 = cam.sc as i128;
        let f: i128 = cam.proj.z as i128;
        let ox: i128 = cam.proj.x as i128;
        let oy: i128 = cam.proj.y as i128;
        let ghost b31: int = 0x8000_0000;
        let ghost b35: int = 0x8_0000_0000;
        proof {
            lemma_mul_abs(f as int, dx as int, b31, b35);
            lemma_mul_abs(f as int, dy as int, b31, b35);
            lemma_mul_abs(ox as int, dz as int, b31, b35);
            lemma_mul_abs(oy as int, dz as int, b31, b35);
            lemma_mul_abs(u as int, dz as int, 4096, b35);
            lemma_mul_abs(200 * u as int, dz as int, 200int * 4096, b35);
            lemma_mul_abs(150 * u as int, dz as int, 150int * 4096, b35);
            lemma_mul_abs(sc as int, (f * dx + ox * dz) as int, b31, 2 * b31 * b35);
            lemma_mul_abs(sc as int, (f * dy + oy * dz) as int, b31, 2 * b31 * b35);
        }
        let nx: i128 = (WIDTH as i128 / 2) * u * dz + sc * (f * dx + ox * dz);
        let ny: i128 = (HEIGHT as i128 / 2) * u * dz + sc * (f * dy + oy * dz);
        let sx = floor_frac_exec(nx, u * dz);
        let sy = floor_frac_exec(ny, u * dz);
        if sx < i32::MIN as i128 || sx > i32::MAX as i128 || sy < i32::MIN as i128 || sy > i32::MAX as i128 {
            return None;
        }
        Some(SVert::new(Vec2::new(sx as isize, sy as isize), dz as i64))
    }
}

/// A point on the camera's optical axis (camera-space x and y both zero, a
/// nonzero depth) projects to the screen center moved by the scaled
/// principal-point offset alone: the focal distance plays no part. Since
/// `Vec3::project` returns `project_spec`, it returns that pixel whenever the
/// pixel fits in `i32`, and `None` otherwise.
pub proof fn lemma_axis_projection(p: Vec3, cam: Camera)
    requires
        cam_space(p, cam).0 == 0,
        cam_space(p, cam).1 == 0,
        cam_space(p, cam).2 != 0,
    ensures
        ({
            let cx = (WIDTH as int / 2 * (UNIT as int) + cam.sc * cam.proj.x) / (UNIT as int);
            let cy = (HEIGHT as int / 2 * (UNIT as int) + cam.sc * cam.proj.y) / (UNIT as int);
            project_spec(p, cam) == if fits_i32(cx) && fits_i32(cy) {
                Some(SVert { p: Vec2 { x: cx as isize, y: cy as isize }, z: cam_space(p, cam).2 as i64 })
            } else {
                None::<SVert>
            }
        }),
{
    let dz = cam_space(p, cam).2;
    lemma_axis_point_at_center(WIDTH as int / 2, cam.sc as int, cam.proj.z as int, cam.proj.x as int, dz);
    lemma_axis_point_at_center(HEIGHT as int / 2, cam.sc as int, cam.proj.z as int, cam.proj.y as int, dz);
}

} // verus!
