use vstd::prelude::*;
use vstd::arithmetic::div_mod::lemma_fundamental_div_mod_converse;
use crate::camera::{Camera, Rotation, UNIT, project_spec};
use crate::geometry::{Color, Vec2, Vec3, fits_i32};
use crate::line::{walk_line, line_points, line_end_ok};
use crate::raster::{fill_cells, fill_triangle, sort3, lemma_index_split, lemma_sort3_order_free};
use crate::zbuffer::{ZBuffer, CZ, WIDTH, grid_len, blank_cells, write_cell};

verus! {

/// A triangle in world space with its flat color.
#[derive(Clone, Copy)]
pub struct Tri {
    pub a: Vec3,
    pub b: Vec3,
    pub c: Vec3,
    pub color: Color,
}

pub open spec fn shift_fits(v: Vec3, x: int, y: int, z: int) -> bool {
    fits_i32(v.x + x) && fits_i32(v.y + y) && fits_i32(v.z + z)
}

impl Tri {
    /// A triangle in opaque black.
    pub fn new(a: Vec3, b: Vec3, c: Vec3) -> (r: Self)
        ensures
            r.a == a,
            r.b == b,
            r.c == c,
            r.color == (Color { r: 0, g: 0, b: 0, a: 255 }),
    {
        Self { a, b, c, color: Color::new(0, 0, 0, 255) }
    }

    pub open spec fn can_shift(self, x: int, y: int, z: int) -> bool {
        shift_fits(self.a, x, y, z) && shift_fits(self.b, x, y, z) && shift_fits(self.c, x, y, z)
    }

    pub open spec fn shifted(self, x: int, y: int, z: int) -> Tri {
        Tri {
            a: self.a.translate_spec(x, y, z),
            b: self.b.translate_spec(x, y, z),
            c: self.c.translate_spec(x, y, z),
            color: self.color,
        }
    }

    /// The triangle moved by `(x, y, z)`, color kept.
    pub fn translate(&self, x: i32, y: i32, z: i32) -> (r: Self)
        requires
            self.can_shift(x as int, y as int, z as int),
        ensures
            r == self.shifted(x as int, y as int, z as int),
    {
        Self { a: self.a.translate(x, y, z), b: self.b.translate(x, y, z), c: self.c.translate(x, y, z), color: self.color }
    }
}

/// A group of triangles that make up one shape.
pub struct Prim {
    pub tris: Vec<Tri>,
}

impl Prim {
    pub fn new(tris: Vec<Tri>) -> (r: Self)
        ensures
            r.tris@ == tris@,
    {
        Self { tris }
    }

    /// Every triangle moved by `(x, y, z)`, in the same order.
    pub fn translate(&self, x: i32, y: i32, z: i32) -> (r: Self)
        requires
            forall|k: int| 0 <= k < self.tris@.len() ==> #[trigger] self.tris@[k].can_shift(x as int, y as int, z as int),
        ensures
            r.tris@.len() == self.tris@.len(),
            forall|k: int| 0 <= k < r.tris@.len() ==> #[trigger] r.tris@[k] == self.tris@[k].shifted(x as int, y as int, z as int),
    {
        let mut out: Vec<Tri> = Vec::new();
        let mut i: usize = 0;
        while i < self.tris.len()
            invariant
                i <= self.tris@.len(),
                out@.len() == i,
                forall|k: int| 0 <= k < self.tris@.len() ==> #[trigger] self.tris@[k].can_shift(x as int, y as int, z as int),
                forall|k: int| 0 <= k < i ==> #[trigger] out@[k] == self.tris@[k].shifted(x as int, y as int, z as int),
            decreases self.tris@.len() - i,
        {
            out.push(self.tris[i].translate(x, y, z));
            i = i + 1;
        }
        Prim::new(out)
    }
}

pub open spec fn v3(x: i32, y: i32, z: i32) -> Vec3 {
    Vec3 { x, y, z }
}

/// A triangle in opaque black.
pub open spec fn black_tri(a: Vec3, b: Vec3, c: Vec3) -> Tri {
    Tri { a, b, c, color: Color { r: 0, g: 0, b: 0, a: 255 } }
}

/// The unit cube `[0, 1]^3` as twelve black triangles, two per face, each
/// pair meeting along a diagonal of its face: bottom (y = 0), front (z = 0),
/// left (x = 0), back (z = 1), right (x = 1), top (y = 1), in that order.
pub open spec fn cube_tris() -> Seq<Tri> {
    seq![
        black_tri(v3(1, 0, 0), v3(0, 0, 0), v3(0, 0, 1)),
        black_tri(v3(1, 0, 0), v3(1, 0, 1), v3(0, 0, 1)),
        black_tri(v3(0, 0, 0), v3(0, 1, 0), v3(1, 1, 0)),
        black_tri(v3(0, 0, 0), v3(1, 0, 0), v3(1, 1, 0)),
        black_tri(v3(0, 1, 0), v3(0, 0, 0), v3(0, 0, 1)),
        black_tri(v3(0, 1, 0), v3(0, 1, 1), v3(0, 0, 1)),
        black_tri(v3(1, 0, 1), v3(0, 0, 1), v3(0, 1, 1)),
        black_tri(v3(1, 0, 1), v3(1, 1, 1), v3(0, 1, 1)),
        black_tri(v3(1, 0, 0), v3(1, 0, 1), v3(1, 1, 1)),
        black_tri(v3(1, 0, 0), v3(1, 1, 0), v3(1, 1, 1)),
        black_tri(v3(1, 1, 0), v3(0, 1, 0), v3(0, 1, 1)),
        black_tri(v3(1, 1, 0), v3(1, 1, 1), v3(0, 1, 1)),
    ]
}

fn cube_tri(a: (i32, i32, i32), b: (i32, i32, i32), c: (i32, i32, i32)) -> (r: Tri)
    ensures
        r == black_tri(v3(a.0, a.1, a.2), v3(b.0, b.1, b.2), v3(c.0, c.1, c.2)),
{
    Tri::new(Vec3::new(a.0, a.1, a.2), Vec3::new(b.0, b.1, b.2), Vec3::new(c.0, c.1, c.2))
}

/// The unit cube, triangle by triangle.
pub fn get_cube() -> (r: Prim)
    ensures
        r.tris@ == cube_tris(),
{
    let tris = vec![
        // bottom
        cube_tri((1, 0, 0), (0, 0, 0), (0, 0, 1)),
        cube_tri((1, 0, 0), (1, 0, 1), (0, 0, 1)),
        // front
        cube_tri((0, 0, 0), (0, 1, 0), (1, 1, 0)),
        cube_tri((0, 0, 0), (1, 0, 0), (1, 1, 0)),
        // left
        cube_tri((0, 1, 0), (0, 0, 0), (0, 0, 1)),
        cube_tri((0, 1, 0), (0, 1, 1), (0, 0, 1)),
        // back
        cube_tri((1, 0, 1), (0, 0, 1), (0, 1, 1)),
        cube_tri((1, 0, 1), (1, 1, 1), (0, 1, 1)),
        // right
        cube_tri((1, 0, 0), (1, 0, 1), (1, 1, 1)),
        cube_tri((1, 0, 0), (1, 1, 0), (1, 1, 1)),
        // top
        cube_tri((1, 1, 0), (0, 1, 0), (0, 1, 1)),
        cube_tri((1, 1, 0), (1, 1, 1), (0, 1, 1)),
    ];
    assert(tris@ =~= cube_tris());
    Prim { tris }
}

/// The cells after rendering `t` in color `col` through `cam`: the filled
/// triangle when all three vertices project, the cells unchanged otherwise.
pub open spec fn render_tri_cells(cells: Seq<CZ>, t: Tri, col: Color, cam: Camera) -> Seq<CZ> {
    match (project_spec(t.a, cam), project_spec(t.b, cam), project_spec(t.c, cam)) {
        (Some(a), Some(b), Some(c)) => fill_cells(cells, sort3(a, b, c), col),
        _ => cells,
    }
}

/// The order in which a triangle's vertices are given does not change what
/// rendering it draws.
pub proof fn lemma_vertex_order_irrelevant(cells: Seq<CZ>, t: Tri, col: Color, cam: Camera)
    ensures
        render_tri_cells(cells, Tri { a: t.a, b: t.c, c: t.b, color: t.color }, col, cam) == render_tri_cells(cells, t, col, cam),
        render_tri_cells(cells, Tri { a: t.b, b: t.a, c: t.c, color: t.color }, col, cam) == render_tri_cells(cells, t, col, cam),
        render_tri_cells(cells, Tri { a: t.b, b: t.c, c: t.a, color: t.color }, col, cam) == render_tri_cells(cells, t, col, cam),
        render_tri_cells(cells, Tri { a: t.c, b: t.a, c: t.b, color: t.color }, col, cam) == render_tri_cells(cells, t, col, cam),
        render_tri_cells(cells, Tri { a: t.c, b: t.b, c: t.a, color: t.color }, col, cam) == render_tri_cells(cells, t, col, cam),
{
    match (project_spec(t.a, cam), project_spec(t.b, cam), project_spec(t.c, cam)) {
        (Some(a), Some(b), Some(c)) => {
            lemma_sort3_order_free(a, b, c);
        },
        _ => {},
    }
}

/// The cells after rendering each triangle of `tris` in its own color, in
/// order.
pub open spec fn render_all(cells: Seq<CZ>, tris: Seq<Tri>, cam: Camera) -> Seq<CZ>
    decreases tris.len(),
{
    if tris.len() == 0 {
        cells
    } else {
        render_tri_cells(render_all(cells, tris.drop_last(), cam), tris.last(), tris.last().color, cam)
    }
}

/// The cells after writing `cz` at each pixel of `pts`, in order.
pub open spec fn write_points(cells: Seq<CZ>, pts: Seq<(isize, isize)>, cz: CZ) -> Seq<CZ>
    decreases pts.len(),
{
    if pts.len() == 0 {
        cells
    } else {
        let p = pts.last();
        write_cell(write_points(cells, pts.drop_last(), cz), p.0 as int, p.1 as int, cz)
    }
}

/// A depth buffer being drawn into through one camera.
pub struct Canvas {
    pub cam: Camera,
    pub zbuffer: ZBuffer,
}

impl Canvas {
    pub open spec fn wf(&self) -> bool {
        self.cam.wf() && self.zbuffer.wf()
    }

    pub fn new(cam: Camera, zbuffer: ZBuffer) -> (r: Self)
        ensures
            r.cam == cam,
            r.zbuffer == zbuffer,
    {
        Self { cam, zbuffer }
    }

    /// Writes `cz` at every pixel of the stepped line from `a` up to, not
    /// including, `b`.
    pub fn draw_line(&mut self, a: Vec2, b: Vec2, cz: CZ)
        requires
            old(self).wf(),
            line_end_ok(a),
            line_end_ok(b),
        ensures
            final(self).wf(),
            final(self).cam == old(self).cam,
            final(self).zbuffer.view() == write_points(
                old(self).zbuffer.view(),
                line_points(a.x as int, a.y as int, b.x as int, b.y as int),
                cz,
            ),
    {
        let pts = walk_line(a, b);
        let ghost cells0 = self.zbuffer.view();
        let mut i: usize = 0;
        while i < pts.len()
            invariant
                self.wf(),
                self.cam == old(self).cam,
                cells0 == old(self).zbuffer.view(),
                i <= pts@.len(),
                self.zbuffer.view() == write_points(cells0, pts@.subrange(0, i as int), cz),
            decreases pts@.len() - i,
        {
            let (x, y) = pts[i];
            self.zbuffer.set(x, y, cz);
            assert(pts@.subrange(0, i + 1).drop_last() =~= pts@.subrange(0, i as int));
            i = i + 1;
        }
        assert(pts@.subrange(0, pts@.len() as int) =~= pts@);
    }

    /// Projects `t` through the camera and fills it in color `col`; a
    /// triangle with a vertex that does not project is skipped.
    pub fn render_tri(&mut self, t: &Tri, col: Color)
        requires
            old(self).wf(),
        ensures
            final(self).wf(),
            final(self).cam == old(self).cam,
            final(self).zbuffer.view() == render_tri_cells(old(self).zbuffer.view(), *t, col, old(self).cam),
    {
        let pa = t.a.project(&self.cam);
        let pb = t.b.project(&self.cam);
        let pc = t.c.project(&self.cam);
        match (pa, pb, pc) {
            (Some(a), Some(b), Some(c)) => {
                fill_triangle(&mut self.zbuffer, a, b, c, col);
            },
            _ => {},
        }
    }

    /// Renders every triangle of `p` in its own color, in order.
    pub fn render_prim(&mut self, p: &Prim)
        requires
            old(self).wf(),
        ensures
            final(self).wf(),
            final(self).cam == old(self).cam,
            final(self).zbuffer.view() == render_all(old(self).zbuffer.view(), p.tris@, old(self).cam),
    {
        let ghost cells0 = self.zbuffer.view();
        let mut i: usize = 0;
        while i < p.tris.len()
            invariant
                self.wf(),
                self.cam == old(self).cam,
                cells0 == old(self).zbuffer.view(),
                i <= p.tris@.len(),
                self.zbuffer.view() == render_all(cells0, p.tris@.subrange(0, i as int), self.cam),
            decreases p.tris@.len() - i,
        {
            let t = &p.tris[i];
            self.render_tri(t, t.color);
            assert(p.tris@.subrange(0, i + 1).drop_last() =~= p.tris@.subrange(0, i as int));
            i = i + 1;
        }
        assert(p.tris@.subrange(0, p.tris@.len() as int) =~= p.tris@);
    }
}

/// Why a frame could not be drawn.
#[derive(Clone, Copy, Debug, PartialEq, Eq, Structural)]
pub enum DrawError {
    /// The output does not hold exactly four bytes per pixel.
    SizeMismatch,
}

/// Bytes in a frame: four per pixel.
pub open spec fn frame_len() -> int {
    4 * grid_len()
}

/// The frame bytes of `cells`: row-major, R, G, B, A per pixel.
pub open spec fn resolve(cells: Seq<CZ>) -> Seq<u8> {
    Seq::new((4 * cells.len()) as nat, |j: int| cells[j / 4].c.bytes()[j % 4])
}

/// The scene: a mesh and the camera it is seen through.
pub struct World {
    pub tris: Vec<Tri>,
    pub cam: Camera,
}

impl World {
    pub open spec fn wf(&self) -> bool {
        self.cam.wf()
    }

    /// What one frame of this scene shows, cell by cell.
    pub open spec fn frame_cells(&self) -> Seq<CZ> {
        render_all(blank_cells(), self.tris@, self.cam)
    }

    /// The starting scene: the black triangle (0, 0, 0), (1, 0, 0),
    /// (1, 1, 0), seen unrotated from 500 units in front, with focal
    /// distance 200, no principal-point offset and scale one.
    pub fn new() -> (r: Self)
        ensures
            r.wf(),
            r.tris@ == seq![black_tri(v3(0, 0, 0), v3(1, 0, 0), v3(1, 1, 0))],
            r.cam.pos == v3(0, 0, -500i32),
            r.cam.rot == (Rotation { sin_x: 0, cos_x: UNIT, sin_y: 0, cos_y: UNIT, sin_z: 0, cos_z: UNIT }),
            r.cam.proj == v3(0, 0, 200),
            r.cam.sc == UNIT,
    {
        let tris = vec![Tri::new(Vec3::new(0, 0, 0), Vec3::new(1, 0, 0), Vec3::new(1, 1, 0))];
        assert(tris@ =~= seq![black_tri(v3(0, 0, 0), v3(1, 0, 0), v3(1, 1, 0))]);
        Self {
            tris,
            cam: Camera::new(Vec3::new(0, 0, -500), Rotation::identity(), Vec3::new(0, 0, 200), UNIT),
        }
    }

    /// Advances the scene by one tick; the scene holds still.
    pub fn update(&mut self)
        ensures
            final(self).tris@ == old(self).tris@,
            final(self).cam == old(self).cam,
    {
    }

    /// Renders the mesh into a fresh depth buffer and copies its colors into
    /// `frame`, four bytes per pixel in row-major order. A `frame` of any
    /// other length than `4 * WIDTH * HEIGHT` is refused untouched.
    pub fn draw(&self, frame: &mut Vec<u8>) -> (r: Result<(), DrawError>)
        requires
            self.wf(),
        ensures
            r is Err <==> old(frame)@.len() != frame_len(),
            r is Err ==> r == Err::<(), DrawError>(DrawError::SizeMismatch) && final(frame)@ == old(frame)@,
            r is Ok ==> final(frame)@ == resolve(self.frame_cells()),
    {
        let n: usize = 120000;
        assert(n == grid_len());
        if frame.len() != 4 * n {
            return Err(DrawError::SizeMismatch);
        }
        let mut canvas = Canvas::new(self.cam, ZBuffer::new());
        let mut i: usize = 0;
        while i < self.tris.len()
            invariant
                canvas.wf(),
                canvas.cam == self.cam,
                i <= self.tris@.len(),
                canvas.zbuffer.view() == render_all(blank_cells(), self.tris@.subrange(0, i as int), self.cam),
            decreases self.tris@.len() - i,
        {
            let t = &self.tris[i];
            canvas.render_tri(t, t.color);
            assert(self.tris@.subrange(0, i + 1).drop_last() =~= self.tris@.subrange(0, i as int));
            i = i + 1;
        }
        assert(self.tris@.subrange(0, self.tris@.len() as int) =~= self.tris@);
        let ghost cells = canvas.zbuffer.view();
        assert(cells == self.frame_cells());
        let mut k: usize = 0;
        while k < n
            invariant
                n == grid_len(),
                canvas.zbuffer.wf(),
                cells == canvas.zbuffer.view(),
                frame@.len() == 4 * n,
                k <= n,
                forall|j: int| 0 <= j < 4 * k ==> #[trigger] frame@[j] == cells[j / 4].c.bytes()[j % 4],
            decreases n - k,
        {
            let x: usize = k % (WIDTH as usize);
            let y: usize = k / (WIDTH as usize);
            proof {
                lemma_index_split(k as int);
            }
            let cz = canvas.zbuffer.get(x, y);
            assert(cz == cells[k as int]);
            frame.set(4 * k, cz.c.r);
            frame.set(4 * k + 1, cz.c.g);
            frame.set(4 * k + 2, cz.c.b);
            frame.set(4 * k + 3, cz.c.a);
            assert forall|j: int| 0 <= j < 4 * (k + 1) implies #[trigger] frame@[j] == cells[j / 4].c.bytes()[j % 4] by {
                if j >= 4 * k {
                    lemma_fundamental_div_mod_converse(j, 4, k as int, j - 4 * k);
                }
            };
            k = k + 1;
        }
        assert(frame@ =~= resolve(cells));
        Ok(())
    }
}

} // verus!
