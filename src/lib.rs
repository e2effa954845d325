//! A small software rasterizer over integer coordinates: it projects
//! triangles through a pinhole camera, scan-converts them into a
//! nearest-wins depth/color buffer and resolves that buffer into RGBA bytes.

mod arith;
pub mod geometry;
pub mod interp;
pub mod zbuffer;
pub mod raster;
pub mod camera;
mod line;
pub mod scene;

pub use arith::floor_div;
pub use geometry::{Vec2, Vec3, Color};
pub use interp::{interpolate, lerp_at};
pub use zbuffer::{ZBuffer, CZ, WIDTH, HEIGHT, FAR};
pub use raster::{SVert, fill_triangle};
pub use camera::{Camera, Rotation, UNIT};
pub use scene::{Tri, Prim, Canvas, World, DrawError, get_cube};
