use zraster::{
    fill_triangle, floor_div, get_cube, interpolate, Camera, Canvas, Color, DrawError, Prim, Rotation, SVert, Tri,
    Vec2, Vec3, World, ZBuffer, CZ, FAR, HEIGHT, UNIT, WIDTH,
};

fn red() -> Color {
    Color::new(255, 0, 0, 255)
}

fn blue() -> Color {
    Color::new(0, 0, 255, 255)
}

fn white() -> Color {
    Color::new(255, 255, 255, 255)
}

#[test]
fn interpolate_zero_to_eight_in_four_steps() {
    assert_eq!(interpolate(0, 0, 4, 8), vec![0, 2, 4, 6, 8]);
}

#[test]
fn interpolate_single_step_is_start_value() {
    assert_eq!(interpolate(3, 7, 3, 100), vec![7]);
}

#[test]
fn interpolate_backwards_range_is_empty() {
    assert_eq!(interpolate(5, 1, 4, 2), Vec::<i64>::new());
}

#[test]
fn interpolate_rounds_down() {
    assert_eq!(interpolate(0, 0, 3, 1), vec![0, 0, 0, 1]);
    assert_eq!(interpolate(0, 0, 2, -1), vec![0, -1, -1]);
    assert_eq!(interpolate(-2, 10, 2, 2), vec![10, 8, 6, 4, 2]);
}

#[test]
fn floor_div_rounds_towards_negative_infinity() {
    assert_eq!(floor_div(7, 2), 3);
    assert_eq!(floor_div(-7, 2), -4);
    assert_eq!(floor_div(-8, 2), -4);
    assert_eq!(floor_div(0, 5), 0);
}

#[test]
fn fresh_buffer_is_white_at_far() {
    let buf = ZBuffer::new();
    assert_eq!(buf.b.len(), (WIDTH * HEIGHT) as usize);
    let cell = buf.get(0, 0);
    assert!(cell.c == white() && cell.z == FAR);
    let cell = buf.get(WIDTH as usize - 1, HEIGHT as usize - 1);
    assert!(cell.c == white() && cell.z == FAR);
}

#[test]
fn nearest_write_wins_in_either_order() {
    let mut buf = ZBuffer::new();
    buf.set(5, 7, CZ::new(red(), 20));
    buf.set(5, 7, CZ::new(blue(), 10));
    let cell = buf.get(5, 7);
    assert!(cell.c == blue() && cell.z == 10);

    let mut buf = ZBuffer::new();
    buf.set(5, 7, CZ::new(blue(), 10));
    buf.set(5, 7, CZ::new(red(), 20));
    let cell = buf.get(5, 7);
    assert!(cell.c == blue() && cell.z == 10);
}

#[test]
fn equal_depth_does_not_overwrite() {
    let mut buf = ZBuffer::new();
    buf.set(1, 1, CZ::new(red(), 10));
    buf.set(1, 1, CZ::new(blue(), 10));
    assert!(buf.get(1, 1).c == red());
}

#[test]
fn writes_off_the_grid_change_nothing() {
    let fresh = ZBuffer::new();
    let mut buf = ZBuffer::new();
    buf.set(-1, -1, CZ::new(red(), 0));
    buf.set(WIDTH as isize, 0, CZ::new(red(), 0));
    buf.set(0, HEIGHT as isize, CZ::new(red(), 0));
    assert!(buf.b == fresh.b);
}

#[test]
fn right_triangle_fills_exactly_its_region() {
    let mut buf = ZBuffer::new();
    let a = SVert::new(Vec2::new(0, 0), 5);
    let b = SVert::new(Vec2::new(10, 0), 5);
    let c = SVert::new(Vec2::new(0, 10), 5);
    fill_triangle(&mut buf, a, b, c, red());
    for y in 0..HEIGHT as usize {
        for x in 0..WIDTH as usize {
            let inside = x + y <= 10;
            let cell = buf.get(x, y);
            if inside {
                assert!(cell.c == red() && cell.z == 5, "pixel ({}, {}) should be filled", x, y);
            } else {
                assert!(cell.c == white() && cell.z == FAR, "pixel ({}, {}) should be blank", x, y);
            }
        }
    }
}

#[test]
fn vertex_order_does_not_change_the_fill() {
    let mut one = ZBuffer::new();
    let mut two = ZBuffer::new();
    let a = SVert::new(Vec2::new(3, 40), 9);
    let b = SVert::new(Vec2::new(60, 5), 9);
    let c = SVert::new(Vec2::new(30, 70), 9);
    fill_triangle(&mut one, a, b, c, red());
    fill_triangle(&mut two, c, a, b, red());
    assert!(one.b == two.b);
}

#[test]
fn fill_interpolates_depth_along_rows() {
    let mut buf = ZBuffer::new();
    let a = SVert::new(Vec2::new(0, 0), 0);
    let b = SVert::new(Vec2::new(10, 0), 100);
    let c = SVert::new(Vec2::new(0, 10), 0);
    fill_triangle(&mut buf, a, b, c, red());
    assert_eq!(buf.get(0, 0).z, 0);
    assert_eq!(buf.get(10, 0).z, 100);
    assert_eq!(buf.get(5, 0).z, 50);
    assert_eq!(buf.get(0, 5).z, 0);
}

#[test]
fn nearer_triangle_hides_farther_one_drawn_later() {
    let mut buf = ZBuffer::new();
    let near = [SVert::new(Vec2::new(0, 0), 10), SVert::new(Vec2::new(20, 0), 10), SVert::new(Vec2::new(0, 20), 10)];
    let far = [SVert::new(Vec2::new(0, 0), 30), SVert::new(Vec2::new(20, 0), 30), SVert::new(Vec2::new(0, 20), 30)];
    fill_triangle(&mut buf, near[0], near[1], near[2], red());
    fill_triangle(&mut buf, far[0], far[1], far[2], blue());
    assert!(buf.get(2, 2).c == red());
    assert_eq!(buf.get(2, 2).z, 10);
}

#[test]
fn triangle_partly_off_screen_is_clipped() {
    let mut buf = ZBuffer::new();
    let a = SVert::new(Vec2::new(-50, -50), 1);
    let b = SVert::new(Vec2::new(150, -50), 1);
    let c = SVert::new(Vec2::new(-50, 150), 1);
    fill_triangle(&mut buf, a, b, c, red());
    // on screen the triangle is x + y <= 100
    assert!(buf.get(0, 0).c == red());
    assert!(buf.get(100, 0).c == red());
    assert!(buf.get(101, 0).c == white());
    assert!(buf.get(0, 100).c == red());
    assert!(buf.get(0, 101).c == white());
    assert!(buf.get(50, 50).c == red());
    assert!(buf.get(51, 50).c == white());
}

fn axis_camera(focal: i32) -> Camera {
    Camera::new(Vec3::new(0, 0, 0), Rotation::identity(), Vec3::new(3, -2, focal), UNIT)
}

#[test]
fn point_on_optical_axis_lands_at_offset_center() {
    for focal in [50, 200, 1000] {
        let r = Vec3::new(0, 0, 100).project(&axis_camera(focal));
        assert!(r == Some(SVert::new(Vec2::new(203, 148), 100)));
    }
}

#[test]
fn point_on_camera_plane_does_not_project() {
    assert!(Vec3::new(5, 5, 0).project(&axis_camera(200)).is_none());
}

#[test]
fn unrotated_projection_is_pinhole() {
    let cam = Camera::new(Vec3::new(0, 0, 0), Rotation::identity(), Vec3::new(0, 0, 100), UNIT);
    let r = Vec3::new(10, 20, 100).project(&cam);
    assert!(r == Some(SVert::new(Vec2::new(210, 130), 100)));
}

#[test]
fn half_scale_halves_the_offset() {
    let cam = Camera::new(Vec3::new(0, 0, 0), Rotation::identity(), Vec3::new(0, 0, 100), UNIT / 2);
    let r = Vec3::new(10, 20, 100).project(&cam);
    assert!(r == Some(SVert::new(Vec2::new(205, 140), 100)));
}

#[test]
fn quarter_turn_yaw_brings_x_axis_to_center() {
    let rot = Rotation::new(0, UNIT, UNIT, 0, 0, UNIT);
    let cam = Camera::new(Vec3::new(0, 0, 0), rot, Vec3::new(0, 0, 100), UNIT);
    let r = Vec3::new(100, 0, 0).project(&cam);
    assert!(r == Some(SVert::new(Vec2::new(200, 150), 100)));
}

#[test]
fn identity_rotation_matches_translation_only_path() {
    let ident = Rotation::identity();
    assert!(ident.is_identity());
    let cam = Camera::new(Vec3::new(1, 2, -50), ident, Vec3::new(0, 0, 120), UNIT);
    let r = Vec3::new(-30, 40, 10).project(&cam);
    // dx = -31, dy = -38, dz = 60: 200 + 120 * -31 / 60 = 138, 150 + 120 * -38 / 60 = 74
    assert!(r == Some(SVert::new(Vec2::new(138, 74), 60)));
}

#[test]
fn camera_translate_moves_the_eye() {
    let mut cam = axis_camera(200);
    cam.translate_mut(1, -2, 3);
    assert!(cam.pos == Vec3::new(1, -2, 3));
}

#[test]
fn line_covers_start_but_not_end() {
    let cam = axis_camera(200);
    let mut canvas = Canvas::new(cam, ZBuffer::new());
    canvas.draw_line(Vec2::new(0, 0), Vec2::new(3, 0), CZ::new(red(), 1));
    assert!(canvas.zbuffer.get(0, 0).c == red());
    assert!(canvas.zbuffer.get(1, 0).c == red());
    assert!(canvas.zbuffer.get(2, 0).c == red());
    assert!(canvas.zbuffer.get(3, 0).c == white());
}

#[test]
fn steep_line_steps_along_rows() {
    let cam = axis_camera(200);
    let mut canvas = Canvas::new(cam, ZBuffer::new());
    canvas.draw_line(Vec2::new(2, 10), Vec2::new(2, 4), CZ::new(blue(), 1));
    for y in 5..=10 {
        assert!(canvas.zbuffer.get(2, y).c == blue());
    }
    assert!(canvas.zbuffer.get(2, 4).c == white());
}

#[test]
fn render_tri_projects_and_fills() {
    let cam = Camera::new(Vec3::new(0, 0, -100), Rotation::identity(), Vec3::new(0, 0, 100), UNIT);
    let mut canvas = Canvas::new(cam, ZBuffer::new());
    let t = Tri::new(Vec3::new(0, 0, 0), Vec3::new(10, 0, 0), Vec3::new(0, -10, 0));
    canvas.render_tri(&t, red());
    assert!(canvas.zbuffer.get(200, 150).c == red());
    assert!(canvas.zbuffer.get(205, 155).c == red());
    assert!(canvas.zbuffer.get(199, 150).c == white());
}

#[test]
fn render_tri_skips_vertex_on_camera_plane() {
    let cam = Camera::new(Vec3::new(0, 0, 0), Rotation::identity(), Vec3::new(0, 0, 100), UNIT);
    let mut canvas = Canvas::new(cam, ZBuffer::new());
    let t = Tri::new(Vec3::new(0, 0, 0), Vec3::new(10, 0, 10), Vec3::new(0, -10, 10));
    canvas.render_tri(&t, red());
    assert!(canvas.zbuffer.b == ZBuffer::new().b);
}

#[test]
fn render_prim_uses_each_triangle_color() {
    let cam = Camera::new(Vec3::new(0, 0, -100), Rotation::identity(), Vec3::new(0, 0, 100), UNIT);
    let mut canvas = Canvas::new(cam, ZBuffer::new());
    let mut t = Tri::new(Vec3::new(0, 0, 0), Vec3::new(10, 0, 0), Vec3::new(0, -10, 0));
    t.color = blue();
    canvas.render_prim(&Prim::new(vec![t]));
    assert!(canvas.zbuffer.get(201, 151).c == blue());
}

#[test]
fn cube_has_twelve_unit_triangles() {
    let cube = get_cube();
    assert_eq!(cube.tris.len(), 12);
    let first = cube.tris[0];
    assert!(first.a == Vec3::new(1, 0, 0) && first.b == Vec3::new(0, 0, 0) && first.c == Vec3::new(0, 0, 1));
    for (k, t) in cube.tris.iter().enumerate() {
        let vs = [t.a, t.b, t.c];
        for v in vs {
            assert!([v.x, v.y, v.z].iter().all(|c| *c == 0 || *c == 1));
        }
        assert!(vs[0] != vs[1] && vs[1] != vs[2] && vs[0] != vs[2]);
        // faces in order: y = 0, z = 0, x = 0, z = 1, x = 1, y = 1
        let on_face = match k / 2 {
            0 => vs.iter().all(|v| v.y == 0),
            1 => vs.iter().all(|v| v.z == 0),
            2 => vs.iter().all(|v| v.x == 0),
            3 => vs.iter().all(|v| v.z == 1),
            4 => vs.iter().all(|v| v.x == 1),
            _ => vs.iter().all(|v| v.y == 1),
        };
        assert!(on_face, "triangle {}", k);
        assert!(t.color == Color::new(0, 0, 0, 255));
    }
}

#[test]
fn translating_a_prim_moves_every_vertex() {
    let moved = get_cube().translate(1, 1, 0);
    assert_eq!(moved.tris.len(), 12);
    assert!(moved.tris[0].a == Vec3::new(2, 1, 0));
    assert!(moved.tris[11].c == Vec3::new(1, 2, 1));
    assert!(Vec3::new(1, 2, 3).translate(-1, 0, 4) == Vec3::new(0, 2, 7));
}

#[test]
fn draw_refuses_wrong_frame_length() {
    let world = World::new();
    let mut frame = vec![7u8; 10];
    assert_eq!(world.draw(&mut frame), Err(DrawError::SizeMismatch));
    assert_eq!(frame, vec![7u8; 10]);
    let mut frame = vec![7u8; (WIDTH * HEIGHT * 4) as usize + 4];
    assert_eq!(world.draw(&mut frame), Err(DrawError::SizeMismatch));
    assert!(frame.iter().all(|b| *b == 7));
}

#[test]
fn draw_fills_frame_row_major() {
    let mut world = World::new();
    world.update();
    let mut frame = vec![0u8; (WIDTH * HEIGHT * 4) as usize];
    assert_eq!(world.draw(&mut frame), Ok(()));
    // the unit triangle lands on pixels (200, 149) and (200, 150)
    for y in 0..HEIGHT as usize {
        for x in 0..WIDTH as usize {
            let i = (x + y * WIDTH as usize) * 4;
            let expected: [u8; 4] = if x == 200 && (y == 149 || y == 150) { [0, 0, 0, 255] } else { [255, 255, 255, 255] };
            assert_eq!(&frame[i..i + 4], &expected, "pixel ({}, {})", x, y);
        }
    }
}

#[test]
fn default_scene_is_unit_triangle() {
    let world = World::new();
    assert_eq!(world.tris.len(), 1);
    let t = world.tris[0];
    assert!(t.a == Vec3::new(0, 0, 0) && t.b == Vec3::new(1, 0, 0) && t.c == Vec3::new(1, 1, 0));
    assert!(t.color == Color::new(0, 0, 0, 255));
    assert!(world.cam.pos == Vec3::new(0, 0, -500));
    assert!(world.cam.rot == Rotation::identity());
    assert!(world.cam.proj == Vec3::new(0, 0, 200));
    assert_eq!(world.cam.sc, UNIT);
}

#[test]
fn fill_ignores_vertex_order_on_shared_rows() {
    let a = SVert::new(Vec2::new(0, 5), 1);
    let b = SVert::new(Vec2::new(10, 5), 1);
    let c = SVert::new(Vec2::new(20, 5), 1);
    let orders = [[a, b, c], [a, c, b], [b, a, c], [b, c, a], [c, a, b], [c, b, a]];
    let mut first = ZBuffer::new();
    fill_triangle(&mut first, a, b, c, red());
    for o in orders.iter() {
        let mut buf = ZBuffer::new();
        fill_triangle(&mut buf, o[0], o[1], o[2], red());
        assert!(buf.b == first.b);
    }
}

#[test]
fn render_tri_ignores_vertex_order() {
    let cam = Camera::new(Vec3::new(0, 0, -100), Rotation::identity(), Vec3::new(0, 0, 100), UNIT);
    let (p, q, r) = (Vec3::new(-20, 3, 0), Vec3::new(15, 3, 0), Vec3::new(1, -30, 5));
    let mut one = Canvas::new(cam, ZBuffer::new());
    one.render_tri(&Tri::new(p, q, r), red());
    let mut two = Canvas::new(cam, ZBuffer::new());
    two.render_tri(&Tri::new(q, r, p), red());
    let mut three = Canvas::new(cam, ZBuffer::new());
    three.render_tri(&Tri::new(r, q, p), red());
    assert!(one.zbuffer.b == two.zbuffer.b);
    assert!(one.zbuffer.b == three.zbuffer.b);
}
