use tinyrenderer::{
    new_depth_buffer, parse_line, parse_obj, to_texel_space, triangle, Bary, ColorSpace,
    FaceIndex, FlatShader, GouraudShader, Grayscale, Image, ObjError, ObjLine, Shader,
    Transform, Vec3, FAR_DEPTH, FIXED_ONE, RGB,
};

fn v(x: i64, y: i64, z: i64) -> Vec3 {
    Vec3 { x, y, z }
}

const S: i64 = 1_000_000_000_000;

fn px(x: i64, y: i64, z: i64) -> Vec3 {
    v(x * S, y * S, z)
}

fn unit_z_light() -> Vec3 {
    v(0, 0, FIXED_ONE)
}

fn identity_pixels() -> Transform {
    // one model unit (FIXED_ONE) maps to one pixel
    Transform::from_matrix([
        [1_000_000, 0, 0, 0],
        [0, 1_000_000, 0, 0],
        [0, 0, 1_000_000, 0],
    ])
    .unwrap()
}

#[test]
fn parses_numbers_as_fixed_point() {
    assert_eq!(parse_line(b"v 1 -2.5 0.125"), ObjLine::Position(v(1_000_000, -2_500_000, 125_000)));
    assert_eq!(parse_line(b"vt 0.1234567 +3. .5"), ObjLine::TexCoord(v(123_456, 3_000_000, 500_000)));
    assert_eq!(parse_line(b"vn  0 0\t1\r"), ObjLine::Normal(v(0, 0, 1_000_000)));
    assert_eq!(
        parse_line(b"f 1/2/3 4/5/6 7/8/9"),
        ObjLine::Face(
            FaceIndex { v: 1, t: 2, n: 3 },
            FaceIndex { v: 4, t: 5, n: 6 },
            FaceIndex { v: 7, t: 8, n: 9 }
        )
    );
}

#[test]
fn malformed_lines_are_skipped() {
    assert_eq!(parse_line(b"v 1 2"), ObjLine::Skip);
    assert_eq!(parse_line(b"v 1 2 x"), ObjLine::Skip);
    assert_eq!(parse_line(b"v 1,2 3 4"), ObjLine::Skip);
    assert_eq!(parse_line(b"f 1/2 3/4 5/6"), ObjLine::Skip);
    assert_eq!(parse_line(b"# a comment"), ObjLine::Skip);
    assert_eq!(parse_line(b"vp 1 2 3"), ObjLine::Skip);
    assert_eq!(parse_line(b""), ObjLine::Skip);
    let text = b"v 0 0 0\nv 1 0 0\nv nope\nv 0 1 0\nvt 0 0 0\nvn 0 0 1\nf 1/1/1 2/1/1 3/1/1\n";
    let faces = parse_obj(text).unwrap();
    assert_eq!(faces.len(), 1);
    assert_eq!(faces[0].vertices[2], v(0, 1_000_000, 0));
}

#[test]
fn face_slots_take_declared_values() {
    let text = b"v 1 2 3\nv 4 5 6\nv 7 8 9\nvt 0.1 0.2 0\nvt 0.3 0.4 0\nvn 0 0 1\nvn 0 1 0\n\
f 3/2/1 1/1/2 2/2/2\nf 1/1/1 2/2/2 3/1/1";
    let faces = parse_obj(text).unwrap();
    assert_eq!(faces.len(), 2);
    let f = faces[0];
    assert_eq!(f.vertices, [v(7_000_000, 8_000_000, 9_000_000), v(1_000_000, 2_000_000, 3_000_000), v(4_000_000, 5_000_000, 6_000_000)]);
    assert_eq!(f.texture_vertices, [v(300_000, 400_000, 0), v(100_000, 200_000, 0), v(300_000, 400_000, 0)]);
    assert_eq!(f.normals, [v(0, 0, 1_000_000), v(0, 1_000_000, 0), v(0, 1_000_000, 0)]);
    assert_eq!(faces[1].vertices[0], v(1_000_000, 2_000_000, 3_000_000));
}

#[test]
fn face_index_zero_is_rejected() {
    let text = b"v 0 0 0\nv 1 0 0\nv 0 1 0\nvt 0 0 0\nvn 0 0 1\nf 0/1/1 2/1/1 3/1/1\n";
    assert_eq!(parse_obj(text), Err(ObjError::IndexOutOfRange));
}

#[test]
fn face_index_past_declared_is_rejected() {
    let text = b"v 0 0 0\nv 1 0 0\nvt 0 0 0\nvn 0 0 1\nf 1/1/1 2/1/1 3/1/1\nv 0 1 0\n";
    assert_eq!(parse_obj(text), Err(ObjError::IndexOutOfRange));
    let text = b"v 0 0 0\nv 1 0 0\nv 0 1 0\nvt 0 0 0\nvn 0 0 1\nf 1/1/1 2/2/1 3/1/1";
    assert_eq!(parse_obj(text), Err(ObjError::IndexOutOfRange));
}

#[test]
fn empty_text_has_no_faces() {
    assert_eq!(parse_obj(b"").unwrap().len(), 0);
}

#[test]
fn shade_ends_and_clamping() {
    let base = RGB::new(200, 100, 51);
    let mut c = base;
    c.shade(0);
    assert_eq!(c, RGB::new(0, 0, 0));
    let mut c = base;
    c.shade(FIXED_ONE);
    assert_eq!(c, base);
    let mut c = base;
    c.shade(-7);
    assert_eq!(c, RGB::new(0, 0, 0));
    let mut c = base;
    c.shade(3 * FIXED_ONE);
    assert_eq!(c, base);
    let mut c = base;
    c.shade(FIXED_ONE / 2);
    assert_eq!(c, RGB::new(100, 50, 25));
    let mut g = Grayscale::new(9);
    g.shade(FIXED_ONE / 3);
    assert_eq!(g, Grayscale::new(2));
    let mut g = Grayscale::new(9);
    g.shade(0);
    assert_eq!(g, Grayscale::new(0));
}

fn flat_shader(color: RGB) -> FlatShader<RGB> {
    let mut s = FlatShader::new(color, identity_pixels());
    s.varying_intensity = [FIXED_ONE, FIXED_ONE, FIXED_ONE];
    s
}

#[test]
fn right_triangle_fills_pixels_with_nonnegative_weights() {
    let (w, h) = (8usize, 6usize);
    let mut img = Image::new(w, h, RGB::new(0, 0, 0));
    let mut z = new_depth_buffer(w, h);
    let s = flat_shader(RGB::new(255, 0, 0));
    let pts = [px(0, 0, 0), px(w as i64, 0, 0), px(0, h as i64, 0)];
    triangle(&mut img, &s, pts, &mut z);
    let mut filled = 0;
    for y in 0..h {
        for x in 0..w {
            let inside = (h * x + w * y) <= w * h;
            let p = img.data[y * w + x];
            assert_eq!(p == RGB::new(255, 0, 0), inside, "pixel {x},{y}");
            if inside {
                filled += 1;
                assert_eq!(z[y * w + x], 0);
            } else {
                assert_eq!(z[y * w + x], FAR_DEPTH);
            }
        }
    }
    assert_eq!(filled, 31);
}

#[test]
fn collinear_triangle_fills_nothing() {
    let mut img = Image::new(10, 10, RGB::new(1, 2, 3));
    let mut z = new_depth_buffer(10, 10);
    let s = flat_shader(RGB::new(255, 0, 0));
    triangle(&mut img, &s, [px(0, 0, 0), px(4, 4, 0), px(9, 9, 0)], &mut z);
    assert!(img.data.iter().all(|p| *p == RGB::new(1, 2, 3)));
    assert!(z.iter().all(|d| *d == FAR_DEPTH));
}

#[test]
fn nearer_triangle_wins_in_either_order() {
    let red = flat_shader(RGB::new(255, 0, 0));
    let blue = flat_shader(RGB::new(0, 0, 255));
    let near = [px(0, 0, 10), px(10, 0, 10), px(0, 10, 10)];
    let far = [px(0, 0, 5), px(10, 0, 5), px(0, 10, 5)];
    for order in 0..2 {
        let mut img = Image::new(10, 10, RGB::new(0, 0, 0));
        let mut z = new_depth_buffer(10, 10);
        if order == 0 {
            triangle(&mut img, &red, near, &mut z);
            triangle(&mut img, &blue, far, &mut z);
        } else {
            triangle(&mut img, &blue, far, &mut z);
            triangle(&mut img, &red, near, &mut z);
        }
        assert_eq!(img.get(2, 2), RGB::new(255, 0, 0));
        assert_eq!(z[2 * 10 + 2], 10);
    }
}

#[test]
fn equal_depth_keeps_first_drawn() {
    let red = flat_shader(RGB::new(255, 0, 0));
    let blue = flat_shader(RGB::new(0, 0, 255));
    let t = [px(0, 0, 7), px(10, 0, 7), px(0, 10, 7)];
    let mut img = Image::new(10, 10, RGB::new(0, 0, 0));
    let mut z = new_depth_buffer(10, 10);
    triangle(&mut img, &red, t, &mut z);
    triangle(&mut img, &blue, t, &mut z);
    assert_eq!(img.get(1, 1), RGB::new(255, 0, 0));
}

#[test]
fn fragment_interpolates_intensity() {
    let mut s = FlatShader::new(RGB::new(100, 100, 100), identity_pixels());
    s.varying_intensity = [FIXED_ONE, 0, 0];
    let mut c = RGB::new(0, 0, 0);
    let discard = s.fragment(Bary { a: 1, b: 1, c: 2 }, &mut c);
    assert!(!discard);
    assert_eq!(c, RGB::new(25, 25, 25));
}

#[test]
fn textured_unit_square_end_to_end() {
    let text = b"v 0 0 0\nv 1 0 0\nv 1 1 0\nv 0 1 0\nvt 0 0 0\nvt 1 0 0\nvt 1 1 0\nvt 0 1 0\n\
vn 0 0 1\nf 1/1/1 2/2/1 3/3/1\nf 1/1/1 3/3/1 4/4/1\n";
    let faces = parse_obj(text).unwrap();
    assert_eq!(faces.len(), 2);
    let solid = RGB::new(10, 200, 30);
    let texture = Image::new(4, 4, solid);
    let transform = Transform::from_matrix([
        [99_000_000, 0, 0, 100_000_000],
        [0, 99_000_000, 0, 100_000_000],
        [0, 0, 1_000_000, 0],
    ])
    .unwrap();
    let background = RGB::new(0, 0, 0);
    let (w, h) = (300usize, 300usize);
    let mut img = Image::new(w, h, background);
    let mut z = new_depth_buffer(w, h);
    let mut shader = GouraudShader::new(texture, transform);
    for face in faces {
        let face = to_texel_space(face, 4, 4);
        let pts = shader.vertex(face, unit_z_light());
        triangle(&mut img, &shader, pts, &mut z);
    }
    for y in 0..h {
        for x in 0..w {
            let inside = (100..200).contains(&x) && (100..200).contains(&y);
            let expected = if inside { solid } else { background };
            assert_eq!(img.get(x, y), expected, "pixel {x},{y}");
        }
    }
}

#[test]
fn texel_space_maps_corners() {
    let face = tinyrenderer::ObjFace {
        vertices: [v(0, 0, 0); 3],
        texture_vertices: [v(0, 0, 0), v(FIXED_ONE, FIXED_ONE, 0), v(FIXED_ONE / 2, FIXED_ONE / 4, 0)],
        normals: [v(0, 0, 1); 3],
    };
    let r = to_texel_space(face, 1024, 512);
    assert_eq!(r.texture_vertices, [v(0, 512, 0), v(1024, 0, 0), v(512, 384, 0)]);
}

#[test]
fn variants_project_identically() {
    let face = tinyrenderer::ObjFace {
        vertices: [v(-500_000, 250_000, 100_000), v(750_000, -1_000_000, 0), v(0, 999_999, -300_000)],
        texture_vertices: [v(1, 2, 0), v(3, 4, 0), v(5, 6, 0)],
        normals: [v(0, 0, FIXED_ONE), v(FIXED_ONE, 0, 0), v(0, FIXED_ONE, 0)],
    };
    let t = Transform::viewport(800, 600);
    let light = v(-577_350, -577_350, 577_350);
    let mut a = FlatShader::new(RGB::new(1, 1, 1), t);
    let mut b = GouraudShader::new(Image::new(2, 2, RGB::new(0, 0, 0)), t);
    let pa = a.vertex(face, light);
    let pb = Shader::<RGB>::vertex(&mut b, face, light);
    assert_eq!(pa, pb);
    assert_eq!(pa[0], v(150 * S, 300 * S, 100_000));
    assert_eq!(a.varying_intensity, [577_350, 0, 0]);
}

#[test]
fn viewport_entries() {
    let t = Transform::viewport(1024, 768);
    assert_eq!(
        t.combined(),
        [[384_000_000, 0, 0, 384_000_000], [0, -512_000_000, 0, 512_000_000], [0, 0, 1_000_000, 0]]
    );
    let p = t.transform_point(v(1_000_000, 1_000_000, 5));
    assert_eq!(p, v(768 * S, 0, 5));
}

#[test]
fn from_matrix_rejects_large_entries() {
    assert!(Transform::from_matrix([[1 << 41, 0, 0, 0], [0; 4], [0; 4]]).is_none());
}

#[test]
fn collinear_face_projects_flat_and_draws_nothing() {
    let face = tinyrenderer::ObjFace {
        vertices: [v(0, 0, 0), v(100_000, 100_000, 100_000), v(200_000, 200_000, 200_000)],
        texture_vertices: [v(0, 0, 0); 3],
        normals: [v(0, 0, FIXED_ONE); 3],
    };
    let mut s = FlatShader::new(RGB::new(255, 255, 255), Transform::viewport(10, 10));
    let pts = s.vertex(face, unit_z_light());
    let area = (pts[1].x as i128 - pts[0].x as i128) * (pts[2].y as i128 - pts[0].y as i128)
        - (pts[1].y as i128 - pts[0].y as i128) * (pts[2].x as i128 - pts[0].x as i128);
    assert_eq!(area, 0);
    let mut img = Image::new(10, 10, RGB::new(0, 0, 0));
    let mut z = new_depth_buffer(10, 10);
    triangle(&mut img, &s, pts, &mut z);
    assert!(img.data.iter().all(|p| *p == RGB::new(0, 0, 0)));
    assert!(z.iter().all(|d| *d == FAR_DEPTH));
}

#[test]
fn composed_transform_multiplies_matrices() {
    let scale = Transform::from_matrix([
        [2_000_000, 0, 0, 0],
        [0, 3_000_000, 0, 0],
        [0, 0, 1_000_000, 500_000],
    ])
    .unwrap();
    let view = Transform::viewport(100, 200);
    let both = scale.then(&view).unwrap();
    assert_eq!(
        both.combined(),
        [[200_000_000, 0, 0, 100_000_000], [0, -150_000_000, 0, 50_000_000], [0, 0, 1_000_000, 500_000]]
    );
    let p = v(250_000, -500_000, 1_000_000);
    // scaled to (0.5, -1.5, 1.5), then onto the 200 × 100 screen
    assert_eq!(both.transform_point(p), v(150 * S, 125 * S, 1_500_000));
}

#[test]
fn parses_exponents() {
    assert_eq!(parse_line(b"v 1e-05 2.5E+02 -3e1"), ObjLine::Position(v(10, 250_000_000, -30_000_000)));
    assert_eq!(parse_line(b"vn 1.5e0 0 7E-7"), ObjLine::Normal(v(1_500_000, 0, 0)));
    assert_eq!(parse_line(b"v 1e 2 3"), ObjLine::Skip);
    assert_eq!(parse_line(b"v 1e123 2 3"), ObjLine::Skip);
    assert_eq!(parse_line(b"v 1e13 2 3"), ObjLine::Skip);
    assert_eq!(parse_line(b"v 1e12 2 3"), ObjLine::Position(v(1_000_000_000_000_000_000, 2_000_000, 3_000_000)));
}
