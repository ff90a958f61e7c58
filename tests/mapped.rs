use tinyrenderer::{
    Bary, Grayscale, Image, NormalMappedShader, NormalSpecularShader, ObjFace, Shader, Transform,
    Vec3, FIXED_ONE, RGB,
};

fn v(x: i64, y: i64, z: i64) -> Vec3 {
    Vec3 { x, y, z }
}

fn face() -> ObjFace {
    ObjFace {
        vertices: [v(0, 0, 0), v(FIXED_ONE, 0, 0), v(0, FIXED_ONE, 0)],
        texture_vertices: [v(0, 0, 0), v(1, 0, 0), v(0, 1, 0)],
        normals: [v(0, 0, FIXED_ONE); 3],
    }
}

fn shade_with_normal_map(normal: RGB) -> RGB {
    let mut s = NormalMappedShader::new(
        Image::new(2, 2, RGB::new(100, 100, 100)),
        Image::new(2, 2, normal),
        Transform::viewport(10, 10),
    );
    Shader::<RGB>::vertex(&mut s, face(), v(0, 0, FIXED_ONE));
    let mut c = RGB::new(0, 0, 0);
    assert!(!s.fragment(Bary { a: 1, b: 1, c: 1 }, &mut c));
    c
}

#[test]
fn normal_map_facing_light_keeps_texture() {
    assert_eq!(shade_with_normal_map(RGB::new(128, 128, 255)), RGB::new(100, 100, 100));
}

#[test]
fn normal_map_across_light_is_dark() {
    assert_eq!(shade_with_normal_map(RGB::new(255, 128, 128)), RGB::new(0, 0, 0));
}

fn shade_with_specular(normal: RGB, shininess: u8) -> RGB {
    let mut s = NormalSpecularShader::new(
        Image::new(2, 2, RGB::new(100, 100, 100)),
        Image::new(2, 2, normal),
        Image::new(2, 2, Grayscale::new(shininess)),
        Transform::viewport(10, 10),
    );
    Shader::<RGB>::vertex(&mut s, face(), v(0, 0, FIXED_ONE));
    let mut c = RGB::new(0, 0, 0);
    assert!(!s.fragment(Bary { a: 2, b: 0, c: 1 }, &mut c));
    c
}

#[test]
fn specular_saturates_facing_light() {
    assert_eq!(shade_with_specular(RGB::new(128, 128, 255), 1), RGB::new(100, 100, 100));
}

#[test]
fn specular_term_adds_six_tenths() {
    // diffuse 0.003921 plus 0.6 times 0^0
    assert_eq!(shade_with_specular(RGB::new(255, 128, 128), 0), RGB::new(60, 60, 60));
    // 0^5 adds nothing
    assert_eq!(shade_with_specular(RGB::new(255, 128, 128), 5), RGB::new(0, 0, 0));
}
