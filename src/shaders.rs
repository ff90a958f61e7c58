use vstd::prelude::*;
use crate::color::{ColorSpace, Grayscale, RGB, FIXED_ONE};
use crate::framebuffer::{lemma_index_in_grid, Image};
use crate::obj::{ObjFace, Vec3};
use crate::shader::{light_ok, screen_triangle, Bary, Shader, WEIGHT_LIMIT};
use crate::transform::{floor_div, saturate, Transform};

verus! {

/// The diffuse intensity at a vertex: the dot product of its normal with the
/// light direction, in fixed point, rounded down, and at least 0.
pub open spec fn vertex_intensity(n: Vec3, l: Vec3) -> i64 {
    let d = saturate((n.x * l.x + n.y * l.y + n.z * l.z) / (FIXED_ONE as int));
    if d < 0 {
        0
    } else {
        d
    }
}

/// Three vertex values weighted by `w`, rounded down.
pub open spec fn interpolate(w: Bary, v0: i64, v1: i64, v2: i64) -> i64 {
    saturate((w.a * v0 + w.b * v1 + w.c * v2) / w.total())
}

/// A position clamped into `[0, n)`.
pub open spec fn clamp_to(v: int, n: int) -> int {
    if v < 0 {
        0
    } else if v >= n {
        n - 1
    } else {
        v
    }
}

/// The texel at `(u, v)`, each clamped into the texture.
pub open spec fn texel<T>(tex: Image<T>, u: int, v: int) -> T {
    tex.data@[clamp_to(v, tex.height as int) * tex.width + clamp_to(u, tex.width as int)]
}

/// A texture coordinate in `[0, 1]` (fixed-point) mapped to texel space
/// for a `width × height` texture whose row 0 is the top.
pub open spec fn texel_space(p: Vec3, width: int, height: int) -> Vec3 {
    Vec3 {
        x: saturate((p.x * width) / (FIXED_ONE as int)),
        y: saturate(((FIXED_ONE - p.y) * height) / (FIXED_ONE as int)),
        z: 0,
    }
}

pub fn vertex_intensity_exec(n: Vec3, l: Vec3) -> (r: i64)
    requires
        light_ok(l),
    ensures
        r == vertex_intensity(n, l),
{
    assert(-0x10_0000_0000_0000_0000_0000 <= n.x * l.x <= 0x10_0000_0000_0000_0000_0000)
        by (nonlinear_arith)
        requires
            -0x8000_0000_0000_0000 <= n.x <= 0x8000_0000_0000_0000,
            -1_000_000 <= l.x <= 1_000_000,
    ;
    assert(-0x10_0000_0000_0000_0000_0000 <= n.y * l.y <= 0x10_0000_0000_0000_0000_0000)
        by (nonlinear_arith)
        requires
            -0x8000_0000_0000_0000 <= n.y <= 0x8000_0000_0000_0000,
            -1_000_000 <= l.y <= 1_000_000,
    ;
    assert(-0x10_0000_0000_0000_0000_0000 <= n.z * l.z <= 0x10_0000_0000_0000_0000_0000)
        by (nonlinear_arith)
        requires
            -0x8000_0000_0000_0000 <= n.z <= 0x8000_0000_0000_0000,
            -1_000_000 <= l.z <= 1_000_000,
    ;
    let s: i128 = (n.x as i128) * (l.x as i128) + (n.y as i128) * (l.y as i128) + (n.z as i128)
        * (l.z as i128);
    let q = floor_div(s, FIXED_ONE as i128);
    let d: i64 = saturate_exec(q);
    if d < 0 {
        0
    } else {
        d
    }
}

pub fn saturate_exec(v: i128) -> (r: i64)
    ensures
        r == saturate(v as int),
{
    if v < i64::MIN as i128 {
        i64::MIN
    } else if v > i64::MAX as i128 {
        i64::MAX
    } else {
        v as i64
    }
}

pub fn interpolate_exec(w: Bary, v0: i64, v1: i64, v2: i64) -> (r: i64)
    requires
        w.valid(),
    ensures
        r == interpolate(w, v0, v1, v2),
{
    assert(-0x10_0000_0000_0000_0000_0000_0000_0000 <= w.a * v0 <= 0x10_0000_0000_0000_0000_0000_0000_0000)
        by (nonlinear_arith)
        requires
            0 <= w.a <= 0x10_0000_0000_0000,
            -0x8000_0000_0000_0000 <= v0 <= 0x8000_0000_0000_0000,
    ;
    assert(-0x10_0000_0000_0000_0000_0000_0000_0000 <= w.b * v1 <= 0x10_0000_0000_0000_0000_0000_0000_0000)
        by (nonlinear_arith)
        requires
            0 <= w.b <= 0x10_0000_0000_0000,
            -0x8000_0000_0000_0000 <= v1 <= 0x8000_0000_0000_0000,
    ;
    assert(-0x10_0000_0000_0000_0000_0000_0000_0000 <= w.c * v2 <= 0x10_0000_0000_0000_0000_0000_0000_0000)
        by (nonlinear_arith)
        requires
            0 <= w.c <= 0x10_0000_0000_0000,
            -0x8000_0000_0000_0000 <= v2 <= 0x8000_0000_0000_0000,
    ;
    let s: i128 = (w.a as i128) * (v0 as i128) + (w.b as i128) * (v1 as i128) + (w.c as i128) * (
    v2 as i128);
    let t: i128 = w.a as i128 + w.b as i128 + w.c as i128;
    saturate_exec(floor_div(s, t))
}

fn clamp_to_exec(v: i64, n: usize) -> (r: usize)
    requires
        0 < n,
    ensures
        r == clamp_to(v as int, n as int),
{
    if v < 0 {
        0
    } else if v as u64 >= n as u64 {
        n - 1
    } else {
        v as usize
    }
}

/// Reads the texel at `(u, v)`, each clamped into the texture.
pub fn sample<T: Copy>(tex: &Image<T>, u: i64, v: i64) -> (r: T)
    requires
        tex.wf(),
        tex.width > 0,
        tex.height > 0,
    ensures
        r == texel(*tex, u as int, v as int),
{
    let x = clamp_to_exec(u, tex.width);
    let y = clamp_to_exec(v, tex.height);
    tex.get(x, y)
}

/// Maps a face's texture coordinates from `[0, 1]` to texel space for a
/// `width × height` texture.
pub fn to_texel_space(face: ObjFace, width: u32, height: u32) -> (r: ObjFace)
    ensures
        r.vertices == face.vertices,
        r.normals == face.normals,
        r.texture_vertices[0] == texel_space(face.texture_vertices[0], width as int, height as int),
        r.texture_vertices[1] == texel_space(face.texture_vertices[1], width as int, height as int),
        r.texture_vertices[2] == texel_space(face.texture_vertices[2], width as int, height as int),
{
    ObjFace {
        vertices: face.vertices,
        texture_vertices: [
            texel_point(face.texture_vertices[0], width, height),
            texel_point(face.texture_vertices[1], width, height),
            texel_point(face.texture_vertices[2], width, height),
        ],
        normals: face.normals,
    }
}

fn texel_point(p: Vec3, width: u32, height: u32) -> (r: Vec3)
    ensures
        r == texel_space(p, width as int, height as int),
{
    assert(-0x8000_0000_0000_0000_0000_0000 <= p.x * width <= 0x8000_0000_0000_0000_0000_0000)
        by (nonlinear_arith)
        requires
            -0x8000_0000_0000_0000 <= p.x <= 0x8000_0000_0000_0000,
            0 <= width <= 0xffff_ffff,
    ;
    assert(-0x1_0000_0000_0000_0000_0000_0000 <= (FIXED_ONE - p.y) * height
        <= 0x1_0000_0000_0000_0000_0000_0000) by (nonlinear_arith)
        requires
            -0x1_0000_0000_0000_0000 <= FIXED_ONE - p.y <= 0x1_0000_0000_0000_0000,
            0 <= height <= 0xffff_ffff,
    ;
    let x = floor_div((p.x as i128) * (width as i128), FIXED_ONE as i128);
    let y = floor_div(((FIXED_ONE as i128) - (p.y as i128)) * (height as i128), FIXED_ONE as i128);
    Vec3 { x: saturate_exec(x), y: saturate_exec(y), z: 0 }
}

fn project(t: &Transform, face: &ObjFace) -> (r: [Vec3; 3])
    requires
        t.wf(),
    ensures
        r == screen_triangle(*t, *face),
{
    [
        t.transform_point(face.vertices[0]),
        t.transform_point(face.vertices[1]),
        t.transform_point(face.vertices[2]),
    ]
}

/// Gouraud shading of a single color: one diffuse intensity per vertex,
/// interpolated per pixel.
pub struct FlatShader<T> {
    pub color: T,
    pub transform: Transform,
    pub varying_intensity: [i64; 3],
}

impl<T: ColorSpace + Copy> FlatShader<T> {
    pub fn new(color: T, transform: Transform) -> (r: FlatShader<T>)
        ensures
            r.color == color,
            r.transform == transform,
            r.varying_intensity == [0i64, 0, 0],
    {
        FlatShader { color, transform, varying_intensity: [0, 0, 0] }
    }
}

impl<T: ColorSpace + Copy> Shader<T> for FlatShader<T> {
    open spec fn ready(&self) -> bool {
        self.transform.wf()
    }

    open spec fn vertex_ready(&self) -> bool {
        self.transform.wf()
    }

    open spec fn transform_of(&self) -> Transform {
        self.transform
    }

    open spec fn after_vertex(&self, face: ObjFace, light_dir: Vec3) -> FlatShader<T> {
        FlatShader {
            varying_intensity: [
                vertex_intensity(face.normals[0], light_dir),
                vertex_intensity(face.normals[1], light_dir),
                vertex_intensity(face.normals[2], light_dir),
            ],
            ..*self
        }
    }

    open spec fn fragment_result(&self, bary: Bary) -> (bool, T) {
        let i = self.varying_intensity;
        (false, self.color.shaded(interpolate(bary, i[0], i[1], i[2]) as int))
    }

    fn vertex(&mut self, face: ObjFace, light_dir: Vec3) -> (r: [Vec3; 3]) {
        self.varying_intensity = [
            vertex_intensity_exec(face.normals[0], light_dir),
            vertex_intensity_exec(face.normals[1], light_dir),
            vertex_intensity_exec(face.normals[2], light_dir),
        ];
        project(&self.transform, &face)
    }

    fn fragment(&self, bary: Bary, color: &mut T) -> (discard: bool) {
        let i = interpolate_exec(
            bary,
            self.varying_intensity[0],
            self.varying_intensity[1],
            self.varying_intensity[2],
        );
        let mut c = self.color;
        c.shade(i);
        *color = c;
        false
    }
}

/// Gouraud shading with a diffuse texture: the texel at the interpolated
/// texture coordinate, scaled by the interpolated vertex intensity. The
/// face's texture coordinates are expected in texel space.
pub struct GouraudShader<T> {
    pub texture: Image<T>,
    pub transform: Transform,
    pub varying_intensity: [i64; 3],
    pub varying_texture_coords: [Vec3; 3],
}

impl<T: ColorSpace + Copy> GouraudShader<T> {
    pub fn new(texture: Image<T>, transform: Transform) -> (r: GouraudShader<T>)
        ensures
            r.texture == texture,
            r.transform == transform,
            r.varying_intensity == [0i64, 0, 0],
    {
        let z = Vec3 { x: 0, y: 0, z: 0 };
        GouraudShader {
            texture,
            transform,
            varying_intensity: [0, 0, 0],
            varying_texture_coords: [z, z, z],
        }
    }
}

impl<T: ColorSpace + Copy> Shader<T> for GouraudShader<T> {
    open spec fn ready(&self) -> bool {
        self.transform.wf() && self.texture.wf() && self.texture.width > 0
            && self.texture.height > 0
    }

    open spec fn vertex_ready(&self) -> bool {
        self.transform.wf()
    }

    open spec fn transform_of(&self) -> Transform {
        self.transform
    }

    open spec fn after_vertex(&self, face: ObjFace, light_dir: Vec3) -> GouraudShader<T> {
        GouraudShader {
            varying_intensity: [
                vertex_intensity(face.normals[0], light_dir),
                vertex_intensity(face.normals[1], light_dir),
                vertex_intensity(face.normals[2], light_dir),
            ],
            varying_texture_coords: face.texture_vertices,
            ..*self
        }
    }

    open spec fn fragment_result(&self, bary: Bary) -> (bool, T) {
        let i = self.varying_intensity;
        let t = self.varying_texture_coords;
        let u = interpolate(bary, t[0].x, t[1].x, t[2].x);
        let v = interpolate(bary, t[0].y, t[1].y, t[2].y);
        (false, texel(self.texture, u as int, v as int).shaded(interpolate(bary, i[0], i[1], i[2]) as int))
    }

    fn vertex(&mut self, face: ObjFace, light_dir: Vec3) -> (r: [Vec3; 3]) {
        self.varying_intensity = [
            vertex_intensity_exec(face.normals[0], light_dir),
            vertex_intensity_exec(face.normals[1], light_dir),
            vertex_intensity_exec(face.normals[2], light_dir),
        ];
        self.varying_texture_coords = face.texture_vertices;
        project(&self.transform, &face)
    }

    fn fragment(&self, bary: Bary, color: &mut T) -> (discard: bool) {
        let t = &self.varying_texture_coords;
        let u = interpolate_exec(bary, t[0].x, t[1].x, t[2].x);
        let v = interpolate_exec(bary, t[0].y, t[1].y, t[2].y);
        let i = interpolate_exec(
            bary,
            self.varying_intensity[0],
            self.varying_intensity[1],
            self.varying_intensity[2],
        );
        let mut c = sample(&self.texture, u, v);
        c.shade(i);
        *color = c;
        false
    }
}

/// The unit-range normal that a normal-map texel stands for: each channel
/// `0..=255` mapped linearly onto `[-1, 1]`, fixed-point, rounded down.
pub open spec fn normal_of(c: RGB) -> Vec3 {
    Vec3 {
        x: ((c.r * 2 * FIXED_ONE) / 255 - FIXED_ONE) as i64,
        y: ((c.g * 2 * FIXED_ONE) / 255 - FIXED_ONE) as i64,
        z: ((c.b * 2 * FIXED_ONE) / 255 - FIXED_ONE) as i64,
    }
}

/// `x ^ e` for a fixed-point `x`, rounding down after each product.
pub open spec fn pow_fixed(x: int, e: nat) -> int
    decreases e,
{
    if e == 0 {
        FIXED_ONE as int
    } else {
        (pow_fixed(x, (e - 1) as nat) * x) / (FIXED_ONE as int)
    }
}

/// The dot product of a normal and the light direction, fixed-point,
/// rounded down.
pub open spec fn light_dot(n: Vec3, l: Vec3) -> int {
    (n.x * l.x + n.y * l.y + n.z * l.z) / (FIXED_ONE as int)
}

/// The specular base: the `z` of the light reflected about `n`, clamped into
/// `[0, 1]`.
pub open spec fn reflect_z(n: Vec3, l: Vec3) -> int {
    let r = (2 * light_dot(n, l) * n.z) / (FIXED_ONE as int) - l.z;
    if r < 0 {
        0
    } else if r > FIXED_ONE {
        FIXED_ONE as int
    } else {
        r
    }
}

/// Diffuse plus six tenths of the specular term.
pub open spec fn phong_intensity(n: Vec3, l: Vec3, shininess: u8) -> int {
    vertex_intensity(n, l) + (6 * pow_fixed(reflect_z(n, l), shininess as nat)) / 10
}

fn channel_to_unit(c: u8) -> (r: i64)
    ensures
        r == (c * 2 * FIXED_ONE) / 255 - FIXED_ONE,
        -FIXED_ONE <= r <= FIXED_ONE,
{
    let p: i64 = (c as i64) * 2 * FIXED_ONE;
    assert(p / 255 <= 2 * FIXED_ONE) by {
        vstd::arithmetic::div_mod::lemma_div_is_ordered(p as int, 510 * FIXED_ONE, 255);
    }
    p / 255 - FIXED_ONE
}

fn normal_of_exec(c: RGB) -> (r: Vec3)
    ensures
        r == normal_of(c),
        light_ok(r),
{
    Vec3 { x: channel_to_unit(c.r), y: channel_to_unit(c.g), z: channel_to_unit(c.b) }
}

fn pow_fixed_exec(x: i64, e: u8) -> (r: i64)
    requires
        0 <= x <= FIXED_ONE,
    ensures
        r == pow_fixed(x as int, e as nat),
        0 <= r <= FIXED_ONE,
{
    let mut acc: i64 = FIXED_ONE;
    let mut k: u8 = 0;
    while k < e
        invariant
            k <= e,
            0 <= x <= FIXED_ONE,
            0 <= acc <= FIXED_ONE,
            acc == pow_fixed(x as int, k as nat),
        decreases e - k,
    {
        assert(0 <= acc * x <= FIXED_ONE * FIXED_ONE) by (nonlinear_arith)
            requires
                0 <= acc <= FIXED_ONE,
                0 <= x <= FIXED_ONE,
        ;
        let p: i64 = acc * x;
        proof {
            vstd::arithmetic::div_mod::lemma_div_is_ordered(
                p as int,
                FIXED_ONE * FIXED_ONE,
                FIXED_ONE as int,
            );
            vstd::arithmetic::div_mod::lemma_div_by_multiple(FIXED_ONE as int, FIXED_ONE as int);
        }
        acc = p / FIXED_ONE;
        k = k + 1;
    }
    acc
}

fn phong_exec(n: Vec3, l: Vec3, shininess: u8) -> (r: i64)
    requires
        light_ok(n),
        light_ok(l),
    ensures
        r == phong_intensity(n, l, shininess),
{
    let d = vertex_intensity_exec(n, l);
    assert(-1_000_000_000_000 <= n.x * l.x <= 1_000_000_000_000) by (nonlinear_arith)
        requires
            -1_000_000 <= n.x <= 1_000_000,
            -1_000_000 <= l.x <= 1_000_000,
    ;
    assert(-1_000_000_000_000 <= n.y * l.y <= 1_000_000_000_000) by (nonlinear_arith)
        requires
            -1_000_000 <= n.y <= 1_000_000,
            -1_000_000 <= l.y <= 1_000_000,
    ;
    assert(-1_000_000_000_000 <= n.z * l.z <= 1_000_000_000_000) by (nonlinear_arith)
        requires
            -1_000_000 <= n.z <= 1_000_000,
            -1_000_000 <= l.z <= 1_000_000,
    ;
    let s: i64 = n.x * l.x + n.y * l.y + n.z * l.z;
    let dot: i64 = floor_div(s as i128, FIXED_ONE as i128) as i64;
    proof {
        vstd::arithmetic::div_mod::lemma_div_is_ordered(
            s as int,
            3_000_000_000_000,
            FIXED_ONE as int,
        );
        vstd::arithmetic::div_mod::lemma_div_is_ordered(
            -3_000_000_000_000,
            s as int,
            FIXED_ONE as int,
        );
        vstd::arithmetic::div_mod::lemma_fundamental_div_mod_converse(
            -3_000_000_000_000,
            FIXED_ONE as int,
            -3_000_000,
            0,
        );
    }
    assert(-6_000_000_000_000 <= 2 * dot * n.z <= 6_000_000_000_000) by (nonlinear_arith)
        requires
            -3_000_000 <= dot <= 3_000_000,
            -1_000_000 <= n.z <= 1_000_000,
    ;
    let rz0: i64 = (floor_div((2 * dot * n.z) as i128, FIXED_ONE as i128) as i64) - l.z;
    proof {
        vstd::arithmetic::div_mod::lemma_div_is_ordered(
            2 * dot * n.z,
            6_000_000_000_000,
            FIXED_ONE as int,
        );
        vstd::arithmetic::div_mod::lemma_div_is_ordered(
            -6_000_000_000_000,
            2 * dot * n.z,
            FIXED_ONE as int,
        );
        vstd::arithmetic::div_mod::lemma_fundamental_div_mod_converse(
            -6_000_000_000_000,
            FIXED_ONE as int,
            -6_000_000,
            0,
        );
    }
    let rz: i64 = if rz0 < 0 {
        0
    } else if rz0 > FIXED_ONE {
        FIXED_ONE
    } else {
        rz0
    };
    let p = pow_fixed_exec(rz, shininess);
    d + (6 * p) / 10
}

/// Normal mapping: the diffuse intensity is recomputed per pixel from the
/// normal that the normal map holds at the interpolated texture coordinate.
pub struct NormalMappedShader<T> {
    pub texture: Image<T>,
    pub normal_map: Image<RGB>,
    pub transform: Transform,
    pub light_dir: Vec3,
    pub varying_texture_coords: [Vec3; 3],
}

impl<T: ColorSpace + Copy> NormalMappedShader<T> {
    pub fn new(texture: Image<T>, normal_map: Image<RGB>, transform: Transform) -> (r:
        NormalMappedShader<T>)
        ensures
            r.texture == texture,
            r.normal_map == normal_map,
            r.transform == transform,
    {
        let z = Vec3 { x: 0, y: 0, z: 0 };
        NormalMappedShader {
            texture,
            normal_map,
            transform,
            light_dir: z,
            varying_texture_coords: [z, z, z],
        }
    }
}

impl<T: ColorSpace + Copy> Shader<T> for NormalMappedShader<T> {
    open spec fn ready(&self) -> bool {
        &&& self.transform.wf()
        &&& self.texture.wf() && self.texture.width > 0 && self.texture.height > 0
        &&& self.normal_map.wf() && self.normal_map.width > 0 && self.normal_map.height > 0
        &&& light_ok(self.light_dir)
    }

    open spec fn vertex_ready(&self) -> bool {
        self.transform.wf()
    }

    open spec fn transform_of(&self) -> Transform {
        self.transform
    }

    open spec fn after_vertex(&self, face: ObjFace, light_dir: Vec3) -> NormalMappedShader<T> {
        NormalMappedShader { light_dir, varying_texture_coords: face.texture_vertices, ..*self }
    }

    open spec fn fragment_result(&self, bary: Bary) -> (bool, T) {
        let t = self.varying_texture_coords;
        let u = interpolate(bary, t[0].x, t[1].x, t[2].x) as int;
        let v = interpolate(bary, t[0].y, t[1].y, t[2].y) as int;
        let n = normal_of(texel(self.normal_map, u, v));
        (false, texel(self.texture, u, v).shaded(vertex_intensity(n, self.light_dir) as int))
    }

    fn vertex(&mut self, face: ObjFace, light_dir: Vec3) -> (r: [Vec3; 3]) {
        self.light_dir = light_dir;
        self.varying_texture_coords = face.texture_vertices;
        project(&self.transform, &face)
    }

    fn fragment(&self, bary: Bary, color: &mut T) -> (discard: bool) {
        let t = &self.varying_texture_coords;
        let u = interpolate_exec(bary, t[0].x, t[1].x, t[2].x);
        let v = interpolate_exec(bary, t[0].y, t[1].y, t[2].y);
        let n = normal_of_exec(sample(&self.normal_map, u, v));
        let mut c = sample(&self.texture, u, v);
        c.shade(vertex_intensity_exec(n, self.light_dir));
        *color = c;
        false
    }
}

/// Normal mapping with a specular map: diffuse plus a Phong specular term
/// whose exponent the specular map holds, clamped by the color model.
pub struct NormalSpecularShader<T> {
    pub texture: Image<T>,
    pub normal_map: Image<RGB>,
    pub specular_map: Image<Grayscale>,
    pub transform: Transform,
    pub light_dir: Vec3,
    pub varying_texture_coords: [Vec3; 3],
}

impl<T: ColorSpace + Copy> NormalSpecularShader<T> {
    pub fn new(
        texture: Image<T>,
        normal_map: Image<RGB>,
        specular_map: Image<Grayscale>,
        transform: Transform,
    ) -> (r: NormalSpecularShader<T>)
        ensures
            r.texture == texture,
            r.normal_map == normal_map,
            r.specular_map == specular_map,
            r.transform == transform,
    {
        let z = Vec3 { x: 0, y: 0, z: 0 };
        NormalSpecularShader {
            texture,
            normal_map,
            specular_map,
            transform,
            light_dir: z,
            varying_texture_coords: [z, z, z],
        }
    }
}

impl<T: ColorSpace + Copy> Shader<T> for NormalSpecularShader<T> {
    open spec fn ready(&self) -> bool {
        &&& self.transform.wf()
        &&& self.texture.wf() && self.texture.width > 0 && self.texture.height > 0
        &&& self.normal_map.wf() && self.normal_map.width > 0 && self.normal_map.height > 0
        &&& self.specular_map.wf() && self.specular_map.width > 0 && self.specular_map.height > 0
        &&& light_ok(self.light_dir)
    }

    open spec fn vertex_ready(&self) -> bool {
        self.transform.wf()
    }

    open spec fn transform_of(&self) -> Transform {
        self.transform
    }

    open spec fn after_vertex(&self, face: ObjFace, light_dir: Vec3) -> NormalSpecularShader<T> {
        NormalSpecularShader { light_dir, varying_texture_coords: face.texture_vertices, ..*self }
    }

    open spec fn fragment_result(&self, bary: Bary) -> (bool, T) {
        let t = self.varying_texture_coords;
        let u = interpolate(bary, t[0].x, t[1].x, t[2].x) as int;
        let v = interpolate(bary, t[0].y, t[1].y, t[2].y) as int;
        let n = normal_of(texel(self.normal_map, u, v));
        let e = texel(self.specular_map, u, v).i;
        (false, texel(self.texture, u, v).shaded(phong_intensity(n, self.light_dir, e)))
    }

    fn vertex(&mut self, face: ObjFace, light_dir: Vec3) -> (r: [Vec3; 3]) {
        self.light_dir = light_dir;
        self.varying_texture_coords = face.texture_vertices;
        project(&self.transform, &face)
    }

    fn fragment(&self, bary: Bary, color: &mut T) -> (discard: bool) {
        let t = &self.varying_texture_coords;
        let u = interpolate_exec(bary, t[0].x, t[1].x, t[2].x);
        let v = interpolate_exec(bary, t[0].y, t[1].y, t[2].y);
        let n = normal_of_exec(sample(&self.normal_map, u, v));
        let e = sample(&self.specular_map, u, v).i;
        let mut c = sample(&self.texture, u, v);
        c.shade(phong_exec(n, self.light_dir, e));
        *color = c;
        false
    }
}

} // verus!
