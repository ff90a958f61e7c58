use vstd::prelude::*;
use crate::framebuffer::{lemma_index_in_grid, Image};
use crate::obj::{ObjFace, Vec3};
use crate::shader::{screen_triangle, Bary, Shader};
use crate::transform::{floor_div, lemma_collinear_stays_collinear, Transform, SUBPIXEL};

verus! {

/// Largest magnitude of a screen `x` or `y`, in `SUBPIXEL` units.
pub const XY_LIMIT: i64 = 72_057_594_037_927_936;

/// Largest magnitude of a screen depth.
pub const Z_LIMIT: i64 = 68_719_476_736;

/// Largest canvas side, in pixels.
pub const CANVAS_LIMIT: usize = 65_536;

/// The sum of the weights handed to a shader.
pub const WEIGHT_SCALE: i64 = 1_073_741_824;

pub open spec fn coord_ok(p: Vec3) -> bool {
    -XY_LIMIT <= p.x <= XY_LIMIT && -XY_LIMIT <= p.y <= XY_LIMIT && -Z_LIMIT <= p.z <= Z_LIMIT
}

/// The edge function of `a → b` at `(sx, sy)` (screen units): twice the
/// signed area of the triangle `a, b, s`.
pub open spec fn edge(a: Vec3, b: Vec3, sx: int, sy: int) -> int {
    (b.x - a.x) * (sy - a.y) - (b.y - a.y) * (sx - a.x)
}

pub open spec fn signed_area(t: [Vec3; 3]) -> int {
    edge(t[0], t[1], t[2].x as int, t[2].y as int)
}

/// The weights of the centre of pixel `(px, py)`, signed so that they are
/// non-negative inside the triangle whatever its winding.
pub open spec fn weights_at(t: [Vec3; 3], px: int, py: int) -> (int, int, int) {
    let (sx, sy) = (px * SUBPIXEL, py * SUBPIXEL);
    let s = (edge(t[1], t[2], sx, sy), edge(t[2], t[0], sx, sy), edge(t[0], t[1], sx, sy));
    if signed_area(t) > 0 {
        s
    } else {
        (-s.0, -s.1, -s.2)
    }
}

/// The pixel centre lies in the triangle (edges included), which is not
/// degenerate.
pub open spec fn covers(t: [Vec3; 3], px: int, py: int) -> bool {
    let w = weights_at(t, px, py);
    signed_area(t) != 0 && w.0 >= 0 && w.1 >= 0 && w.2 >= 0
}

/// The weights of a covered pixel scaled to sum to `WEIGHT_SCALE`: the
/// first two divided by `ceil(total / WEIGHT_SCALE)`, the third the rest.
pub open spec fn bary_at(t: [Vec3; 3], px: int, py: int) -> Bary {
    let w = weights_at(t, px, py);
    let d = (w.0 + w.1 + w.2 + WEIGHT_SCALE - 1) / (WEIGHT_SCALE as int);
    let a = w.0 / d;
    let b = w.1 / d;
    Bary { a: a as i64, b: b as i64, c: (WEIGHT_SCALE - a - b) as i64 }
}

/// The depth at a covered pixel: the vertex depths weighted by `bary_at`,
/// rounded down.
pub open spec fn depth_at(t: [Vec3; 3], px: int, py: int) -> int {
    let w = bary_at(t, px, py);
    (w.a * t[0].z + w.b * t[1].z + w.c * t[2].z) / (WEIGHT_SCALE as int)
}

pub open spec fn min3(a: int, b: int, c: int) -> int {
    if a <= b && a <= c {
        a
    } else if b <= c {
        b
    } else {
        c
    }
}

pub open spec fn max3(a: int, b: int, c: int) -> int {
    if a >= b && a >= c {
        a
    } else if b >= c {
        b
    } else {
        c
    }
}

/// The first pixel column at or right of the triangle's leftmost point.
pub open spec fn lo_x(t: [Vec3; 3]) -> int {
    -((-min3(t[0].x as int, t[1].x as int, t[2].x as int)) / (SUBPIXEL as int))
}

/// The last pixel column at or left of the triangle's rightmost point.
pub open spec fn hi_x(t: [Vec3; 3]) -> int {
    max3(t[0].x as int, t[1].x as int, t[2].x as int) / (SUBPIXEL as int)
}

pub open spec fn lo_y(t: [Vec3; 3]) -> int {
    -((-min3(t[0].y as int, t[1].y as int, t[2].y as int)) / (SUBPIXEL as int))
}

pub open spec fn hi_y(t: [Vec3; 3]) -> int {
    max3(t[0].y as int, t[1].y as int, t[2].y as int) / (SUBPIXEL as int)
}

/// The pixel centre lies in the triangle's bounding box.
pub open spec fn in_box(t: [Vec3; 3], px: int, py: int) -> bool {
    lo_x(t) <= px <= hi_x(t) && lo_y(t) <= py <= hi_y(t)
}

/// A pixel and its depth after the triangle is drawn: replaced where the
/// triangle covers the pixel, is strictly nearer than the stored depth, and
/// the shader keeps the fragment; else left as it was.
pub open spec fn pixel_after<T, S: Shader<T>>(
    shader: S,
    t: [Vec3; 3],
    color: T,
    depth: i128,
    px: int,
    py: int,
) -> (T, i128) {
    let f = shader.fragment_result(bary_at(t, px, py));
    if in_box(t, px, py) && covers(t, px, py) && depth_at(t, px, py) > depth && !f.0 {
        (f.1, depth_at(t, px, py) as i128)
    } else {
        (color, depth)
    }
}

proof fn lemma_edge_sum(a: Vec3, b: Vec3, c: Vec3, px: int, py: int)
    ensures
        edge(b, c, px, py) + edge(c, a, px, py) + edge(a, b, px, py) == edge(a, b, c.x as int, c.y as int),
{
    let (ax, ay, bx, by, cx, cy) = (a.x as int, a.y as int, b.x as int, b.y as int, c.x as int, c.y as int);
    lemma_mul_expand(cx, bx, py, by);
    lemma_mul_expand(cy, by, px, bx);
    lemma_mul_expand(ax, cx, py, cy);
    lemma_mul_expand(ay, cy, px, cx);
    lemma_mul_expand(bx, ax, py, ay);
    lemma_mul_expand(by, ay, px, ax);
    lemma_mul_expand(bx, ax, cy, ay);
    lemma_mul_expand(by, ay, cx, ax);
}

proof fn lemma_mul_expand(p: int, q: int, r: int, s: int)
    ensures
        (p - q) * (r - s) == p * r - p * s - q * r + q * s,
{
    assert((p - q) * (r - s) == p * r - p * s - q * r + q * s) by (nonlinear_arith);
}

proof fn lemma_edge_bound(a: Vec3, b: Vec3, sx: int, sy: int)
    requires
        coord_ok(a),
        coord_ok(b),
        -XY_LIMIT <= sx <= XY_LIMIT,
        -XY_LIMIT <= sy <= XY_LIMIT,
    ensures
        -0x8_0000_0000_0000_0000_0000_0000_0000 <= edge(a, b, sx, sy) <= 0x8_0000_0000_0000_0000_0000_0000_0000,
        -0x4_0000_0000_0000_0000_0000_0000_0000 <= (b.x - a.x) * (sy - a.y) <= 0x4_0000_0000_0000_0000_0000_0000_0000,
        -0x4_0000_0000_0000_0000_0000_0000_0000 <= (b.y - a.y) * (sx - a.x) <= 0x4_0000_0000_0000_0000_0000_0000_0000,
{
    let dx = b.x - a.x;
    let dy = b.y - a.y;
    let ex = sx - a.x;
    let ey = sy - a.y;
    assert(-0x4_0000_0000_0000_0000_0000_0000_0000 <= dx * ey <= 0x4_0000_0000_0000_0000_0000_0000_0000) by (nonlinear_arith)
        requires
            -0x200_0000_0000_0000 <= dx <= 0x200_0000_0000_0000,
            -0x200_0000_0000_0000 <= ey <= 0x200_0000_0000_0000,
    ;
    assert(-0x4_0000_0000_0000_0000_0000_0000_0000 <= dy * ex <= 0x4_0000_0000_0000_0000_0000_0000_0000) by (nonlinear_arith)
        requires
            -0x200_0000_0000_0000 <= dy <= 0x200_0000_0000_0000,
            -0x200_0000_0000_0000 <= ex <= 0x200_0000_0000_0000,
    ;
}

fn edge_exec(a: Vec3, b: Vec3, sx: i64, sy: i64) -> (r: i128)
    requires
        coord_ok(a),
        coord_ok(b),
        -XY_LIMIT <= sx <= XY_LIMIT,
        -XY_LIMIT <= sy <= XY_LIMIT,
    ensures
        r == edge(a, b, sx as int, sy as int),
        -0x8_0000_0000_0000_0000_0000_0000_0000 <= r <= 0x8_0000_0000_0000_0000_0000_0000_0000,
{
    proof {
        lemma_edge_bound(a, b, sx as int, sy as int);
    }
    let dx = b.x as i128 - a.x as i128;
    let dy = b.y as i128 - a.y as i128;
    let ex = sx as i128 - a.x as i128;
    let ey = sy as i128 - a.y as i128;
    dx * ey - dy * ex
}

fn min3_exec(a: i64, b: i64, c: i64) -> (r: i64)
    ensures
        r == min3(a as int, b as int, c as int),
{
    if a <= b && a <= c {
        a
    } else if b <= c {
        b
    } else {
        c
    }
}

fn max3_exec(a: i64, b: i64, c: i64) -> (r: i64)
    ensures
        r == max3(a as int, b as int, c as int),
{
    if a >= b && a >= c {
        a
    } else if b >= c {
        b
    } else {
        c
    }
}

/// The weights and depth of one pixel, where the triangle covers it.
fn pixel_weights(pts: [Vec3; 3], px: i64, py: i64, area: i128) -> (r: Option<(Bary, i128)>)
    requires
        coord_ok(pts[0]),
        coord_ok(pts[1]),
        coord_ok(pts[2]),
        0 <= px <= CANVAS_LIMIT,
        0 <= py <= CANVAS_LIMIT,
        area == signed_area(pts),
        area != 0,
    ensures
        r is Some <==> covers(pts, px as int, py as int),
        r matches Some((w, d)) ==> w == bary_at(pts, px as int, py as int) && w.valid() && d
            == depth_at(pts, px as int, py as int),
{
    let sx: i64 = px * SUBPIXEL;
    let sy: i64 = py * SUBPIXEL;
    let e0 = edge_exec(pts[1], pts[2], sx, sy);
    let e1 = edge_exec(pts[2], pts[0], sx, sy);
    let e2 = edge_exec(pts[0], pts[1], sx, sy);
    proof {
        lemma_edge_sum(pts[0], pts[1], pts[2], sx as int, sy as int);
    }
    let (a, b, c) = if area > 0 { (e0, e1, e2) } else { (-e0, -e1, -e2) };
    if a < 0 || b < 0 || c < 0 {
        return None;
    }
    let k: i128 = WEIGHT_SCALE as i128;
    let total: i128 = a + b + c;
    let d: i128 = (total + k - 1) / k;
    let na: i128 = a / d;
    let nb: i128 = b / d;
    proof {
        vstd::arithmetic::div_mod::lemma_fundamental_div_mod((total + k - 1) as int, k as int);
        vstd::arithmetic::div_mod::lemma_fundamental_div_mod(a as int, d as int);
        vstd::arithmetic::div_mod::lemma_fundamental_div_mod(b as int, d as int);
        assert(d * k >= total);
        assert(0 <= na && 0 <= nb);
        assert(na + nb <= k) by (nonlinear_arith)
            requires
                d > 0,
                a >= d * na,
                b >= d * nb,
                d * k >= total,
                total == a + b + c,
                c >= 0,
        ;
    }
    let w = Bary { a: na as i64, b: nb as i64, c: (k - na - nb) as i64 };
    let z0 = pts[0].z;
    let z1 = pts[1].z;
    let z2 = pts[2].z;
    assert(-0x8_0000_0000_0000_0000 <= w.a * z0 <= 0x8_0000_0000_0000_0000) by (nonlinear_arith)
        requires
            0 <= w.a <= 0x4000_0000,
            -0x10_0000_0000 <= z0 <= 0x10_0000_0000,
    ;
    assert(-0x8_0000_0000_0000_0000 <= w.b * z1 <= 0x8_0000_0000_0000_0000) by (nonlinear_arith)
        requires
            0 <= w.b <= 0x4000_0000,
            -0x10_0000_0000 <= z1 <= 0x10_0000_0000,
    ;
    assert(-0x8_0000_0000_0000_0000 <= w.c * z2 <= 0x8_0000_0000_0000_0000) by (nonlinear_arith)
        requires
            0 <= w.c <= 0x4000_0000,
            -0x10_0000_0000 <= z2 <= 0x10_0000_0000,
    ;
    let sum: i128 = (w.a as i128) * (z0 as i128) + (w.b as i128) * (z1 as i128) + (w.c as i128) * (
    z2 as i128);
    let depth = floor_div(sum, k);
    Some((w, depth))
}

/// Draws one screen triangle: every pixel of the canvas inside the
/// triangle's bounding box that the triangle covers, whose interpolated
/// depth is strictly greater (nearer) than the stored one, and whose fragment
/// the shader keeps, takes the fragment's color and the new depth; every
/// other pixel and depth stays. A degenerate triangle changes nothing.
pub fn triangle<T: Copy, S: Shader<T>>(
    image: &mut Image<T>,
    shader: &S,
    pts: [Vec3; 3],
    zbuffer: &mut Vec<i128>,
)
    requires
        old(image).wf(),
        old(zbuffer)@.len() == old(image).width * old(image).height,
        old(image).width <= CANVAS_LIMIT,
        old(image).height <= CANVAS_LIMIT,
        coord_ok(pts[0]),
        coord_ok(pts[1]),
        coord_ok(pts[2]),
        shader.ready(),
    ensures
        final(image).wf(),
        final(image).width == old(image).width,
        final(image).height == old(image).height,
        final(zbuffer)@.len() == old(zbuffer)@.len(),
        forall|i: int|
            0 <= i < old(image).width * old(image).height ==> (
            #[trigger] final(image).data@[i], final(zbuffer)@[i]) == pixel_after(
                *shader,
                pts,
                old(image).data@[i],
                old(zbuffer)@[i],
                i % old(image).width as int,
                i / old(image).width as int,
            ),
{
    let ghost old_c = image.data@;
    let ghost old_z = zbuffer@;
    let w = image.width;
    let h = image.height;
    let ghost n = w * h;
    let area = edge_exec(pts[0], pts[1], pts[2].x, pts[2].y);
    if area == 0 {
        assert forall|i: int| 0 <= i < n implies (
        #[trigger] image.data@[i], zbuffer@[i]) == pixel_after(
            *shader,
            pts,
            old_c[i],
            old_z[i],
            i % (w as int),
            i / (w as int),
        ) by {}
        return;
    }
    let sub = SUBPIXEL as i128;
    let minx = -floor_div(-(min3_exec(pts[0].x, pts[1].x, pts[2].x) as i128), sub);
    let maxx = floor_div(max3_exec(pts[0].x, pts[1].x, pts[2].x) as i128, sub);
    let miny = -floor_div(-(min3_exec(pts[0].y, pts[1].y, pts[2].y) as i128), sub);
    let maxy = floor_div(max3_exec(pts[0].y, pts[1].y, pts[2].y) as i128, sub);
    proof {
        lemma_box_bound(min3(pts[0].x as int, pts[1].x as int, pts[2].x as int));
        lemma_box_bound(max3(pts[0].x as int, pts[1].x as int, pts[2].x as int));
        lemma_box_bound(min3(pts[0].y as int, pts[1].y as int, pts[2].y as int));
        lemma_box_bound(max3(pts[0].y as int, pts[1].y as int, pts[2].y as int));
    }
    let x0: i64 = if minx < 0 { 0 } else if minx > w as i128 { w as i64 } else { minx as i64 };
    let x1: i64 = if maxx + 1 < w as i128 { (maxx + 1) as i64 } else { w as i64 };
    let y0: i64 = if miny < 0 { 0 } else if miny > h as i128 { h as i64 } else { miny as i64 };
    let y1: i64 = if maxy + 1 < h as i128 { (maxy + 1) as i64 } else { h as i64 };
    let mut y: i64 = y0;
    assert forall|i: int| 0 <= i < n implies (#[trigger] image.data@[i], zbuffer@[i]) == if i / (
    w as int) < y {
        pixel_after(*shader, pts, old_c[i], old_z[i], i % (w as int), i / (w as int))
    } else {
        (old_c[i], old_z[i])
    } by {
        lemma_cell_bounds(i, w as int, h as int);
        if i / (w as int) < y {
            assert(!in_box(pts, i % (w as int), i / (w as int)));
        }
    }
    while y < y1
        invariant
            image.wf(),
            image.width == w,
            image.height == h,
            n == w * h,
            zbuffer@.len() == n,
            w <= CANVAS_LIMIT,
            h <= CANVAS_LIMIT,
            coord_ok(pts[0]),
            coord_ok(pts[1]),
            coord_ok(pts[2]),
            shader.ready(),
            area == signed_area(pts),
            area != 0,
            0 <= y0 <= y,
            y1 <= h,
            x1 <= w,
            x0 >= 0,
            y0 == 0 || y0 <= lo_y(pts),
            y1 == h || y1 == hi_y(pts) + 1,
            x0 == 0 || x0 <= lo_x(pts),
            x1 <= x0 || x0 >= lo_x(pts),
            y1 <= y0 || y0 >= lo_y(pts),
            x1 == w || x1 == hi_x(pts) + 1,
            y1 <= hi_y(pts) + 1,
            x1 <= hi_x(pts) + 1,
            forall|i: int|
                0 <= i < n ==> (#[trigger] image.data@[i], zbuffer@[i]) == if i / (w as int)
                    < y {
                    pixel_after(*shader, pts, old_c[i], old_z[i], i % (w as int), i / (w as int))
                } else {
                    (old_c[i], old_z[i])
                },
        decreases y1 - y,
    {
        let mut x: i64 = x0;
        assert forall|i: int| 0 <= i < n implies (#[trigger] image.data@[i], zbuffer@[i]) == if i
            / (w as int) < y || (i / (w as int) == y && i % (w as int) < x) {
            pixel_after(*shader, pts, old_c[i], old_z[i], i % (w as int), i / (w as int))
        } else {
            (old_c[i], old_z[i])
        } by {
            lemma_cell_bounds(i, w as int, h as int);
            if i / (w as int) == y && i % (w as int) < x {
                assert(!in_box(pts, i % (w as int), i / (w as int)));
            }
        }
        while x < x1
            invariant
                image.wf(),
                image.width == w,
                image.height == h,
                n == w * h,
                zbuffer@.len() == n,
                w <= CANVAS_LIMIT,
                h <= CANVAS_LIMIT,
                coord_ok(pts[0]),
                coord_ok(pts[1]),
                coord_ok(pts[2]),
                shader.ready(),
                area == signed_area(pts),
                area != 0,
                0 <= y0 <= y < y1,
                y1 <= h,
                x1 <= w,
                0 <= x0 <= x,
                x0 == 0 || x0 <= lo_x(pts),
            x1 <= x0 || x0 >= lo_x(pts),
            y1 <= y0 || y0 >= lo_y(pts),
                    x1 <= hi_x(pts) + 1,
                    y1 <= hi_y(pts) + 1,
                forall|i: int|
                    0 <= i < n ==> (#[trigger] image.data@[i], zbuffer@[i]) == if i / (w as int)
                        < y || (i / (w as int) == y && i % (w as int) < x) {
                        pixel_after(*shader, pts, old_c[i], old_z[i], i % (w as int), i / (w as int))
                    } else {
                        (old_c[i], old_z[i])
                    },
            decreases x1 - x,
        {
            let ghost before_c = image.data@;
            let ghost before_z = zbuffer@;
            proof {
                lemma_index_in_grid(x as int, y as int, w as int, h as int);
            }
            let zl: usize = zbuffer.len();
            assert((y as usize) * w <= (y as usize) * w + (x as usize));
            let idx: usize = (y as usize) * w + (x as usize);
            let ghost gi = idx as int;
            match pixel_weights(pts, x, y, area) {
                None => {},
                Some((bw, d)) => {
                    if d > zbuffer[idx] {
                        let mut color = image.data[idx];
                        let discard = shader.fragment(bw, &mut color);
                        if !discard {
                            image.data.set(idx, color);
                            zbuffer.set(idx, d);
                        }
                    }
                },
            }
            assert forall|i: int| 0 <= i < n implies (
            #[trigger] image.data@[i], zbuffer@[i]) == if i / (w as int) < y || (i / (w as int) == y
                && i % (w as int) < x + 1) {
                pixel_after(*shader, pts, old_c[i], old_z[i], i % (w as int), i / (w as int))
            } else {
                (old_c[i], old_z[i])
            } by {
                if i != gi {
                    assert(image.data@[i] == before_c[i]);
                    assert(zbuffer@[i] == before_z[i]);
                    if i / (w as int) == y && i % (w as int) == x {
                        lemma_same_cell(i, gi, w as int);
                    }
                }
            }
            x = x + 1;
        }
        assert forall|i: int| 0 <= i < n implies (#[trigger] image.data@[i], zbuffer@[i]) == if i
            / (w as int) < y + 1 {
            pixel_after(*shader, pts, old_c[i], old_z[i], i % (w as int), i / (w as int))
        } else {
            (old_c[i], old_z[i])
        } by {
            lemma_cell_bounds(i, w as int, h as int);
            if i / (w as int) == y && i % (w as int) >= x {
                assert(!in_box(pts, i % (w as int), i / (w as int)));
            }
        }
        y = y + 1;
    }
    assert forall|i: int| 0 <= i < n implies (#[trigger] image.data@[i], zbuffer@[i]) == pixel_after(
        *shader,
        pts,
        old_c[i],
        old_z[i],
        i % (w as int),
        i / (w as int),
    ) by {
        lemma_cell_bounds(i, w as int, h as int);
        if i / (w as int) >= y {
            assert(!in_box(pts, i % (w as int), i / (w as int)));
        }
    }
}

proof fn lemma_cell_bounds(i: int, w: int, h: int)
    requires
        0 <= i < w * h,
        w >= 0,
        h >= 0,
    ensures
        0 <= i % w < w,
        0 <= i / w < h,
{
    if w <= 0 {
        assert(w * h == 0) by (nonlinear_arith)
            requires
                w == 0,
        ;
    } else {
        vstd::arithmetic::div_mod::lemma_fundamental_div_mod(i, w);
        assert(i / w < h) by (nonlinear_arith)
            requires
                i == w * (i / w) + i % w,
                0 <= i % w,
                i < w * h,
                w > 0,
        ;
        assert(i / w >= 0) by (nonlinear_arith)
            requires
                i == w * (i / w) + i % w,
                i % w < w,
                i >= 0,
                w > 0,
        ;
    }
}

proof fn lemma_same_cell(i: int, j: int, w: int)
    requires
        w > 0,
        i % w == j % w,
        i / w == j / w,
    ensures
        i == j,
{
    vstd::arithmetic::div_mod::lemma_fundamental_div_mod(i, w);
    vstd::arithmetic::div_mod::lemma_fundamental_div_mod(j, w);
}

proof fn lemma_box_bound(v: int)
    requires
        -XY_LIMIT <= v <= XY_LIMIT,
    ensures
        -0x1_0000_0000 <= v / (SUBPIXEL as int) <= 0x1_0000_0000,
        -0x1_0000_0000 <= (-v) / (SUBPIXEL as int) <= 0x1_0000_0000,
{
    vstd::arithmetic::div_mod::lemma_div_is_ordered(v, XY_LIMIT as int, SUBPIXEL as int);
    vstd::arithmetic::div_mod::lemma_div_is_ordered(-XY_LIMIT, v, SUBPIXEL as int);
    vstd::arithmetic::div_mod::lemma_div_is_ordered(-v, XY_LIMIT as int, SUBPIXEL as int);
    vstd::arithmetic::div_mod::lemma_div_is_ordered(-XY_LIMIT, -v, SUBPIXEL as int);
}

/// The weights of a covered pixel are non-negative and sum to `WEIGHT_SCALE`.
pub proof fn lemma_bary_scaled(t: [Vec3; 3], px: int, py: int)
    requires
        coord_ok(t[0]),
        coord_ok(t[1]),
        coord_ok(t[2]),
        0 <= px <= CANVAS_LIMIT,
        0 <= py <= CANVAS_LIMIT,
        covers(t, px, py),
    ensures
        bary_at(t, px, py).valid(),
        bary_at(t, px, py).total() == WEIGHT_SCALE,
{
    let (sx, sy) = (px * SUBPIXEL, py * SUBPIXEL);
    assert(0 <= sx <= XY_LIMIT && 0 <= sy <= XY_LIMIT) by (nonlinear_arith)
        requires
            sx == px * 1_000_000_000_000,
            sy == py * 1_000_000_000_000,
            0 <= px <= 65536,
            0 <= py <= 65536,
    ;
    lemma_edge_sum(t[0], t[1], t[2], sx, sy);
    lemma_edge_bound(t[1], t[2], sx, sy);
    lemma_edge_bound(t[2], t[0], sx, sy);
    lemma_edge_bound(t[0], t[1], sx, sy);
    let w = weights_at(t, px, py);
    let k = WEIGHT_SCALE as int;
    let total = w.0 + w.1 + w.2;
    let d = (total + k - 1) / k;
    vstd::arithmetic::div_mod::lemma_fundamental_div_mod(total + k - 1, k);
    vstd::arithmetic::div_mod::lemma_fundamental_div_mod(w.0, d);
    vstd::arithmetic::div_mod::lemma_fundamental_div_mod(w.1, d);
    let na = w.0 / d;
    let nb = w.1 / d;
    assert(na + nb <= k) by (nonlinear_arith)
        requires
            d > 0,
            w.0 >= d * na,
            w.1 >= d * nb,
            d * k >= total,
            total == w.0 + w.1 + w.2,
            w.2 >= 0,
    ;
}

/// The depth at a covered pixel lies between the vertex depths' bounds.
pub proof fn lemma_depth_bounds(t: [Vec3; 3], px: int, py: int)
    requires
        0 <= px <= CANVAS_LIMIT,
        0 <= py <= CANVAS_LIMIT,
        coord_ok(t[0]),
        coord_ok(t[1]),
        coord_ok(t[2]),
        covers(t, px, py),
    ensures
        -Z_LIMIT <= depth_at(t, px, py) <= Z_LIMIT,
{
    lemma_bary_scaled(t, px, py);
    let w = bary_at(t, px, py);
    let total = WEIGHT_SCALE as int;
    let sum = w.a * t[0].z + w.b * t[1].z + w.c * t[2].z;
    let l = Z_LIMIT as int;
    assert(-l * total <= sum <= l * total) by (nonlinear_arith)
        requires
            w.a >= 0,
            w.b >= 0,
            w.c >= 0,
            total == w.a + w.b + w.c,
            sum == w.a * t[0].z + w.b * t[1].z + w.c * t[2].z,
            -l <= t[0].z <= l,
            -l <= t[1].z <= l,
            -l <= t[2].z <= l,
    ;
    vstd::arithmetic::div_mod::lemma_div_is_ordered(-l * total, sum, total);
    vstd::arithmetic::div_mod::lemma_div_is_ordered(sum, l * total, total);
    vstd::arithmetic::div_mod::lemma_fundamental_div_mod_converse(-l * total, total, -l, 0);
    vstd::arithmetic::div_mod::lemma_div_by_multiple(l, total);
    assert(-l * total == total * (-l)) by (nonlinear_arith);
    assert(l * total == total * l) by (nonlinear_arith);
}

/// A degenerate (zero-area) triangle leaves every pixel and depth as it was.
pub proof fn lemma_degenerate_draws_nothing<T, S: Shader<T>>(
    shader: S,
    t: [Vec3; 3],
    color: T,
    depth: i128,
    px: int,
    py: int,
)
    requires
        signed_area(t) == 0,
    ensures
        pixel_after(shader, t, color, depth, px, py) == (color, depth),
{
}

/// On a fresh depth buffer and with a shader that keeps every fragment, a
/// pixel is drawn exactly where it lies in the triangle's bounding box and
/// all its weights are non-negative.
pub proof fn lemma_fresh_pixel_drawn_iff_covered<T, S: Shader<T>>(
    shader: S,
    t: [Vec3; 3],
    color: T,
    px: int,
    py: int,
)
    requires
        0 <= px <= CANVAS_LIMIT,
        0 <= py <= CANVAS_LIMIT,
        coord_ok(t[0]),
        coord_ok(t[1]),
        coord_ok(t[2]),
        !shader.fragment_result(bary_at(t, px, py)).0,
    ensures
        pixel_after(shader, t, color, i128::MIN, px, py) == if in_box(t, px, py) && covers(t, px, py) {
            (shader.fragment_result(bary_at(t, px, py)).1, depth_at(t, px, py) as i128)
        } else {
            (color, i128::MIN)
        },
{
    if covers(t, px, py) {
        lemma_depth_bounds(t, px, py);
    }
}

/// Where two triangles cover the same pixel and their shaders keep the
/// fragment, the nearer one's color is what stays, in either drawing order;
/// at equal depths the one drawn first stays.
pub proof fn lemma_nearer_triangle_wins<T, S1: Shader<T>, S2: Shader<T>>(
    s1: S1,
    t1: [Vec3; 3],
    s2: S2,
    t2: [Vec3; 3],
    color: T,
    depth: i128,
    px: int,
    py: int,
)
    requires
        0 <= px <= CANVAS_LIMIT,
        0 <= py <= CANVAS_LIMIT,
        coord_ok(t1[0]),
        coord_ok(t1[1]),
        coord_ok(t1[2]),
        coord_ok(t2[0]),
        coord_ok(t2[1]),
        coord_ok(t2[2]),
        in_box(t1, px, py) && covers(t1, px, py),
        in_box(t2, px, py) && covers(t2, px, py),
        !s1.fragment_result(bary_at(t1, px, py)).0,
        !s2.fragment_result(bary_at(t2, px, py)).0,
        depth < depth_at(t1, px, py),
        depth < depth_at(t2, px, py),
    ensures
        ({
            let first = pixel_after(s1, t1, color, depth, px, py);
            let one_two = pixel_after(s2, t2, first.0, first.1, px, py);
            let second = pixel_after(s2, t2, color, depth, px, py);
            let two_one = pixel_after(s1, t1, second.0, second.1, px, py);
            let f1 = s1.fragment_result(bary_at(t1, px, py)).1;
            let f2 = s2.fragment_result(bary_at(t2, px, py)).1;
            &&& depth_at(t1, px, py) > depth_at(t2, px, py) ==> one_two.0 == f1 && two_one.0 == f1
                && one_two.1 == depth_at(t1, px, py) && two_one.1 == depth_at(t1, px, py)
            &&& depth_at(t1, px, py) == depth_at(t2, px, py) ==> one_two.0 == f1 && two_one.0 == f2
                && one_two.1 == depth_at(t1, px, py) && two_one.1 == depth_at(t1, px, py)
        }),
{
    lemma_depth_bounds(t1, px, py);
    lemma_depth_bounds(t2, px, py);
}

/// A face whose three positions lie on one line (`n·(v2 − v0) == k·(v1 −
/// v0)`, `n` and `k` not both 0) projects to a degenerate screen triangle,
/// so drawing it changes no pixel and no depth.
pub proof fn lemma_collinear_face_draws_nothing<T, S: Shader<T>>(
    shader: S,
    t: Transform,
    face: ObjFace,
    k: int,
    n: int,
    color: T,
    depth: i128,
    px: int,
    py: int,
)
    requires
        n != 0 || k != 0,
        n * (face.vertices[2].x - face.vertices[0].x) == k * (face.vertices[1].x - face.vertices[0].x),
        n * (face.vertices[2].y - face.vertices[0].y) == k * (face.vertices[1].y - face.vertices[0].y),
        n * (face.vertices[2].z - face.vertices[0].z) == k * (face.vertices[1].z - face.vertices[0].z),
        forall|i: int, j: int|
            0 <= i < 2 && 0 <= j < 3 ==> i64::MIN <= #[trigger] t.row_value(i, face.vertices[j])
                <= i64::MAX,
    ensures
        signed_area(screen_triangle(t, face)) == 0,
        pixel_after(shader, screen_triangle(t, face), color, depth, px, py) == (color, depth),
{
    let v = face.vertices;
    assert(i64::MIN <= t.row_value(0, v[0]) <= i64::MAX);
    assert(i64::MIN <= t.row_value(1, v[0]) <= i64::MAX);
    assert(i64::MIN <= t.row_value(0, v[1]) <= i64::MAX);
    assert(i64::MIN <= t.row_value(1, v[1]) <= i64::MAX);
    assert(i64::MIN <= t.row_value(0, v[2]) <= i64::MAX);
    assert(i64::MIN <= t.row_value(1, v[2]) <= i64::MAX);
    lemma_collinear_stays_collinear(t, v[0], v[1], v[2], k, n);
}

} // verus!
