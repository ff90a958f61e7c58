use vstd::prelude::*;
use crate::color::FIXED_ONE;
use crate::obj::Vec3;

verus! {

/// Largest magnitude of a transform entry.
pub const ENTRY_LIMIT: i64 = 1_099_511_627_776;

/// `a / b` rounded down, for a positive `b`.
pub fn floor_div(a: i128, b: i128) -> (r: i128)
    requires
        b > 0,
    ensures
        r as int == a as int / b as int,
{
    if a >= 0 {
        let q: i128 = a / b;
        proof {
            vstd::arithmetic::div_mod::lemma_fundamental_div_mod(a as int, b as int);
        }
        q
    } else {
        let n: i128 = -(a + 1);
        let q: i128 = n / b;
        proof {
            vstd::arithmetic::div_mod::lemma_fundamental_div_mod(n as int, b as int);
            let r = n as int % b as int;
            assert(a as int == (-q - 1) * b + (b - r - 1)) by (nonlinear_arith)
                requires
                    n as int == b * q + r,
                    n == -(a + 1),
            ;
            vstd::arithmetic::div_mod::lemma_fundamental_div_mod_converse(
                a as int,
                b as int,
                -q - 1,
                b - r - 1,
            );
        }
        -q - 1
    }
}

pub open spec fn saturate(v: int) -> i64 {
    if v < i64::MIN {
        i64::MIN
    } else if v > i64::MAX {
        i64::MAX
    } else {
        v as i64
    }
}

/// Screen `x` and `y` units per pixel: a fixed-point coordinate times a
/// fixed-point entry, kept exact.
pub const SUBPIXEL: i64 = 1_000_000_000_000;

/// An affine map from fixed-point model coordinates to the screen, as a
/// 3×4 fixed-point matrix (every entry in `FIXED_ONE` units).
///
/// Output `x` and `y` are kept exact, in `SUBPIXEL` units per pixel, so that
/// the map sends points on one line to points on one line. Output `z` (the
/// depth) is rounded down to `FIXED_ONE` units.
#[derive(Clone, Copy, Debug)]
pub struct Transform {
    pub m: [[i64; 4]; 3],
}

/// The product of two fixed-point matrices at entry `(i, j)`, rounded down;
/// the last column also adds `a`'s translation.
pub open spec fn product_entry(a: [[i64; 4]; 3], b: [[i64; 4]; 3], i: int, j: int) -> int {
    (a[i][0] * b[0][j] + a[i][1] * b[1][j] + a[i][2] * b[2][j]) / (FIXED_ONE as int) + if j == 3 {
        a[i][3] as int
    } else {
        0
    }
}

impl Transform {
    pub open spec fn wf(&self) -> bool {
        forall|i: int, j: int|
            0 <= i < 3 && 0 <= j < 4 ==> -ENTRY_LIMIT <= #[trigger] self.m[i][j] <= ENTRY_LIMIT
    }

    /// The viewport map for a `width × height` screen: model `x` and `y` in
    /// `[-1, 1]` cover the screen, with `y = 1` on row 0; `z` is kept.
    pub fn viewport(height: i64, width: i64) -> (r: Transform)
        requires
            0 <= height <= 1_000_000,
            0 <= width <= 1_000_000,
        ensures
            r.wf(),
            r.m[0][0] == width / 2 * 1_000_000 && r.m[0][1] == 0 && r.m[0][2] == 0 && r.m[0][3]
                == width / 2 * 1_000_000,
            r.m[1][0] == 0 && r.m[1][1] == -(height / 2 * 1_000_000) && r.m[1][2] == 0 && r.m[1][3]
                == height / 2 * 1_000_000,
            r.m[2][0] == 0 && r.m[2][1] == 0 && r.m[2][2] == 1_000_000 && r.m[2][3] == 0,
    {
        let hw = width / 2;
        let hh = height / 2;
        assert(0 <= hw * 1_000_000 <= 500_000_000_000) by (nonlinear_arith)
            requires
                0 <= hw <= 500_000,
        ;
        assert(0 <= hh * 1_000_000 <= 500_000_000_000) by (nonlinear_arith)
            requires
                0 <= hh <= 500_000,
        ;
        Transform {
            m: [
                [hw * 1_000_000, 0, 0, hw * 1_000_000],
                [0, -(hh * 1_000_000), 0, hh * 1_000_000],
                [0, 0, 1_000_000, 0],
            ],
        }
    }

    /// A transform of the given entries.
    pub fn from_matrix(m: [[i64; 4]; 3]) -> (r: Option<Transform>)
        ensures
            r matches Some(t) ==> t.m == m && t.wf(),
            r is None <==> !(Transform { m }).wf(),
    {
        let mut i: usize = 0;
        while i < 3
            invariant
                i <= 3,
                forall|a: int, b: int|
                    0 <= a < i && 0 <= b < 4 ==> -ENTRY_LIMIT <= #[trigger] m[a][b] <= ENTRY_LIMIT,
            decreases 3 - i,
        {
            let mut j: usize = 0;
            while j < 4
                invariant
                    i < 3,
                    j <= 4,
                    forall|a: int, b: int|
                        0 <= a < i && 0 <= b < 4 ==> -ENTRY_LIMIT <= #[trigger] m[a][b] <= ENTRY_LIMIT,
                    forall|b: int| 0 <= b < j ==> -ENTRY_LIMIT <= #[trigger] m[i as int][b] <= ENTRY_LIMIT,
                decreases 4 - j,
            {
                if m[i][j] < -ENTRY_LIMIT || m[i][j] > ENTRY_LIMIT {
                    proof {
                        let t = Transform { m };
                        assert(!(-ENTRY_LIMIT <= t.m[i as int][j as int] <= ENTRY_LIMIT));
                    }
                    return None;
                }
                j = j + 1;
            }
            i = i + 1;
        }
        Some(Transform { m })
    }

    /// The transform that applies `second` after `self`: the product
    /// `second · self` of the two matrices (as affine maps). `None` where an
    /// entry of the product is out of range.
    pub fn then(&self, second: &Transform) -> (r: Option<Transform>)
        requires
            self.wf(),
            second.wf(),
        ensures
            r is Some <==> (forall|i: int, j: int|
                0 <= i < 3 && 0 <= j < 4 ==> -ENTRY_LIMIT <= #[trigger] product_entry(
                    second.m,
                    self.m,
                    i,
                    j,
                ) <= ENTRY_LIMIT),
            r matches Some(t) ==> t.wf() && forall|i: int, j: int|
                0 <= i < 3 && 0 <= j < 4 ==> #[trigger] t.m[i][j] == product_entry(
                    second.m,
                    self.m,
                    i,
                    j,
                ),
    {
        let mut m: [[i64; 4]; 3] = [[0; 4]; 3];
        let mut i: usize = 0;
        while i < 3
            invariant
                i <= 3,
                self.wf(),
                second.wf(),
                forall|a: int, b: int|
                    0 <= a < i && 0 <= b < 4 ==> #[trigger] m[a][b] == product_entry(
                        second.m,
                        self.m,
                        a,
                        b,
                    ) && -ENTRY_LIMIT <= m[a][b] <= ENTRY_LIMIT,
            decreases 3 - i,
        {
            let mut j: usize = 0;
            while j < 4
                invariant
                    i < 3,
                    j <= 4,
                    self.wf(),
                    second.wf(),
                    forall|a: int, b: int|
                        0 <= a < i && 0 <= b < 4 ==> #[trigger] m[a][b] == product_entry(
                            second.m,
                            self.m,
                            a,
                            b,
                        ) && -ENTRY_LIMIT <= m[a][b] <= ENTRY_LIMIT,
                    forall|b: int|
                        0 <= b < j ==> #[trigger] m[i as int][b] == product_entry(
                            second.m,
                            self.m,
                            i as int,
                            b,
                        ) && -ENTRY_LIMIT <= m[i as int][b] <= ENTRY_LIMIT,
                decreases 4 - j,
            {
                let v = entry_of_product(&second.m, &self.m, i, j);
                if v < -(ENTRY_LIMIT as i128) || v > ENTRY_LIMIT as i128 {
                    proof {
                        assert(!(-ENTRY_LIMIT <= product_entry(second.m, self.m, i as int, j as int)
                            <= ENTRY_LIMIT));
                    }
                    return None;
                }
                m[i][j] = v as i64;
                j = j + 1;
            }
            i = i + 1;
        }
        assert forall|a: int, b: int| 0 <= a < 3 && 0 <= b < 4 implies -ENTRY_LIMIT
            <= #[trigger] product_entry(second.m, self.m, a, b) <= ENTRY_LIMIT by {
            assert(m[a][b] == product_entry(second.m, self.m, a, b));
        }
        Some(Transform { m })
    }

    /// The combined matrix.
    pub fn combined(&self) -> (r: [[i64; 4]; 3])
        ensures
            r == self.m,
    {
        self.m
    }

    /// Row `i` applied to `p` with the translation, in `SUBPIXEL` units.
    pub open spec fn row_value(&self, i: int, p: Vec3) -> int {
        self.m[i][0] * p.x + self.m[i][1] * p.y + self.m[i][2] * p.z + self.m[i][3] * FIXED_ONE
    }

    /// The image of `p`: `x` and `y` exact in `SUBPIXEL` units, `z` rounded
    /// down to `FIXED_ONE` units; each saturated into `i64`.
    pub open spec fn apply(&self, p: Vec3) -> Vec3 {
        Vec3 {
            x: saturate(self.row_value(0, p)),
            y: saturate(self.row_value(1, p)),
            z: saturate(self.row_value(2, p) / (FIXED_ONE as int)),
        }
    }

    fn row(&self, i: usize, p: Vec3) -> (r: i128)
        requires
            self.wf(),
            i < 3,
        ensures
            r == self.row_value(i as int, p),
    {
        let a = self.m[i][0];
        let b = self.m[i][1];
        let c = self.m[i][2];
        let d = self.m[i][3];
        assert(-ENTRY_LIMIT <= self.m[i as int][0] <= ENTRY_LIMIT);
        assert(-ENTRY_LIMIT <= self.m[i as int][1] <= ENTRY_LIMIT);
        assert(-ENTRY_LIMIT <= self.m[i as int][2] <= ENTRY_LIMIT);
        assert(-ENTRY_LIMIT <= self.m[i as int][3] <= ENTRY_LIMIT);
        let px = p.x;
        let py = p.y;
        let pz = p.z;
        proof {
            lemma_product_bound(a as int, px as int);
            lemma_product_bound(b as int, py as int);
            lemma_product_bound(c as int, pz as int);
            lemma_product_bound(d as int, FIXED_ONE as int);
        }
        (a as i128) * (px as i128) + (b as i128) * (py as i128) + (c as i128) * (pz as i128) + (
        d as i128) * (FIXED_ONE as i128)
    }

    /// Maps one point.
    pub fn transform_point(&self, p: Vec3) -> (r: Vec3)
        requires
            self.wf(),
        ensures
            r == self.apply(p),
    {
        let x = saturate_i128(self.row(0, p));
        let y = saturate_i128(self.row(1, p));
        let z = saturate_i128(floor_div(self.row(2, p), FIXED_ONE as i128));
        Vec3 { x, y, z }
    }
}

fn entry_of_product(a: &[[i64; 4]; 3], b: &[[i64; 4]; 3], i: usize, j: usize) -> (r: i128)
    requires
        i < 3,
        j < 4,
        (Transform { m: *a }).wf(),
        (Transform { m: *b }).wf(),
    ensures
        r == product_entry(*a, *b, i as int, j as int),
{
    assert(-ENTRY_LIMIT <= (Transform { m: *a }).m[i as int][0] <= ENTRY_LIMIT);
    assert(-ENTRY_LIMIT <= (Transform { m: *a }).m[i as int][1] <= ENTRY_LIMIT);
    assert(-ENTRY_LIMIT <= (Transform { m: *a }).m[i as int][2] <= ENTRY_LIMIT);
    assert(-ENTRY_LIMIT <= (Transform { m: *a }).m[i as int][3] <= ENTRY_LIMIT);
    assert(-ENTRY_LIMIT <= (Transform { m: *b }).m[0][j as int] <= ENTRY_LIMIT);
    assert(-ENTRY_LIMIT <= (Transform { m: *b }).m[1][j as int] <= ENTRY_LIMIT);
    assert(-ENTRY_LIMIT <= (Transform { m: *b }).m[2][j as int] <= ENTRY_LIMIT);
    proof {
        lemma_product_bound(a[i as int][0] as int, b[0][j as int] as int);
        lemma_product_bound(a[i as int][1] as int, b[1][j as int] as int);
        lemma_product_bound(a[i as int][2] as int, b[2][j as int] as int);
    }
    let s: i128 = (a[i][0] as i128) * (b[0][j] as i128) + (a[i][1] as i128) * (b[1][j] as i128) + (
    a[i][2] as i128) * (b[2][j] as i128);
    let q = floor_div(s, FIXED_ONE as i128);
    proof {
        vstd::arithmetic::div_mod::lemma_div_is_ordered(
            s as int,
            0x400_0000_0000_0000_0000_0000_0000,
            FIXED_ONE as int,
        );
        vstd::arithmetic::div_mod::lemma_div_is_ordered(
            -0x400_0000_0000_0000_0000_0000_0000,
            s as int,
            FIXED_ONE as int,
        );
    }
    if j == 3 {
        q + a[i][3] as i128
    } else {
        q
    }
}

pub fn saturate_i128(v: i128) -> (r: i64)
    ensures
        r == saturate(v as int),
{
    if v < i64::MIN as i128 {
        i64::MIN
    } else if v > i64::MAX as i128 {
        i64::MAX
    } else {
        v as i64
    }
}

/// The 2D cross product of the screen-plane edges of a triangle.
pub open spec fn plane_area(q0: Vec3, q1: Vec3, q2: Vec3) -> int {
    (q1.x - q0.x) * (q2.y - q0.y) - (q1.y - q0.y) * (q2.x - q0.x)
}

proof fn lemma_product_bound(a: int, x: int)
    requires
        -ENTRY_LIMIT <= a <= ENTRY_LIMIT,
        i64::MIN <= x <= i64::MAX,
    ensures
        -0x100_0000_0000_0000_0000_0000_0000 <= a * x <= 0x100_0000_0000_0000_0000_0000_0000,
{
    assert(-0x100_0000_0000_0000_0000_0000_0000 <= a * x <= 0x100_0000_0000_0000_0000_0000_0000)
        by (nonlinear_arith)
        requires
            -0x100_0000_0000 <= a <= 0x100_0000_0000,
            -0x8000_0000_0000_0000 <= x <= 0x7fff_ffff_ffff_ffff,
    ;
}

proof fn lemma_row_difference(t: Transform, i: int, p: Vec3, q: Vec3)
    ensures
        t.row_value(i, q) - t.row_value(i, p) == t.m[i][0] * (q.x - p.x) + t.m[i][1] * (q.y - p.y)
            + t.m[i][2] * (q.z - p.z),
{
    let (a, b, c) = (t.m[i][0] as int, t.m[i][1] as int, t.m[i][2] as int);
    assert(a * q.x - a * p.x == a * (q.x - p.x)) by (nonlinear_arith);
    assert(b * q.y - b * p.y == b * (q.y - p.y)) by (nonlinear_arith);
    assert(c * q.z - c * p.z == c * (q.z - p.z)) by (nonlinear_arith);
}

proof fn lemma_scaled_row(a0: int, a1: int, a2: int, u0: int, u1: int, u2: int, v0: int, v1: int, v2: int, k: int, n: int)
    requires
        n * v0 == k * u0,
        n * v1 == k * u1,
        n * v2 == k * u2,
    ensures
        n * (a0 * v0 + a1 * v1 + a2 * v2) == k * (a0 * u0 + a1 * u1 + a2 * u2),
{
    assert(n * (a0 * v0) == a0 * (n * v0)) by (nonlinear_arith);
    assert(n * (a1 * v1) == a1 * (n * v1)) by (nonlinear_arith);
    assert(n * (a2 * v2) == a2 * (n * v2)) by (nonlinear_arith);
    assert(k * (a0 * u0) == a0 * (k * u0)) by (nonlinear_arith);
    assert(k * (a1 * u1) == a1 * (k * u1)) by (nonlinear_arith);
    assert(k * (a2 * u2) == a2 * (k * u2)) by (nonlinear_arith);
    assert(n * (a0 * v0 + a1 * v1 + a2 * v2) == n * (a0 * v0) + n * (a1 * v1) + n * (a2 * v2))
        by (nonlinear_arith);
    assert(k * (a0 * u0 + a1 * u1 + a2 * u2) == k * (a0 * u0) + k * (a1 * u1) + k * (a2 * u2))
        by (nonlinear_arith);
}

/// The transform keeps lines: where `n·(pc − pa) == k·(pb − pa)` for some
/// `n`, `k` not both 0 (the three model points lie on one line), their
/// screen points span a triangle of zero area, wherever the screen `x` and
/// `y` fit in `i64`.
pub proof fn lemma_collinear_stays_collinear(t: Transform, pa: Vec3, pb: Vec3, pc: Vec3, k: int, n: int)
    requires
        n != 0 || k != 0,
        n * (pc.x - pa.x) == k * (pb.x - pa.x),
        n * (pc.y - pa.y) == k * (pb.y - pa.y),
        n * (pc.z - pa.z) == k * (pb.z - pa.z),
        forall|i: int| 0 <= i < 2 ==> i64::MIN <= #[trigger] t.row_value(i, pa) <= i64::MAX,
        forall|i: int| 0 <= i < 2 ==> i64::MIN <= #[trigger] t.row_value(i, pb) <= i64::MAX,
        forall|i: int| 0 <= i < 2 ==> i64::MIN <= #[trigger] t.row_value(i, pc) <= i64::MAX,
    ensures
        plane_area(t.apply(pa), t.apply(pb), t.apply(pc)) == 0,
{
    assert(i64::MIN <= t.row_value(0, pa) <= i64::MAX);
    assert(i64::MIN <= t.row_value(1, pa) <= i64::MAX);
    assert(i64::MIN <= t.row_value(0, pb) <= i64::MAX);
    assert(i64::MIN <= t.row_value(1, pb) <= i64::MAX);
    assert(i64::MIN <= t.row_value(0, pc) <= i64::MAX);
    assert(i64::MIN <= t.row_value(1, pc) <= i64::MAX);
    lemma_row_difference(t, 0, pa, pb);
    lemma_row_difference(t, 1, pa, pb);
    lemma_row_difference(t, 0, pa, pc);
    lemma_row_difference(t, 1, pa, pc);
    let (u0, u1, u2) = (pb.x - pa.x, pb.y - pa.y, pb.z - pa.z);
    let (v0, v1, v2) = (pc.x - pa.x, pc.y - pa.y, pc.z - pa.z);
    let m = t.m;
    lemma_scaled_row(m[0][0] as int, m[0][1] as int, m[0][2] as int, u0, u1, u2, v0, v1, v2, k, n);
    lemma_scaled_row(m[1][0] as int, m[1][1] as int, m[1][2] as int, u0, u1, u2, v0, v1, v2, k, n);
    let dx1 = m[0][0] * u0 + m[0][1] * u1 + m[0][2] * u2;
    let dy1 = m[1][0] * u0 + m[1][1] * u1 + m[1][2] * u2;
    let dx2 = m[0][0] * v0 + m[0][1] * v1 + m[0][2] * v2;
    let dy2 = m[1][0] * v0 + m[1][1] * v1 + m[1][2] * v2;
    let area = dx1 * dy2 - dy1 * dx2;
    assert(plane_area(t.apply(pa), t.apply(pb), t.apply(pc)) == area);
    if n != 0 {
        assert(n * area == 0) by (nonlinear_arith)
            requires
                area == dx1 * dy2 - dy1 * dx2,
                n * dy2 == k * dy1,
                n * dx2 == k * dx1,
        ;
        assert(area == 0) by (nonlinear_arith)
            requires
                n * area == 0,
                n != 0,
        ;
    } else {
        assert(u0 == 0 && u1 == 0 && u2 == 0) by (nonlinear_arith)
            requires
                k != 0,
                0 == k * u0,
                0 == k * u1,
                0 == k * u2,
        ;
        assert(dx1 == 0 && dy1 == 0);
    }
}

} // verus!
