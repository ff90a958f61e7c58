use vstd::prelude::*;
use crate::obj::{ObjFace, Vec3};
use crate::color::FIXED_ONE;
use crate::transform::Transform;

verus! {

/// Largest barycentric weight.
pub const WEIGHT_LIMIT: i64 = 0x10_0000_0000_0000;

/// A light direction: each component, fixed-point, within `[-1, 1]`.
pub open spec fn light_ok(l: Vec3) -> bool {
    -FIXED_ONE <= l.x <= FIXED_ONE && -FIXED_ONE <= l.y <= FIXED_ONE && -FIXED_ONE <= l.z
        <= FIXED_ONE
}

/// Barycentric weights of a pixel: `a`, `b`, `c` over their sum, one per
/// triangle vertex.
#[derive(Clone, Copy, Debug, PartialEq, Eq, Structural)]
pub struct Bary {
    pub a: i64,
    pub b: i64,
    pub c: i64,
}

impl Bary {
    pub open spec fn total(&self) -> int {
        self.a + self.b + self.c
    }

    /// Non-negative weights, none above `WEIGHT_LIMIT`, with a positive sum.
    pub open spec fn valid(&self) -> bool {
        0 <= self.a <= WEIGHT_LIMIT && 0 <= self.b <= WEIGHT_LIMIT && 0 <= self.c <= WEIGHT_LIMIT
            && self.total() > 0
    }
}

/// The screen triangle of a face: its three positions mapped by `t`.
pub open spec fn screen_triangle(t: Transform, face: ObjFace) -> [Vec3; 3] {
    [t.apply(face.vertices[0]), t.apply(face.vertices[1]), t.apply(face.vertices[2])]
}

/// A shader: a vertex stage that projects a face and records what its
/// fragments need, and a fragment stage that colors one pixel of it.
pub trait Shader<T>: Sized {
    /// The vertex stage can run: the transform is well formed.
    spec fn vertex_ready(&self) -> bool;

    /// The fragment stage can run: also every texture it samples is
    /// well formed and not empty.
    spec fn ready(&self) -> bool;

    /// The transform that the vertex stage applies.
    spec fn transform_of(&self) -> Transform;

    /// The shader after the vertex stage of `face`.
    spec fn after_vertex(&self, face: ObjFace, light_dir: Vec3) -> Self;

    /// Whether the fragment stage discards the pixel, and the color it writes.
    spec fn fragment_result(&self, bary: Bary) -> (bool, T);

    /// Projects `face` and prepares the fragment stage for it.
    fn vertex(&mut self, face: ObjFace, light_dir: Vec3) -> (r: [Vec3; 3])
        requires
            old(self).vertex_ready(),
            light_ok(light_dir),
        ensures
            r == screen_triangle(old(self).transform_of(), face),
            *final(self) == old(self).after_vertex(face, light_dir),
            old(self).ready() ==> final(self).ready(),
            final(self).vertex_ready(),
            final(self).transform_of() == old(self).transform_of(),
    ;

    /// Colors one pixel of the last face; returns whether to discard it.
    fn fragment(&self, bary: Bary, color: &mut T) -> (discard: bool)
        requires
            self.ready(),
            bary.valid(),
        ensures
            (discard, *final(color)) == self.fragment_result(bary),
    ;
}

/// Every shader projects a face the same way: two shaders with one transform
/// give the same screen triangle for the same face, whatever they shade.
pub proof fn lemma_vertex_variant_independent<T, S1: Shader<T>, S2: Shader<T>>(
    s1: S1,
    s2: S2,
    face: ObjFace,
)
    requires
        s1.transform_of() == s2.transform_of(),
    ensures
        screen_triangle(s1.transform_of(), face) == screen_triangle(s2.transform_of(), face),
{
}

} // verus!
