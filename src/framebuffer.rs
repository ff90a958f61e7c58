use vstd::prelude::*;

verus! {

/// A `width × height` grid of pixels, row-major: pixel `(x, y)` is at
/// `y * width + x`.
pub struct Image<T> {
    pub width: usize,
    pub height: usize,
    pub data: Vec<T>,
}

impl<T: Copy> Image<T> {
    pub open spec fn wf(&self) -> bool {
        self.data@.len() == self.width * self.height
    }

    /// A grid where every pixel is `background`.
    pub fn new(width: usize, height: usize, background: T) -> (r: Image<T>)
        requires
            width * height <= usize::MAX,
        ensures
            r.wf(),
            r.width == width,
            r.height == height,
            forall|i: int| 0 <= i < width * height ==> r.data@[i] == background,
    {
        let n: usize = width * height;
        let mut data: Vec<T> = Vec::new();
        let mut i: usize = 0;
        while i < n
            invariant
                i <= n,
                data@.len() == i,
                forall|k: int| 0 <= k < i ==> data@[k] == background,
            decreases n - i,
        {
            data.push(background);
            i = i + 1;
        }
        Image { width, height, data }
    }

    /// The pixel at `(x, y)`.
    pub fn get(&self, x: usize, y: usize) -> (r: T)
        requires
            self.wf(),
            x < self.width,
            y < self.height,
        ensures
            r == self.data@[y * self.width + x],
    {
        let n: usize = self.data.len();
        proof {
            lemma_index_in_grid(x as int, y as int, self.width as int, self.height as int);
            assert(y * self.width <= y * self.width + x);
        }
        self.data[y * self.width + x]
    }
}

/// The depth that no real depth is below: what a depth buffer starts with.
pub const FAR_DEPTH: i128 = -170141183460469231731687303715884105728;

/// A depth buffer of `width * height` entries, all at `FAR_DEPTH`.
pub fn new_depth_buffer(width: usize, height: usize) -> (r: Vec<i128>)
    requires
        width * height <= usize::MAX,
    ensures
        r@.len() == width * height,
        forall|i: int| 0 <= i < width * height ==> r@[i] == FAR_DEPTH,
{
    let n: usize = width * height;
    let mut r: Vec<i128> = Vec::new();
    let mut i: usize = 0;
    while i < n
        invariant
            i <= n,
            r@.len() == i,
            forall|k: int| 0 <= k < i ==> r@[k] == FAR_DEPTH,
        decreases n - i,
    {
        r.push(FAR_DEPTH);
        i = i + 1;
    }
    r
}

pub proof fn lemma_index_in_grid(x: int, y: int, w: int, h: int)
    requires
        0 <= x < w,
        0 <= y < h,
    ensures
        0 <= y * w + x < w * h,
        (y * w + x) % w == x,
        (y * w + x) / w == y,
{
    assert(0 <= y * w + x < w * h) by (nonlinear_arith)
        requires
            0 <= x < w,
            0 <= y < h,
    ;
    vstd::arithmetic::div_mod::lemma_fundamental_div_mod_converse(y * w + x, w, y, x);
}

} // verus!
