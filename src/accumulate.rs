//! The accumulation buffer: a running sum and a sample count for each pixel,
//! from which a snapshot of the image can be taken at any time.
use vstd::prelude::*;

verus! {

/// Where pixel `(x, y)` of a `width` by `height` image is stored. Image
/// coordinates have `y` pointing up, storage is top row first.
pub open spec fn slot(width: nat, height: nat, x: nat, y: nat) -> int {
    (height - 1 - y) * width + x
}

/// Running per-pixel sums of samples of type `C`, with the number of samples
/// folded into each pixel.
pub struct ImageBuffer<C> {
    width: usize,
    height: usize,
    pixels: Vec<(C, usize)>,
}

impl<C: Copy> ImageBuffer<C> {
    pub closed spec fn spec_width(&self) -> nat {
        self.width as nat
    }

    pub closed spec fn spec_height(&self) -> nat {
        self.height as nat
    }

    /// The stored pixels, top row first: each a running sum and a count.
    pub closed spec fn spec_pixels(&self) -> Seq<(C, usize)> {
        self.pixels@
    }

    /// One stored entry per pixel.
    pub open spec fn wf(&self) -> bool {
        &&& self.spec_width() * self.spec_height() <= usize::MAX
        &&& self.spec_pixels().len() == self.spec_width() * self.spec_height()
    }

    /// The entry of pixel `(x, y)`.
    pub open spec fn entry(&self, x: nat, y: nat) -> (C, usize) {
        self.spec_pixels()[slot(self.spec_width(), self.spec_height(), x, y)]
    }

    /// A buffer of `width` by `height` pixels, each with sum `zero` and no sample.
    pub fn new(width: usize, height: usize, zero: C) -> (r: Self)
        requires
            width * height <= usize::MAX,
        ensures
            r.wf(),
            r.spec_width() == width,
            r.spec_height() == height,
            forall|i: int| 0 <= i < r.spec_pixels().len() ==> r.spec_pixels()[i] == (zero, 0usize),
    {
        let n = width * height;
        let mut pixels: Vec<(C, usize)> = Vec::new();
        let mut i: usize = 0;
        while i < n
            invariant
                i <= n,
                pixels@.len() == i,
                forall|k: int| 0 <= k < i ==> pixels@[k] == (zero, 0usize),
            decreases n - i,
        {
            pixels.push((zero, 0));
            i = i + 1;
        }
        ImageBuffer { width, height, pixels }
    }

    pub fn width(&self) -> (r: usize)
        ensures
            r == self.spec_width(),
    {
        self.width
    }

    pub fn height(&self) -> (r: usize)
        ensures
            r == self.spec_height(),
    {
        self.height
    }

    /// The storage position of pixel `(x, y)`.
    pub fn slot_of(&self, x: usize, y: usize) -> (r: usize)
        requires
            self.wf(),
            x < self.spec_width(),
            y < self.spec_height(),
        ensures
            r == slot(self.spec_width(), self.spec_height(), x as nat, y as nat),
            r < self.spec_pixels().len(),
    {
        let row = self.height - y - 1;
        proof {
            let w = self.width as int;
            let h = self.height as int;
            assert(row * w + x < w * h) by (nonlinear_arith)
                requires
                    0 <= row < h,
                    0 <= x < w,
            ;
            assert(row * w + x <= usize::MAX);
        }
        self.width * row + x
    }

    /// Folds the sample `result.2` into pixel `(result.0, result.1)`: its sum
    /// becomes `combine(sum, sample)` and its count grows by one. No other pixel
    /// changes.
    pub fn update_at<F: Fn(C, C) -> C>(&mut self, result: (usize, usize, C), combine: F)
        requires
            old(self).wf(),
            result.0 < old(self).spec_width(),
            result.1 < old(self).spec_height(),
            old(self).entry(result.0 as nat, result.1 as nat).1 < usize::MAX,
            forall|a: C, b: C| #[trigger] combine.requires((a, b)),
        ensures
            final(self).wf(),
            final(self).spec_width() == old(self).spec_width(),
            final(self).spec_height() == old(self).spec_height(),
            ({
                let i = slot(old(self).spec_width(), old(self).spec_height(), result.0 as nat, result.1 as nat);
                let (sum, n) = old(self).spec_pixels()[i];
                &&& final(self).spec_pixels()[i].1 == n + 1
                &&& combine.ensures((sum, result.2), final(self).spec_pixels()[i].0)
                &&& forall|j: int| 0 <= j < final(self).spec_pixels().len() && j != i
                    ==> final(self).spec_pixels()[j] == old(self).spec_pixels()[j]
            }),
    {
        let (x, y, col) = result;
        let idx = self.slot_of(x, y);
        let (c, n) = self.pixels[idx];
        let sum = combine(c, col);
        self.pixels.set(idx, (sum, n + 1));
    }

    /// The sum and sample count of pixel `(x, y)`.
    pub fn pixel_at(&self, x: usize, y: usize) -> (r: (C, usize))
        requires
            self.wf(),
            x < self.spec_width(),
            y < self.spec_height(),
        ensures
            r == self.entry(x as nat, y as nat),
    {
        let idx = self.slot_of(x, y);
        self.pixels[idx]
    }

    /// The image as it stands, top row first: each stored pixel's sum and
    /// count turned into a displayable value by `finish`. Pixels with many
    /// samples and pixels with few are each finished from their own count.
    pub fn snapshot<D, F: Fn(C, usize) -> D>(&self, finish: F) -> (r: Vec<D>)
        requires
            forall|c: C, n: usize| #[trigger] finish.requires((c, n)),
        ensures
            r@.len() == self.spec_pixels().len(),
            forall|i: int|
                0 <= i < r@.len() ==> finish.ensures(
                    (self.spec_pixels()[i].0, self.spec_pixels()[i].1),
                    #[trigger] r@[i],
                ),
    {
        let mut r: Vec<D> = Vec::new();
        let mut i: usize = 0;
        while i < self.pixels.len()
            invariant
                i <= self.pixels@.len(),
                r@.len() == i,
                forall|c: C, n: usize| #[trigger] finish.requires((c, n)),
                forall|k: int|
                    0 <= k < i ==> finish.ensures(
                        (self.pixels@[k].0, self.pixels@[k].1),
                        #[trigger] r@[k],
                    ),
            decreases self.pixels@.len() - i,
        {
            let (c, n) = self.pixels[i];
            let d = finish(c, n);
            r.push(d);
            i = i + 1;
        }
        r
    }
}

} // verus!
