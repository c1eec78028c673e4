use vstd::prelude::*;

verus! {

/// Largest value a 14-bit detector pixel can hold.
pub const MAX_PIXEL_VALUE: u16 = 16383;

/// Largest number of pixels a frame may have (2^40), so that sums over a frame fit in `u64`.
pub const MAX_PIXELS: u64 = 1099511627776;

/// Clamps an exact pixel value to the 14-bit range.
pub open spec fn clamp_pixel(v: int) -> int {
    if v > MAX_PIXEL_VALUE as int {
        MAX_PIXEL_VALUE as int
    } else if v < 0 {
        0
    } else {
        v
    }
}

/// Adds two pixels, saturating at the 14-bit ceiling.
pub fn saturating_pixel_add(a: u16, b: u16) -> (r: u16)
    ensures
        r == clamp_pixel(a + b),
{
    let s: u16 = a.saturating_add(b);
    if s > MAX_PIXEL_VALUE {
        MAX_PIXEL_VALUE
    } else {
        s
    }
}

/// A 16-bit grayscale detector frame holding 14-bit values, stored row by row.
#[derive(Clone, Debug)]
pub struct RawImage {
    pub width: u32,
    pub height: u32,
    pub pixels: Vec<u16>,
}

/// Why a plane of pixels cannot be a frame.
#[derive(Clone, Copy, Debug, PartialEq, Eq, Structural)]
pub enum ImageError {
    /// Width or height is zero, or the frame is larger than `MAX_PIXELS`.
    BadDimensions,
    /// The pixel plane does not hold exactly `width * height` values.
    LengthMismatch,
    /// A pixel lies above the 14-bit ceiling.
    PixelOutOfRange,
}

/// Dimensions that a frame may have.
pub open spec fn valid_dims(width: int, height: int) -> bool {
    &&& width > 0
    &&& height > 0
    &&& width * height <= MAX_PIXELS as int
}

/// Every value of the plane is a 14-bit pixel.
pub open spec fn in_range(px: Seq<u16>) -> bool {
    forall|i: int| 0 <= i < px.len() ==> px[i] <= MAX_PIXEL_VALUE
}

impl RawImage {
    /// The frame's invariant.
    pub open spec fn wf(&self) -> bool {
        &&& valid_dims(self.width as int, self.height as int)
        &&& self.pixels@.len() == self.width as int * self.height as int
        &&& in_range(self.pixels@)
    }

    /// Row-major index of pixel `(x, y)`.
    pub open spec fn index_of(&self, x: int, y: int) -> int {
        y * self.width as int + x
    }

    /// The value of pixel `(x, y)`.
    pub open spec fn at(&self, x: int, y: int) -> int {
        self.pixels@[self.index_of(x, y)] as int
    }

    /// Two frames of the same dimensions.
    pub open spec fn same_dims(&self, other: &RawImage) -> bool {
        self.width == other.width && self.height == other.height
    }

    /// Builds a frame from a row-major pixel plane, checking every invariant.
    pub fn new(width: u32, height: u32, pixels: Vec<u16>) -> (r: Result<RawImage, ImageError>)
        ensures
            r is Err <==> !(RawImage { width, height, pixels }).wf(),
            !valid_dims(width as int, height as int) ==> r == Err::<RawImage, _>(
                ImageError::BadDimensions,
            ),
            valid_dims(width as int, height as int) && pixels@.len() != width as int
                * height as int ==> r == Err::<RawImage, _>(ImageError::LengthMismatch),
            valid_dims(width as int, height as int) && pixels@.len() == width as int
                * height as int && !in_range(pixels@) ==> r == Err::<RawImage, _>(
                ImageError::PixelOutOfRange,
            ),
            r is Ok ==> r->Ok_0.width == width && r->Ok_0.height == height
                && r->Ok_0.pixels@ == pixels@,
    {
        if width == 0 || height == 0 {
            return Err(ImageError::BadDimensions);
        }
        proof {
            lemma_dims_product_fits(width, height);
        }
        let n: u64 = width as u64 * height as u64;
        assert(n as int == width as int * height as int);
        if n > MAX_PIXELS {
            return Err(ImageError::BadDimensions);
        }
        if pixels.len() as u64 != n {
            return Err(ImageError::LengthMismatch);
        }
        let mut i: usize = 0;
        while i < pixels.len()
            invariant
                valid_dims(width as int, height as int),
                pixels@.len() == width as int * height as int,
                0 <= i <= pixels@.len(),
                forall|j: int| 0 <= j < i ==> pixels@[j] <= MAX_PIXEL_VALUE,
            decreases pixels@.len() - i,
        {
            if pixels[i] > MAX_PIXEL_VALUE {
                return Err(ImageError::PixelOutOfRange);
            }
            i = i + 1;
        }
        Ok(RawImage { width, height, pixels })
    }

    /// A frame whose every pixel is `value`.
    pub fn filled(width: u32, height: u32, value: u16) -> (r: RawImage)
        requires
            valid_dims(width as int, height as int),
            value <= MAX_PIXEL_VALUE,
        ensures
            r.wf(),
            r.width == width,
            r.height == height,
            forall|i: int| 0 <= i < r.pixels@.len() ==> r.pixels@[i] == value,
    {
        proof {
            lemma_dims_product_fits(width, height);
        }
        let n: u64 = width as u64 * height as u64;
        let mut pixels: Vec<u16> = Vec::new();
        let mut i: u64 = 0;
        while i < n
            invariant
                n == width as int * height as int,
                n <= MAX_PIXELS,
                i <= n,
                pixels@.len() == i,
                forall|j: int| 0 <= j < i ==> pixels@[j] == value,
            decreases n - i,
        {
            pixels.push(value);
            i = i + 1;
        }
        RawImage { width, height, pixels }
    }

    /// Same dimensions and same pixels.
    pub open spec fn same_image(&self, other: &RawImage) -> bool {
        self.same_dims(other) && self.pixels@ == other.pixels@
    }

    /// A copy of this frame.
    pub fn copy(&self) -> (r: RawImage)
        ensures
            r.same_image(self),
    {
        let pixels = self.pixels.clone();
        proof {
            assert(pixels@ =~= self.pixels@);
        }
        RawImage { width: self.width, height: self.height, pixels }
    }

    /// The value of pixel `(x, y)`.
    pub fn pixel(&self, x: u32, y: u32) -> (r: u16)
        requires
            self.wf(),
            x < self.width,
            y < self.height,
        ensures
            r == self.at(x as int, y as int),
    {
        proof {
            lemma_index_in_bounds(self.width as int, self.height as int, x as int, y as int);
        }
        let n: usize = self.pixels.len();
        let row: usize = y as usize * self.width as usize;
        proof {
            assert(row + x < n);
        }
        self.pixels[row + x as usize]
    }

    /// Adds `prev` to this frame pixel by pixel, saturating at the 14-bit ceiling.
    pub fn accumulate(&self, prev: &RawImage) -> (r: RawImage)
        requires
            self.wf(),
            prev.wf(),
            self.same_dims(prev),
        ensures
            r.wf(),
            r.same_dims(self),
            forall|i: int|
                0 <= i < r.pixels@.len() ==> r.pixels@[i] as int == clamp_pixel(
                    self.pixels@[i] + prev.pixels@[i],
                ),
    {
        let mut out: Vec<u16> = Vec::new();
        let mut i: usize = 0;
        while i < self.pixels.len()
            invariant
                self.wf(),
                prev.wf(),
                self.same_dims(prev),
                0 <= i <= self.pixels@.len(),
                out@.len() == i,
                forall|j: int|
                    0 <= j < i ==> out@[j] as int == clamp_pixel(self.pixels@[j] + prev.pixels@[j]),
            decreases self.pixels@.len() - i,
        {
            let v = saturating_pixel_add(self.pixels[i], prev.pixels[i]);
            out.push(v);
            i = i + 1;
        }
        RawImage { width: self.width, height: self.height, pixels: out }
    }

    /// Dark-offset correction: subtracts `dark` and adds back `offset`, clamped to 14 bits.
    pub fn dark_correct(&self, dark: &RawImage, offset: u16) -> (r: RawImage)
        requires
            self.wf(),
            dark.wf(),
            self.same_dims(dark),
        ensures
            r.wf(),
            r.same_dims(self),
            forall|i: int|
                0 <= i < r.pixels@.len() ==> r.pixels@[i] as int == clamp_pixel(
                    self.pixels@[i] + offset - dark.pixels@[i],
                ),
    {
        let mut out: Vec<u16> = Vec::new();
        let mut i: usize = 0;
        while i < self.pixels.len()
            invariant
                self.wf(),
                dark.wf(),
                self.same_dims(dark),
                0 <= i <= self.pixels@.len(),
                out@.len() == i,
                forall|j: int|
                    0 <= j < i ==> out@[j] as int == clamp_pixel(
                        self.pixels@[j] + offset - dark.pixels@[j],
                    ),
            decreases self.pixels@.len() - i,
        {
            let up: u32 = self.pixels[i] as u32 + offset as u32;
            let d: u32 = dark.pixels[i] as u32;
            let v: u16 = if up <= d {
                0
            } else if up - d > MAX_PIXEL_VALUE as u32 {
                MAX_PIXEL_VALUE
            } else {
                (up - d) as u16
            };
            out.push(v);
            i = i + 1;
        }
        RawImage { width: self.width, height: self.height, pixels: out }
    }
}

/// The product of two `u32` dimensions fits in a `u64`.
pub proof fn lemma_dims_product_fits(width: u32, height: u32)
    ensures
        width as int * height as int <= u64::MAX,
        0 <= width as int * height as int,
{
    assert(width as int * height as int <= u32::MAX as int * u32::MAX as int) by (nonlinear_arith)
        requires
            width <= u32::MAX,
            height <= u32::MAX,
            0 <= width,
            0 <= height,
    ;
    assert(0 <= width as int * height as int) by (nonlinear_arith)
        requires
            0 <= width,
            0 <= height,
    ;
}

/// A pixel index of a `width` x `height` frame lies inside its plane.
pub proof fn lemma_index_in_bounds(width: int, height: int, x: int, y: int)
    requires
        0 <= x < width,
        0 <= y < height,
    ensures
        0 <= y * width,
        0 <= y * width + x < width * height,
{
    assert(y * width + x < width * height) by (nonlinear_arith)
        requires
            0 <= x < width,
            0 <= y < height,
    ;
    assert(0 <= y * width) by (nonlinear_arith)
        requires
            0 <= x < width,
            0 <= y,
    ;
}

/// Sum of pixel `i` over a sequence of frames.
pub open spec fn frames_sum(frames: Seq<RawImage>, i: int) -> int
    decreases frames.len(),
{
    if frames.len() == 0 {
        0
    } else {
        frames_sum(frames.drop_last(), i) + frames.last().pixels@[i]
    }
}

/// The per-pixel mean of `n` values summing to `total`, rounded to the nearest integer.
pub open spec fn rounded_mean(total: int, n: int) -> int {
    (total + n / 2) / n
}

/// Every frame of the stack is valid and has the dimensions `width` x `height`.
pub open spec fn uniform_stack(frames: Seq<RawImage>, width: u32, height: u32) -> bool {
    forall|k: int|
        0 <= k < frames.len() ==> (#[trigger] frames[k]).wf() && frames[k].width == width
            && frames[k].height == height
}

/// Reduces a stack of equally sized frames to their per-pixel arithmetic mean.
pub fn average_frames(frames: &Vec<RawImage>) -> (r: RawImage)
    requires
        1 <= frames@.len() <= u32::MAX,
        uniform_stack(frames@, frames@[0].width, frames@[0].height),
    ensures
        r.wf(),
        r.width == frames@[0].width,
        r.height == frames@[0].height,
        forall|i: int|
            0 <= i < r.pixels@.len() ==> r.pixels@[i] as int == rounded_mean(
                frames_sum(frames@, i),
                frames@.len() as int,
            ),
{
    let width = frames[0].width;
    let height = frames[0].height;
    let n: usize = frames.len();
    let npix: usize = frames[0].pixels.len();
    let mut out: Vec<u16> = Vec::new();
    let mut i: usize = 0;
    while i < npix
        invariant
            n == frames@.len(),
            1 <= n <= u32::MAX,
            uniform_stack(frames@, width, height),
            width == frames@[0].width,
            height == frames@[0].height,
            npix == width as int * height as int,
            0 <= i <= npix,
            out@.len() == i,
            in_range(out@),
            forall|j: int|
                0 <= j < i ==> out@[j] as int == rounded_mean(frames_sum(frames@, j), n as int),
        decreases npix - i,
    {
        let mut total: u64 = 0;
        let mut k: usize = 0;
        while k < n
            invariant
                n == frames@.len(),
                n <= u32::MAX,
                uniform_stack(frames@, width, height),
                npix == width as int * height as int,
                0 <= i < npix,
                0 <= k <= n,
                total == frames_sum(frames@.subrange(0, k as int), i as int),
                total <= MAX_PIXEL_VALUE as int * k,
            decreases n - k,
        {
            assert(frames@.subrange(0, k as int + 1).drop_last() == frames@.subrange(0, k as int));
            assert(frames@[k as int].wf());
            total = total + frames[k].pixels[i] as u64;
            k = k + 1;
        }
        assert(frames@.subrange(0, n as int) == frames@);
        let mean: u64 = (total + n as u64 / 2) / n as u64;
        proof {
            lemma_mean_in_range(total as int, n as int);
        }
        out.push(mean as u16);
        i = i + 1;
    }
    RawImage { width, height, pixels: out }
}

/// The rounded mean of values that are each at most the 14-bit ceiling stays below it.
pub proof fn lemma_mean_in_range(total: int, n: int)
    requires
        n >= 1,
        0 <= total <= MAX_PIXEL_VALUE as int * n,
    ensures
        0 <= rounded_mean(total, n) <= MAX_PIXEL_VALUE as int,
{
    let m = MAX_PIXEL_VALUE as int;
    assert(total + n / 2 < (m + 1) * n) by (nonlinear_arith)
        requires
            n >= 1,
            total <= m * n,
            n / 2 < n,
    ;
    assert((total + n / 2) / n < m + 1) by (nonlinear_arith)
        requires
            n >= 1,
            total + n / 2 < (m + 1) * n,
    ;
    assert(0 <= (total + n / 2) / n) by (nonlinear_arith)
        requires
            n >= 1,
            0 <= total + n / 2,
    ;
}

} // verus!
