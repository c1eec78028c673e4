use vstd::prelude::*;

use crate::image::{RawImage, MAX_PIXEL_VALUE, MAX_PIXELS};
use crate::types::{Point, Rect};

verus! {

/// Dark level that the SDK adds back after offset correction.
pub const DARK_OFFSET: u64 = 300;

/// Sum of the first `x` pixels of row `y`.
pub open spec fn row_prefix(img: RawImage, y: int, x: int) -> int
    decreases x,
{
    if x <= 0 {
        0
    } else {
        row_prefix(img, y, x - 1) + img.at(x - 1, y)
    }
}

/// Sum of the pixels in columns `0..x` and rows `0..y`.
pub open spec fn box_sum(img: RawImage, x: int, y: int) -> int
    decreases y,
{
    if y <= 0 {
        0
    } else {
        box_sum(img, x, y - 1) + row_prefix(img, y - 1, x)
    }
}

/// Sum of the `ws` x `ws` window whose top-left pixel is `(x, y)`.
pub open spec fn window_sum(img: RawImage, x: int, y: int, ws: int) -> int {
    box_sum(img, x + ws, y + ws) - box_sum(img, x, y + ws) - box_sum(img, x + ws, y) + box_sum(
        img,
        x,
        y,
    )
}

/// `(x, y)` is the top-left corner of a window that lies inside the image.
pub open spec fn window_fits(img: RawImage, x: int, y: int, ws: int) -> bool {
    0 <= x && x + ws <= img.width && 0 <= y && y + ws <= img.height
}

/// Scan order of window positions: by column, then by row.
pub open spec fn scanned_before(x1: int, y1: int, x2: int, y2: int) -> bool {
    x1 < x2 || (x1 == x2 && y1 < y2)
}

/// A 2-D prefix-sum table of a frame: `table[y][x]` holds the sum of the pixels in columns
/// `0..=x` and rows `0..=y`.
pub struct IntegralImage {
    width: u32,
    height: u32,
    table: Vec<Vec<u64>>,
    source: Ghost<RawImage>,
}

impl IntegralImage {
    /// The frame this table was computed from.
    pub closed spec fn image(&self) -> RawImage {
        self.source@
    }

    /// The table's invariant: it holds the prefix sums of a valid frame.
    pub closed spec fn wf(&self) -> bool {
        &&& self.source@.wf()
        &&& self.width == self.source@.width
        &&& self.height == self.source@.height
        &&& self.table@.len() == self.height
        &&& forall|y: int|
            0 <= y < self.height ==> (#[trigger] self.table@[y])@.len() == self.width
        &&& forall|y: int, x: int|
            0 <= y < self.height && 0 <= x < self.width ==> (#[trigger] self.table@[y]@[x])
                == box_sum(self.source@, x + 1, y + 1)
    }

    /// Width of the source frame.
    pub fn width(&self) -> (r: u32)
        requires
            self.wf(),
        ensures
            r == self.image().width,
    {
        self.width
    }

    /// Height of the source frame.
    pub fn height(&self) -> (r: u32)
        requires
            self.wf(),
        ensures
            r == self.image().height,
    {
        self.height
    }

    /// The table entry for `box_sum(x, y)`; zero on the top and left borders.
    fn corner(&self, x: u32, y: u32) -> (r: u64)
        requires
            self.wf(),
            x <= self.image().width,
            y <= self.image().height,
        ensures
            r == box_sum(self.image(), x as int, y as int),
    {
        if x == 0 || y == 0 {
            proof {
                lemma_box_zero(self.source@, x as int, y as int);
            }
            0
        } else {
            self.table[(y - 1) as usize][(x - 1) as usize]
        }
    }

    /// Sum of the `window_size` x `window_size` window whose top-left pixel is `(x, y)`, in four
    /// table lookups.
    pub fn area_sum(&self, x: u32, y: u32, window_size: u32) -> (r: u64)
        requires
            self.wf(),
            window_fits(self.image(), x as int, y as int, window_size as int),
        ensures
            r == window_sum(self.image(), x as int, y as int, window_size as int),
    {
        let x2 = x + window_size;
        let y2 = y + window_size;
        let br = self.corner(x2, y2);
        let tl = self.corner(x, y);
        let tr = self.corner(x2, y);
        let bl = self.corner(x, y2);
        proof {
            let img = self.source@;
            lemma_window_nonneg(img, x as int, x2 as int, y as int, y2 as int);
            lemma_box_bounds(img, x as int, y as int);
            lemma_box_bounds(img, x2 as int, y2 as int);
            lemma_box_bounds(img, x as int, y2 as int);
            lemma_box_bounds(img, x2 as int, y as int);
            lemma_box_mono_x(img, x as int, x2 as int, y2 as int);
            lemma_box_mono_x(img, x as int, x2 as int, y as int);
            lemma_box_fits_u64(img);
        }
        (br - bl) - (tr - tl)
    }
}

/// Prefix sums are zero on the top and left borders.
pub proof fn lemma_box_zero(img: RawImage, x: int, y: int)
    requires
        x <= 0 || y <= 0,
    ensures
        box_sum(img, x, y) == 0,
    decreases y,
{
    if y > 0 {
        lemma_box_zero(img, x, y - 1);
        assert(row_prefix(img, y - 1, x) == 0);
    }
}

/// Row prefixes are non-negative, bounded by the ceiling times the length, and grow with `x`.
pub proof fn lemma_row_prefix_bounds(img: RawImage, y: int, x1: int, x: int)
    requires
        img.wf(),
        0 <= y < img.height,
        0 <= x1 <= x <= img.width,
    ensures
        0 <= row_prefix(img, y, x1) <= row_prefix(img, y, x),
        row_prefix(img, y, x) <= MAX_PIXEL_VALUE as int * x,
    decreases x,
{
    if x > 0 {
        crate::image::lemma_index_in_bounds(img.width as int, img.height as int, x - 1, y);
        assert(img.pixels@[img.index_of(x - 1, y)] <= MAX_PIXEL_VALUE);
        if x1 < x {
            lemma_row_prefix_bounds(img, y, x1, x - 1);
        } else {
            lemma_row_prefix_bounds(img, y, x - 1, x - 1);
        }
    }
}

/// Prefix sums are non-negative and bounded by the ceiling times the area.
pub proof fn lemma_box_bounds(img: RawImage, x: int, y: int)
    requires
        img.wf(),
        0 <= x <= img.width,
        0 <= y <= img.height,
    ensures
        0 <= box_sum(img, x, y) <= MAX_PIXEL_VALUE as int * x * y,
    decreases y,
{
    if y > 0 {
        lemma_box_bounds(img, x, y - 1);
        lemma_row_prefix_bounds(img, y - 1, 0, x);
        assert(MAX_PIXEL_VALUE as int * x * (y - 1) + MAX_PIXEL_VALUE as int * x
            == MAX_PIXEL_VALUE as int * x * y) by (nonlinear_arith);
    }
}

/// Prefix sums grow with `x`.
pub proof fn lemma_box_mono_x(img: RawImage, x1: int, x2: int, y: int)
    requires
        img.wf(),
        0 <= x1 <= x2 <= img.width,
        0 <= y <= img.height,
    ensures
        box_sum(img, x1, y) <= box_sum(img, x2, y),
    decreases y,
{
    if y > 0 {
        lemma_box_mono_x(img, x1, x2, y - 1);
        lemma_row_prefix_bounds(img, y - 1, x1, x2);
    }
}

/// Every prefix sum of a valid frame fits in a `u64` with room for the sum of two of them.
pub proof fn lemma_box_fits_u64(img: RawImage)
    requires
        img.wf(),
    ensures
        MAX_PIXEL_VALUE as int * img.width * img.height * 4 < u64::MAX,
{
    let w = img.width as int;
    let h = img.height as int;
    assert(MAX_PIXEL_VALUE as int * w * h * 4 <= 16383 * MAX_PIXELS as int * 4) by (nonlinear_arith)
        requires
            w * h <= MAX_PIXELS as int,
            0 < w,
            0 < h,
    ;
}

/// A box of `x` x `y` pixels sums to no more than the whole frame's ceiling.
proof fn lemma_box_le_total(img: RawImage, x: int, y: int)
    requires
        img.wf(),
        0 <= x <= img.width,
        0 <= y <= img.height,
    ensures
        0 <= box_sum(img, x, y),
        box_sum(img, x, y) * 4 < u64::MAX,
{
    lemma_box_bounds(img, x, y);
    lemma_box_fits_u64(img);
    let m = MAX_PIXEL_VALUE as int;
    assert(m * x * y <= m * img.width * img.height) by (nonlinear_arith)
        requires
            0 <= x <= img.width,
            0 <= y <= img.height,
            m >= 0,
    ;
}

/// Window sums are never negative.
pub proof fn lemma_window_nonneg(img: RawImage, x1: int, x2: int, y1: int, y2: int)
    requires
        img.wf(),
        0 <= x1 <= x2 <= img.width,
        0 <= y1 <= y2 <= img.height,
    ensures
        box_sum(img, x2, y2) - box_sum(img, x1, y2) - box_sum(img, x2, y1) + box_sum(img, x1, y1)
            >= 0,
    decreases y2,
{
    if y2 > y1 {
        lemma_window_nonneg(img, x1, x2, y1, y2 - 1);
        lemma_row_prefix_bounds(img, y2 - 1, x1, x2);
    }
}

/// The step that fills one table entry from its left, upper and upper-left neighbours.
pub proof fn lemma_box_step(img: RawImage, x: int, y: int)
    requires
        0 <= x,
        0 <= y,
    ensures
        box_sum(img, x + 1, y + 1) == img.at(x, y) + box_sum(img, x, y + 1) + box_sum(
            img,
            x + 1,
            y,
        ) - box_sum(img, x, y),
{
}

/// Builds the prefix-sum table of a frame in one pass over its pixels.
pub fn compute_integral_image(image: &RawImage) -> (r: IntegralImage)
    requires
        image.wf(),
    ensures
        r.wf(),
        r.image() == *image,
{
    let width = image.width;
    let height = image.height;
    let mut table: Vec<Vec<u64>> = Vec::new();
    let mut y: u32 = 0;
    while y < height
        invariant
            image.wf(),
            width == image.width,
            height == image.height,
            0 <= y <= height,
            table@.len() == y,
            forall|j: int| 0 <= j < y ==> (#[trigger] table@[j])@.len() == width,
            forall|j: int, i: int|
                0 <= j < y && 0 <= i < width ==> (#[trigger] table@[j]@[i]) == box_sum(
                    *image,
                    i + 1,
                    j + 1,
                ),
        decreases height - y,
    {
        let mut row: Vec<u64> = Vec::new();
        let mut x: u32 = 0;
        while x < width
            invariant
                image.wf(),
                width == image.width,
                height == image.height,
                0 <= y < height,
                0 <= x <= width,
                table@.len() == y,
                forall|j: int| 0 <= j < y ==> (#[trigger] table@[j])@.len() == width,
                forall|j: int, i: int|
                    0 <= j < y && 0 <= i < width ==> (#[trigger] table@[j]@[i]) == box_sum(
                        *image,
                        i + 1,
                        j + 1,
                    ),
                row@.len() == x,
                forall|i: int| 0 <= i < x ==> (#[trigger] row@[i]) == box_sum(*image, i + 1, y + 1),
            decreases width - x,
        {
            let left: u64 = if x > 0 {
                row[(x - 1) as usize]
            } else {
                proof {
                    lemma_box_zero(*image, 0, y + 1);
                }
                0
            };
            let above: u64 = if y > 0 {
                table[(y - 1) as usize][x as usize]
            } else {
                proof {
                    lemma_box_zero(*image, x + 1, 0);
                }
                0
            };
            let above_left: u64 = if x > 0 && y > 0 {
                table[(y - 1) as usize][(x - 1) as usize]
            } else {
                proof {
                    lemma_box_zero(*image, x as int, y as int);
                }
                0
            };
            let p: u16 = image.pixel(x, y);
            proof {
                lemma_box_step(*image, x as int, y as int);
                lemma_box_le_total(*image, x as int, y as int + 1);
                lemma_box_le_total(*image, x as int + 1, y as int);
                lemma_box_le_total(*image, x as int + 1, y as int + 1);
                lemma_box_le_total(*image, x as int, y as int);
            }
            let v: u64 = (p as u64 + left + above) - above_left;
            row.push(v);
            x = x + 1;
        }
        table.push(row);
        y = y + 1;
    }
    IntegralImage { width, height, table, source: Ghost(*image) }
}

/// The darkest and brightest windows of a frame, found in scan order.
#[derive(Clone, Copy, Debug, PartialEq, Eq, Structural)]
pub struct WindowExtremes {
    pub min_sum: u64,
    pub min_pos: Point,
    pub max_sum: u64,
    pub max_pos: Point,
}

/// `e` records the first window of least sum and the first window of greatest sum, in scan
/// order, over every `ws` x `ws` window of `img`.
pub open spec fn is_extremes_of(img: RawImage, ws: int, e: WindowExtremes) -> bool {
    let (bx, by, fx, fy) = (
        e.min_pos.x as int,
        e.min_pos.y as int,
        e.max_pos.x as int,
        e.max_pos.y as int,
    );
    &&& window_fits(img, bx, by, ws)
    &&& window_fits(img, fx, fy, ws)
    &&& e.min_sum == window_sum(img, bx, by, ws)
    &&& e.max_sum == window_sum(img, fx, fy, ws)
    &&& forall|x: int, y: int|
        window_fits(img, x, y, ws) ==> e.min_sum <= #[trigger] window_sum(img, x, y, ws)
            <= e.max_sum
    &&& forall|x: int, y: int|
        window_fits(img, x, y, ws) && scanned_before(x, y, bx, by) ==> e.min_sum
            < #[trigger] window_sum(img, x, y, ws)
    &&& forall|x: int, y: int|
        window_fits(img, x, y, ws) && scanned_before(x, y, fx, fy) ==> #[trigger] window_sum(
            img,
            x,
            y,
            ws,
        ) < e.max_sum
}

/// Scans every `window_size` x `window_size` window of the table's frame and returns the first
/// window of least sum and the first window of greatest sum.
pub fn find_extreme_windows(ii: &IntegralImage, window_size: u32) -> (r: WindowExtremes)
    requires
        ii.wf(),
        1 <= window_size <= ii.image().width,
        window_size <= ii.image().height,
    ensures
        is_extremes_of(ii.image(), window_size as int, r),
{
    let ghost img = ii.image();
    let ws = window_size;
    let nx: u32 = ii.width() - ws + 1;
    let ny: u32 = ii.height() - ws + 1;
    let first = ii.area_sum(0, 0, ws);
    let mut min_sum: u64 = first;
    let mut max_sum: u64 = first;
    let mut min_pos = Point { x: 0, y: 0 };
    let mut max_pos = Point { x: 0, y: 0 };
    let mut x: u32 = 0;
    while x < nx
        invariant
            ii.wf(),
            img == ii.image(),
            nx == img.width - ws + 1,
            ny == img.height - ws + 1,
            1 <= ws <= img.width,
            ws <= img.height,
            0 <= x <= nx,
            window_fits(img, min_pos.x as int, min_pos.y as int, ws as int),
            window_fits(img, max_pos.x as int, max_pos.y as int, ws as int),
            min_sum == window_sum(img, min_pos.x as int, min_pos.y as int, ws as int),
            max_sum == window_sum(img, max_pos.x as int, max_pos.y as int, ws as int),
            min_pos.x < x || (min_pos.x == 0 && min_pos.y == 0),
            max_pos.x < x || (max_pos.x == 0 && max_pos.y == 0),
            forall|px: int, py: int|
                window_fits(img, px, py, ws as int) && px < x ==> min_sum
                    <= #[trigger] window_sum(img, px, py, ws as int) <= max_sum,
            forall|px: int, py: int|
                window_fits(img, px, py, ws as int) && scanned_before(
                    px,
                    py,
                    min_pos.x as int,
                    min_pos.y as int,
                ) ==> min_sum < #[trigger] window_sum(img, px, py, ws as int),
            forall|px: int, py: int|
                window_fits(img, px, py, ws as int) && scanned_before(
                    px,
                    py,
                    max_pos.x as int,
                    max_pos.y as int,
                ) ==> #[trigger] window_sum(img, px, py, ws as int) < max_sum,
        decreases nx - x,
    {
        let mut y: u32 = 0;
        while y < ny
            invariant
                ii.wf(),
                img == ii.image(),
                nx == img.width - ws + 1,
                ny == img.height - ws + 1,
                1 <= ws <= img.width,
                ws <= img.height,
                0 <= x < nx,
                0 <= y <= ny,
                window_fits(img, min_pos.x as int, min_pos.y as int, ws as int),
                window_fits(img, max_pos.x as int, max_pos.y as int, ws as int),
                min_sum == window_sum(img, min_pos.x as int, min_pos.y as int, ws as int),
                max_sum == window_sum(img, max_pos.x as int, max_pos.y as int, ws as int),
                scanned_before(min_pos.x as int, min_pos.y as int, x as int, y as int) || (
                min_pos.x == 0 && min_pos.y == 0),
                scanned_before(max_pos.x as int, max_pos.y as int, x as int, y as int) || (
                max_pos.x == 0 && max_pos.y == 0),
                forall|px: int, py: int|
                    window_fits(img, px, py, ws as int) && scanned_before(
                        px,
                        py,
                        x as int,
                        y as int,
                    ) ==> min_sum <= #[trigger] window_sum(img, px, py, ws as int) <= max_sum,
                forall|px: int, py: int|
                    window_fits(img, px, py, ws as int) && scanned_before(
                        px,
                        py,
                        min_pos.x as int,
                        min_pos.y as int,
                    ) ==> min_sum < #[trigger] window_sum(img, px, py, ws as int),
                forall|px: int, py: int|
                    window_fits(img, px, py, ws as int) && scanned_before(
                        px,
                        py,
                        max_pos.x as int,
                        max_pos.y as int,
                    ) ==> #[trigger] window_sum(img, px, py, ws as int) < max_sum,
            decreases ny - y,
        {
            let s = ii.area_sum(x, y, ws);
            if s < min_sum {
                min_sum = s;
                min_pos = Point { x, y };
            }
            if s > max_sum {
                max_sum = s;
                max_pos = Point { x, y };
            }
            y = y + 1;
        }
        x = x + 1;
    }
    WindowExtremes { min_sum, min_pos, max_sum, max_pos }
}

/// A signal-to-noise ratio `num / den`, kept exact as a fraction of window sums; a zero
/// denominator stands for the ratio zero.
#[derive(Clone, Copy, Debug, PartialEq, Eq, Structural)]
pub struct Snr {
    pub num: u64,
    pub den: u64,
}

/// `a` is a strictly larger ratio than `b`.
pub open spec fn snr_gt(a: Snr, b: Snr) -> bool {
    if a.den == 0 {
        false
    } else if b.den == 0 {
        a.num > 0
    } else {
        a.num as int * b.den as int > b.num as int * a.den as int
    }
}

impl Snr {
    /// Whether this ratio is strictly larger than `other`.
    pub fn greater_than(&self, other: &Snr) -> (r: bool)
        ensures
            r == snr_gt(*self, *other),
    {
        if self.den == 0 {
            false
        } else if other.den == 0 {
            self.num > 0
        } else {
            proof {
                lemma_u64_product_fits(self.num, other.den);
                lemma_u64_product_fits(other.num, self.den);
            }
            (self.num as u128) * (other.den as u128) > (other.num as u128) * (self.den as u128)
        }
    }
}

/// The product of two `u64` values fits in a `u128`.
pub proof fn lemma_u64_product_fits(a: u64, b: u64)
    ensures
        0 <= a as int * b as int <= u128::MAX,
{
    assert(0 <= a as int * b as int <= u64::MAX as int * u64::MAX as int) by (nonlinear_arith)
        requires
            0 <= a <= u64::MAX,
            0 <= b <= u64::MAX,
    ;
}

/// What the signal-to-noise computation reports about a frame.
#[derive(Clone, Copy, Debug, PartialEq, Eq, Structural)]
pub struct SnrResult {
    pub signal_noise_ratio: Snr,
    pub background_rect: Rect,
    pub foreground_rect: Rect,
}

/// Why the signal-to-noise ratio of a frame cannot be computed.
#[derive(Clone, Copy, Debug, PartialEq, Eq, Structural)]
pub enum SnrError {
    /// The window size is zero.
    EmptyWindow,
    /// The window is wider or taller than the frame.
    WindowTooLarge,
}

/// Absolute difference of two integers.
pub open spec fn abs_diff(a: int, b: int) -> int {
    if a >= b {
        a - b
    } else {
        b - a
    }
}

/// `res` is the signal-to-noise report of `img` for windows of `ws` x `ws` pixels: the first
/// darkest window is the background, the first brightest the foreground, and the ratio is
/// `(max_mean - min_mean) / |min_mean - 300|`, both sides scaled by the window area.
pub open spec fn is_snr_of(img: RawImage, ws: int, res: SnrResult) -> bool {
    let b = res.background_rect;
    let f = res.foreground_rect;
    let bs = window_sum(img, b.pos.x as int, b.pos.y as int, ws);
    let fs = window_sum(img, f.pos.x as int, f.pos.y as int, ws);
    &&& b.width == ws && b.height == ws
    &&& f.width == ws && f.height == ws
    &&& is_extremes_of(
        img,
        ws,
        WindowExtremes { min_sum: bs as u64, min_pos: b.pos, max_sum: fs as u64, max_pos: f.pos },
    )
    &&& res.signal_noise_ratio.num == fs - bs
    &&& res.signal_noise_ratio.den == abs_diff(bs, DARK_OFFSET as int * ws * ws)
}

/// Signal-to-noise ratio of a frame over every `window_size` x `window_size` window, using an
/// integral image for constant-time window sums.
pub fn snr(image: &RawImage, window_size: u32) -> (r: Result<SnrResult, SnrError>)
    requires
        image.wf(),
    ensures
        window_size == 0 <==> r == Err::<SnrResult, SnrError>(SnrError::EmptyWindow),
        window_size > 0 && (window_size > image.width || window_size > image.height) <==> r
            == Err::<SnrResult, SnrError>(SnrError::WindowTooLarge),
        r is Ok ==> is_snr_of(*image, window_size as int, r->Ok_0),
{
    if window_size == 0 {
        return Err(SnrError::EmptyWindow);
    }
    if window_size > image.width || window_size > image.height {
        return Err(SnrError::WindowTooLarge);
    }
    let ii = compute_integral_image(image);
    let e = find_extreme_windows(&ii, window_size);
    proof {
        let w = image.width as int;
        let h = image.height as int;
        let ws = window_size as int;
        assert(ws * ws <= w * h) by (nonlinear_arith)
            requires
                1 <= ws <= w,
                ws <= h,
        ;
    }
    let dark: u64 = DARK_OFFSET * (window_size as u64 * window_size as u64);
    let den: u64 = if e.min_sum >= dark {
        e.min_sum - dark
    } else {
        dark - e.min_sum
    };
    let ratio = Snr { num: e.max_sum - e.min_sum, den };
    let background_rect = Rect { width: window_size, height: window_size, pos: e.min_pos };
    let foreground_rect = Rect { width: window_size, height: window_size, pos: e.max_pos };
    let res = SnrResult { signal_noise_ratio: ratio, background_rect, foreground_rect };
    proof {
        let ws = window_size as int;
        let bs = window_sum(*image, e.min_pos.x as int, e.min_pos.y as int, ws);
        let fs = window_sum(*image, e.max_pos.x as int, e.max_pos.y as int, ws);
        assert(DARK_OFFSET as int * ws * ws == DARK_OFFSET as int * (ws * ws)) by (nonlinear_arith);
        assert(e == WindowExtremes {
            min_sum: bs as u64,
            min_pos: e.min_pos,
            max_sum: fs as u64,
            max_pos: e.max_pos,
        });
    }
    Ok(res)
}

/// On a frame whose pixels all hold `v`, every prefix sum is `v` times the box's area.
pub proof fn lemma_uniform_box(img: RawImage, v: int, x: int, y: int)
    requires
        img.wf(),
        forall|i: int| 0 <= i < img.pixels@.len() ==> img.pixels@[i] == v,
        0 <= x <= img.width,
        0 <= y <= img.height,
    ensures
        box_sum(img, x, y) == v * x * y,
    decreases y,
{
    if y > 0 {
        lemma_uniform_box(img, v, x, y - 1);
        lemma_uniform_row(img, v, y - 1, x);
        assert(v * x * (y - 1) + v * x == v * x * y) by (nonlinear_arith);
    } else {
        assert(v * x * 0 == 0) by (nonlinear_arith);
    }
}

/// On a frame whose pixels all hold `v`, every row prefix is `v` times its length.
pub proof fn lemma_uniform_row(img: RawImage, v: int, y: int, x: int)
    requires
        img.wf(),
        forall|i: int| 0 <= i < img.pixels@.len() ==> img.pixels@[i] == v,
        0 <= x <= img.width,
        0 <= y < img.height,
    ensures
        row_prefix(img, y, x) == v * x,
    decreases x,
{
    if x > 0 {
        lemma_uniform_row(img, v, y, x - 1);
        crate::image::lemma_index_in_bounds(img.width as int, img.height as int, x - 1, y);
        assert(v * (x - 1) + v == v * x) by (nonlinear_arith);
    } else {
        assert(v * 0 == 0) by (nonlinear_arith);
    }
}

/// On a uniform frame the signal-to-noise ratio is zero and the background and foreground
/// windows are the same window, the first one scanned.
pub proof fn lemma_snr_uniform(img: RawImage, ws: int, res: SnrResult)
    requires
        img.wf(),
        forall|i: int, j: int|
            0 <= i < img.pixels@.len() && 0 <= j < img.pixels@.len() ==> img.pixels@[i]
                == img.pixels@[j],
        is_snr_of(img, ws, res),
    ensures
        res.signal_noise_ratio.num == 0,
        res.background_rect == res.foreground_rect,
        res.background_rect.pos == (Point { x: 0, y: 0 }),
{
    let v = img.pixels@[0] as int;
    assert forall|i: int| 0 <= i < img.pixels@.len() implies img.pixels@[i] == v by {
        assert(img.pixels@[i] == img.pixels@[0]);
    }
    assert forall|x: int, y: int| window_fits(img, x, y, ws) implies #[trigger] window_sum(
        img,
        x,
        y,
        ws,
    ) == v * ws * ws by {
        lemma_uniform_box(img, v, x + ws, y + ws);
        lemma_uniform_box(img, v, x, y + ws);
        lemma_uniform_box(img, v, x + ws, y);
        lemma_uniform_box(img, v, x, y);
        assert(v * (x + ws) * (y + ws) - v * x * (y + ws) - v * (x + ws) * y + v * x * y == v * ws
            * ws) by (nonlinear_arith);
    }
    let b = res.background_rect;
    let f = res.foreground_rect;
    assert(window_fits(img, 0, 0, ws));
    assert(window_sum(img, 0, 0, ws) == v * ws * ws);
    if !(b.pos.x == 0 && b.pos.y == 0) {
        assert(scanned_before(0, 0, b.pos.x as int, b.pos.y as int));
    }
    if !(f.pos.x == 0 && f.pos.y == 0) {
        assert(scanned_before(0, 0, f.pos.x as int, f.pos.y as int));
    }
}

/// Largest coordinate magnitude `get_points_along_line` takes (a quarter of `isize::MAX`), so
/// that the distances stay within `isize` and its error term within 128 bits.
pub open spec fn max_line_coord() -> int {
    isize::MAX as int / 4
}

/// Bresenham's walk from `(x, y)` with error term `err` towards `(x2, y2)`, for at most `fuel`
/// steps; every visited pixel, the starting one first.
pub open spec fn line_walk(
    x: int,
    y: int,
    err: int,
    x2: int,
    y2: int,
    dx: int,
    dy: int,
    sx: int,
    sy: int,
    fuel: nat,
) -> Seq<(int, int)>
    decreases fuel,
{
    if fuel == 0 || (x == x2 && y == y2) {
        seq![(x, y)]
    } else {
        let e2 = 2 * err;
        let err1 = if e2 > -dy {
            err - dy
        } else {
            err
        };
        let nx = if e2 > -dy {
            x + sx
        } else {
            x
        };
        let err2 = if e2 < dx {
            err1 + dx
        } else {
            err1
        };
        let ny = if e2 < dx {
            y + sy
        } else {
            y
        };
        seq![(x, y)] + line_walk(nx, ny, err2, x2, y2, dx, dy, sx, sy, (fuel - 1) as nat)
    }
}

/// Absolute value.
pub open spec fn abs(v: int) -> int {
    if v < 0 {
        -v
    } else {
        v
    }
}

/// The pixels of Bresenham's line from `(x1, y1)` to `(x2, y2)`, both ends included.
pub open spec fn bresenham(x1: int, y1: int, x2: int, y2: int) -> Seq<(int, int)> {
    let dx = abs(x2 - x1);
    let dy = abs(y2 - y1);
    line_walk(
        x1,
        y1,
        dx - dy,
        x2,
        y2,
        dx,
        dy,
        if x1 < x2 {
            1
        } else {
            -1
        },
        if y1 < y2 {
            1
        } else {
            -1
        },
        (dx + dy) as nat,
    )
}

/// The pixels on the line from `(x1, y1)` to `(x2, y2)`, in order, by Bresenham's algorithm;
/// the first is `(x1, y1)` and the last `(x2, y2)`.
pub fn get_points_along_line(x1: isize, y1: isize, x2: isize, y2: isize) -> (r: Vec<(isize, isize)>)
    requires
        -max_line_coord() <= x1 <= max_line_coord(),
        -max_line_coord() <= y1 <= max_line_coord(),
        -max_line_coord() <= x2 <= max_line_coord(),
        -max_line_coord() <= y2 <= max_line_coord(),
    ensures
        r@.map_values(|p: (isize, isize)| (p.0 as int, p.1 as int)) == bresenham(
            x1 as int,
            y1 as int,
            x2 as int,
            y2 as int,
        ),
        r@.len() >= 1,
        r@[0] == (x1, y1),
        r@.last() == (x2, y2),
{
    let ghost full = bresenham(x1 as int, y1 as int, x2 as int, y2 as int);
    let mut points: Vec<(isize, isize)> = Vec::new();
    let dx: i128 = if x2 >= x1 {
        (x2 as i128) - (x1 as i128)
    } else {
        (x1 as i128) - (x2 as i128)
    };
    let dy: i128 = if y2 >= y1 {
        (y2 as i128) - (y1 as i128)
    } else {
        (y1 as i128) - (y2 as i128)
    };
    let step_x: isize = if x1 < x2 {
        1
    } else {
        -1
    };
    let step_y: isize = if y1 < y2 {
        1
    } else {
        -1
    };
    let ghost sx: int = step_x as int;
    let ghost sy: int = step_y as int;
    let mut x: isize = x1;
    let mut y: isize = y1;
    let mut err: i128 = dx - dy;
    let ghost mut fuel: nat = (dx + dy) as nat;
    let ghost mut nx: int = 0;
    let ghost mut ny: int = 0;
    while x != x2 || y != y2
        invariant
            -max_line_coord() <= x1 <= max_line_coord(),
            -max_line_coord() <= y1 <= max_line_coord(),
            -max_line_coord() <= x2 <= max_line_coord(),
            -max_line_coord() <= y2 <= max_line_coord(),
            dx == abs(x2 - x1),
            dy == abs(y2 - y1),
            sx == (if x1 < x2 {
                1int
            } else {
                -1int
            }),
            sy == (if y1 < y2 {
                1int
            } else {
                -1int
            }),
            step_x == sx,
            step_y == sy,
            0 <= nx <= dx,
            0 <= ny <= dy,
            x == x1 + sx * nx,
            y == y1 + sy * ny,
            err == dx - dy + dx * ny - dy * nx,
            fuel >= (dx - nx) + (dy - ny),
            full == bresenham(x1 as int, y1 as int, x2 as int, y2 as int),
            points@.map_values(|p: (isize, isize)| (p.0 as int, p.1 as int)) + line_walk(
                x as int,
                y as int,
                err as int,
                x2 as int,
                y2 as int,
                dx as int,
                dy as int,
                sx,
                sy,
                fuel,
            ) == full,
            points@.len() == 0 ==> x == x1 && y == y1,
            points@.len() > 0 ==> points@[0] == (x1, y1),
        decreases (dx - nx) + (dy - ny),
    {
        proof {
            lemma_walk_ends(x1 as int, x2 as int, sx, dx as int);
            lemma_walk_ends(y1 as int, y2 as int, sy, dy as int);
            lemma_line_step_bounds(dx as int, dy as int, nx, ny);
            if nx == dx {
                assert(x == x2);
            }
            if ny == dy {
                assert(y == y2);
            }
        }
        let ghost before = points@;
        let ghost (ox, oy, oerr) = (x as int, y as int, err as int);
        points.push((x, y));
        let err2: i128 = 2 * err;
        if err2 > -dy {
            proof {
                assert(sx * (nx + 1) == sx * nx + sx) by (nonlinear_arith);
                assert(dy * (nx + 1) == dy * nx + dy) by (nonlinear_arith);
                lemma_between(x1 as int, x2 as int, sx, nx + 1, dx as int);
            }
            err = err - dy;
            x = x + step_x;
            proof {
                nx = nx + 1;
            }
        }
        if err2 < dx {
            proof {
                assert(sy * (ny + 1) == sy * ny + sy) by (nonlinear_arith);
                assert(dx * (ny + 1) == dx * ny + dx) by (nonlinear_arith);
                lemma_between(y1 as int, y2 as int, sy, ny + 1, dy as int);
            }
            err = err + dx;
            y = y + step_y;
            proof {
                ny = ny + 1;
            }
        }
        proof {
            assert(fuel > 0);
            let f1 = (fuel - 1) as nat;
            assert(line_walk(ox, oy, oerr, x2 as int, y2 as int, dx as int, dy as int, sx, sy, fuel)
                == seq![(ox, oy)] + line_walk(x as int, y as int, err as int, x2 as int, y2 as int, dx as int, dy as int, sx, sy, f1));
            fuel = f1;
            assert(points@.map_values(|p: (isize, isize)| (p.0 as int, p.1 as int)) =~= before.map_values(
                |p: (isize, isize)| (p.0 as int, p.1 as int),
            ).push((ox, oy)));
            assert(points@.map_values(|p: (isize, isize)| (p.0 as int, p.1 as int)) + line_walk(
                x as int, y as int, err as int, x2 as int, y2 as int, dx as int, dy as int, sx, sy, fuel,
            ) =~= full);
        }
    }
    points.push((x, y));
    proof {
        assert(points@.map_values(|p: (isize, isize)| (p.0 as int, p.1 as int)) =~= full);
    }
    points
}

/// A point `n` steps from `a` towards `b`, with `n` no more than the distance, lies between them.
proof fn lemma_between(a: int, b: int, s: int, n: int, d: int)
    requires
        d == abs(b - a),
        s == (if a < b {
            1int
        } else {
            -1int
        }),
        0 <= n <= d,
    ensures
        a <= b ==> a <= a + s * n <= b,
        a > b ==> b <= a + s * n <= a,
{
    if a < b {
        assert(s * n == n);
    } else {
        assert(s * n == -n) by (nonlinear_arith)
            requires
                s == -1,
        ;
    }
}

/// Walking the whole distance from `a` towards `b` ends at `b`.
proof fn lemma_walk_ends(a: int, b: int, s: int, d: int)
    requires
        d == abs(b - a),
        s == (if a < b {
            1int
        } else {
            -1int
        }),
    ensures
        a + s * d == b,
{
    if a < b {
        assert(s * d == d);
    } else {
        assert(s * d == -d) by (nonlinear_arith)
            requires
                s == -1,
        ;
    }
}

/// Bounds and progress of one step of the line walk: the error term fits in 128 bits, a
/// finished coordinate does not move, and at least one coordinate moves.
proof fn lemma_line_step_bounds(dx: int, dy: int, nx: int, ny: int)
    requires
        0 <= dx <= 2 * max_line_coord(),
        0 <= dy <= 2 * max_line_coord(),
        0 <= nx <= dx,
        0 <= ny <= dy,
        nx < dx || ny < dy,
    ensures
        ({
            let e = dx - dy + dx * ny - dy * nx;
            &&& -0x2000_0000_0000_0000_0000_0000_0000_0000 < e < 0x2000_0000_0000_0000_0000_0000_0000_0000
            &&& (nx == dx ==> !(2 * e > -dy))
            &&& (ny == dy ==> !(2 * e < dx))
            &&& (2 * e > -dy || 2 * e < dx)
        }),
{
    let e = dx - dy + dx * ny - dy * nx;
    assert(0 <= dx * ny <= dx * dy) by (nonlinear_arith)
        requires
            0 <= dx,
            0 <= ny <= dy,
    ;
    assert(0 <= dy * nx <= dy * dx) by (nonlinear_arith)
        requires
            0 <= dy,
            0 <= nx <= dx,
    ;
    assert(isize::MAX <= 0x7fff_ffff_ffff_ffff);
    assert(dx * dy <= 0x1000_0000_0000_0000_0000_0000_0000_0000) by (nonlinear_arith)
        requires
            0 <= dx <= 0x4000_0000_0000_0000,
            0 <= dy <= 0x4000_0000_0000_0000,
    ;
    assert(dx * dy == dy * dx) by (nonlinear_arith);
    if nx == dx {
        assert(ny <= dy - 1);
        assert(dx * ny <= dx * (dy - 1)) by (nonlinear_arith)
            requires
                0 <= dx,
                ny <= dy - 1,
        ;
        assert(dx * (dy - 1) == dx * dy - dx) by (nonlinear_arith);
    }
    if ny == dy {
        assert(nx <= dx - 1);
        assert(dy * nx <= dy * (dx - 1)) by (nonlinear_arith)
            requires
                0 <= dy,
                nx <= dx - 1,
        ;
        assert(dy * (dx - 1) == dy * dx - dy) by (nonlinear_arith);
    }
}

} // verus!
