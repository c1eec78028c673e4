use vstd::prelude::*;

use crate::image::{RawImage, MAX_PIXEL_VALUE};
use vstd::relations::{sorted_by, total_ordering};

verus! {

broadcast use vstd::seq_lib::group_to_multiset_ensures;

/// The usual order on pixel values.
pub open spec fn pixel_leq() -> spec_fn(u16, u16) -> bool {
    |a: u16, b: u16| a <= b
}

/// The median of a non-empty run of values: the middle element (the upper one of the two
/// middles for an even count) once the values are sorted.
pub open spec fn median(s: Seq<u16>) -> u16 {
    s.sort_by(pixel_leq())[(s.len() / 2) as int]
}

/// The pixels of row `yy` in columns `x - 1 ..= x + 1` that lie inside the frame.
pub open spec fn row3(img: RawImage, x: int, yy: int) -> Seq<u16> {
    if 0 <= yy < img.height {
        (if x >= 1 {
            seq![img.at(x - 1, yy) as u16]
        } else {
            Seq::empty()
        }) + seq![img.at(x, yy) as u16] + (if x + 1 < img.width {
            seq![img.at(x + 1, yy) as u16]
        } else {
            Seq::empty()
        })
    } else {
        Seq::empty()
    }
}

/// The pixels of the 3 x 3 neighbourhood of `(x, y)` that lie inside the frame, row by row.
pub open spec fn window3(img: RawImage, x: int, y: int) -> Seq<u16> {
    row3(img, x, y - 1) + row3(img, x, y) + row3(img, x, y + 1)
}

/// `dst` is `src` passed through the 3 x 3 median filter.
pub open spec fn is_median_filtered(src: RawImage, dst: RawImage) -> bool {
    &&& dst.wf()
    &&& dst.same_dims(&src)
    &&& forall|x: int, y: int|
        0 <= x < src.width && 0 <= y < src.height ==> #[trigger] dst.at(x, y) == median(
            window3(src, x, y),
        )
}

/// A sorted copy of `v`.
fn sorted_copy(v: &Vec<u16>) -> (r: Vec<u16>)
    ensures
        sorted_by(r@, pixel_leq()),
        r@.to_multiset() == v@.to_multiset(),
{
    let mut out: Vec<u16> = Vec::new();
    let mut i: usize = 0;
    while i < v.len()
        invariant
            0 <= i <= v@.len(),
            sorted_by(out@, pixel_leq()),
            out@.to_multiset() == v@.subrange(0, i as int).to_multiset(),
        decreases v@.len() - i,
    {
        let x = v[i];
        let mut k: usize = 0;
        while k < out.len() && out[k] <= x
            invariant
                0 <= k <= out@.len(),
                forall|j: int| 0 <= j < k ==> out@[j] <= x,
            decreases out@.len() - k,
        {
            k = k + 1;
        }
        let ghost before = out@;
        out.insert(k, x);
        proof {
            assert(out@ == before.insert(k as int, x));
            assert forall|a: int, b: int| 0 <= a < b < out@.len() implies #[trigger] (pixel_leq())(
                out@[a],
                out@[b],
            ) by {
                assert(sorted_by(before, pixel_leq()));
                if b < k {
                    assert((pixel_leq())(before[a], before[b]));
                } else if b == k {
                } else if a < k {
                    assert((pixel_leq())(before[a], before[b - 1]));
                } else if a == k {
                    if k < before.len() {
                        assert(before[k as int] > x);
                        if b - 1 > k {
                            assert((pixel_leq())(before[k as int], before[b - 1]));
                        }
                    }
                } else {
                    assert((pixel_leq())(before[a - 1], before[b - 1]));
                }
            }
            assert(v@.subrange(0, i as int + 1) =~= v@.subrange(0, i as int).push(x));
        }
        i = i + 1;
    }
    assert(v@.subrange(0, i as int) =~= v@);
    out
}

/// The median of a non-empty run of pixel values.
pub fn median_of(v: &Vec<u16>) -> (r: u16)
    requires
        v@.len() >= 1,
    ensures
        r == median(v@),
        v@.contains(r),
{
    let s = sorted_copy(v);
    proof {
        let leq = pixel_leq();
        assert(total_ordering(leq)) by {
            assert(vstd::relations::reflexive(leq));
            assert(vstd::relations::antisymmetric(leq));
            assert(vstd::relations::transitive(leq));
            assert(vstd::relations::strongly_connected(leq));
        }
        v@.lemma_sort_by_ensures(leq);
        vstd::seq_lib::lemma_sorted_unique(s@, v@.sort_by(leq), leq);
        assert(s@.len() == s@.to_multiset().len());
        assert(v@.len() == v@.to_multiset().len());
        let m = s@[(s@.len() / 2) as int];
        assert(s@.contains(m));
        assert(s@.to_multiset().contains(m));
        assert(v@.to_multiset().contains(m));
    }
    s[s.len() / 2]
}

/// A 3 x 3 median filter: each pixel becomes the median of its neighbourhood inside the frame.
pub fn median_filter_3x3(image: &RawImage) -> (r: RawImage)
    requires
        image.wf(),
    ensures
        is_median_filtered(*image, r),
{
    let w = image.width;
    let h = image.height;
    let mut out: Vec<u16> = Vec::new();
    let mut y: u32 = 0;
    while y < h
        invariant
            image.wf(),
            w == image.width,
            h == image.height,
            0 <= y <= h,
            out@.len() == y * w,
            crate::image::in_range(out@),
            forall|px: int, py: int|
                0 <= px < w && 0 <= py < y ==> out@[py * w + px] == median(window3(*image, px, py)),
        decreases h - y,
    {
        let mut x: u32 = 0;
        while x < w
            invariant
                image.wf(),
                w == image.width,
                h == image.height,
                0 <= y < h,
                0 <= x <= w,
                out@.len() == y * w + x,
                crate::image::in_range(out@),
                forall|px: int, py: int|
                    0 <= px < w && 0 <= py < y ==> out@[py * w + px] == median(
                        window3(*image, px, py),
                    ),
                forall|px: int| 0 <= px < x ==> out@[y * w + px] == median(window3(*image, px, y as int)),
            decreases w - x,
        {
            let win = neighbourhood(image, x, y);
            let m = median_of(&win);
            proof {
                let k = choose|k: int| 0 <= k < win@.len() && win@[k] == m;
                window3_in_range(*image, x as int, y as int, k);
            }
            let ghost before = out@;
            out.push(m);
            proof {
                assert forall|px: int, py: int|
                    0 <= px < w && 0 <= py < y implies out@[py * w + px] == median(
                        window3(*image, px, py),
                    ) by {
                    assert(py * w + px < y * w) by (nonlinear_arith)
                        requires
                            0 <= px < w,
                            0 <= py < y,
                    ;
                    assert(out@[py * w + px] == before[py * w + px]);
                }
            }
            x = x + 1;
        }
        proof {
            assert forall|px: int, py: int|
                0 <= px < w && 0 <= py < y + 1 implies out@[py * w + px] == median(
                    window3(*image, px, py),
                ) by {
                if py == y {
                } else {
                }
            }
            assert((y + 1) * w == y * w + w) by (nonlinear_arith);
        }
        y = y + 1;
    }
    let r = RawImage { width: w, height: h, pixels: out };
    proof {
        assert(h as int * w as int == w as int * h as int) by (nonlinear_arith);
        assert forall|x: int, y: int|
            0 <= x < image.width && 0 <= y < image.height implies #[trigger] r.at(x, y) == median(
                window3(*image, x, y),
            ) by {
            assert(r.index_of(x, y) == y * w + x);
        }
    }
    r
}

/// Every value of a neighbourhood is a 14-bit pixel.
proof fn window3_in_range(img: RawImage, x: int, y: int, k: int)
    requires
        img.wf(),
        0 <= x < img.width,
        0 <= y < img.height,
        0 <= k < window3(img, x, y).len(),
    ensures
        window3(img, x, y)[k] <= MAX_PIXEL_VALUE,
{
    assert forall|xx: int, yy: int|
        0 <= xx < img.width && 0 <= yy < img.height implies #[trigger] img.at(xx, yy)
        <= MAX_PIXEL_VALUE by {
        crate::image::lemma_index_in_bounds(img.width as int, img.height as int, xx, yy);
    }
}

/// The pixels of row `yy`, columns `x - 1 ..= x + 1`, inside the frame.
fn push_row3(out: &mut Vec<u16>, image: &RawImage, x: u32, yy: u32)
    requires
        image.wf(),
        x < image.width,
        yy < image.height,
    ensures
        final(out)@ == old(out)@ + row3(*image, x as int, yy as int),
{
    if x >= 1 {
        out.push(image.pixel(x - 1, yy));
    }
    out.push(image.pixel(x, yy));
    if x + 1 < image.width {
        out.push(image.pixel(x + 1, yy));
    }
    proof {
        assert(final(out)@ =~= old(out)@ + row3(*image, x as int, yy as int));
    }
}

/// The 3 x 3 neighbourhood of `(x, y)` inside the frame, row by row.
fn neighbourhood(image: &RawImage, x: u32, y: u32) -> (r: Vec<u16>)
    requires
        image.wf(),
        x < image.width,
        y < image.height,
    ensures
        r@ == window3(*image, x as int, y as int),
        r@.len() >= 1,
{
    let mut out: Vec<u16> = Vec::new();
    if y >= 1 {
        push_row3(&mut out, image, x, y - 1);
    }
    let ghost mid = out@;
    push_row3(&mut out, image, x, y);
    if y + 1 < image.height {
        push_row3(&mut out, image, x, y + 1);
    }
    proof {
        assert(out@ =~= window3(*image, x as int, y as int));
    }
    out
}

} // verus!
