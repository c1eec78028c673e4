use vstd::prelude::*;

use crate::image::{RawImage, MAX_PIXEL_VALUE};

verus! {

/// The 8-bit gray level of a 14-bit pixel, inverted on request.
pub open spec fn gray8(p: int, inverted: bool) -> int {
    let v = p * 255 / MAX_PIXEL_VALUE as int;
    if inverted {
        255 - v
    } else {
        v
    }
}

/// The RGBA bytes shown for pixel `p`: pure red when it exceeds the saturation threshold,
/// else opaque gray.
pub open spec fn rgba_of(p: u16, threshold: Option<u32>, inverted: bool) -> Seq<u8> {
    if threshold is Some && p as int > threshold->0 as int {
        seq![255u8, 0u8, 0u8, 255u8]
    } else {
        let g = gray8(p as int, inverted) as u8;
        seq![g, g, g, 255u8]
    }
}

/// The four little-endian bytes of `v`.
pub open spec fn le_bytes(v: u32) -> Seq<u8> {
    seq![
        (v % 256) as u8,
        (v / 256 % 256) as u8,
        (v / 65536 % 256) as u8,
        (v / 16777216) as u8,
    ]
}

/// The 8-bit gray level of a 14-bit pixel, inverted on request.
pub fn gray_level(p: u16, inverted: bool) -> (r: u8)
    requires
        p <= MAX_PIXEL_VALUE,
    ensures
        r as int == gray8(p as int, inverted),
{
    assert(p as int * 255 / 16383 <= 255) by (nonlinear_arith)
        requires
            0 <= p <= 16383,
    ;
    assert(0 <= p as int * 255 / 16383) by (nonlinear_arith)
        requires
            0 <= p,
    ;
    let v: u32 = (p as u32 * 255) / (MAX_PIXEL_VALUE as u32);
    if inverted {
        (255 - v) as u8
    } else {
        v as u8
    }
}

/// Pushes the little-endian bytes of `v`.
fn push_le_u32(out: &mut Vec<u8>, v: u32)
    ensures
        final(out)@ == old(out)@ + le_bytes(v),
{
    out.push((v % 256) as u8);
    out.push((v / 256 % 256) as u8);
    out.push((v / 65536 % 256) as u8);
    out.push((v / 16777216) as u8);
    proof {
        assert(final(out)@ =~= old(out)@ + le_bytes(v));
    }
}

/// What the viewer receives for a frame: its width and height as little-endian `u32`s, then
/// four RGBA bytes per pixel, row by row.
pub fn frame_payload(image: &RawImage, saturated_pixel_threshold: Option<u32>, inverted: bool) -> (r:
    Vec<u8>)
    requires
        image.wf(),
    ensures
        r@.len() == 8 + 4 * image.pixels@.len(),
        r@.subrange(0, 4) == le_bytes(image.width),
        r@.subrange(4, 8) == le_bytes(image.height),
        forall|i: int|
            0 <= i < image.pixels@.len() ==> #[trigger] r@.subrange(8 + 4 * i, 12 + 4 * i)
                == rgba_of(image.pixels@[i], saturated_pixel_threshold, inverted),
{
    let mut out: Vec<u8> = Vec::new();
    push_le_u32(&mut out, image.width);
    push_le_u32(&mut out, image.height);
    let ghost header = out@;
    let mut i: usize = 0;
    while i < image.pixels.len()
        invariant
            image.wf(),
            header.len() == 8,
            header.subrange(0, 4) == le_bytes(image.width),
            header.subrange(4, 8) == le_bytes(image.height),
            0 <= i <= image.pixels@.len(),
            out@.len() == 8 + 4 * i,
            out@.subrange(0, 8) == header,
            forall|j: int|
                0 <= j < i ==> #[trigger] out@.subrange(8 + 4 * j, 12 + 4 * j) == rgba_of(
                    image.pixels@[j],
                    saturated_pixel_threshold,
                    inverted,
                ),
        decreases image.pixels@.len() - i,
    {
        let p = image.pixels[i];
        let red = match saturated_pixel_threshold {
            Some(t) => p as u32 > t,
            None => false,
        };
        let ghost before = out@;
        if red {
            out.push(255);
            out.push(0);
            out.push(0);
            out.push(255);
        } else {
            let g = gray_level(p, inverted);
            out.push(g);
            out.push(g);
            out.push(g);
            out.push(255);
        }
        proof {
            assert(out@.subrange(8 + 4 * i, 12 + 4 * i) =~= rgba_of(p, saturated_pixel_threshold, inverted));
            assert forall|j: int| 0 <= j < i + 1 implies #[trigger] out@.subrange(8 + 4 * j, 12 + 4 * j)
                == rgba_of(image.pixels@[j], saturated_pixel_threshold, inverted) by {
                if j < i {
                    assert(out@.subrange(8 + 4 * j, 12 + 4 * j) =~= before.subrange(8 + 4 * j, 12 + 4 * j));
                }
            }
            assert(out@.subrange(0, 8) =~= header);
        }
        i = i + 1;
    }
    proof {
        assert(out@.subrange(0, 4) =~= header.subrange(0, 4));
        assert(out@.subrange(4, 8) =~= header.subrange(4, 8));
    }
    out
}

} // verus!
