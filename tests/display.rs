use cview::display::{frame_payload, gray_level};
use cview::image::RawImage;

#[test]
fn gray_levels_span_eight_bits() {
    assert_eq!(gray_level(0, false), 0);
    assert_eq!(gray_level(16383, false), 255);
    assert_eq!(gray_level(8191, false), 127);
    assert_eq!(gray_level(8191, true), 128);
    assert_eq!(gray_level(0, true), 255);
}

#[test]
fn payload_has_header_and_highlights_saturation() {
    let img = RawImage::new(2, 1, vec![100, 16383]).unwrap();
    let plain = frame_payload(&img, None, false);
    assert_eq!(plain, vec![2, 0, 0, 0, 1, 0, 0, 0, 1, 1, 1, 255, 255, 255, 255, 255]);
    let marked = frame_payload(&img, Some(100), false);
    assert_eq!(&marked[8..], &[1, 1, 1, 255, 255, 0, 0, 255]);
    let inverted = frame_payload(&img, Some(20000), true);
    assert_eq!(&inverted[8..], &[254, 254, 254, 255, 0, 0, 0, 255]);
    let wide = RawImage::filled(300, 1, 0);
    assert_eq!(&frame_payload(&wide, None, false)[0..8], &[44, 1, 0, 0, 1, 0, 0, 0]);
}
