use cview::filters::{median_filter_3x3, median_of};
use cview::image::RawImage;
use cview::protocols::SmartCapture;
use cview::stats::SnrError;

#[test]
fn median_of_odd_and_even_runs() {
    assert_eq!(median_of(&vec![5]), 5);
    assert_eq!(median_of(&vec![9, 1, 5]), 5);
    assert_eq!(median_of(&vec![4, 1, 3, 2]), 3);
    assert_eq!(median_of(&vec![7, 7, 1, 7, 1, 1, 1, 9, 9]), 7);
}

#[test]
fn median_filter_removes_a_hot_pixel() {
    let mut img = RawImage::filled(5, 4, 100);
    img.pixels[2 * 5 + 2] = 16000;
    let out = median_filter_3x3(&img);
    assert_eq!(out.width, 5);
    assert_eq!(out.height, 4);
    assert!(out.pixels.iter().all(|p| *p == 100));
}

#[test]
fn median_filter_at_corners_uses_pixels_inside() {
    // 2x2 frame: every neighbourhood is the whole frame {1, 2, 3, 4}; the upper middle is 3
    let img = RawImage::new(2, 2, vec![1, 2, 3, 4]).unwrap();
    let out = median_filter_3x3(&img);
    assert_eq!(out.pixels, vec![3, 3, 3, 3]);
}

#[test]
fn smart_capture_scores_filtered_frames() {
    let mut img = RawImage::filled(8, 8, 400);
    img.pixels[3 * 8 + 3] = 16383;
    let plain = SmartCapture { exp_times: vec![10], frames_per_capture: 1, window_size: 1, median_filtered: false };
    let (scored, r) = plain.score_frame(img.clone());
    assert_eq!(scored.pixels, img.pixels);
    assert!(r.unwrap().signal_noise_ratio.num > 0);
    let filtered = SmartCapture { median_filtered: true, ..plain.clone() };
    let (scored, r) = filtered.score_frame(img.clone());
    assert!(scored.pixels.iter().all(|p| *p == 400));
    assert_eq!(r.unwrap().signal_noise_ratio.num, 0);
    let too_big = SmartCapture { window_size: 9, ..plain };
    assert_eq!(too_big.score_frame(img).1.unwrap_err(), SnrError::WindowTooLarge);
}
