use cview::image::RawImage;
use cview::stats::{compute_integral_image, get_points_along_line, snr, Snr, SnrError};
use cview::types::Point;

fn create_test_image(width: u32, height: u32, value: u16) -> RawImage {
    RawImage::filled(width, height, value)
}

fn set_region_to_value(img: &mut RawImage, x: u32, y: u32, width: u32, height: u32, value: u16) {
    for i in x..x + width {
        for j in y..y + height {
            if i < img.width && j < img.height {
                let idx = (j * img.width + i) as usize;
                img.pixels[idx] = value;
            }
        }
    }
}

#[test]
fn test_integral() {
    let test_image = create_test_image(1031, 1536, 500);
    let integral_image = compute_integral_image(&test_image);
    let sum = integral_image.area_sum(50, 50, 50);
    println!("{}", sum);
    assert_eq!(sum, 500 * 50 * 50);
}

#[test]
fn test_snr() {
    let mut test_image = create_test_image(1031, 1536, 500);
    let window_size = 50;

    set_region_to_value(&mut test_image, 0, 0, 50, 50, 100);
    let result = snr(&test_image, window_size);

    assert!(result.is_ok());
    let r = result.unwrap();
    println!("{:?} {:?} {:?}", r.signal_noise_ratio, r.background_rect, r.foreground_rect);
}

#[test]
fn test_snr_normal_case() {
    let mut image = create_test_image(1500, 1500, 100);
    set_region_to_value(&mut image, 0, 0, 5, 5, 500);

    let window_size = 5;

    let x = snr(&image, window_size).unwrap();
    println!("{:?}", x);
}

#[test]
fn integral_sums_a_window_with_a_bright_patch() {
    let mut img = create_test_image(8, 6, 10);
    set_region_to_value(&mut img, 2, 1, 2, 2, 30);
    let ii = compute_integral_image(&img);
    assert_eq!(ii.area_sum(0, 0, 1), 10);
    assert_eq!(ii.area_sum(2, 1, 2), 120);
    assert_eq!(ii.area_sum(1, 0, 3), 5 * 10 + 4 * 30);
    assert_eq!(ii.area_sum(0, 0, 6), 36 * 10 + 4 * 20);
}

#[test]
fn snr_finds_darkest_and_brightest_windows() {
    // background 400, a 4x4 patch of 800 at (8, 4): windows of 4
    let mut img = create_test_image(16, 12, 400);
    set_region_to_value(&mut img, 8, 4, 4, 4, 800);
    let r = snr(&img, 4).unwrap();
    assert_eq!(r.background_rect.pos, Point { x: 0, y: 0 });
    assert_eq!(r.foreground_rect.pos, Point { x: 8, y: 4 });
    assert_eq!(r.background_rect.width, 4);
    // (800 - 400) * 16 over |400 - 300| * 16
    assert_eq!(r.signal_noise_ratio, Snr { num: 6400, den: 1600 });
}

#[test]
fn snr_of_uniform_image_is_zero() {
    let img = create_test_image(20, 10, 1234);
    let r = snr(&img, 3).unwrap();
    assert_eq!(r.signal_noise_ratio.num, 0);
    assert_eq!(r.background_rect, r.foreground_rect);
    assert_eq!(r.background_rect.pos, Point { x: 0, y: 0 });
}

#[test]
fn snr_window_larger_than_image_fails() {
    let img = create_test_image(10, 20, 100);
    assert_eq!(snr(&img, 11).unwrap_err(), SnrError::WindowTooLarge);
    let img = create_test_image(20, 10, 100);
    assert_eq!(snr(&img, 11).unwrap_err(), SnrError::WindowTooLarge);
    assert_eq!(snr(&img, 0).unwrap_err(), SnrError::EmptyWindow);
    assert!(snr(&img, 10).is_ok());
}

#[test]
fn snr_ratio_comparison() {
    let one = Snr { num: 1, den: 1 };
    let four = Snr { num: 8, den: 2 };
    let zero = Snr { num: 5, den: 0 };
    assert!(four.greater_than(&one));
    assert!(!one.greater_than(&four));
    assert!(one.greater_than(&zero));
    assert!(!zero.greater_than(&one));
    assert!(!one.greater_than(&Snr { num: 2, den: 2 }));
}

#[test]
fn points_along_lines() {
    check_line(0, 0, 3, 1, &[(0, 0), (1, 0), (2, 1), (3, 1)]);
    check_line(2, 5, 2, 2, &[(2, 5), (2, 4), (2, 3), (2, 2)]);
    check_line(0, 0, -2, -4, &[(0, 0), (0, -1), (-1, -2), (-1, -3), (-2, -4)]);
    check_line(4, 4, 4, 4, &[(4, 4)]);
    check_line(1, 1, 6, 3, &[(1, 1), (2, 1), (3, 2), (4, 2), (5, 3), (6, 3)]);
    let far: isize = 1 << 40;
    check_line(far, -far, far + 3, 1 - far, &[(far, -far), (far + 1, -far), (far + 2, 1 - far), (far + 3, 1 - far)]);
}

fn check_line(x1: isize, y1: isize, x2: isize, y2: isize, expected: &[(isize, isize)]) {
    assert_eq!(get_points_along_line(x1, y1, x2, y2), expected.to_vec());
}
