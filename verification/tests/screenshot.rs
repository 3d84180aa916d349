//! Screenshots: that there is one, and what it shows.
use image::{DynamicImage, GrayImage, ImageFormat, Luma, Rgb, RgbImage, Rgba, RgbaImage};
use maa_run::double::Double;
use maa_run::screenshot::{
    analyze_screenshot_quality, measure_frame, require_screenshot_bytes, RgbFrame,
    ScreenshotError, ScreenshotQuality,
};
use std::io::Cursor;

fn encoded(image: DynamicImage) -> Vec<u8> {
    let mut output = Cursor::new(Vec::new());
    image.write_to(&mut output, ImageFormat::Png).unwrap();
    output.into_inner()
}

fn png_bytes(image: RgbImage) -> Vec<u8> {
    encoded(DynamicImage::ImageRgb8(image))
}

fn value(double: &Double) -> f64 {
    double.to_text().parse().unwrap()
}

fn frame(width: u32, height: u32, pixels: &[[u8; 3]]) -> RgbFrame {
    RgbFrame { width, height, data: pixels.concat() }
}

fn measured(pixels: &[[u8; 3]]) -> ScreenshotQuality {
    measure_frame(&frame(pixels.len() as u32, 1, pixels)).unwrap()
}

/// The ratio and the variance of a frame, computed in floating point.
fn reference(pixels: &[[u8; 3]]) -> (f64, f64) {
    let mut non_black = 0_u64;
    let mut luma_sum = 0_f64;
    let mut luma_squared_sum = 0_f64;
    for [red, green, blue] in pixels.iter().copied() {
        if red.max(green).max(blue) > 8 {
            non_black += 1;
        }
        let luma =
            (0.299 * f64::from(red)) + (0.587 * f64::from(green)) + (0.114 * f64::from(blue));
        luma_sum += luma;
        luma_squared_sum += luma * luma;
    }
    let count = pixels.len() as f64;
    let mean = luma_sum / count;
    (non_black as f64 / count, (luma_squared_sum / count - mean * mean).max(0.0))
}

fn check_against_reference(pixels: &[[u8; 3]]) {
    let quality = measured(pixels);
    let (ratio, variance) = reference(pixels);
    assert_eq!(value(&quality.non_black_ratio).to_bits(), ratio.to_bits());
    assert_eq!(value(&quality.luma_variance).to_bits(), variance.to_bits());
    assert_eq!(quality.black_frame, ratio < 0.001);
    assert_eq!(quality.capture_quality_ok, ratio >= 0.001 && variance >= 4.0);
}

#[test]
fn screenshot_probe_requires_a_non_empty_image() {
    assert!(require_screenshot_bytes(None).is_err());
    assert!(require_screenshot_bytes(Some(&[])).is_err());
    assert_eq!(require_screenshot_bytes(Some(&[1, 2, 3])).unwrap(), 3);
}

#[test]
fn screenshot_quality_rejects_black_or_flat_frames() {
    let black = png_bytes(RgbImage::from_pixel(32, 32, Rgb([0, 0, 0])));
    let black_quality = analyze_screenshot_quality(&black).unwrap();
    assert!(black_quality.black_frame);
    assert!(!black_quality.capture_quality_ok);
    assert_eq!(value(&black_quality.non_black_ratio), 0.0);

    let flat = png_bytes(RgbImage::from_pixel(32, 32, Rgb([240, 240, 240])));
    let flat_quality = analyze_screenshot_quality(&flat).unwrap();
    assert!(!flat_quality.black_frame);
    assert!(!flat_quality.capture_quality_ok);
    assert_eq!(value(&flat_quality.non_black_ratio), 1.0);
    assert!(value(&flat_quality.luma_variance) < f64::EPSILON);

    assert!(analyze_screenshot_quality(b"not-a-png").is_err());

    let varied = png_bytes(RgbImage::from_fn(32, 32, |x, y| {
        if (x + y) % 2 == 0 {
            Rgb([235, 245, 250])
        } else {
            Rgb([12, 35, 52])
        }
    }));
    let varied_quality = analyze_screenshot_quality(&varied).unwrap();
    assert!(!varied_quality.black_frame);
    assert!(varied_quality.capture_quality_ok);
    assert!(value(&varied_quality.non_black_ratio) > 0.99);
    assert!(value(&varied_quality.luma_variance) > 100.0);
}

#[test]
fn a_screenshot_that_is_missing_and_one_that_is_empty_are_told_apart() {
    assert_eq!(require_screenshot_bytes(None), Err(ScreenshotError::Missing));
    assert_eq!(require_screenshot_bytes(Some(&[])), Err(ScreenshotError::Empty));
    assert!(matches!(analyze_screenshot_quality(b""), Err(ScreenshotError::InvalidPng(_))));
    assert_eq!(measure_frame(&frame(0, 7, &[])), Err(ScreenshotError::EmptyPng));
    assert_eq!(measure_frame(&frame(7, 0, &[])), Err(ScreenshotError::EmptyPng));
}

#[test]
fn the_cause_of_an_invalid_screenshot_is_kept() {
    let cause = image::load_from_memory_with_format(b"not-a-png", ImageFormat::Png)
        .unwrap_err()
        .to_string();
    assert!(!cause.is_empty());
    let error = analyze_screenshot_quality(b"not-a-png").unwrap_err();
    assert_eq!(error, ScreenshotError::InvalidPng(cause.clone()));
    assert_eq!(error.cause(), Some(cause.as_str()));
    assert_eq!(ScreenshotError::Missing.cause(), None);
}

#[test]
fn screenshot_errors_say_what_is_wrong() {
    assert_eq!(
        ScreenshotError::Missing.message(),
        "Connection succeeded but MaaCore returned no screenshot"
    );
    assert_eq!(
        ScreenshotError::Empty.message(),
        "Connection succeeded but MaaCore returned an empty screenshot"
    );
    assert_eq!(
        ScreenshotError::InvalidPng("truncated".to_owned()).message(),
        "MaaCore returned an invalid PNG screenshot"
    );
    assert_eq!(
        ScreenshotError::EmptyPng.message(),
        "MaaCore returned an empty PNG screenshot"
    );
}

#[test]
fn the_size_of_a_screenshot_is_reported() {
    let quality =
        analyze_screenshot_quality(&png_bytes(RgbImage::from_pixel(5, 3, Rgb([9, 9, 9])))).unwrap();
    assert_eq!(quality.normalized_width, 5);
    assert_eq!(quality.normalized_height, 3);
}

#[test]
fn a_decoded_frame_is_measured_like_its_pixels() {
    let pixels: [[u8; 3]; 6] =
        [[255, 0, 0], [0, 255, 0], [0, 0, 255], [8, 8, 8], [9, 0, 0], [120, 130, 140]];
    let image = RgbImage::from_raw(3, 2, pixels.concat()).unwrap();
    assert_eq!(
        analyze_screenshot_quality(&png_bytes(image)),
        measure_frame(&frame(3, 2, &pixels))
    );
}

#[test]
fn gray_and_transparent_screenshots_are_read_as_color() {
    let gray = GrayImage::from_fn(2, 1, |x, _| Luma([if x == 0 { 100 } else { 200 }]));
    assert_eq!(
        analyze_screenshot_quality(&encoded(DynamicImage::ImageLuma8(gray))).unwrap(),
        measured(&[[100, 100, 100], [200, 200, 200]])
    );
    let clear = RgbaImage::from_pixel(1, 1, Rgba([10, 20, 30, 0]));
    assert_eq!(
        analyze_screenshot_quality(&encoded(DynamicImage::ImageRgba8(clear))).unwrap(),
        measured(&[[10, 20, 30]])
    );
}

#[test]
fn a_truncated_screenshot_is_invalid() {
    let mut png = png_bytes(RgbImage::from_pixel(32, 32, Rgb([1, 2, 3])));
    png.truncate(png.len() / 2);
    assert!(matches!(analyze_screenshot_quality(&png), Err(ScreenshotError::InvalidPng(_))));
}

#[test]
fn luma_weighs_the_channels() {
    for pixel in [[255, 0, 0], [0, 255, 0], [0, 0, 255], [1, 0, 0], [0, 1, 0], [0, 0, 1]] {
        check_against_reference(&[[0, 0, 0], pixel]);
        check_against_reference(&[pixel]);
    }
    let red = value(&measured(&[[0, 0, 0], [255, 0, 0]]).luma_variance);
    assert!((red - 1453.32500625).abs() < 1e-9);
    let green = value(&measured(&[[0, 0, 0], [0, 255, 0]]).luma_variance);
    assert!((green - 5601.39980625).abs() < 1e-9);
    let blue = value(&measured(&[[0, 0, 0], [0, 0, 255]]).luma_variance);
    assert!((blue - 211.266225).abs() < 1e-9);
}

#[test]
fn measures_are_those_of_double_precision() {
    let mut state = 0x9e37_79b9_7f4a_7c15_u64;
    let mut next = || {
        state ^= state << 13;
        state ^= state >> 7;
        state ^= state << 17;
        (state >> 32) as u8
    };
    for count in [1, 2, 3, 5, 17, 100, 1023, 4096] {
        let any: Vec<[u8; 3]> = (0..count).map(|_| [next(), next(), next()]).collect();
        check_against_reference(&any);
        let dark: Vec<[u8; 3]> = any.iter().map(|pixel| pixel.map(|level| level / 32)).collect();
        check_against_reference(&dark);
        let close: Vec<[u8; 3]> =
            any.iter().map(|pixel| pixel.map(|level| 200 + level / 128)).collect();
        check_against_reference(&close);
        check_against_reference(&vec![any[0]; count]);
        let mut sparse = vec![[0u8, 0, 0]; count];
        sparse[count / 2] = [0, 0, 9];
        check_against_reference(&sparse);
    }
}

#[test]
fn a_variance_at_the_limit_is_rounded_as_doubles_are() {
    for level in 9..=251u8 {
        let (low, high) = ([level; 3], [level + 4; 3]);
        check_against_reference(&[low, high]);
    }
    assert!(measured(&[[10; 3], [14; 3]]).capture_quality_ok);
    assert!(!measured(&[[100; 3], [104; 3]]).capture_quality_ok);
}

#[test]
fn flat_frames_of_every_level_are_rejected() {
    for level in 0..=255u8 {
        let quality = measured(&vec![[level, 255 - level, level / 2]; 1000]);
        assert!(!quality.capture_quality_ok);
    }
}

#[test]
fn a_pixel_is_black_up_to_its_level() {
    assert_eq!(value(&measured(&[[8, 8, 8]]).non_black_ratio), 0.0);
    assert_eq!(value(&measured(&[[9, 0, 0]]).non_black_ratio), 1.0);
    assert_eq!(value(&measured(&[[0, 9, 0]]).non_black_ratio), 1.0);
    assert_eq!(value(&measured(&[[0, 0, 9]]).non_black_ratio), 1.0);
}

#[test]
fn a_frame_is_black_below_one_pixel_in_a_thousand() {
    let mut pixels = vec![[0u8, 0, 0]; 999];
    pixels.push([255, 255, 255]);
    let enough = measured(&pixels);
    assert!(!enough.black_frame);
    assert!(enough.capture_quality_ok);
    assert_eq!(value(&enough.non_black_ratio), 0.001);

    pixels.push([0, 0, 0]);
    let too_few = measured(&pixels);
    assert!(too_few.black_frame);
    assert!(!too_few.capture_quality_ok);
    assert!(value(&too_few.luma_variance) > 4.0);
}

#[test]
fn a_capture_is_usable_from_a_variance_of_four() {
    let enough = measured(&[[10, 10, 10], [14, 14, 14]]);
    assert_eq!(value(&enough.luma_variance), 4.0);
    assert!(enough.capture_quality_ok);

    let too_little = measured(&[[10, 10, 10], [13, 13, 13]]);
    assert!((value(&too_little.luma_variance) - 2.25).abs() < 1e-9);
    assert!(!too_little.capture_quality_ok);
    assert!(!too_little.black_frame);
}

#[test]
fn usable_captures_are_not_black() {
    for level in [0u8, 8, 9, 40, 255] {
        let quality = measured(&[[level, level, level], [0, 0, 0]]);
        assert!(!(quality.capture_quality_ok && quality.black_frame));
        assert!(value(&quality.non_black_ratio) <= 1.0);
    }
}

#[test]
fn verdicts_follow_from_the_measures() {
    let mut pixels = Vec::new();
    for step in 0..1500u32 {
        let level = if step % 700 == 699 { 200 } else { (step % 9) as u8 };
        pixels.push([level, level / 2, 0]);
        let quality = measured(&pixels);
        let black = value(&quality.non_black_ratio) < 0.001;
        assert_eq!(quality.black_frame, black);
        assert_eq!(
            quality.capture_quality_ok,
            !black && value(&quality.luma_variance) >= 4.0
        );
    }
}

#[test]
fn ratios_are_doubles_and_need_a_denominator() {
    let cases: [(u64, u64); 9] = [
        (3, 4),
        (85, 2),
        (1, 7),
        (2, 3),
        (0, 5),
        (u64::MAX, 1),
        (u64::MAX - 1, 3),
        (1, u64::MAX),
        ((1 << 53) + 1, (1 << 54) - 1),
    ];
    for (numerator, denominator) in cases {
        let ratio = Double::ratio(numerator, denominator).unwrap();
        let expected = numerator as f64 / denominator as f64;
        assert_eq!(value(&ratio).to_bits(), expected.to_bits(), "{numerator}/{denominator}");
    }
    assert!(Double::ratio(1, 0).is_none());
}

#[test]
fn doubles_are_written_exactly() {
    assert_eq!(Double::ratio(0, 5).unwrap().to_text(), "0e-0");
    let half = Double::ratio(1, 2).unwrap().to_text();
    assert_eq!(half, format!("5{}e-53", "0".repeat(52)));
    assert_eq!(Double::ratio(1 << 60, 1).unwrap().to_text(), "1152921504606846976e-0");
}
