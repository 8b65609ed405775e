use ainav::images::{
    bitmap_image, checked_bitmap_image, dark_text_bitmap, emacs_cursor_scan_in_bounds,
    find_emacs_cursor, grayscale_image, light_text_bitmap, to_grayscale_threshold, DARK_UPPER,
    LIGHT_LOWER,
};
use ainav::pixel::{bgr8_to_gray, Bgr8};
use bit_vec::BitVec;

fn px(r: u8, g: u8, b: u8) -> Bgr8 {
    Bgr8 { b, g, r }
}

const CURSOR: Bgr8 = Bgr8 { b: 14, g: 173, r: 238 };

#[test]
fn gray_of_primary_colours() {
    assert_eq!(bgr8_to_gray(px(0, 0, 0)), 0);
    assert_eq!(bgr8_to_gray(px(255, 255, 255)), 255);
    assert_eq!(bgr8_to_gray(px(255, 0, 0)), 76);
    assert_eq!(bgr8_to_gray(px(0, 255, 0)), 150);
    assert_eq!(bgr8_to_gray(px(0, 0, 255)), 27);
    assert_eq!(bgr8_to_gray(CURSOR), 175);
}

#[test]
fn gray_of_neutral_pixel_is_its_value() {
    for v in 0..=255u8 {
        assert_eq!(bgr8_to_gray(px(v, v, v)), v);
    }
}

#[test]
fn gray_lies_between_channels() {
    let samples = [px(10, 200, 30), px(255, 0, 128), px(7, 7, 250), px(90, 91, 92)];
    for p in samples.iter() {
        let g = bgr8_to_gray(*p);
        let lo = p.r.min(p.g).min(p.b);
        let hi = p.r.max(p.g).max(p.b);
        assert!(lo <= g && g <= hi);
    }
}

#[test]
fn gray_is_monotone_in_each_channel() {
    let base = px(40, 80, 120);
    let g = bgr8_to_gray(base);
    assert!(bgr8_to_gray(px(41, 80, 120)) >= g);
    assert!(bgr8_to_gray(px(40, 200, 120)) >= g);
    assert!(bgr8_to_gray(px(40, 80, 255)) >= g);
}

#[test]
fn thresholds_are_the_documented_constants() {
    assert_eq!(LIGHT_LOWER, 75);
    assert_eq!(DARK_UPPER, 150);
}

fn sample_frame() -> Vec<Bgr8> {
    // 3 wide, 2 high; luminances 0, 75, 76 / 149, 150, 255.
    vec![
        px(0, 0, 0),
        px(75, 75, 75),
        px(76, 76, 76),
        px(149, 149, 149),
        px(150, 150, 150),
        px(255, 255, 255),
    ]
}

#[test]
fn light_bitmap_marks_pixels_above_lower_threshold() {
    let frame = sample_frame();
    let bits = light_text_bitmap(&frame, 3, 2);
    assert_eq!(bits.len(), 6);
    let got: Vec<bool> = bits.iter().collect();
    assert_eq!(got, vec![false, false, true, true, true, true]);
}

#[test]
fn dark_bitmap_marks_pixels_below_upper_threshold() {
    let frame = sample_frame();
    let bits = dark_text_bitmap(&frame, 3, 2);
    assert_eq!(bits.len(), 6);
    let got: Vec<bool> = bits.iter().collect();
    assert_eq!(got, vec![true, true, true, true, false, false]);
}

#[test]
fn every_pixel_is_light_or_dark() {
    let frame: Vec<Bgr8> = (0..=255u8).map(|v| px(v, v / 2, 255 - v)).collect();
    let light = light_text_bitmap(&frame, 16, 16);
    let dark = dark_text_bitmap(&frame, 16, 16);
    for i in 0..256 {
        assert!(light[i] || dark[i]);
    }
}

#[test]
fn bitmaps_only_cover_the_frame_size() {
    let frame = sample_frame();
    let bits = light_text_bitmap(&frame, 2, 2);
    assert_eq!(bits.len(), 4);
    let empty = dark_text_bitmap(&frame, 0, 5);
    assert_eq!(empty.len(), 0);
}

#[test]
fn grayscale_image_holds_luminance_row_by_row() {
    let frame = vec![px(255, 0, 0), px(0, 255, 0), px(0, 0, 255), px(10, 10, 10)];
    let img = grayscale_image(&frame, 2, 2);
    assert_eq!(img.dimensions(), (2, 2));
    assert_eq!(img.samples(), vec![76u8, 150, 27, 10]);
    assert_eq!(img.samples()[1], 150);
    assert_eq!(img.samples()[2], 27);
}

#[test]
fn grayscale_image_of_wide_frame() {
    let frame = sample_frame();
    let img = grayscale_image(&frame, 3, 2);
    assert_eq!(img.dimensions(), (3, 2));
    assert_eq!(img.samples(), vec![0u8, 75, 76, 149, 150, 255]);
}

#[test]
fn bitmap_image_is_black_where_bits_are_set() {
    let bits = BitVec::from_fn(6, |i| i % 3 == 0);
    let img = bitmap_image(&bits, 3, 2);
    assert_eq!(img.dimensions(), (3, 2));
    assert_eq!(img.samples(), vec![0u8, 255, 255, 0, 255, 255]);
}

#[test]
fn bitmap_image_reads_only_the_first_w_times_h_bits() {
    let bits = BitVec::from_elem(10, true);
    let img = bitmap_image(&bits, 2, 2);
    assert_eq!(img.samples(), vec![0u8, 0, 0, 0]);
}

#[test]
fn threshold_images_of_a_frame() {
    let frame = sample_frame();
    let images = to_grayscale_threshold(&frame, 3, 2);
    assert_eq!(images.grayscale.samples(), vec![0u8, 75, 76, 149, 150, 255]);
    assert_eq!(images.light_text.samples(), vec![255u8, 255, 0, 0, 0, 0]);
    assert_eq!(images.dark_text.samples(), vec![0u8, 0, 0, 0, 255, 255]);
    assert_eq!(images.light_text.dimensions(), (3, 2));
    assert_eq!(images.dark_text.dimensions(), (3, 2));
}

#[test]
fn emacs_cursor_is_found_column_by_column() {
    // 3 wide, 2 high; cursor colour at (2, 0) and (1, 1).
    let mut frame = vec![px(1, 2, 3); 6];
    frame[2] = CURSOR;
    frame[4] = CURSOR;
    assert_eq!(find_emacs_cursor(&frame, 3, 2), Some((1, 1)));
}

#[test]
fn emacs_cursor_earlier_row_in_same_column_wins() {
    let mut frame = vec![px(1, 2, 3); 6];
    frame[4] = CURSOR; // (1, 1)
    frame[1] = CURSOR; // (1, 0)
    assert_eq!(find_emacs_cursor(&frame, 3, 2), Some((1, 0)));
}

#[test]
fn emacs_cursor_absent() {
    let mut frame = vec![px(238, 173, 15); 6];
    frame[0] = px(237, 173, 14);
    assert_eq!(find_emacs_cursor(&frame, 3, 2), None);
    assert_eq!(find_emacs_cursor(&frame, 0, 0), None);
}

#[test]
fn emacs_cursor_outside_the_w_by_h_area_is_not_seen() {
    let mut frame = vec![px(0, 0, 0); 6];
    frame[5] = CURSOR;
    assert_eq!(find_emacs_cursor(&frame, 2, 2), None);
    assert_eq!(find_emacs_cursor(&frame, 3, 2), Some((2, 1)));
}

#[test]
fn emacs_cursor_found_before_the_end_of_a_short_frame() {
    let frame = vec![CURSOR];
    assert!(emacs_cursor_scan_in_bounds(&frame, 2, 2));
    assert_eq!(find_emacs_cursor(&frame, 2, 2), Some((0, 0)));
}

#[test]
fn scan_of_short_frame_leaves_it_when_no_cursor_comes_first() {
    let frame = vec![px(0, 0, 0); 3];
    assert!(!emacs_cursor_scan_in_bounds(&frame, 2, 2));
    // The scan visits (0, 0), (0, 1) = index 2, then (1, 0) = index 1, (1, 1) = index 3.
    let mut with_cursor = frame.clone();
    with_cursor[1] = CURSOR;
    assert!(emacs_cursor_scan_in_bounds(&with_cursor, 2, 2));
    assert_eq!(find_emacs_cursor(&with_cursor, 2, 2), Some((1, 0)));
    let mut early = frame.clone();
    early[2] = CURSOR;
    assert!(emacs_cursor_scan_in_bounds(&early, 2, 2));
    assert_eq!(find_emacs_cursor(&early, 2, 2), Some((0, 1)));
}

#[test]
fn scan_of_full_frame_stays_in_bounds() {
    let frame = sample_frame();
    assert!(emacs_cursor_scan_in_bounds(&frame, 3, 2));
    assert!(emacs_cursor_scan_in_bounds(&frame, 0, 0));
    assert!(emacs_cursor_scan_in_bounds(&[], 5, 0));
}

#[test]
fn scan_of_very_wide_frame_leaves_it_at_the_second_row() {
    let frame = vec![px(0, 0, 0); 2];
    // In a frame 2^31 wide, pixel (0, 1) lies at position 2^31.
    assert!(!emacs_cursor_scan_in_bounds(&frame, 0x8000_0000, 3));
    let mut found = frame.clone();
    found[0] = CURSOR;
    assert!(emacs_cursor_scan_in_bounds(&found, 0x8000_0000, 3));
    assert_eq!(find_emacs_cursor(&found, 0x8000_0000, 3), Some((0, 0)));
}

#[test]
fn checked_bitmap_image_of_long_enough_bitmap() {
    let bits = BitVec::from_fn(4, |i| i == 1);
    let img = checked_bitmap_image(&bits, 2, 2).unwrap();
    assert_eq!(img.samples(), vec![255u8, 0, 255, 255]);
    assert_eq!(img.dimensions(), (2, 2));
}

#[test]
fn checked_bitmap_image_of_short_bitmap_is_none() {
    let bits = BitVec::from_elem(3, true);
    assert!(checked_bitmap_image(&bits, 2, 2).is_none());
    let empty = BitVec::new();
    assert!(checked_bitmap_image(&empty, 0, 7).is_some());
    assert!(checked_bitmap_image(&empty, 0x1_0000, 0x1_0000).is_none());
}
