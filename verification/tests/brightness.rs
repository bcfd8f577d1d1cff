use flick_effects::{ScreenAnalyzer, parse_ppm_brightness, LUMA_ONE, LUMA_HALF};

fn ppm(header: &str, pixels: &[u8]) -> Vec<u8> {
    let mut data = header.as_bytes().to_vec();
    data.extend_from_slice(pixels);
    data
}

#[test]
fn uniform_white_gives_exact_ones() {
    let pixels = vec![255u8; 8 * 8 * 3];
    let data = ppm("P6\n8 8\n255\n", &pixels);
    let ad = parse_ppm_brightness(&data, 42).expect("white capture parses");
    assert_eq!(ad.avg_brightness, LUMA_ONE);
    for gy in 0..8 {
        for gx in 0..8 {
            assert_eq!(ad.cell(gx, gy), LUMA_ONE);
        }
    }
    assert_eq!(ad.width, 64);
    assert_eq!(ad.height, 64);
    assert_eq!(ad.timestamp_ms, 42);
}

#[test]
fn uniform_red_gives_exact_red_luma() {
    let mut pixels = Vec::new();
    for _ in 0..(8 * 8) {
        pixels.extend_from_slice(&[255, 0, 0]);
    }
    let data = ppm("P6\n8 8\n255\n", &pixels);
    let ad = parse_ppm_brightness(&data, 0).expect("red capture parses");
    // 0.299 of full scale, exactly 299 * 255 in 1/255000 units.
    assert_eq!(ad.avg_brightness, 299 * 255);
    assert_eq!(ad.cell(0, 0), 299 * 255);
}

#[test]
fn comment_lines_are_skipped() {
    let pixels = vec![255u8; 8 * 8 * 3];
    let data = ppm("P6\n# made somewhere\n# another note\n8 8\n255\n", &pixels);
    let ad = parse_ppm_brightness(&data, 0).expect("commented capture parses");
    assert_eq!(ad.avg_brightness, LUMA_ONE);
}

#[test]
fn truncated_header_yields_nothing() {
    // Cut off before the height token.
    let data = b"P6\n8".to_vec();
    assert!(parse_ppm_brightness(&data, 0).is_none());
}

#[test]
fn garbage_dimension_yields_nothing() {
    let data = ppm("P6\nwide tall\n255\n", &[0u8; 12]);
    assert!(parse_ppm_brightness(&data, 0).is_none());
}

#[test]
fn tiny_dimensions_yield_nothing() {
    let data = ppm("P6\n4 4\n255\n", &[255u8; 48]);
    assert!(parse_ppm_brightness(&data, 0).is_none());
}

#[test]
fn truncated_pixels_average_what_is_there() {
    // Header promises 8x8 but only one full white pixel arrives.
    let data = ppm("P6\n8 8\n255\n", &[255, 255, 255, 10]);
    let ad = parse_ppm_brightness(&data, 0).expect("short capture still parses");
    assert_eq!(ad.avg_brightness, LUMA_ONE);
    assert_eq!(ad.cell(0, 0), LUMA_ONE);
    assert_eq!(ad.cell(5, 5), 0);
}

#[test]
fn failed_capture_keeps_previous_snapshot() {
    let mut a = ScreenAnalyzer::new();
    assert!(a.request_update(1000));
    let pixels = vec![255u8; 8 * 8 * 3];
    let good = parse_ppm_brightness(&ppm("P6\n8 8\n255\n", &pixels), 1100);
    a.finish_capture(1100, good);
    assert_eq!(a.get_data().expect("snapshot published").avg_brightness, LUMA_ONE);

    assert!(a.request_update(1700));
    // Malformed capture: header truncated before the height token.
    let bad = parse_ppm_brightness(&b"P6\n8".to_vec(), 1800);
    assert!(bad.is_none());
    a.finish_capture(1800, bad);
    let kept = a.get_data().expect("previous snapshot still there");
    assert_eq!(kept.avg_brightness, LUMA_ONE);
    assert_eq!(kept.timestamp_ms, 1100);
}

#[test]
fn no_snapshot_before_first_success() {
    let mut a = ScreenAnalyzer::new();
    assert!(a.request_update(0));
    a.finish_capture(50, None);
    assert!(a.get_data().is_none());
}

#[test]
fn brightness_at_defaults_to_half() {
    let a = ScreenAnalyzer::new();
    assert_eq!(a.brightness_at(500, 500), LUMA_HALF);
}

#[test]
fn brightness_at_reads_the_nearest_cell() {
    let mut a = ScreenAnalyzer::new();
    assert!(a.request_update(1000));
    let pixels = vec![255u8; 8 * 8 * 3];
    let good = parse_ppm_brightness(&ppm("P6\n8 8\n255\n", &pixels), 1000);
    a.finish_capture(1000, good);
    assert_eq!(a.brightness_at(0, 0), LUMA_ONE);
    assert_eq!(a.brightness_at(1000, 1000), LUMA_ONE);
}
