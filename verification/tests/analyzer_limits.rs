use flick_effects::{ScreenAnalyzer, parse_ppm_brightness};

fn white_capture(now_ms: u64) -> Option<flick_effects::AnalysisData> {
    let mut data = b"P6\n8 8\n255\n".to_vec();
    data.extend_from_slice(&vec![255u8; 8 * 8 * 3]);
    parse_ppm_brightness(&data, now_ms)
}

#[test]
fn first_request_is_accepted() {
    let mut a = ScreenAnalyzer::new();
    assert!(a.request_update(0));
}

#[test]
fn request_while_in_flight_is_rejected() {
    let mut a = ScreenAnalyzer::new();
    assert!(a.request_update(1000));
    // The first capture is still running: any further request is a no-op.
    assert!(!a.request_update(1001));
    assert!(!a.request_update(999_999));
}

#[test]
fn rapid_requests_start_at_most_one_capture() {
    let mut a = ScreenAnalyzer::new();
    assert!(a.request_update(1000));
    a.finish_capture(1050, white_capture(1050));
    // Less than 500 ms after the successful capture: rejected.
    assert!(!a.request_update(1400));
    assert!(!a.request_update(1549));
}

#[test]
fn spaced_requests_both_start() {
    let mut a = ScreenAnalyzer::new();
    assert!(a.request_update(1000));
    a.finish_capture(1050, white_capture(1050));
    // More than 500 ms after the success, with no capture in flight.
    assert!(a.request_update(1551));
}

#[test]
fn failed_capture_does_not_start_the_rate_limit() {
    let mut a = ScreenAnalyzer::new();
    assert!(a.request_update(1000));
    a.finish_capture(1050, None);
    // No success was recorded, so the next request passes the time check.
    assert!(a.request_update(1100));
}
