use flick_effects::{TouchDecoder, TouchEvent, parse_event_record, is_touch_device_name, EV_ABS,
    ABS_MT_SLOT, ABS_MT_TRACKING_ID, ABS_MT_POSITION_X, ABS_MT_POSITION_Y};

fn record(ev_type: u16, code: u16, value: i32) -> Vec<u8> {
    let mut buf = vec![0u8; 24];
    buf[16..18].copy_from_slice(&ev_type.to_le_bytes());
    buf[18..20].copy_from_slice(&code.to_le_bytes());
    buf[20..24].copy_from_slice(&value.to_le_bytes());
    buf
}

#[test]
fn parses_record_fields() {
    let buf = record(EV_ABS, ABS_MT_POSITION_X, 12345);
    let (t, c, v) = parse_event_record(&buf);
    assert_eq!(t, EV_ABS);
    assert_eq!(c, ABS_MT_POSITION_X);
    assert_eq!(v, 12345);
}

#[test]
fn parses_negative_value() {
    let buf = record(EV_ABS, ABS_MT_TRACKING_ID, -1);
    let (_, _, v) = parse_event_record(&buf);
    assert_eq!(v, -1);
}

#[test]
fn logical_dimensions_are_half_the_raw_maxima() {
    let d = TouchDecoder::new(1000, 2000);
    // 1000x2000 raw at display scale 2 => logical 500x1000 pixels.
    assert_eq!(d.logical_width_milli(), 500_000);
    assert_eq!(d.logical_height_milli(), 1_000_000);
    assert_eq!(d.logical_width_milli() as f64 / 1000.0, 500.0);
    assert_eq!(d.logical_height_milli() as f64 / 1000.0, 1000.0);
}

#[test]
fn start_then_moves_report_scaled_position() {
    let mut d = TouchDecoder::new(1000, 2000);
    assert!(d.handle_event(EV_ABS, ABS_MT_SLOT, 0).is_none());
    // Tracking id assignment emits Start at the slot's stale (0, 0).
    match d.handle_event(EV_ABS, ABS_MT_TRACKING_ID, 5) {
        Some(TouchEvent::Start(x, y)) => {
            assert_eq!(x, 0);
            assert_eq!(y, 0);
        }
        _ => panic!("expected a start event"),
    }
    match d.handle_event(EV_ABS, ABS_MT_POSITION_X, 500) {
        Some(TouchEvent::Move(x, y)) => {
            assert_eq!(x, 250_000);
            assert_eq!(y, 0);
        }
        _ => panic!("expected a move event"),
    }
    match d.handle_event(EV_ABS, ABS_MT_POSITION_Y, 1000) {
        Some(TouchEvent::Move(x, y)) => {
            // Final reported position (250, 500) in logical pixels.
            assert_eq!(x as f64 / 1000.0, 250.0);
            assert_eq!(y as f64 / 1000.0, 500.0);
        }
        _ => panic!("expected a move event"),
    }
}

#[test]
fn no_move_without_tracking() {
    let mut d = TouchDecoder::new(1000, 2000);
    // Position reports for an untracked slot update state but emit nothing.
    assert!(d.handle_event(EV_ABS, ABS_MT_POSITION_X, 700).is_none());
    assert!(d.handle_event(EV_ABS, ABS_MT_POSITION_Y, 900).is_none());
    // Ending an untracked slot emits nothing either.
    assert!(d.handle_event(EV_ABS, ABS_MT_TRACKING_ID, -1).is_none());
}

#[test]
fn end_reports_last_known_position() {
    let mut d = TouchDecoder::new(1000, 2000);
    d.handle_event(EV_ABS, ABS_MT_TRACKING_ID, 7);
    d.handle_event(EV_ABS, ABS_MT_POSITION_X, 100);
    d.handle_event(EV_ABS, ABS_MT_POSITION_Y, 200);
    match d.handle_event(EV_ABS, ABS_MT_TRACKING_ID, -1) {
        Some(TouchEvent::End(x, y)) => {
            assert_eq!(x, 50_000);
            assert_eq!(y, 100_000);
        }
        _ => panic!("expected an end event"),
    }
    // A second release is a no-op.
    assert!(d.handle_event(EV_ABS, ABS_MT_TRACKING_ID, -1).is_none());
}

#[test]
fn slot_value_is_clamped() {
    let mut d = TouchDecoder::new(1000, 2000);
    assert!(d.handle_event(EV_ABS, ABS_MT_SLOT, 99).is_none());
    // Slot clamped to 9; start there, then position reports route to it.
    d.handle_event(EV_ABS, ABS_MT_TRACKING_ID, 3);
    match d.handle_event(EV_ABS, ABS_MT_POSITION_X, 10) {
        Some(TouchEvent::Move(x, _)) => assert_eq!(x, 5_000),
        _ => panic!("expected a move event"),
    }
}

#[test]
fn non_axis_records_are_ignored() {
    let mut d = TouchDecoder::new(1000, 2000);
    assert!(d.handle_event(1, ABS_MT_TRACKING_ID, 5).is_none());
    assert!(d.handle_event(EV_ABS, 0x00, 5).is_none());
}

#[test]
fn handle_record_decodes_and_applies() {
    let mut d = TouchDecoder::new(1000, 2000);
    let buf = record(EV_ABS, ABS_MT_TRACKING_ID, 4);
    match d.handle_record(&buf) {
        Some(TouchEvent::Start(x, y)) => {
            assert_eq!(x, 0);
            assert_eq!(y, 0);
        }
        _ => panic!("expected a start event"),
    }
}

#[test]
fn touch_names_are_recognized_case_insensitively() {
    assert!(is_touch_device_name(&b"FTS Touchscreen".to_vec()));
    assert!(is_touch_device_name(&b"goodix-TS".to_vec()));
    assert!(is_touch_device_name(&b"fts_ts".to_vec()));
    assert!(is_touch_device_name(&b"TOUCHPAD".to_vec()));
    assert!(!is_touch_device_name(&b"keyboard".to_vec()));
    assert!(!is_touch_device_name(&b"".to_vec()));
    assert!(!is_touch_device_name(&b"mouse".to_vec()));
}
