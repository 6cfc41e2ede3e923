use logitech_widget::proto::{
    device_type_name, get_feature, match_reply, parse_battery_status, parse_battery_voltage,
    parse_codename, parse_codename_bolt, parse_feature_index, parse_pong, parse_reg_mileage,
    parse_reg_status, parse_unified_battery, ping, read_codename, read_codename_bolt,
    read_long_register, read_register, short_msg, to_long, voltage_to_percent, BatteryReading,
    Reply, ERR_INVALID_SUBID, FEAT_UNIFIED_BATTERY, REPORT_LONG, SW_ID, VOLTAGE_CURVE,
};

#[test]
fn short_msg_layout() {
    // get_feature(0x1004) on paired slot 1
    let m = get_feature(1, FEAT_UNIFIED_BATTERY);
    assert_eq!(m, [0x10, 0x01, 0x00, 0x00 | SW_ID, 0x10, 0x04, 0x00]);
}

#[test]
fn ping_and_pong() {
    let req = ping(0xFF, 0x5A);
    assert_eq!(req, [0x10, 0xFF, 0x00, 0x10 | SW_ID, 0x00, 0x00, 0x5A]);
    // pong arrives as a short report echoing header + marker
    let pong = [0x10, 0xFF, 0x00, 0x10 | SW_ID, 0x04, 0x02, 0x5A];
    match match_reply(&req, &pong) {
        Reply::Answer(params) => assert!(parse_pong(params, 0x5A)),
        other => panic!("expected Ok, got {other:?}"),
    }
}

#[test]
fn to_long_pads() {
    let s = ping(0xFF, 1);
    let l = to_long(&s);
    assert_eq!(l[0], REPORT_LONG);
    assert_eq!(&l[1..7], &s[1..7]);
    assert!(l[7..].iter().all(|&b| b == 0));
}

#[test]
fn hidpp10_error_detected() {
    // ping to a HID++ 1.0 receiver → 0x8F with INVALID_SUBID
    let req = ping(0xFF, 0x00);
    let err = [0x10, 0xFF, 0x8F, 0x00, 0x10 | SW_ID, 0x01, 0x00];
    assert_eq!(match_reply(&req, &err), Reply::Err10(ERR_INVALID_SUBID));
}

#[test]
fn sleeping_device_resource_error() {
    let req = ping(0x02, 0x00);
    let err = [0x10, 0x02, 0x8F, 0x00, 0x10 | SW_ID, 0x09, 0x00];
    assert_eq!(match_reply(&req, &err), Reply::Err10(0x09));
}

#[test]
fn unrelated_event_is_no_match() {
    let req = ping(0x01, 0x00);
    // 0x41 connection notification from the receiver
    let event = [0x10, 0x01, 0x41, 0x04, 0x61, 0x10, 0x40];
    assert_eq!(match_reply(&req, &event), Reply::NoMatch);
    // reply for another device index
    let other = [0x10, 0x02, 0x00, 0x10 | SW_ID, 0x04, 0x02, 0x00];
    assert_eq!(match_reply(&req, &other), Reply::NoMatch);
}

#[test]
fn bt_zero_index_echo_accepted() {
    let req = ping(0xFF, 0x33);
    let pong = [0x11, 0x00, 0x00, 0x10 | SW_ID, 0x04, 0x05, 0x33];
    assert!(matches!(match_reply(&req, &pong), Reply::Answer(_)));
}

#[test]
fn unified_battery_parsing() {
    // 73%, charging
    let r = parse_unified_battery(&[73, 0x02, 0x01, 0x01]);
    assert_eq!(r, BatteryReading { percentage: Some(73), charging: true });
    // 100%, full-on-cable counts as charging
    let r = parse_unified_battery(&[100, 0x08, 0x03, 0x01]);
    assert_eq!(r, BatteryReading { percentage: Some(100), charging: true });
    // discharging
    let r = parse_unified_battery(&[40, 0x04, 0x00, 0x00]);
    assert_eq!(r, BatteryReading { percentage: Some(40), charging: false });
}

#[test]
fn battery_status_zero_percent_means_unsupported() {
    let r = parse_battery_status(&[0, 0, 0]);
    assert_eq!(r.percentage, None);
    let r = parse_battery_status(&[55, 50, 1]);
    assert_eq!(r, BatteryReading { percentage: Some(55), charging: true });
}

#[test]
fn battery_voltage_parsing() {
    // 4186 mV discharging → 100%
    let r = parse_battery_voltage(&[0x10, 0x5A, 0x00]); // 0x105A = 4186
    assert_eq!(r, BatteryReading { percentage: Some(100), charging: false });
    // 3537 mV → 1%
    let r = parse_battery_voltage(&[0x0D, 0xD1, 0x00]); // 0x0DD1 = 3537
    assert_eq!(r, BatteryReading { percentage: Some(1), charging: false });
    // below curve → 0%
    assert_eq!(voltage_to_percent(3400), 0);
    // external power, charging
    let r = parse_battery_voltage(&[0x0F, 0x00, 0x80]);
    assert!(r.charging);
    // external power, charge complete
    let r = parse_battery_voltage(&[0x0F, 0x00, 0x81]);
    assert!(r.charging);
    // external power, charge error (bits 0-2 = 2) → not charging
    let r = parse_battery_voltage(&[0x0F, 0x00, 0x82]);
    assert!(!r.charging);
}

#[test]
fn hidpp10_battery_registers() {
    let r = parse_reg_mileage(&[80, 0, 0x50]);
    assert_eq!(r, BatteryReading { percentage: Some(80), charging: true });
    let r = parse_reg_mileage(&[80, 0, 0x30]);
    assert!(!r.charging);
    let r = parse_reg_status(&[5, 0x00, 0]);
    assert_eq!(r.percentage, Some(50));
    let r = parse_reg_status(&[7, 0x25, 0]);
    assert!(r.charging);
}

#[test]
fn codename_parsing() {
    // page echo, len=4, "M510" then padding
    let mut params = vec![0x40, 4];
    params.extend_from_slice(b"M510");
    params.extend_from_slice(&[0; 8]);
    assert_eq!(parse_codename(&params), Some("M510".to_string()));
    assert_eq!(parse_codename(&[0x40, 0, 0, 0]), None);
}

#[test]
fn short_msg_function_nibble_and_params() {
    assert_eq!(short_msg(0x02, 0x05, 0x03, [1, 2, 3]), [0x10, 0x02, 0x05, 0x3A, 1, 2, 3]);
    // only the low nibble of the function id is kept
    assert_eq!(short_msg(0x02, 0x05, 0x13, [0, 0, 0])[3], 0x3A);
}

#[test]
fn register_requests_layout() {
    assert_eq!(read_register(0x01, 0x0D), [0x10, 0x01, 0x81, 0x0D, 0, 0, 0]);
    assert_eq!(read_long_register(0xFF, 0xB5, 0x42), [0x10, 0xFF, 0x83, 0xB5, 0x42, 0, 0]);
    assert_eq!(read_codename(1), [0x10, 0xFF, 0x83, 0xB5, 0x40, 0, 0]);
    assert_eq!(read_codename(6), [0x10, 0xFF, 0x83, 0xB5, 0x45, 0, 0]);
    assert_eq!(read_codename_bolt(3), [0x10, 0xFF, 0x83, 0xB5, 0x63, 0, 0]);
}

#[test]
fn hidpp20_error_detected() {
    let req = get_feature(0x01, 0x1004);
    let err = [0x11, 0x01, 0xFF, 0x00, 0x0A, 0x05, 0, 0, 0, 0, 0, 0, 0, 0, 0, 0, 0, 0, 0, 0];
    assert_eq!(match_reply(&req, &err), Reply::Err20(0x05));
}

#[test]
fn short_or_foreign_reports_are_no_match() {
    let req = ping(0xFF, 0x00);
    assert_eq!(match_reply(&req, &[0x10, 0xFF, 0x00, 0x1A, 0x00]), Reply::NoMatch);
    assert_eq!(match_reply(&req, &[0x20, 0xFF, 0x00, 0x1A, 0x00, 0x00, 0x00]), Reply::NoMatch);
    // a zero device index is accepted only for requests to 0xFF
    let slot_req = ping(0x01, 0x00);
    assert_eq!(match_reply(&slot_req, &[0x10, 0x00, 0x00, 0x1A, 0, 0, 0]), Reply::NoMatch);
}

#[test]
fn long_request_matches_same_replies() {
    let short = ping(0xFF, 0x33);
    let long = to_long(&short);
    let pong = [0x11, 0xFF, 0x00, 0x1A, 0x04, 0x05, 0x33, 0, 0, 0, 0, 0, 0, 0, 0, 0, 0, 0, 0, 0];
    assert_eq!(match_reply(&short, &pong), match_reply(&long, &pong));
    match match_reply(&long, &pong) {
        Reply::Answer(params) => {
            assert_eq!(params.len(), 16);
            assert!(parse_pong(params, 0x33));
        }
        other => panic!("expected Ok, got {other:?}"),
    }
}

#[test]
fn pong_with_other_marker_rejected() {
    assert!(!parse_pong(&[0x04, 0x02, 0x5B], 0x5A));
    assert!(!parse_pong(&[0x04, 0x02], 0x5A));
}

#[test]
fn feature_index_zero_means_unsupported() {
    assert_eq!(parse_feature_index(&[0, 0, 0]), None);
    assert_eq!(parse_feature_index(&[6, 0, 0]), Some(6));
}

#[test]
fn percentages_capped_at_100() {
    assert_eq!(parse_unified_battery(&[150, 0, 0]).percentage, Some(100));
    assert_eq!(parse_battery_status(&[101, 0, 4]), BatteryReading { percentage: Some(100), charging: true });
    assert_eq!(parse_reg_mileage(&[200, 0, 0x90]), BatteryReading { percentage: Some(100), charging: true });
    assert_eq!(parse_unified_battery(&[50, 0, 4]).charging, false);
}

#[test]
fn reg_status_levels_and_charging_codes() {
    assert_eq!(parse_reg_status(&[7, 0]).percentage, Some(90));
    assert_eq!(parse_reg_status(&[3, 0]).percentage, Some(20));
    assert_eq!(parse_reg_status(&[1, 0]).percentage, Some(5));
    assert_eq!(parse_reg_status(&[2, 0]).percentage, None);
    for code in [0x21, 0x22, 0x24, 0x25, 0x26] {
        assert!(parse_reg_status(&[5, code]).charging);
    }
    assert!(!parse_reg_status(&[5, 0x23]).charging);
}

#[test]
fn voltage_curve_points_and_monotonicity() {
    assert_eq!(voltage_to_percent(4186), 100);
    assert_eq!(voltage_to_percent(4185), 99);
    assert_eq!(voltage_to_percent(3800), 47);
    assert_eq!(voltage_to_percent(3536), 0);
    assert_eq!(voltage_to_percent(u16::MAX), 100);
    let mut last = 0;
    for mv in 3400..4300u16 {
        let p = voltage_to_percent(mv);
        assert!(p >= last && p <= 100);
        last = p;
    }
    for (i, &floor) in VOLTAGE_CURVE.iter().enumerate() {
        assert_eq!(voltage_to_percent(floor) as usize, 100 - i);
    }
}

#[test]
fn codename_edge_cases() {
    // declared length longer than the bytes present: read what is there
    assert_eq!(parse_codename(&[0x40, 10, b'K', b'8', b'0']), Some("K80".to_string()));
    // trailing NULs removed
    assert_eq!(parse_codename(&[0x40, 5, b'M', b'5', b'1', 0, 0]), Some("M51".to_string()));
    // too short to carry a length
    assert_eq!(parse_codename(&[0x40]), None);
    assert_eq!(parse_codename(&[]), None);
    // invalid UTF-8 is replaced, not refused
    assert_eq!(parse_codename(&[0x40, 2, 0xFF, b'A']), Some("\u{FFFD}A".to_string()));
}

#[test]
fn bolt_codename_parsing() {
    let mut params = vec![0x61, 0x01, 9];
    params.extend_from_slice(b"MX Keys S");
    params.extend_from_slice(&[0; 4]);
    assert_eq!(parse_codename_bolt(&params), Some("MX Keys S".to_string()));
    assert_eq!(parse_codename_bolt(&[0x61, 0x01, 0, b'x']), None);
    assert_eq!(parse_codename_bolt(&[0x61, 0x01]), None);
}

#[test]
fn device_type_names() {
    let names = ["keyboard", "remote", "numpad", "mouse", "touchpad", "trackball", "presenter", "receiver"];
    for (code, name) in names.iter().enumerate() {
        assert_eq!(device_type_name(code as u8), *name);
    }
    assert_eq!(device_type_name(8), "device");
    assert_eq!(device_type_name(0xFF), "device");
}
