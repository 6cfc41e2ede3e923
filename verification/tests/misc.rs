use logitech_widget::ghub::{
    battery_state_path, classify_info, ghub_entry, ghub_targets, parse_agent_message, scan_frame,
    text_frame, Frame, GhubDeviceInfo, InfoAction, Scan, MAX_FRAMES,
};
use logitech_widget::settings::{poll_interval_secs, Settings};
use logitech_widget::text::{push_decimal, same_chars, trim_trailing_nul};
use logitech_widget::window::is_show_desktop_move;

fn info(has_battery: bool, id: Option<&str>, name: Option<&str>, t: Option<&str>) -> GhubDeviceInfo {
    GhubDeviceInfo {
        has_battery,
        id: id.map(|s| s.to_string()),
        display_name: name.map(|s| s.to_string()),
        device_type: t.map(|s| s.to_string()),
    }
}

#[test]
fn ghub_device_classification() {
    assert!(matches!(classify_info(info(false, Some("dev1"), None, None)), InfoAction::Skip));
    assert!(matches!(classify_info(info(true, None, Some("G502"), None)), InfoAction::Abort));
    match classify_info(info(true, Some("dev1"), Some("PRO X SUPERLIGHT 2"), Some("MOUSE"))) {
        InfoAction::Query(t) => {
            assert_eq!(t.id, "dev1");
            assert_eq!(t.name, "PRO X SUPERLIGHT 2");
            assert_eq!(t.device_type, "mouse");
        }
        _ => panic!("expected a query"),
    }
    match classify_info(info(true, Some("dev2"), None, None)) {
        InfoAction::Query(t) => {
            assert_eq!(t.name, "dev2");
            assert_eq!(t.device_type, "device");
        }
        _ => panic!("expected a query"),
    }
}

#[test]
fn ghub_entries() {
    let t = match classify_info(info(true, Some("dev1"), Some("G915 TKL"), Some("Keyboard"))) {
        InfoAction::Query(t) => t,
        _ => panic!("expected a query"),
    };
    let e = ghub_entry(t, Some(64), true);
    assert_eq!(e.id, "ghub:dev1");
    assert_eq!(e.device_type, "keyboard");
    assert_eq!(e.percentage, Some(64));
    assert!(e.charging && e.online);
    assert_eq!(e.source, "ghub");
    let t = match classify_info(info(true, Some("dev3"), None, None)) {
        InfoAction::Query(t) => t,
        _ => panic!("expected a query"),
    };
    let e = ghub_entry(t, None, false);
    assert!(!e.online);
}

#[test]
fn ghub_response_scan() {
    let path = "/devices/list";
    let answer = text_frame(r#"{"msgId":"","verb":"GET","path":"/devices/list","payload":{}}"#);
    assert_eq!(scan_frame(1, &answer, path), Scan::Found);
    let other = text_frame(r#"{"path":"/battery/x/state","payload":{}}"#);
    assert_eq!(scan_frame(1, &other, path), Scan::Continue);
    let no_path = text_frame(r#"{"verb":"EVENT"}"#);
    assert_eq!(scan_frame(1, &no_path, path), Scan::Continue);
    assert_eq!(scan_frame(1, &Frame::Other, path), Scan::Continue);
    let bad = text_frame("not json");
    assert!(matches!(bad, Frame::Malformed));
    assert_eq!(scan_frame(1, &bad, path), Scan::Stop);
    assert_eq!(scan_frame(MAX_FRAMES, &Frame::Other, path), Scan::Stop);
    assert_eq!(scan_frame(MAX_FRAMES, &answer, path), Scan::Found);
}

const DEVICE_LIST: &str = r#"{
  "msgId": "", "verb": "GET", "path": "/devices/list", "result": {"code": "SUCCESS"},
  "payload": {"deviceInfos": [
    {"id": "dev00000001", "extendedDisplayName": "PRO X SUPERLIGHT 2", "deviceType": "MOUSE",
     "capabilities": {"hasBatteryStatus": true}},
    {"id": "dev00000002", "displayName": "G915 TKL", "deviceType": "KEYBOARD",
     "capabilities": {"hasBatteryStatus": true}},
    {"id": "dev00000003", "extendedDisplayName": "G502 HERO", "deviceType": "MOUSE",
     "capabilities": {"hasBatteryStatus": false}},
    {"id": "dev00000004", "extendedDisplayName": "Blue Yeti"}
  ]}
}"#;

#[test]
fn ghub_device_list_message() {
    let m = parse_agent_message(DEVICE_LIST).unwrap();
    assert_eq!(m.path.as_deref(), Some("/devices/list"));
    assert!(!m.charging);
    let infos = m.device_infos.unwrap();
    assert_eq!(infos.len(), 4);
    assert!(infos[0].has_battery);
    assert_eq!(infos[0].id.as_deref(), Some("dev00000001"));
    assert_eq!(infos[0].display_name.as_deref(), Some("PRO X SUPERLIGHT 2"));
    assert_eq!(infos[1].display_name, None);
    assert!(!infos[2].has_battery);
    assert!(!infos[3].has_battery);
    assert_eq!(infos[3].device_type, None);
    let targets = ghub_targets(infos).unwrap();
    assert_eq!(targets.len(), 2);
    assert_eq!(targets[0].name, "PRO X SUPERLIGHT 2");
    assert_eq!(targets[0].device_type, "mouse");
    assert_eq!(targets[1].name, "dev00000002");
    assert_eq!(targets[1].device_type, "keyboard");
    assert_eq!(battery_state_path(&targets[1].id), "/battery/dev00000002/state");
}

#[test]
fn ghub_battery_state_message() {
    let m = parse_agent_message(
        r#"{"path":"/battery/dev00000001/state","payload":{"percentage":64.6,"charging":true}}"#,
    )
    .unwrap();
    assert!(m.charging);
    assert!(m.device_infos.is_none());
    let m = parse_agent_message(r#"{"path":"/battery/dev1/state","payload":{"charging":"yes"}}"#).unwrap();
    assert!(!m.charging);
    let m = parse_agent_message(r#"{"path":"/battery/dev1/state"}"#).unwrap();
    assert!(!m.charging);
    assert!(parse_agent_message("{").is_none());
    assert!(parse_agent_message(r#"[1, 2]"#).unwrap().path.is_none());
}

#[test]
fn ghub_battery_device_without_id_voids_list() {
    let m = parse_agent_message(
        r#"{"path":"/devices/list","payload":{"deviceInfos":[
            {"id":"a","capabilities":{"hasBatteryStatus":true}},
            {"capabilities":{"hasBatteryStatus":true}}]}}"#,
    )
    .unwrap();
    assert!(ghub_targets(m.device_infos.unwrap()).is_none());
    // a description without id is fine when it has no battery
    let m = parse_agent_message(r#"{"path":"/devices/list","payload":{"deviceInfos":[{"deviceType":"HEADSET"}]}}"#).unwrap();
    assert_eq!(ghub_targets(m.device_infos.unwrap()).unwrap().len(), 0);
    let m = parse_agent_message(r#"{"path":"/devices/list","payload":{"deviceInfos":{}}}"#).unwrap();
    assert!(m.device_infos.is_none());
}

#[test]
fn settings_defaults_and_interval() {
    let s = Settings::default();
    assert_eq!(s.poll_interval_secs, 30);
    assert_eq!(s.low_battery_threshold, 15);
    assert_eq!(poll_interval_secs(&s), 30);
    assert_eq!(poll_interval_secs(&Settings { poll_interval_secs: 1, low_battery_threshold: 15 }), 5);
    assert_eq!(poll_interval_secs(&Settings { poll_interval_secs: 0, low_battery_threshold: 15 }), 5);
}

#[test]
fn show_desktop_move_detection() {
    assert!(is_show_desktop_move(false, -32000, -32000));
    assert!(!is_show_desktop_move(true, -32000, -32000));
    assert!(!is_show_desktop_move(false, -32000, 10));
    assert!(!is_show_desktop_move(false, 100, 200));
}

#[test]
fn text_helpers() {
    let mut s = "hidpp:".to_string();
    push_decimal(&mut s, 0);
    push_decimal(&mut s, 7);
    push_decimal(&mut s, 42);
    push_decimal(&mut s, 255);
    assert_eq!(s, "hidpp:0742255");
    assert!(same_chars("device", "device"));
    assert!(!same_chars("device", "devices"));
    assert_eq!(trim_trailing_nul(&"ab\0\0".to_string()), "ab");
    assert_eq!(trim_trailing_nul(&"\0a\0".to_string()), "\0a");
    assert_eq!(trim_trailing_nul(&"\0".to_string()), "");
}
