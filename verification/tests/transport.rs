use logitech_widget::probe::{Probe, SOURCE};
use logitech_widget::proto::{get_feature, ping, read_codename, read_register, short_msg, to_long};
use logitech_widget::transport::{
    group_collections, group_key, hidpp_channel, report_outcome, wire_request, Channel,
    OpenedCollection, PhysicalGroup, RpcError, Wire,
};

#[test]
fn offline_errors() {
    assert!(RpcError::Timeout.is_offline());
    assert!(RpcError::Hidpp10(0x04).is_offline());
    assert!(RpcError::Hidpp10(0x08).is_offline());
    assert!(RpcError::Hidpp10(0x09).is_offline());
    assert!(!RpcError::Hidpp10(0x01).is_offline());
    assert!(!RpcError::Hidpp20(0x09).is_offline());
    assert!(!RpcError::Io("gone".to_string()).is_offline());
}

#[test]
fn channel_of_collections() {
    assert_eq!(hidpp_channel(0x046D, 0xFF00, 0x0001), Some(Channel::Short));
    assert_eq!(hidpp_channel(0x046D, 0xFF43, 0x0002), Some(Channel::Long));
    assert_eq!(hidpp_channel(0x046D, 0xFF00, 0x0202), Some(Channel::Long));
    assert_eq!(hidpp_channel(0x046D, 0xFF00, 0x0003), None);
    assert_eq!(hidpp_channel(0x046D, 0x0001, 0x0001), None);
    assert_eq!(hidpp_channel(0x1234, 0xFF00, 0x0001), None);
}

#[test]
fn group_key_strips_collection_and_ordinal() {
    let short = r"\\?\HID#VID_046D&PID_C52B&MI_02&Col01#9&2F7A47&0&0000#{4d1e55b2-f16f-11cf-88cb-001111000030}";
    let long = r"\\?\HID#VID_046D&PID_C52B&MI_02&Col02#9&2F7A47&0&0001#{4d1e55b2-f16f-11cf-88cb-001111000030}";
    let k1 = group_key(short).unwrap();
    let k2 = group_key(long).unwrap();
    assert_eq!(k1, k2);
    assert_eq!(k1, r"\\?\hid#vid_046d&pid_c52b&mi_02#9&2f7a47&0#{4d1e55b2-f16f-11cf-88cb-001111000030}");
    let other = r"\\?\HID#VID_046D&PID_C547&MI_02&Col01#9&11111&0&0000#{x}";
    assert_ne!(group_key(other).unwrap(), k1);
}

fn opened(key: &str, product: &str, channel: Channel, handle: u32) -> OpenedCollection<u32> {
    OpenedCollection { key: key.to_string(), product: product.to_string(), channel, handle }
}

#[test]
fn collections_group_by_key() {
    let groups = group_collections(vec![
        opened("a", "USB Receiver", Channel::Short, 1),
        opened("b", "MX Master 3S", Channel::Long, 2),
        opened("a", "USB Receiver 2", Channel::Long, 3),
        opened("a", "USB Receiver", Channel::Short, 4),
    ]);
    assert_eq!(groups.len(), 2);
    assert_eq!(groups[0].key, "a");
    assert_eq!(groups[0].product, "USB Receiver");
    assert_eq!(groups[0].short, Some(1));
    assert_eq!(groups[0].long, Some(3));
    assert_eq!(groups[1].short, None);
    assert_eq!(groups[1].long, Some(2));
}

#[test]
fn requests_go_out_on_short_channel_first() {
    let req = ping(0xFF, 0x5A);
    let both = PhysicalGroup { key: "k".to_string(), product: "p".to_string(), short: Some(1u8), long: Some(2u8) };
    assert!(matches!(wire_request(&both, &req), Some(Wire::Short(m)) if m == req));
    let long_only = PhysicalGroup { key: "k".to_string(), product: "p".to_string(), short: None, long: Some(2u8) };
    assert!(matches!(wire_request(&long_only, &req), Some(Wire::Long(m)) if m == to_long(&req)));
    let none: PhysicalGroup<u8> = PhysicalGroup { key: "k".to_string(), product: "p".to_string(), short: None, long: None };
    assert!(wire_request(&none, &req).is_none());
}

#[test]
fn reports_become_outcomes() {
    let req = ping(0x01, 0x5A);
    match report_outcome(&req, &[0x10, 0x01, 0x00, 0x1A, 0x04, 0x02, 0x5A]) {
        Some(Ok(p)) => assert_eq!(p, vec![0x04, 0x02, 0x5A]),
        other => panic!("unexpected {other:?}"),
    }
    assert!(matches!(report_outcome(&req, &[0x10, 0x01, 0x8F, 0x00, 0x1A, 0x09, 0]), Some(Err(RpcError::Hidpp10(0x09)))));
    assert!(matches!(report_outcome(&req, &[0x10, 0x01, 0xFF, 0x00, 0x1A, 0x02, 0]), Some(Err(RpcError::Hidpp20(0x02)))));
    assert!(report_outcome(&req, &[0x10, 0x01, 0x41, 0x04, 0x61, 0x10, 0x40]).is_none());
}

fn ok(params: &[u8]) -> Result<Vec<u8>, RpcError> {
    Ok(params.to_vec())
}

/// Drive a probe with scripted outcomes, checking each request on the way.
fn run(probe: &mut Probe, script: Vec<([u8; 7], Result<Vec<u8>, RpcError>)>) {
    for (expected, outcome) in script {
        assert_eq!(probe.request(), Some(expected));
        probe.step(outcome);
    }
    assert_eq!(probe.request(), None);
}

#[test]
fn probe_direct_hidpp20_device() {
    let mut p = Probe::new("bt1".to_string(), "MX Anywhere 3".to_string());
    run(&mut p, vec![
        (ping(0xFF, 0x5A), ok(&[0x04, 0x05, 0x5A])),
        (get_feature(0xFF, 0x1004), ok(&[0x00, 0, 0])),
        (get_feature(0xFF, 0x1001), ok(&[0x06, 0, 0])),
        (short_msg(0xFF, 0x06, 0x00, [0, 0, 0]), ok(&[0x10, 0x5A, 0x00])),
        (get_feature(0xFF, 0x0005), ok(&[0x03, 0, 0])),
        (short_msg(0xFF, 0x03, 0x00, [0, 0, 0]), ok(&[5, 0, 0])),
        (short_msg(0xFF, 0x03, 0x01, [0, 0, 0]), ok(b"MX An")),
        (short_msg(0xFF, 0x03, 0x02, [0, 0, 0]), ok(&[3, 0, 0])),
    ]);
    let found = p.finish();
    assert_eq!(found.len(), 1);
    assert_eq!(found[0].id, "hidpp:bt1:255");
    assert_eq!(found[0].name, "MX An");
    assert_eq!(found[0].device_type, "mouse");
    assert_eq!(found[0].percentage, Some(100));
    assert!(!found[0].charging);
    assert!(found[0].online);
    assert_eq!(found[0].source, SOURCE);
}

#[test]
fn probe_name_read_in_chunks() {
    let mut p = Probe::new("k".to_string(), "Keyboard".to_string());
    run(&mut p, vec![
        (ping(0xFF, 0x5A), ok(&[0x04, 0x05, 0x5A])),
        (get_feature(0xFF, 0x1004), ok(&[0x08, 0, 0])),
        (short_msg(0xFF, 0x08, 0x01, [0, 0, 0]), ok(&[42, 0, 1, 0])),
        (get_feature(0xFF, 0x0005), ok(&[0x03, 0, 0])),
        (short_msg(0xFF, 0x03, 0x00, [0, 0, 0]), ok(&[7, 0, 0])),
        (short_msg(0xFF, 0x03, 0x01, [0, 0, 0]), ok(b"G915")),
        (short_msg(0xFF, 0x03, 0x01, [4, 0, 0]), ok(b" TKLxyz")),
        (short_msg(0xFF, 0x03, 0x02, [0, 0, 0]), Err(RpcError::Timeout)),
    ]);
    let found = p.finish();
    assert_eq!(found[0].name, "G915 TK");
    assert_eq!(found[0].device_type, "device");
    assert_eq!(found[0].percentage, Some(42));
    assert!(found[0].charging);
}

#[test]
fn probe_receiver_slots() {
    let mut p = Probe::new("rx".to_string(), "USB Receiver".to_string());
    let mut script = vec![
        (ping(0xFF, 0x5A), Err(RpcError::Hidpp10(0x01))),
        // slot 1: HID++ 1.0 device with a codename, mileage register works
        (read_codename(1), ok(&[0x40, 4, b'M', b'5', b'1', b'0', 0, 0])),
        (ping(0x01, 0x5A), Err(RpcError::Hidpp10(0x01))),
        (read_register(0x01, 0x0D), ok(&[80, 0, 0x50])),
        // slot 2: paired but asleep
        (read_codename(2), ok(&[0x41, 3, b'K', b'8', b'0'])),
        (ping(0x02, 0x5A), Err(RpcError::Hidpp10(0x09))),
        // slot 3: empty, no codename under either layout
        (read_codename(3), Err(RpcError::Hidpp10(0x03))),
        (logitech_widget::proto::read_codename_bolt(3), Err(RpcError::Hidpp10(0x03))),
        (ping(0x03, 0x5A), Err(RpcError::Hidpp10(0x08))),
    ];
    for slot in 4..=6u8 {
        script.push((read_codename(slot), Err(RpcError::Timeout)));
        script.push((logitech_widget::proto::read_codename_bolt(slot), Err(RpcError::Timeout)));
        script.push((ping(slot, 0x5A), Err(RpcError::Timeout)));
    }
    run(&mut p, script);
    let found = p.finish();
    assert_eq!(found.len(), 2);
    assert_eq!(found[0].id, "hidpp:rx:1");
    assert_eq!(found[0].name, "M510");
    assert_eq!(found[0].percentage, Some(80));
    assert!(found[0].charging && found[0].online);
    assert_eq!(found[1].id, "hidpp:rx:2");
    assert_eq!(found[1].name, "K80");
    assert!(!found[1].online);
    assert_eq!(found[1].percentage, None);
}

#[test]
fn probe_sleeping_bluetooth_device_is_offline() {
    let mut p = Probe::new("bt".to_string(), "MX Keys".to_string());
    run(&mut p, vec![(ping(0xFF, 0x5A), Err(RpcError::Timeout))]);
    let found = p.finish();
    assert_eq!(found.len(), 1);
    assert_eq!(found[0].name, "MX Keys");
    assert!(!found[0].online);
}

#[test]
fn probe_device_without_battery_is_not_listed() {
    let mut p = Probe::new("kb".to_string(), "Corded Keyboard".to_string());
    run(&mut p, vec![
        (ping(0xFF, 0x5A), ok(&[0x04, 0x05, 0x5A])),
        (get_feature(0xFF, 0x1004), ok(&[0, 0, 0])),
        (get_feature(0xFF, 0x1001), Err(RpcError::Hidpp20(0x05))),
        (get_feature(0xFF, 0x1000), ok(&[0, 0, 0])),
    ]);
    assert!(p.finish().is_empty());
}

#[test]
fn probe_short_reply_counts_as_failure() {
    // a battery reply too short to parse: the device is not listed, nothing panics
    let mut p = Probe::new("kb".to_string(), "K".to_string());
    run(&mut p, vec![
        (ping(0xFF, 0x5A), ok(&[0x04, 0x05, 0x5A])),
        (get_feature(0xFF, 0x1004), ok(&[0x07])),
        (short_msg(0xFF, 0x07, 0x01, [0, 0, 0]), ok(&[10, 0])),
    ]);
    assert!(p.finish().is_empty());
    // an empty getFeature reply counts as "feature absent": the next one is tried
    let mut p = Probe::new("kb".to_string(), "K".to_string());
    run(&mut p, vec![
        (ping(0xFF, 0x5A), ok(&[0x04, 0x05, 0x5A])),
        (get_feature(0xFF, 0x1004), ok(&[])),
        (get_feature(0xFF, 0x1001), Err(RpcError::Timeout)),
        (get_feature(0xFF, 0x1000), ok(&[0x02, 0, 0])),
        (short_msg(0xFF, 0x02, 0x00, [0, 0, 0]), ok(&[55, 0, 0])),
        (get_feature(0xFF, 0x0005), ok(&[0, 0, 0])),
    ]);
    let found = p.finish();
    assert_eq!(found.len(), 1);
    assert_eq!(found[0].name, "K");
    assert_eq!(found[0].percentage, Some(55));
}

#[test]
fn foreign_reports_need_no_request_bytes() {
    assert_eq!(logitech_widget::proto::match_reply(&[], &[0x20, 0, 0]), logitech_widget::proto::Reply::NoMatch);
    assert!(report_outcome(&[0x10], &[0x41, 1, 2, 3, 4, 5, 6]).is_none());
}
