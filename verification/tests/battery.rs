use logitech_widget::battery::{merge, name_tokens, same_device, DeviceBattery};
use logitech_widget::pairing::{dedup_stale_pairings, same_receiver};
use logitech_widget::poller::{low_battery_alerts, merge_all};

fn dev(name: &str, source: &'static str) -> DeviceBattery {
    DeviceBattery {
        id: format!("{source}:{name}"),
        name: name.to_string(),
        device_type: "mouse".to_string(),
        percentage: Some(50),
        charging: false,
        online: true,
        source,
    }
}

fn typed(name: &str, device_type: &str, source: &'static str) -> DeviceBattery {
    DeviceBattery { device_type: device_type.to_string(), ..dev(name, source) }
}

#[test]
fn merge_prefers_primary_on_name_overlap() {
    // Real-world pair observed on hardware: HID++ 0x0005 name vs G HUB
    // extendedDisplayName for the same mouse.
    let merged = merge(
        vec![dev("PRO X 2", "hidpp")],
        vec![
            dev("PRO X SUPERLIGHT 2 Wireless Mouse", "ghub"),
            dev("G915 TKL", "ghub"),
        ],
    );
    assert_eq!(merged.len(), 2);
    assert_eq!(merged[0].source, "hidpp");
    assert_eq!(merged[1].name, "G915 TKL");
}

#[test]
fn merge_keeps_distinct_devices() {
    let merged = merge(vec![dev("MX Master 3S", "hidpp")], vec![dev("G502 X", "ghub")]);
    assert_eq!(merged.len(), 2);
}

fn dev_state(id: &str, name: &str, online: bool) -> DeviceBattery {
    DeviceBattery {
        id: id.to_string(),
        name: name.to_string(),
        device_type: "device".to_string(),
        percentage: online.then_some(50),
        charging: false,
        online,
        source: "hidpp",
    }
}

#[test]
fn stale_pairing_slots_collapse() {
    // Real case: MX Master 3S paired at two Bolt slots, both asleep.
    let out = dedup_stale_pairings(vec![
        dev_state("hidpp:bolt:1", "MX KEYS S", false),
        dev_state("hidpp:bolt:2", "MX Master 3S", false),
        dev_state("hidpp:bolt:3", "MX Master 3S", false),
    ]);
    assert_eq!(out.len(), 2);

    // Online entry replaces the stale offline one.
    let out = dedup_stale_pairings(vec![
        dev_state("hidpp:bolt:2", "MX Master 3S", false),
        dev_state("hidpp:bolt:3", "MX Master 3S", true),
    ]);
    assert_eq!(out.len(), 1);
    assert!(out[0].online);

    // Same name on different receivers is not a duplicate.
    let out = dedup_stale_pairings(vec![
        dev_state("hidpp:a:1", "MX Master 3S", false),
        dev_state("hidpp:b:1", "MX Master 3S", false),
    ]);
    assert_eq!(out.len(), 2);
}

#[test]
fn dedup_keeps_two_online_identical_devices() {
    let out = dedup_stale_pairings(vec![
        dev_state("hidpp:bolt:1", "MX Master 3S", true),
        dev_state("hidpp:bolt:2", "MX Master 3S", true),
        dev_state("hidpp:bolt:3", "MX Master 3S", false),
    ]);
    assert_eq!(out.len(), 2);
    assert!(out.iter().all(|d| d.online));
    assert_eq!(out[0].id, "hidpp:bolt:1");
    assert_eq!(out[1].id, "hidpp:bolt:2");
}

#[test]
fn dedup_online_takes_offline_place() {
    let out = dedup_stale_pairings(vec![
        dev_state("hidpp:bolt:1", "MX Master 3S", false),
        dev_state("hidpp:bolt:2", "MX Keys", true),
        dev_state("hidpp:bolt:3", "MX Master 3S", true),
    ]);
    assert_eq!(out.len(), 2);
    assert_eq!(out[0].id, "hidpp:bolt:3");
    assert_eq!(out[1].id, "hidpp:bolt:2");
}

#[test]
fn receiver_part_of_ids() {
    assert!(same_receiver("hidpp:bolt:1", "hidpp:bolt:6"));
    assert!(!same_receiver("hidpp:a:1", "hidpp:b:1"));
    assert!(same_receiver("nocolon", "other"));
    assert!(!same_receiver("nocolon", "x:1"));
    assert!(same_receiver("a:b:c:1", "a:b:c:255"));
}

#[test]
fn name_tokens_split_and_filter() {
    let t = name_tokens("PRO X SUPERLIGHT 2 Wireless Mouse");
    let words: Vec<String> = t.iter().map(|w| w.iter().collect()).collect();
    assert_eq!(words, vec!["pro", "x", "superlight", "2"]);
    let t = name_tokens("G-Pro--Wired  Gaming Headset");
    let words: Vec<String> = t.iter().map(|w| w.iter().collect()).collect();
    assert_eq!(words, vec!["g", "pro"]);
    assert!(name_tokens("Wireless Mouse").is_empty());
    assert!(name_tokens("").is_empty());
}

#[test]
fn same_device_rules() {
    // different concrete types never merge
    assert!(!same_device(&typed("G502", "mouse", "hidpp"), &typed("G502", "keyboard", "ghub")));
    // a generic type does not rule a match out
    assert!(same_device(&typed("G502", "device", "hidpp"), &typed("G502 X", "mouse", "ghub")));
    // generic words are no evidence
    assert!(!same_device(&dev("Wireless Mouse", "hidpp"), &dev("Gaming Mouse", "ghub")));
    // case and punctuation are ignored
    assert!(same_device(&dev("mx-master 3s", "hidpp"), &dev("MX Master 3S", "ghub")));
    // a missing token keeps them apart
    assert!(!same_device(&dev("MX Master 3S", "hidpp"), &dev("MX Master 3", "ghub")));
}

#[test]
fn merge_dedups_fallback_against_itself() {
    let merged = merge(vec![], vec![dev("G502 X", "ghub"), dev("G502 X Plus", "ghub")]);
    assert_eq!(merged.len(), 1);
    let merged = merge(vec![dev("A1", "hidpp")], vec![]);
    assert_eq!(merged.len(), 1);
}

#[test]
fn merge_all_sources_in_order() {
    let merged = merge_all(vec![
        vec![dev("PRO X 2", "hidpp")],
        vec![dev("PRO X SUPERLIGHT 2", "ghub"), dev("G915 TKL", "ghub")],
        vec![dev("G915 TKL Keyboard", "other")],
    ]);
    assert_eq!(merged.len(), 2);
    assert_eq!(merged[0].source, "hidpp");
    assert_eq!(merged[1].source, "ghub");
    assert!(merge_all(vec![]).is_empty());
}

#[test]
fn low_battery_alert_once_per_discharge() {
    let low = DeviceBattery { percentage: Some(10), ..dev("G502", "hidpp") };
    let mut alerted: Vec<String> = Vec::new();
    assert_eq!(low_battery_alerts(&vec![low.clone()], 15, &mut alerted), vec![0]);
    assert_eq!(alerted, vec!["hidpp:G502".to_string()]);
    // still low: no second toast
    assert!(low_battery_alerts(&vec![low.clone()], 15, &mut alerted).is_empty());
    // seen offline, then low again: the same discharge cycle, no second toast
    let offline = DeviceBattery { online: false, percentage: None, ..low.clone() };
    assert!(low_battery_alerts(&vec![offline], 15, &mut alerted).is_empty());
    assert_eq!(alerted.len(), 1);
    assert!(low_battery_alerts(&vec![low.clone()], 15, &mut alerted).is_empty());
    // charging re-arms
    let charging = DeviceBattery { charging: true, ..low.clone() };
    assert!(low_battery_alerts(&vec![charging], 15, &mut alerted).is_empty());
    assert!(alerted.is_empty());
    assert_eq!(low_battery_alerts(&vec![low.clone()], 15, &mut alerted), vec![0]);
    // at the threshold counts as low; offline or unknown does not
    let at = DeviceBattery { id: "x".to_string(), percentage: Some(15), ..low.clone() };
    let offline = DeviceBattery { id: "y".to_string(), online: false, ..low.clone() };
    let unknown = DeviceBattery { id: "z".to_string(), percentage: None, ..low.clone() };
    assert_eq!(low_battery_alerts(&vec![at, offline, unknown], 15, &mut alerted), vec![0]);
}

#[test]
fn low_battery_rearms_on_recovery_above_threshold() {
    let low = DeviceBattery { percentage: Some(10), ..dev("G502", "hidpp") };
    let mut alerted: Vec<String> = Vec::new();
    assert_eq!(low_battery_alerts(&vec![low.clone()], 15, &mut alerted), vec![0]);
    let recovered = DeviceBattery { percentage: Some(16), ..low.clone() };
    assert!(low_battery_alerts(&vec![recovered], 15, &mut alerted).is_empty());
    assert!(alerted.is_empty());
    assert_eq!(low_battery_alerts(&vec![low], 15, &mut alerted), vec![0]);
}

#[test]
fn same_device_symmetric_without_repeated_tokens() {
    let pairs = [("PRO X 2", "PRO X SUPERLIGHT 2 Wireless Mouse"), ("MX Master 3S", "MX 3S Master"), ("G502 X", "G915 TKL")];
    for (a, b) in pairs {
        assert_eq!(same_device(&dev(a, "hidpp"), &dev(b, "ghub")), same_device(&dev(b, "ghub"), &dev(a, "hidpp")));
    }
    // with a repeated token the rule is not symmetric
    assert!(same_device(&dev("x x", "hidpp"), &dev("x y", "ghub")));
    assert!(!same_device(&dev("x y", "ghub"), &dev("x x", "hidpp")));
}

#[test]
fn merging_twice_adds_nothing() {
    let fallback = vec![dev("PRO X SUPERLIGHT 2", "ghub"), dev("G915 TKL", "ghub")];
    let once = merge(vec![dev("PRO X 2", "hidpp")], fallback.clone());
    let twice = merge(once.clone(), fallback);
    let ids = |v: &Vec<DeviceBattery>| v.iter().map(|d| d.id.clone()).collect::<Vec<_>>();
    assert_eq!(ids(&once), ids(&twice));
}

#[test]
fn dedup_twice_is_dedup_once() {
    let input = vec![
        dev_state("hidpp:bolt:1", "MX Master 3S", false),
        dev_state("hidpp:bolt:2", "MX Master 3S", true),
        dev_state("hidpp:bolt:3", "MX Master 3S", true),
        dev_state("hidpp:bolt:4", "MX Keys", false),
        dev_state("hidpp:bolt:5", "MX Keys", false),
    ];
    let once = dedup_stale_pairings(input);
    let ids = |v: &Vec<DeviceBattery>| v.iter().map(|d| d.id.clone()).collect::<Vec<_>>();
    let before = ids(&once);
    let twice = dedup_stale_pairings(once);
    assert_eq!(before, ids(&twice));
    assert_eq!(before, vec!["hidpp:bolt:2", "hidpp:bolt:3", "hidpp:bolt:4"]);
}

#[test]
fn low_battery_rearms_when_charging_while_offline() {
    let low = DeviceBattery { percentage: Some(10), ..dev("G502", "ghub") };
    let mut alerted: Vec<String> = Vec::new();
    assert_eq!(low_battery_alerts(&vec![low.clone()], 15, &mut alerted), vec![0]);
    let charging_offline = DeviceBattery { online: false, percentage: None, charging: true, ..low.clone() };
    assert!(low_battery_alerts(&vec![charging_offline], 15, &mut alerted).is_empty());
    assert!(alerted.is_empty());
    assert_eq!(low_battery_alerts(&vec![low], 15, &mut alerted), vec![0]);
}
