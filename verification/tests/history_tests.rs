use fresh_driver::history::{add, now_unix, remove, HistoryEntry, MAX_ENTRIES};

fn entry(device: &str, names: &[&str]) -> HistoryEntry {
    HistoryEntry {
        device_name: device.to_string(),
        version: None,
        published_names: names.iter().map(|n| n.to_string()).collect(),
        installed_at_unix: 7,
    }
}

#[test]
fn add_puts_newest_first() {
    let mut h = vec![entry("old", &["oem1.inf"])];
    add(&mut h, entry("new", &["oem2.inf"]));
    let devices: Vec<&str> = h.iter().map(|e| e.device_name.as_str()).collect();
    assert_eq!(devices, vec!["new", "old"]);
}

#[test]
fn add_replaces_entries_sharing_a_name() {
    let mut h = vec![
        entry("a", &["oem1.inf", "oem2.inf"]),
        entry("b", &["oem3.inf"]),
        entry("c", &["oem4.inf", "oem2.inf"]),
    ];
    add(&mut h, entry("d", &["oem2.inf", "oem9.inf"]));
    let devices: Vec<&str> = h.iter().map(|e| e.device_name.as_str()).collect();
    assert_eq!(devices, vec!["d", "b"]);
}

#[test]
fn add_keeps_at_most_fifty() {
    let mut h: Vec<HistoryEntry> = (0..60).map(|i| entry(&format!("d{i}"), &[&format!("oem{i}.inf")])).collect();
    add(&mut h, entry("new", &["oem100.inf"]));
    assert_eq!(h.len(), MAX_ENTRIES);
    assert_eq!(h[0].device_name, "new");
    assert_eq!(h[49].device_name, "d48");
}

#[test]
fn remove_drops_every_entry_with_the_name() {
    let mut h = vec![
        entry("a", &["oem1.inf"]),
        entry("b", &["oem2.inf", "oem1.inf"]),
        entry("c", &["oem3.inf"]),
    ];
    remove(&mut h, "oem1.inf");
    let devices: Vec<&str> = h.iter().map(|e| e.device_name.as_str()).collect();
    assert_eq!(devices, vec!["c"]);
    remove(&mut h, "oem1.inf");
    assert_eq!(h.len(), 1);
}

#[test]
fn add_then_remove_forgets_the_install() {
    let mut h = vec![entry("a", &["oem1.inf"])];
    add(&mut h, entry("b", &["oem5.inf", "oem6.inf"]));
    remove(&mut h, "oem6.inf");
    assert!(h.iter().all(|e| !e.published_names.iter().any(|p| p == "oem6.inf")));
    assert_eq!(h.len(), 1);
}

#[test]
fn clock_is_after_2020() {
    assert!(now_unix() > 1_577_836_800);
}
