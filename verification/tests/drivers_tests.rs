use fresh_driver::drivers::{enrich, scan, DriverInfo};
use fresh_driver::hwids::parse;

fn driver(name: &str, class: Option<&str>, hwid: Option<&str>, id: &str) -> DriverInfo {
    DriverInfo {
        device_name: name.to_string(),
        manufacturer: None,
        device_class: class.map(|c| c.to_string()),
        driver_version: Some("1.0".to_string()),
        driver_date: None,
        hardware_id: hwid.map(|h| h.to_string()),
        device_id: id.to_string(),
        inf_name: None,
        vendor_name: None,
        chip_name: None,
    }
}

const DB: &str = "10ec  Realtek\n\t8168  RTL8168\n";

#[test]
fn drivers_are_sorted_by_class_then_name() {
    let db = parse(DB);
    let input = vec![
        driver("Zeta", Some("Net"), None, "1"),
        driver("Alpha", Some("System"), None, "2"),
        driver("Beta", None, None, "3"),
        driver("Alpha", Some("Net"), None, "4"),
        driver("Gamma", Some("Display"), None, "5"),
    ];
    let out = scan(input, &db);
    let ids: Vec<&str> = out.iter().map(|d| d.device_id.as_str()).collect();
    assert_eq!(ids, vec!["3", "5", "4", "1", "2"]);
}

#[test]
fn equal_keys_keep_their_order() {
    let db = parse(DB);
    let input = vec![
        driver("Same", Some("Net"), None, "first"),
        driver("Other", Some("Net"), None, "x"),
        driver("Same", Some("Net"), None, "second"),
        driver("Same", Some("Net"), None, "third"),
    ];
    let out = scan(input, &db);
    let ids: Vec<&str> = out.iter().map(|d| d.device_id.as_str()).collect();
    assert_eq!(ids, vec!["x", "first", "second", "third"]);
}

#[test]
fn drivers_are_enriched_from_pci_ids() {
    let db = parse(DB);
    let out = scan(
        vec![
            driver("NIC", Some("Net"), Some("PCI\\VEN_10EC&DEV_8168&REV_15"), "n"),
            driver("Mouse", Some("Mouse"), Some("HID\\VID_046D"), "m"),
            driver("Plain", Some("Other"), None, "p"),
        ],
        &db,
    );
    let nic = out.iter().find(|d| d.device_id == "n").unwrap();
    assert_eq!(nic.vendor_name.as_deref(), Some("Realtek"));
    assert_eq!(nic.chip_name.as_deref(), Some("RTL8168"));
    let mouse = out.iter().find(|d| d.device_id == "m").unwrap();
    assert_eq!(mouse.vendor_name, None);
    assert_eq!(mouse.chip_name, None);
}

#[test]
fn driver_without_hardware_id_keeps_names() {
    let db = parse(DB);
    let mut d = driver("Plain", None, None, "p");
    d.vendor_name = Some("Kept".to_string());
    let e = enrich(d.clone(), &db);
    assert_eq!(e, d);
}

#[test]
fn empty_listing() {
    let db = parse("");
    assert!(scan(Vec::new(), &db).is_empty());
}
