use fresh_driver::hwids::{extract_hex, lookup_from_hwid, lookup_upper, parse, split_id_name, HwName};

const SAMPLE: &str = "# pci.ids sample\n\
10ec  Realtek Semiconductor Co., Ltd.\n\
\t8168  RTL8111/8168/8411 PCI Express Gigabit Ethernet Controller\n\
\t\t1025 1234  Some subsystem\n\
8086  Intel Corporation\r\n\
\t1533  I210 Gigabit Network Connection\r\n\
bad line without id\n\
\t9999  Orphan device\n\
C 02  Network controller\n\
\t00  Ethernet controller\n\
1002  Advanced Micro Devices, Inc. [AMD/ATI]";

fn cs(s: &str) -> Vec<char> {
    s.chars().collect()
}

#[test]
fn split_id_name_reads_id_and_name() {
    assert_eq!(split_id_name(&cs("10ec  Realtek  Corp  ")), Some((0x10ec, "Realtek  Corp".to_string())));
    assert_eq!(split_id_name(&cs(" 8168   RTL")), Some((0x8168, "RTL".to_string())));
    assert_eq!(split_id_name(&cs("C 02  Network controller")), None);
    assert_eq!(split_id_name(&cs("10ec Realtek")), None);
    assert_eq!(split_id_name(&cs("12345  Too wide")), None);
}

#[test]
fn extract_hex_after_key() {
    assert_eq!(extract_hex(&cs("PCI\\VEN_10EC&DEV_8168"), &cs("VEN_")), Some(0x10ec));
    assert_eq!(extract_hex(&cs("PCI\\VEN_10EC&DEV_8168"), &cs("DEV_")), Some(0x8168));
    assert_eq!(extract_hex(&cs("PCI\\VEN_1&DEV_8168"), &cs("VEN_")), None);
    assert_eq!(extract_hex(&cs("X\\DEV_12"), &cs("DEV_")), Some(0x12));
    assert_eq!(extract_hex(&cs("USB\\VID_046D"), &cs("VEN_")), None);
}

#[test]
fn lookup_resolves_pci_ids() {
    let db = parse(SAMPLE);
    let n = lookup_from_hwid(&db, "PCI\\VEN_10EC&DEV_8168&SUBSYS_11111043&REV_15");
    assert_eq!(n.vendor.as_deref(), Some("Realtek Semiconductor Co., Ltd."));
    assert_eq!(n.device.as_deref(), Some("RTL8111/8168/8411 PCI Express Gigabit Ethernet Controller"));
    let n = lookup_from_hwid(&db, "pci\\ven_8086&dev_1533");
    assert_eq!(n.vendor.as_deref(), Some("Intel Corporation"));
    assert_eq!(n.device.as_deref(), Some("I210 Gigabit Network Connection"));
}

#[test]
fn non_pci_ids_resolve_to_nothing() {
    let db = parse(SAMPLE);
    let n = lookup_from_hwid(&db, "USB\\VID_046D&PID_C52B");
    assert_eq!(n, HwName::default());
}

#[test]
fn device_lines_follow_their_vendor() {
    let db = parse(SAMPLE);
    // the device under an unreadable top-level line belongs to no vendor
    assert_eq!(lookup_upper(&db, "PCI\\VEN_8086&DEV_9999").device, None);
    // class lines end the current vendor too
    assert_eq!(lookup_upper(&db, "PCI\\VEN_0002&DEV_0000").device, None);
    // a vendor on the last line, with no newline after it
    assert_eq!(lookup_upper(&db, "PCI\\VEN_1002").vendor.as_deref(), Some("Advanced Micro Devices, Inc. [AMD/ATI]"));
    // an unknown device of a known vendor
    let n = lookup_upper(&db, "PCI\\VEN_10EC&DEV_0001");
    assert!(n.vendor.is_some());
    assert_eq!(n.device, None);
}
