use display_map::catalog::Catalog;
use display_map::discovery::{display_of, get_display_info, DeviceEntry, DiscoveryError, DisplayInfo};
use display_map::edid::DecodeError;

/// A block of 128 bytes with one detailed timing and three unused slots.
fn block(serial: u32) -> Vec<u8> {
    let mut b = vec![0u8; 128];
    b[..8].copy_from_slice(&[0x00, 0xff, 0xff, 0xff, 0xff, 0xff, 0xff, 0x00]);
    b[12..16].copy_from_slice(&serial.to_le_bytes());
    b[18] = 1;
    b[19] = 4;
    b[54..72].copy_from_slice(&[
        0x02, 0x3a, 0x80, 0x18, 0x71, 0x38, 0x2d, 0x40, 0x58, 0x2c, 0x45, 0x00, 0x09, 0x25, 0x21,
        0x00, 0x00, 0x1e,
    ]);
    b
}

fn entry(directory_name: &str, edid: Vec<u8>) -> DeviceEntry {
    DeviceEntry { directory_name: directory_name.to_string(), edid }
}

fn display(short_name: &str, serial_number: u32) -> DisplayInfo {
    DisplayInfo { short_name: short_name.to_string(), serial_number }
}

fn pairs(displays: &Vec<DisplayInfo>) -> Vec<(String, u32)> {
    displays.iter().map(|d| (d.short_name.clone(), d.serial_number)).collect()
}

#[test]
fn the_unused_slots_decode() {
    let found = display_of(&entry("card0-DP-1", block(9))).unwrap().unwrap();
    assert_eq!(found.short_name, "DP-1");
    assert_eq!(found.serial_number, 9);
}

#[test]
fn an_entry_with_an_empty_block_yields_nothing() {
    assert!(display_of(&entry("card0-DP-1", Vec::new())).unwrap().is_none());
}

#[test]
fn an_entry_with_a_bad_block_yields_its_error() {
    let r = display_of(&entry("card0-DP-1", vec![1, 2, 3]));
    assert_eq!(r.unwrap_err(), DiscoveryError::Decode(DecodeError::Malformed));
    let mut b = block(1);
    b[57] = 0;
    b[58] = 0x70;
    let r = display_of(&entry("card0-DP-1", b));
    assert_eq!(r.unwrap_err(), DiscoveryError::Decode(DecodeError::TimingOutOfRange));
}

#[test]
fn displays_come_in_the_order_of_the_entries() {
    let entries = vec![
        entry("card0-HDMI-A-1", block(1001)),
        entry("card0-DP-1", block(1002)),
        entry("card1-eDP-1", block(55)),
    ];
    let displays = get_display_info(&entries).unwrap();
    assert_eq!(
        pairs(&displays),
        vec![
            ("HDMI-A-1".to_string(), 1001),
            ("DP-1".to_string(), 1002),
            ("eDP-1".to_string(), 55),
        ]
    );
}

#[test]
fn entries_with_empty_blocks_are_passed_over() {
    let entries = vec![
        entry("card0-Writeback-1", Vec::new()),
        entry("card0-HDMI-A-1", block(1001)),
        entry("card0-DP-2", Vec::new()),
        entry("card0-DP-1", block(1002)),
        entry("card0-DP-3", Vec::new()),
    ];
    let displays = get_display_info(&entries).unwrap();
    assert_eq!(
        pairs(&displays),
        vec![("HDMI-A-1".to_string(), 1001), ("DP-1".to_string(), 1002)]
    );
}

#[test]
fn entries_with_empty_blocks_alone_give_no_display() {
    let entries = vec![entry("card0-DP-1", Vec::new()), entry("card0-DP-2", Vec::new())];
    assert!(get_display_info(&entries).unwrap().is_empty());
}

#[test]
fn no_entries_give_no_display() {
    assert!(get_display_info(&Vec::new()).unwrap().is_empty());
}

#[test]
fn one_bad_block_fails_the_whole() {
    let entries = vec![
        entry("card0-HDMI-A-1", block(1001)),
        entry("card0-DP-1", vec![0u8; 128]),
        entry("card0-DP-2", block(1002)),
    ];
    assert_eq!(
        get_display_info(&entries).unwrap_err(),
        DiscoveryError::Decode(DecodeError::Malformed)
    );
}

#[test]
fn the_first_bad_block_decides_the_error() {
    let mut out_of_range = block(1);
    out_of_range[60] = 0;
    let entries = vec![
        entry("card0-DP-1", Vec::new()),
        entry("card0-DP-2", out_of_range),
        entry("card0-DP-3", vec![7u8; 8]),
    ];
    assert_eq!(
        get_display_info(&entries).unwrap_err(),
        DiscoveryError::Decode(DecodeError::TimingOutOfRange)
    );
}

#[test]
fn names_without_card_prefix_are_kept() {
    let entries = vec![entry("DP-2", block(5)), entry("card3-DP-2", block(6))];
    let displays = get_display_info(&entries).unwrap();
    assert_eq!(pairs(&displays), vec![("DP-2".to_string(), 5), ("DP-2".to_string(), 6)]);
}

#[test]
fn two_displays_may_share_a_serial_number() {
    let entries = vec![entry("card0-DP-1", block(7)), entry("card0-DP-2", block(7))];
    let displays = get_display_info(&entries).unwrap();
    assert_eq!(pairs(&displays), vec![("DP-1".to_string(), 7), ("DP-2".to_string(), 7)]);
}

#[test]
fn the_empty_catalog_knows_no_display() {
    let catalog = Catalog::new();
    assert_eq!(catalog.get(0), None);
    assert_eq!(catalog.get(1001), None);
}

#[test]
fn the_catalog_finds_by_serial_number() {
    let displays = vec![display("HDMI-A-1", 1001), display("DP-1", 1002)];
    let catalog = Catalog::from_displays(&displays);
    assert_eq!(catalog.get(1001), Some(&"HDMI-A-1".to_string()));
    assert_eq!(catalog.get(1002), Some(&"DP-1".to_string()));
    assert_eq!(catalog.get(9999), None);
}

#[test]
fn the_later_display_takes_the_serial_number() {
    let displays = vec![display("DP-1", 7), display("HDMI-A-1", 8), display("DP-2", 7)];
    let catalog = Catalog::from_displays(&displays);
    assert_eq!(catalog.get(7), Some(&"DP-2".to_string()));
    assert_eq!(catalog.get(8), Some(&"HDMI-A-1".to_string()));
}

#[test]
fn an_entered_display_replaces_the_one_before() {
    let mut catalog = Catalog::new();
    catalog.insert(3, "DP-1".to_string());
    assert_eq!(catalog.get(3), Some(&"DP-1".to_string()));
    catalog.insert(3, "DP-4".to_string());
    catalog.insert(4, "DP-5".to_string());
    assert_eq!(catalog.get(3), Some(&"DP-4".to_string()));
    assert_eq!(catalog.get(4), Some(&"DP-5".to_string()));
}
