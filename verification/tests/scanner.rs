use std::path::Path;

use joytoggle_core::device::DeviceType;
use joytoggle_core::scanner::{
    detect_type, device_from_entry, find_usb_path, id_value, is_usb_interface, should_autohide,
    should_ignore, LinuxSysfsReader, SysfsEntry,
};

const REAL_PATH: &str = "/sys/devices/pci0000:00/0000:00:14.0/usb1/1-11/1-11.4/1-11.4.1/1-11.4.1:1.0/0003:3344:4002.0005/input/input23";

fn entry(file_name: &str, name: &str, real_path: Option<&str>) -> SysfsEntry {
    SysfsEntry {
        file_name: file_name.into(),
        device_name: Some(format!("{name}\n")),
        abs_caps: Some("3\n".into()),
        real_path: real_path.map(|p| p.to_string()),
        vendor_raw: Some("3344\n".into()),
        product_raw: Some(" 4002 ".into()),
        driver_bound: true,
    }
}

#[test]
fn detect_types() {
    assert_eq!(detect_type("VIRPIL VPC Rudder Pedals"), DeviceType::RudderPedals);
    assert_eq!(detect_type("VIRPIL VMAX Throttle"), DeviceType::Throttle);
    assert_eq!(detect_type("Constellation ALPHA-L"), DeviceType::Joystick);
    assert_eq!(detect_type("Xbox Controller"), DeviceType::Gamepad);
    assert_eq!(detect_type("Steering Wheel"), DeviceType::SteeringWheel);
    assert_eq!(detect_type("Some Unknown Device"), DeviceType::Gamepad);
}

#[test]
fn detect_type_first_rule_wins_and_ignores_case() {
    // "pedal" beats "throttle", whatever the case
    assert_eq!(detect_type("THROTTLE PEDAL"), DeviceType::RudderPedals);
    assert_eq!(detect_type("XBOX"), DeviceType::Gamepad);
    assert_eq!(detect_type("Logitech F310"), DeviceType::Gamepad);
    assert_eq!(detect_type("T-Rudder"), DeviceType::RudderPedals);
    assert_eq!(detect_type(""), DeviceType::Gamepad);
}

#[test]
fn autohide_rules() {
    assert!(should_autohide("GMMK Pro ISO Consumer Control"));
    assert!(should_autohide("USB Keyboard"));
    assert!(!should_autohide("VIRPIL WarBRD Stick"));
}

#[test]
fn ignore_rules() {
    assert!(should_ignore("Logitech Mouse"));
    assert!(!should_ignore("Logitech G Pro (gamepad mode)"));
}

#[test]
fn usb_path_detection() {
    let p = REAL_PATH;
    let found = find_usb_path(p);
    assert!(found.is_some());
    let found = found.unwrap();
    assert_eq!(Path::new(&found).file_name().unwrap(), "1-11.4.1:1.0");
}

#[test]
fn usb_path_is_the_prefix_up_to_the_interface() {
    assert_eq!(
        find_usb_path(REAL_PATH).as_deref(),
        Some("/sys/devices/pci0000:00/0000:00:14.0/usb1/1-11/1-11.4/1-11.4.1/1-11.4.1:1.0")
    );
    assert_eq!(find_usb_path("/sys/devices/virtual/input/input3"), None);
    assert!(is_usb_interface("1-6:1.0"));
    assert!(!is_usb_interface("usb1"));
}

#[test]
fn id_values_are_trimmed_and_empty_ones_dropped() {
    assert_eq!(id_value(&Some("  046d\n".into())).as_deref(), Some("046d"));
    assert_eq!(id_value(&Some(" \n".into())), None);
    assert_eq!(id_value(&None), None);
}

#[test]
fn an_entry_on_a_usb_interface() {
    let d = device_from_entry(&entry("event5", "VIRPIL VPC Rudder Pedals", Some(REAL_PATH))).unwrap();
    assert_eq!(d.event, "event5");
    assert_eq!(d.dev_path, "/dev/input/event5");
    assert_eq!(d.name, "VIRPIL VPC Rudder Pedals");
    assert_eq!(d.device_type, DeviceType::RudderPedals);
    assert!(!d.autohide);
    assert_eq!(d.interface_id.as_ref().unwrap().as_str(), "1-11.4.1:1.0");
    assert_eq!(d.vendor_id.as_deref(), Some("3344"));
    assert_eq!(d.product_id.as_deref(), Some("4002"));
    assert!(d.enabled);
}

#[test]
fn an_entry_off_usb_is_enabled_without_ids() {
    let mut e = entry("event1", "USB Keyboard", Some("/sys/devices/platform/i8042/serio0/input/input1"));
    e.driver_bound = false;
    let d = device_from_entry(&e).unwrap();
    assert_eq!(d.usb_path, None);
    assert!(d.interface_id.is_none());
    assert_eq!(d.vendor_id, None);
    assert!(d.enabled);
    assert!(d.autohide);
}

#[test]
fn entries_that_are_not_reported() {
    // not an event node
    assert!(device_from_entry(&entry("mouse0", "Stick", Some(REAL_PATH))).is_none());
    // a mouse
    assert!(device_from_entry(&entry("event2", "Logitech Mouse", Some(REAL_PATH))).is_none());
    // no absolute axes
    let mut e = entry("event2", "Stick", Some(REAL_PATH));
    e.abs_caps = Some("0\n".into());
    assert!(device_from_entry(&e).is_none());
    e.abs_caps = None;
    assert!(device_from_entry(&e).is_none());
    // unreadable name, unresolved path
    let mut e = entry("event2", "Stick", Some(REAL_PATH));
    e.device_name = None;
    assert!(device_from_entry(&e).is_none());
    assert!(device_from_entry(&entry("event2", "Stick", None)).is_none());
}

#[test]
fn scan_sorts_by_name_and_keeps_one_node_per_interface() {
    let entries = vec![
        entry("event9", "VIRPIL Stick (second node)", Some(REAL_PATH)),
        entry("event10", "VIRPIL Stick", Some(REAL_PATH)),
        entry("event3", "Other Stick", Some("/sys/devices/virtual/input/input3")),
        entry("js0", "VIRPIL Stick", Some(REAL_PATH)),
    ];
    let devices = LinuxSysfsReader.devices_from_entries(entries);
    let events: Vec<&str> = devices.iter().map(|d| d.event.as_str()).collect();
    // "event10" < "event3" < "event9" by name; event9 shares event10's interface
    assert_eq!(events, vec!["event10", "event3"]);
}
