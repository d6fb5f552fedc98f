use joytoggle_core::device::{Device, DeviceState, DeviceType, InterfaceId};

fn device(event: &str, iface: Option<&str>) -> Device {
    Device {
        event: event.into(),
        dev_path: format!("/dev/input/{event}"),
        name: "Test Device".into(),
        device_type: DeviceType::Joystick,
        autohide: false,
        usb_path: None,
        interface_id: iface.map(InterfaceId::from),
        vendor_id: None,
        product_id: None,
        enabled: true,
    }
}

#[test]
fn valid_interface_ids() {
    assert!(InterfaceId::is_valid("1-11.4.1:1.0"));
    assert!(InterfaceId::is_valid("1-6:1.0"));
    assert!(InterfaceId::is_valid("2-1.2.3:2.1"));
}

#[test]
fn invalid_interface_ids() {
    assert!(!InterfaceId::is_valid("not-an-id"));
    assert!(!InterfaceId::is_valid("1-11.4.1"));
    assert!(!InterfaceId::is_valid(":1.0"));
    assert!(!InterfaceId::is_valid(""));
    assert!(!InterfaceId::is_valid("../../etc/passwd:1.0"));
}

#[test]
fn interface_id_edge_cases() {
    // every part must be present
    assert!(!InterfaceId::is_valid("-6:1.0"));
    assert!(!InterfaceId::is_valid("1-:1.0"));
    assert!(!InterfaceId::is_valid("1-6:.0"));
    assert!(!InterfaceId::is_valid("1-6:1."));
    // only one dot after the colon, digits only
    assert!(!InterfaceId::is_valid("1-6:1.0.1"));
    assert!(!InterfaceId::is_valid("1-6:1.0:2"));
    assert!(!InterfaceId::is_valid("1-6a:1.0"));
    assert!(!InterfaceId::is_valid("1-6/1:1.0"));
    // the port may hold dots anywhere
    assert!(InterfaceId::is_valid("1-.:1.0"));
    assert!(InterfaceId::is_valid("12-3..4:10.20"));
}

#[test]
fn device_type_display() {
    assert_eq!(DeviceType::RudderPedals.to_string(), "Rudder Pedals");
    assert_eq!(DeviceType::SteeringWheel.to_string(), "Steering Wheel");
    assert_eq!(DeviceType::Unknown.to_string(), "Unknown");
}

#[test]
fn device_type_labels_of_the_other_kinds() {
    assert_eq!(DeviceType::Joystick.to_string(), "Joystick");
    assert_eq!(DeviceType::Throttle.to_string(), "Throttle");
    assert_eq!(DeviceType::Gamepad.to_string(), "Gamepad");
}

#[test]
fn device_iface_id_fallback() {
    let d = Device {
        event: "event3".into(),
        dev_path: "/dev/input/event3".into(),
        name: "Test Device".into(),
        device_type: DeviceType::Joystick,
        autohide: false,
        usb_path: None,
        interface_id: None,
        vendor_id: None,
        product_id: None,
        enabled: true,
    };
    assert_eq!(d.iface_id().as_str(), "event3");
}

#[test]
fn device_iface_id_prefers_the_interface() {
    let d = device("event3", Some("1-6:1.0"));
    assert_eq!(d.iface_id().as_str(), "1-6:1.0");
}

#[test]
fn device_clone_keeps_every_field() {
    let mut d = device("event7", Some("1-2:1.0"));
    d.usb_path = Some("/sys/x/1-2:1.0".into());
    d.vendor_id = Some("046d".into());
    let c = d.clone();
    assert_eq!(c.event, "event7");
    assert_eq!(c.dev_path, "/dev/input/event7");
    assert_eq!(c.usb_path.as_deref(), Some("/sys/x/1-2:1.0"));
    assert_eq!(c.interface_id.unwrap().as_str(), "1-2:1.0");
    assert_eq!(c.vendor_id.as_deref(), Some("046d"));
}

#[test]
fn state_store_roundtrip() {
    let mut state = DeviceState::new();
    state.insert(InterfaceId::from("1-6:1.0"), false);
    state.insert(InterfaceId::from("1-11:1.0"), true);
    let loaded = state.clone();
    assert_eq!(loaded.get(&InterfaceId::from("1-6:1.0")), Some(false));
}

#[test]
fn state_lookup_after_record() {
    let mut state = DeviceState::default();
    assert_eq!(state.get(&InterfaceId::from("1-6:1.0")), None);
    state.insert(InterfaceId::from("1-6:1.0"), true);
    state.insert(InterfaceId::from("1-7:1.0"), true);
    state.insert(InterfaceId::from("1-6:1.0"), false);
    assert_eq!(state.get(&InterfaceId::from("1-6:1.0")), Some(false));
    assert_eq!(state.get(&InterfaceId::from("1-7:1.0")), Some(true));
    let mut pairs = state.pairs();
    pairs.sort();
    assert_eq!(pairs, vec![("1-6:1.0".to_string(), false), ("1-7:1.0".to_string(), true)]);
}
