use joytoggle_core::device::{Device, DeviceState, DeviceType, InterfaceId};
use joytoggle_core::traits::{
    DeviceToggler, MockDeviceToggler, MockStateStore, MockSysfsReader, StateStore, SysfsReader,
};

#[test]
fn mock_toggler_records_enable_and_disable() {
    let a = InterfaceId::from("1-6:1.0");
    let b = InterfaceId::from("1-7:1.0");
    let mut t = MockDeviceToggler::new(vec![a.clone()]);
    assert!(t.is_enabled(&a));
    assert!(!t.is_enabled(&b));
    t.enable(&b).unwrap();
    t.disable(&a).unwrap();
    assert!(!t.is_enabled(&a));
    assert!(t.is_enabled(&b));
    t.enable(&b).unwrap();
    assert!(t.is_enabled(&b));
}

#[test]
fn mock_store_gives_back_what_was_saved() {
    let mut store = MockStateStore::new(DeviceState::new());
    assert_eq!(store.load().get(&InterfaceId::from("1-6:1.0")), None);
    let mut s = DeviceState::new();
    s.insert(InterfaceId::from("1-6:1.0"), false);
    store.save(&s).unwrap();
    assert_eq!(store.load().get(&InterfaceId::from("1-6:1.0")), Some(false));
}

#[test]
fn mock_reader_reports_its_devices() {
    let reader = MockSysfsReader {
        devices: vec![Device {
            event: "event3".into(),
            dev_path: "/dev/input/event3".into(),
            name: "Stick".into(),
            device_type: DeviceType::Joystick,
            autohide: false,
            usb_path: None,
            interface_id: None,
            vendor_id: None,
            product_id: None,
            enabled: true,
        }],
    };
    let found = reader.read_devices();
    assert_eq!(found.len(), 1);
    assert_eq!(found[0].name, "Stick");
}
