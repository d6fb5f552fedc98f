use joytoggle_core::daemon::{
    checked_iface_id, merge_devices, toggle_action, toggle_outcome, RequestError, ToggleRequest,
};
use joytoggle_core::device::{Device, DeviceState, DeviceType, InterfaceId};
use joytoggle_core::traits::{DeviceToggler, Failure, MockDeviceToggler};

/// What the daemon does with a toggle request: decide, call the toggler, report.
fn toggle_device<T: DeviceToggler>(t: &mut T, iface_id: String, on: bool) -> Result<(), RequestError> {
    let outcome = match toggle_action(iface_id, on)? {
        ToggleRequest::Enable(id) => t.enable(&id),
        ToggleRequest::Disable(id) => t.disable(&id),
    };
    toggle_outcome(outcome)
}

fn dev(event: &str, iface: &str, usb: &str, enabled: bool) -> Device {
    Device {
        event: event.into(),
        dev_path: format!("/dev/input/{event}"),
        name: format!("Device {event}"),
        device_type: DeviceType::Joystick,
        autohide: false,
        usb_path: Some(usb.into()),
        interface_id: Some(InterfaceId::from(iface)),
        vendor_id: None,
        product_id: None,
        enabled,
    }
}

struct BrokenToggler;

impl DeviceToggler for BrokenToggler {
    fn enable(&mut self, _iface_id: &InterfaceId) -> Result<(), Failure> {
        Err(Failure { message: "permission denied".into() })
    }

    fn disable(&mut self, _iface_id: &InterfaceId) -> Result<(), Failure> {
        Err(Failure { message: "permission denied".into() })
    }
}

#[test]
fn requests_with_invalid_ids_are_refused() {
    match checked_iface_id("../../etc/passwd:1.0".into()) {
        Err(RequestError::InvalidInterfaceId(s)) => assert_eq!(s, "../../etc/passwd:1.0"),
        other => panic!("unexpected {other:?}"),
    }
    assert_eq!(checked_iface_id("1-6:1.0".into()).unwrap().as_str(), "1-6:1.0");
}

#[test]
fn invalid_request_never_reaches_the_toggler() {
    let mut t = MockDeviceToggler::new(vec![InterfaceId::from("1-6:1.0")]);
    let r = toggle_device(&mut t, "1-6".into(), false);
    assert!(matches!(r, Err(RequestError::InvalidInterfaceId(_))));
    assert!(t.is_enabled(&InterfaceId::from("1-6:1.0")));
    toggle_device(&mut t, "1-6:1.0".into(), false).unwrap();
    assert!(!t.is_enabled(&InterfaceId::from("1-6:1.0")));
    toggle_device(&mut t, "1-6:1.0".into(), true).unwrap();
    assert!(t.is_enabled(&InterfaceId::from("1-6:1.0")));
}

#[test]
fn toggler_failures_are_reported() {
    let mut t = BrokenToggler;
    match toggle_device(&mut t, "1-6:1.0".into(), true) {
        Err(RequestError::Failed(m)) => assert_eq!(m, "permission denied"),
        other => panic!("unexpected {other:?}"),
    }
}

#[test]
fn merge_appends_missing_cached_devices_disabled() {
    let live = vec![dev("event1", "1-6:1.0", "/sys/u/1-6:1.0", true)];
    let cached = vec![
        dev("event1", "1-6:1.0", "/sys/u/1-6:1.0", true),
        dev("event4", "1-7:1.0", "/sys/u/1-7:1.0", true),
    ];
    let merged = merge_devices(&live, &cached, &DeviceState::new());
    assert_eq!(merged.len(), 2);
    assert_eq!(merged[0].event, "event1");
    assert!(merged[0].enabled);
    assert_eq!(merged[1].event, "event4");
    assert!(!merged[1].enabled);
}

#[test]
fn merge_keeps_one_device_per_key_and_applies_saved_state() {
    let live = vec![
        dev("event1", "1-6:1.0", "/sys/u/1-6:1.0", true),
        dev("event2", "1-6:1.0", "/sys/u/1-6:1.0", true),
    ];
    let cached = vec![dev("event4", "1-7:1.0", "/sys/u/1-7:1.0", true)];
    let mut state = DeviceState::new();
    state.insert(InterfaceId::from("1-6:1.0"), false);
    state.insert(InterfaceId::from("1-7:1.0"), true);
    let merged = merge_devices(&live, &cached, &state);
    let summary: Vec<(&str, bool)> = merged.iter().map(|d| (d.event.as_str(), d.enabled)).collect();
    assert_eq!(summary, vec![("event1", false), ("event4", true)]);
}

#[test]
fn merge_with_nothing_cached_is_the_live_list() {
    let live = vec![dev("event1", "1-6:1.0", "/sys/u/1-6:1.0", false)];
    let merged = merge_devices(&live, &Vec::new(), &DeviceState::new());
    assert_eq!(merged.len(), 1);
    assert!(!merged[0].enabled);
}

#[test]
fn toggle_requests_name_the_right_call() {
    match toggle_action("1-6:1.0".into(), true) {
        Ok(ToggleRequest::Enable(id)) => assert_eq!(id.as_str(), "1-6:1.0"),
        other => panic!("unexpected {other:?}"),
    }
    match toggle_action("1-6:1.0".into(), false) {
        Ok(ToggleRequest::Disable(id)) => assert_eq!(id.as_str(), "1-6:1.0"),
        other => panic!("unexpected {other:?}"),
    }
    assert!(matches!(toggle_action("usb1".into(), true), Err(RequestError::InvalidInterfaceId(_))));
    assert!(toggle_outcome(Ok(())).is_ok());
    match toggle_outcome(Err(Failure { message: "busy".into() })) {
        Err(RequestError::Failed(m)) => assert_eq!(m, "busy"),
        other => panic!("unexpected {other:?}"),
    }
}
