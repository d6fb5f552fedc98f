use joytoggle_core::device::{Device, DeviceState, DeviceType, InterfaceId};
use joytoggle_core::id_set::IdSet;
use joytoggle_core::view::{device_icon, mock_devices, DeviceListModel};

fn dev(event: &str, iface: &str, autohide: bool, enabled: bool) -> Device {
    Device {
        event: event.into(),
        dev_path: format!("/dev/input/{event}"),
        name: format!("Device {event}"),
        device_type: DeviceType::Joystick,
        autohide,
        usb_path: None,
        interface_id: Some(InterfaceId::from(iface)),
        vendor_id: None,
        product_id: None,
        enabled,
    }
}

fn model() -> DeviceListModel {
    let devices = vec![
        dev("event0", "1-1:1.0", false, true),
        dev("event1", "1-2:1.0", true, true),
        dev("event2", "1-3:1.0", false, false),
        dev("event3", "1-4:1.0", false, true),
    ];
    let mut saved = DeviceState::new();
    saved.insert(InterfaceId::from("1-3:1.0"), true);
    let mut hidden = IdSet::new();
    hidden.insert("1-4:1.0".into());
    DeviceListModel::new(devices, &saved, hidden)
}

#[test]
fn opening_the_window_applies_saved_state_and_hiding() {
    let m = model();
    assert!(m.daemon_error.is_none());
    assert_eq!(m.visible_devices(), vec![0, 2]);
    assert_eq!(m.hidden_devices(), vec![1, 3]);
    assert!(m.devices[2].enabled);
    assert_eq!(m.active_count(), 2);
}

#[test]
fn without_the_daemon_mock_devices_are_shown() {
    let m = DeviceListModel::new(Vec::new(), &DeviceState::new(), IdSet::new());
    assert_eq!(
        m.daemon_error.as_deref(),
        Some("joytoggle-daemon not reachable — showing mock data")
    );
    assert_eq!(m.devices.len(), 3);
    assert_eq!(m.hidden_devices(), vec![2]);
    assert_eq!(mock_devices()[1].device_type, DeviceType::Throttle);
}

#[test]
fn enable_all_and_disable_all_touch_only_visible_devices() {
    let mut m = model();
    m.set_visible_enabled(false);
    assert_eq!(m.active_count(), 0);
    assert!(m.devices[1].enabled);
    m.set_visible_enabled(true);
    assert_eq!(m.active_count(), 2);
    assert_eq!(m.visible_ids(), vec!["1-1:1.0".to_string(), "1-3:1.0".to_string()]);
}

#[test]
fn hide_and_unhide() {
    let mut m = model();
    m.hide_device(0, "1-1:1.0".into());
    assert_eq!(m.visible_devices(), vec![2]);
    assert!(m.manually_hidden.contains("1-1:1.0"));
    m.unhide_device(0, "1-1:1.0");
    assert_eq!(m.visible_devices(), vec![0, 2]);
    assert!(!m.manually_hidden.contains("1-1:1.0"));
    // out of range: only the list changes
    m.hide_device(9, "9-9:1.0".into());
    assert_eq!(m.visible_devices(), vec![0, 2]);
}

#[test]
fn toggling_follows_the_daemon() {
    let mut m = model();
    let (id, want) = m.toggle_request(0);
    assert_eq!(id, "1-1:1.0");
    assert!(!want);
    m.toggle_done(0, want, false);
    assert!(m.devices[0].enabled);
    m.toggle_done(0, want, true);
    assert!(!m.devices[0].enabled);
    m.toggle_show_hidden();
    assert!(m.show_hidden);
}

#[test]
fn refreshes() {
    let mut m = model();
    m.refresh_with(Vec::new());
    assert_eq!(m.devices.len(), 4);
    let fresh = vec![dev("event0", "1-1:1.0", false, true), dev("event5", "1-4:1.0", false, true)];
    assert!(m.differs_from(&fresh));
    assert!(m.apply_fetched(fresh));
    assert_eq!(m.devices.len(), 2);
    // the user's hidden list still applies
    assert_eq!(m.hidden_devices(), vec![1]);
    let same = vec![dev("event0", "1-1:1.0", false, true), dev("event5", "1-4:1.0", false, true)];
    assert!(!m.apply_fetched(same));
    m.refresh_with(vec![dev("event0", "1-1:1.0", false, false)]);
    assert_eq!(m.devices.len(), 1);
    assert!(!m.devices[0].enabled);
}

#[test]
fn icons() {
    assert_eq!(device_icon(&DeviceType::Joystick), "◈");
    assert_eq!(device_icon(&DeviceType::Unknown), "?");
}
