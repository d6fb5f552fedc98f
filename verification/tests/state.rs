use joytoggle_core::device::{Device, DeviceState, DeviceType, InterfaceId};
use joytoggle_core::state::{config_dir_for, hidden_list_path, shown_list_path, FileCacheStore, FileStateStore};

fn make_device(name: &str, autohide: bool) -> Device {
    Device {
        event: "event0".into(),
        dev_path: "/dev/input/event0".into(),
        name: name.into(),
        device_type: DeviceType::Joystick,
        autohide,
        usb_path: Some("/sys/bus/usb/1-1:1.0".into()),
        interface_id: Some(InterfaceId::from("1-1:1.0")),
        vendor_id: None,
        product_id: None,
        enabled: true,
    }
}

#[test]
fn cache_roundtrip_excludes_autohide() {
    let devices = vec![make_device("VIRPIL Stick", false), make_device("USB Keyboard", true)];
    let loaded = FileCacheStore::cacheable(&devices);
    assert_eq!(loaded.len(), 1);
    assert_eq!(loaded[0].name, "VIRPIL Stick");
}

#[test]
fn config_locations() {
    assert_eq!(config_dir_for(Some("/home/pilot".into())), "/home/pilot/.config/joytoggle");
    assert_eq!(config_dir_for(None), "/tmp/.config/joytoggle");
    let dir = "/home/pilot/.config/joytoggle";
    assert_eq!(FileStateStore::user_state_path(dir), "/home/pilot/.config/joytoggle/state.json");
    assert_eq!(FileCacheStore::in_config_dir(dir).path, "/home/pilot/.config/joytoggle/devices_cache.json");
    assert_eq!(hidden_list_path(dir), "/home/pilot/.config/joytoggle/hidden.json");
    assert_eq!(shown_list_path(dir), "/home/pilot/.config/joytoggle/shown.json");
}

#[test]
fn user_state_first_then_system_then_empty() {
    let mut user = DeviceState::new();
    user.insert(InterfaceId::from("1-6:1.0"), false);
    let mut system = DeviceState::new();
    system.insert(InterfaceId::from("1-6:1.0"), true);
    let id = InterfaceId::from("1-6:1.0");
    let s = FileStateStore::loaded_state(Some(user.clone()), Some(system.clone()));
    assert_eq!(s.get(&id), Some(false));
    let s = FileStateStore::loaded_state(None, Some(system));
    assert_eq!(s.get(&id), Some(true));
    let s = FileStateStore::loaded_state(None, None);
    assert_eq!(s.get(&id), None);
}
