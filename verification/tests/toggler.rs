use joytoggle_core::device::InterfaceId;
use joytoggle_core::toggler::{SysfsDeviceToggler, BIND_PATH};

#[test]
fn sysfs_paths_of_an_interface() {
    let id = InterfaceId::from("1-6:1.0");
    assert_eq!(SysfsDeviceToggler::driver_unbind_path(&id), "/sys/bus/usb/devices/1-6:1.0/driver/unbind");
    assert_eq!(SysfsDeviceToggler::driver_link_path(&id), "/sys/bus/usb/devices/1-6:1.0/driver");
}

#[test]
fn enabling_writes_bind_only_when_unbound() {
    let id = InterfaceId::from("1-6:1.0");
    assert!(SysfsDeviceToggler::enable_write(&id, true).is_none());
    let w = SysfsDeviceToggler::enable_write(&id, false).unwrap();
    assert_eq!(w.path, BIND_PATH);
    assert_eq!(w.value, "1-6:1.0");
}

#[test]
fn disabling_writes_unbind_only_when_bound() {
    let id = InterfaceId::from("1-6:1.0");
    assert!(SysfsDeviceToggler::disable_write(&id, false).is_none());
    let w = SysfsDeviceToggler::disable_write(&id, true).unwrap();
    assert_eq!(w.path, "/sys/bus/usb/devices/1-6:1.0/driver/unbind");
    assert_eq!(w.value, "1-6:1.0");
}
