//! Core logic of a joystick and USB HID device toggler: validation of USB
//! interface identifiers, classification of input devices, the sysfs scan,
//! the merge of live, cached and saved device state, and the device list
//! model that the window shows.

pub mod daemon;
pub mod device;
pub mod id_set;
pub mod path;
pub mod scanner;
pub mod state;
pub mod text;
pub mod toggler;
pub mod traits;
pub mod view;

pub use device::{Device, DeviceState, DeviceType, InterfaceId};
pub use scanner::LinuxSysfsReader;
pub use state::{FileCacheStore, FileStateStore};
pub use toggler::SysfsDeviceToggler;
pub use traits::{
    DeviceToggler, MockDeviceToggler, MockStateStore, MockSysfsReader, StateStore, SysfsReader,
};
