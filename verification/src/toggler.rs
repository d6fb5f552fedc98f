//! Enabling and disabling a USB HID interface through sysfs: which file is
//! written, with what, and when nothing needs to be done.
use vstd::prelude::*;

use crate::device::{is_interface_id, law_interface_id_is_one_path_component, InterfaceId};
use crate::path::{join_path, joined_path_of};

verus! {

/// Binding always goes through usbhid (the standard HID USB driver).
pub const BIND_PATH: &'static str = "/sys/bus/usb/drivers/usbhid/bind";

/// The sysfs root of USB interfaces; a device's driver can be any HID driver.
pub const USB_DEVICES: &'static str = "/sys/bus/usb/devices";

/// A write of `value` to the sysfs file at `path`.
#[derive(Debug)]
pub struct SysfsWrite {
    pub path: String,
    pub value: String,
}

/// The sysfs directory of an interface.
pub open spec fn interface_dir(id: Seq<char>) -> Seq<char> {
    joined_path_of(USB_DEVICES@, id)
}

/// Enables and disables devices by binding them to usbhid and unbinding them
/// from whatever driver they have.
pub struct SysfsDeviceToggler;

impl SysfsDeviceToggler {
    /// The `unbind` file of the driver the interface is bound to (the driver
    /// link on the device itself, whichever driver it is).
    pub fn driver_unbind_path(iface_id: &InterfaceId) -> (r: String)
        ensures
            r@ == joined_path_of(interface_dir(iface_id@), "driver/unbind"@),
    {
        let dir = join_path(USB_DEVICES, iface_id.as_str());
        join_path(dir.as_str(), "driver/unbind")
    }

    /// The driver link of the interface, which exists while it is bound.
    pub fn driver_link_path(iface_id: &InterfaceId) -> (r: String)
        ensures
            r@ == joined_path_of(interface_dir(iface_id@), "driver"@),
    {
        let dir = join_path(USB_DEVICES, iface_id.as_str());
        join_path(dir.as_str(), "driver")
    }

    /// What enabling the interface writes, given whether it is bound already:
    /// nothing if it is, else its identifier to usbhid's `bind`.
    pub fn enable_write(iface_id: &InterfaceId, bound: bool) -> (r: Option<SysfsWrite>)
        ensures
            bound ==> r is None,
            !bound ==> (r matches Some(w) && w.path@ == BIND_PATH@ && w.value@ == iface_id@),
    {
        if bound {
            None
        } else {
            Some(SysfsWrite { path: BIND_PATH.to_owned(), value: iface_id.as_str().to_owned() })
        }
    }

    /// What disabling the interface writes, given whether its driver's
    /// `unbind` file exists: nothing if it does not (no driver), else the
    /// identifier to that file.
    pub fn disable_write(iface_id: &InterfaceId, unbind_exists: bool) -> (r: Option<SysfsWrite>)
        ensures
            !unbind_exists ==> r is None,
            unbind_exists ==> (r matches Some(w) && w.path@ == joined_path_of(
                interface_dir(iface_id@),
                "driver/unbind"@,
            ) && w.value@ == iface_id@),
    {
        if !unbind_exists {
            None
        } else {
            Some(
                SysfsWrite {
                    path: Self::driver_unbind_path(iface_id),
                    value: iface_id.as_str().to_owned(),
                },
            )
        }
    }
}

// ── Laws ─────────────────────────────────────────────────────────────────────

/// Disabling never writes usbhid's `bind` file, whatever the identifier:
/// the file it writes ends in `unbind`.
pub proof fn law_disabling_never_writes_bind(id: Seq<char>)
    ensures
        joined_path_of(interface_dir(id), "driver/unbind"@) != BIND_PATH@,
{
    reveal_strlit("driver/unbind");
    reveal_strlit("/sys/bus/usb/drivers/usbhid/bind");
    let dir = interface_dir(id);
    let p = joined_path_of(dir, "driver/unbind"@);
    let t = "driver/unbind"@;
    if p == BIND_PATH@ {
        assert(p[p.len() - 6] == 'u') by {
            if dir.len() == 0 || dir.last() == '/' {
                assert(p == dir + t);
                assert(p[p.len() - 6] == t[t.len() - 6]);
            } else {
                assert(p == dir + seq!['/'] + t);
                assert(p[p.len() - 6] == t[t.len() - 6]);
            }
        }
        assert(BIND_PATH@[BIND_PATH@.len() - 6] == 'd');
    }
}

/// For a valid interface identifier, the sysfs files are
/// `/sys/bus/usb/devices/<id>/driver` and `/sys/bus/usb/devices/<id>/driver/unbind`.
pub proof fn law_sysfs_files_of_valid_ids(id: Seq<char>)
    requires
        is_interface_id(id),
    ensures
        joined_path_of(interface_dir(id), "driver"@) == "/sys/bus/usb/devices/"@ + id + "/driver"@,
        joined_path_of(interface_dir(id), "driver/unbind"@) == "/sys/bus/usb/devices/"@ + id
            + "/driver/unbind"@,
{
    reveal_strlit("/sys/bus/usb/devices");
    reveal_strlit("/sys/bus/usb/devices/");
    reveal_strlit("driver");
    reveal_strlit("/driver");
    reveal_strlit("driver/unbind");
    reveal_strlit("/driver/unbind");
    law_interface_id_is_one_path_component(id);
    let dir = interface_dir(id);
    assert(id[0] != '/');
    assert(dir =~= "/sys/bus/usb/devices/"@ + id);
    assert(dir.last() == id.last());
    assert(id.last() != '/');
    assert(joined_path_of(dir, "driver"@) =~= "/sys/bus/usb/devices/"@ + id + "/driver"@);
    assert(joined_path_of(dir, "driver/unbind"@) =~= "/sys/bus/usb/devices/"@ + id
        + "/driver/unbind"@);
}

} // verus!
