//! The device list as the window shows it: which devices are visible, which
//! are hidden, which are enabled, and how the list follows refreshes and the
//! user's clicks. Drawing it is left to the caller.
use vstd::prelude::*;

use crate::device::{
    device_key, devices_view, Device, DeviceState, DeviceType, DeviceView, InterfaceId,
};
use crate::id_set::IdSet;
use crate::text::str_equal;

verus! {

/// A device as the window lists it.
#[derive(Debug)]
pub struct DeviceItem {
    pub device: Device,
    pub enabled: bool,
    pub hidden: bool,
}

/// The mathematical value of a [`DeviceItem`].
pub struct DeviceItemView {
    pub device: DeviceView,
    pub enabled: bool,
    pub hidden: bool,
}

impl View for DeviceItem {
    type V = DeviceItemView;

    open spec fn view(&self) -> DeviceItemView {
        DeviceItemView { device: self.device@, enabled: self.enabled, hidden: self.hidden }
    }
}

/// The views of a sequence of items.
pub open spec fn items_view(s: Seq<DeviceItem>) -> Seq<DeviceItemView> {
    s.map_values(|d: DeviceItem| d@)
}

/// A device is hidden when it is hidden by default or the user hid it.
pub open spec fn is_hidden(d: DeviceView, manually_hidden: Set<Seq<char>>) -> bool {
    d.autohide || manually_hidden.contains(device_key(d))
}

/// The item for a freshly fetched device: as enabled as the daemon says.
pub open spec fn fresh_item(d: DeviceView, manually_hidden: Set<Seq<char>>) -> DeviceItemView {
    DeviceItemView { device: d, enabled: d.enabled, hidden: is_hidden(d, manually_hidden) }
}

/// The item for a device when the window opens: the saved state, where
/// there is one, overrides the live state.
pub open spec fn opening_item(
    d: DeviceView,
    saved: Map<Seq<char>, bool>,
    manually_hidden: Set<Seq<char>>,
) -> DeviceItemView {
    DeviceItemView {
        device: d,
        enabled: if saved.contains_key(device_key(d)) {
            saved[device_key(d)]
        } else {
            d.enabled
        },
        hidden: is_hidden(d, manually_hidden),
    }
}

/// The positions of the items whose `hidden` flag is `hidden`, in order.
pub open spec fn positions_where(items: Seq<DeviceItemView>, hidden: bool) -> Seq<int>
    decreases items.len(),
{
    if items.len() == 0 {
        seq![]
    } else {
        let rest = positions_where(items.drop_last(), hidden);
        if items.last().hidden == hidden {
            rest.push(items.len() - 1)
        } else {
            rest
        }
    }
}

/// How many visible items are enabled.
pub open spec fn active_in(items: Seq<DeviceItemView>) -> nat
    decreases items.len(),
{
    if items.len() == 0 {
        0
    } else {
        active_in(items.drop_last()) + if !items.last().hidden && items.last().enabled {
            1nat
        } else {
            0nat
        }
    }
}

/// A fresh list differs from the shown one: in length, or at some position in
/// the device's key or in whether it is enabled.
pub open spec fn list_differs(fresh: Seq<DeviceView>, items: Seq<DeviceItemView>) -> bool {
    fresh.len() != items.len() || exists|i: int|
        0 <= i < fresh.len() && (device_key(#[trigger] fresh[i]) != device_key(items[i].device)
            || fresh[i].enabled != items[i].enabled)
}

/// What the window shows when the daemon cannot be reached.
pub open spec fn mock_device_views() -> Seq<DeviceView> {
    seq![
        DeviceView {
            event: "event0"@,
            dev_path: "/dev/input/event0"@,
            name: "VIRPIL VPC Stick WarBRD-D (mock)"@,
            device_type: DeviceType::Joystick,
            autohide: false,
            usb_path: Some("/sys/bus/usb/1-11.4.1:1.0"@),
            interface_id: Some("1-11.4.1:1.0"@),
            vendor_id: None,
            product_id: None,
            enabled: true,
        },
        DeviceView {
            event: "event1"@,
            dev_path: "/dev/input/event1"@,
            name: "VIRPIL VPC VMAX Throttle (mock)"@,
            device_type: DeviceType::Throttle,
            autohide: false,
            usb_path: Some("/sys/bus/usb/1-11.4.3:1.0"@),
            interface_id: Some("1-11.4.3:1.0"@),
            vendor_id: None,
            product_id: None,
            enabled: true,
        },
        DeviceView {
            event: "event2"@,
            dev_path: "/dev/input/event2"@,
            name: "Glorious GMMK Pro ISO Consumer Control (mock)"@,
            device_type: DeviceType::Gamepad,
            autohide: true,
            usb_path: Some("/sys/bus/usb/1-5:1.1"@),
            interface_id: Some("1-5:1.1"@),
            vendor_id: None,
            product_id: None,
            enabled: true,
        },
    ]
}

/// The message shown when the daemon cannot be reached.
pub open spec fn unreachable_message() -> Seq<char> {
    "joytoggle-daemon not reachable — showing mock data"@
}

/// The devices shown when the daemon cannot be reached.
pub fn mock_devices() -> (r: Vec<Device>)
    ensures
        devices_view(r@) == mock_device_views(),
{
    let mut v: Vec<Device> = Vec::new();
    v.push(
        Device {
            event: "event0".to_owned(),
            dev_path: "/dev/input/event0".to_owned(),
            name: "VIRPIL VPC Stick WarBRD-D (mock)".to_owned(),
            device_type: DeviceType::Joystick,
            autohide: false,
            usb_path: Some("/sys/bus/usb/1-11.4.1:1.0".to_owned()),
            interface_id: Some(InterfaceId::from("1-11.4.1:1.0")),
            vendor_id: None,
            product_id: None,
            enabled: true,
        },
    );
    v.push(
        Device {
            event: "event1".to_owned(),
            dev_path: "/dev/input/event1".to_owned(),
            name: "VIRPIL VPC VMAX Throttle (mock)".to_owned(),
            device_type: DeviceType::Throttle,
            autohide: false,
            usb_path: Some("/sys/bus/usb/1-11.4.3:1.0".to_owned()),
            interface_id: Some(InterfaceId::from("1-11.4.3:1.0")),
            vendor_id: None,
            product_id: None,
            enabled: true,
        },
    );
    v.push(
        Device {
            event: "event2".to_owned(),
            dev_path: "/dev/input/event2".to_owned(),
            name: "Glorious GMMK Pro ISO Consumer Control (mock)".to_owned(),
            device_type: DeviceType::Gamepad,
            autohide: true,
            usb_path: Some("/sys/bus/usb/1-5:1.1".to_owned()),
            interface_id: Some(InterfaceId::from("1-5:1.1")),
            vendor_id: None,
            product_id: None,
            enabled: true,
        },
    );
    assert(devices_view(v@) =~= mock_device_views());
    v
}

/// The symbol drawn for a kind of device.
pub open spec fn icon_of(t: DeviceType) -> Seq<char> {
    match t {
        DeviceType::Joystick => "◈"@,
        DeviceType::Throttle => "▶"@,
        DeviceType::RudderPedals => "↕"@,
        DeviceType::Gamepad => "⊕"@,
        DeviceType::SteeringWheel => "◎"@,
        DeviceType::Unknown => "?"@,
    }
}

/// The symbol drawn for a kind of device.
pub fn device_icon(t: &DeviceType) -> (r: &'static str)
    ensures
        r@ == icon_of(*t),
{
    match t {
        DeviceType::Joystick => "◈",
        DeviceType::Throttle => "▶",
        DeviceType::RudderPedals => "↕",
        DeviceType::Gamepad => "⊕",
        DeviceType::SteeringWheel => "◎",
        DeviceType::Unknown => "?",
    }
}

/// The item for a freshly fetched device.
pub fn item_from_fresh(d: Device, manually_hidden: &IdSet) -> (r: DeviceItem)
    ensures
        r@ == fresh_item(d@, manually_hidden@),
{
    let key = d.iface_id();
    let hidden = d.autohide || manually_hidden.contains(key.as_str());
    let enabled = d.enabled;
    DeviceItem { device: d, enabled, hidden }
}

/// The items for a freshly fetched device list, in order.
pub fn items_from_fresh(fresh: &Vec<Device>, manually_hidden: &IdSet) -> (r: Vec<DeviceItem>)
    ensures
        items_view(r@) == devices_view(fresh@).map_values(
            |d: DeviceView| fresh_item(d, manually_hidden@),
        ),
{
    let mut out: Vec<DeviceItem> = Vec::new();
    let mut i: usize = 0;
    while i < fresh.len()
        invariant
            i <= fresh@.len(),
            out@.len() == i,
            forall|m: int|
                0 <= m < i ==> (#[trigger] out@[m])@ == fresh_item(fresh@[m]@, manually_hidden@),
        decreases fresh@.len() - i,
    {
        out.push(item_from_fresh(fresh[i].clone(), manually_hidden));
        i = i + 1;
    }
    assert(items_view(out@) =~= devices_view(fresh@).map_values(
        |d: DeviceView| fresh_item(d, manually_hidden@),
    ));
    out
}

/// The state of the window's device list.
pub struct DeviceListModel {
    pub devices: Vec<DeviceItem>,
    /// Interface IDs the user hid.
    pub manually_hidden: IdSet,
    /// Whether the section of hidden devices is expanded.
    pub show_hidden: bool,
    pub daemon_error: Option<String>,
}

impl DeviceListModel {
    /// The list when the window opens, from the devices the daemon gave (the
    /// mock devices, with an error message, when it gave none), the saved
    /// state and the user's hidden list.
    pub fn new(fetched: Vec<Device>, saved: &DeviceState, manually_hidden: IdSet) -> (r:
        DeviceListModel)
        ensures
            ({
                let shown = if fetched@.len() == 0 {
                    mock_device_views()
                } else {
                    devices_view(fetched@)
                };
                items_view(r.devices@) == shown.map_values(
                    |d: DeviceView| opening_item(d, saved@, manually_hidden@),
                )
            }),
            r.manually_hidden@ == manually_hidden@,
            !r.show_hidden,
            fetched@.len() == 0 ==> (r.daemon_error matches Some(e) && e@ == unreachable_message()),
            fetched@.len() != 0 ==> r.daemon_error is None,
    {
        let empty = fetched.len() == 0;
        let error = if empty {
            Some("joytoggle-daemon not reachable — showing mock data".to_owned())
        } else {
            None
        };
        let devices = if empty {
            mock_devices()
        } else {
            fetched
        };
        let ghost dv = devices_view(devices@);
        let mut items: Vec<DeviceItem> = Vec::new();
        let mut i: usize = 0;
        while i < devices.len()
            invariant
                i <= devices@.len(),
                dv == devices_view(devices@),
                items@.len() == i,
                forall|m: int|
                    0 <= m < i ==> (#[trigger] items@[m])@ == opening_item(
                        dv[m],
                        saved@,
                        manually_hidden@,
                    ),
            decreases devices@.len() - i,
        {
            let d = devices[i].clone();
            let key = d.iface_id();
            let enabled = match saved.get(&key) {
                Some(e) => e,
                None => d.enabled,
            };
            let hidden = d.autohide || manually_hidden.contains(key.as_str());
            items.push(DeviceItem { device: d, enabled, hidden });
            i = i + 1;
        }
        assert(items_view(items@) =~= dv.map_values(
            |d: DeviceView| opening_item(d, saved@, manually_hidden@),
        ));
        DeviceListModel { devices: items, manually_hidden, show_hidden: false, daemon_error: error }
    }

    /// The positions of the visible devices, in order.
    pub fn visible_devices(&self) -> (r: Vec<usize>)
        ensures
            r@.map_values(|i: usize| i as int) == positions_where(items_view(self.devices@), false),
    {
        positions_with(&self.devices, false)
    }

    /// The positions of the hidden devices, in order.
    pub fn hidden_devices(&self) -> (r: Vec<usize>)
        ensures
            r@.map_values(|i: usize| i as int) == positions_where(items_view(self.devices@), true),
    {
        positions_with(&self.devices, true)
    }

    /// How many visible devices are enabled.
    pub fn active_count(&self) -> (r: usize)
        ensures
            r == active_in(items_view(self.devices@)),
    {
        let ghost iv = items_view(self.devices@);
        let mut count: usize = 0;
        let mut i: usize = 0;
        while i < self.devices.len()
            invariant
                i <= self.devices@.len(),
                iv == items_view(self.devices@),
                count == active_in(iv.take(i as int)),
                count <= i,
            decreases self.devices@.len() - i,
        {
            assert(iv.take(i + 1).drop_last() =~= iv.take(i as int));
            assert(iv.take(i + 1).last() == self.devices@[i as int]@);
            if !self.devices[i].hidden && self.devices[i].enabled {
                count = count + 1;
            }
            i = i + 1;
        }
        assert(iv.take(self.devices@.len() as int) =~= iv);
        count
    }
}

impl DeviceListModel {
    /// Replaces the list by a freshly fetched one, unless nothing was fetched
    /// (the daemon did not answer); a fetched list also clears the error.
    pub fn refresh_with(&mut self, fresh: Vec<Device>)
        ensures
            fresh@.len() == 0 ==> *final(self) == *old(self),
            fresh@.len() != 0 ==> {
                &&& items_view(final(self).devices@) == devices_view(fresh@).map_values(
                    |d: DeviceView| fresh_item(d, old(self).manually_hidden@),
                )
                &&& final(self).daemon_error is None
                &&& final(self).manually_hidden == old(self).manually_hidden
                &&& final(self).show_hidden == old(self).show_hidden
            },
    {
        if fresh.len() != 0 {
            self.daemon_error = None;
            self.devices = items_from_fresh(&fresh, &self.manually_hidden);
        }
    }

    /// Whether a freshly fetched list differs from the shown one.
    pub fn differs_from(&self, fresh: &Vec<Device>) -> (r: bool)
        ensures
            r == list_differs(devices_view(fresh@), items_view(self.devices@)),
    {
        let ghost fv = devices_view(fresh@);
        let ghost iv = items_view(self.devices@);
        if fresh.len() != self.devices.len() {
            return true;
        }
        let mut i: usize = 0;
        while i < fresh.len()
            invariant
                i <= fresh@.len(),
                fresh@.len() == self.devices@.len(),
                fv == devices_view(fresh@),
                iv == items_view(self.devices@),
                forall|m: int|
                    0 <= m < i ==> !(device_key(#[trigger] fv[m]) != device_key(iv[m].device)
                        || fv[m].enabled != iv[m].enabled),
            decreases fresh@.len() - i,
        {
            let a = fresh[i].iface_id();
            let b = self.devices[i].device.iface_id();
            if !str_equal(a.as_str(), b.as_str()) || fresh[i].enabled != self.devices[i].enabled {
                assert(device_key(fv[i as int]) != device_key(iv[i as int].device) || fv[i as int].enabled
                    != iv[i as int].enabled);
                return true;
            }
            i = i + 1;
        }
        false
    }

    /// Takes in a list fetched in the background: a non-empty one clears the
    /// error, and the shown list is replaced when the fetched one differs.
    /// Answers whether the list was replaced.
    pub fn apply_fetched(&mut self, fresh: Vec<Device>) -> (r: bool)
        ensures
            r == list_differs(devices_view(fresh@), items_view(old(self).devices@)),
            r ==> items_view(final(self).devices@) == devices_view(fresh@).map_values(
                |d: DeviceView| fresh_item(d, old(self).manually_hidden@),
            ),
            !r ==> final(self).devices == old(self).devices,
            fresh@.len() != 0 ==> final(self).daemon_error is None,
            fresh@.len() == 0 ==> final(self).daemon_error == old(self).daemon_error,
            final(self).manually_hidden == old(self).manually_hidden,
            final(self).show_hidden == old(self).show_hidden,
    {
        if fresh.len() != 0 {
            self.daemon_error = None;
        }
        let changed = self.differs_from(&fresh);
        if changed {
            self.devices = items_from_fresh(&fresh, &self.manually_hidden);
        }
        changed
    }

    /// The user hides a device: its interface ID joins the hidden list and the
    /// item at `i`, if there is one, is marked hidden.
    pub fn hide_device(&mut self, i: usize, iface_id: String)
        ensures
            final(self).manually_hidden@ == old(self).manually_hidden@.insert(iface_id@),
            i < old(self).devices@.len() ==> items_view(final(self).devices@) == items_view(
                old(self).devices@,
            ).update(i as int, DeviceItemView { hidden: true, ..old(self).devices@[i as int]@ }),
            i >= old(self).devices@.len() ==> final(self).devices == old(self).devices,
            final(self).show_hidden == old(self).show_hidden,
            final(self).daemon_error == old(self).daemon_error,
    {
        self.manually_hidden.insert(iface_id);
        self.mark_hidden(i, true);
    }

    /// The user unhides a device: its interface ID leaves the hidden list and
    /// the item at `i`, if there is one, is marked visible.
    pub fn unhide_device(&mut self, i: usize, iface_id: &str)
        ensures
            final(self).manually_hidden@ == old(self).manually_hidden@.remove(iface_id@),
            i < old(self).devices@.len() ==> items_view(final(self).devices@) == items_view(
                old(self).devices@,
            ).update(i as int, DeviceItemView { hidden: false, ..old(self).devices@[i as int]@ }),
            i >= old(self).devices@.len() ==> final(self).devices == old(self).devices,
            final(self).show_hidden == old(self).show_hidden,
            final(self).daemon_error == old(self).daemon_error,
    {
        self.manually_hidden.remove(iface_id);
        self.mark_hidden(i, false);
    }

    /// Sets the `hidden` flag of the item at `i`, if there is one.
    fn mark_hidden(&mut self, i: usize, hidden: bool)
        ensures
            i < old(self).devices@.len() ==> items_view(final(self).devices@) == items_view(
                old(self).devices@,
            ).update(i as int, DeviceItemView { hidden: hidden, ..old(self).devices@[i as int]@ }),
            i >= old(self).devices@.len() ==> final(self).devices == old(self).devices,
            final(self).manually_hidden == old(self).manually_hidden,
            final(self).show_hidden == old(self).show_hidden,
            final(self).daemon_error == old(self).daemon_error,
    {
        if i < self.devices.len() {
            let item = DeviceItem {
                device: self.devices[i].device.clone(),
                enabled: self.devices[i].enabled,
                hidden,
            };
            let ghost before = self.devices@;
            self.devices.set(i, item);
            assert(items_view(self.devices@) =~= items_view(before).update(
                i as int,
                DeviceItemView { hidden: hidden, ..before[i as int]@ },
            ));
        }
    }

    /// Marks every visible device enabled (`on`) or disabled; hidden devices
    /// keep their state.
    pub fn set_visible_enabled(&mut self, on: bool)
        ensures
            items_view(final(self).devices@) == items_view(old(self).devices@).map_values(
                |d: DeviceItemView| if d.hidden {
                    d
                } else {
                    DeviceItemView { enabled: on, ..d }
                },
            ),
            final(self).manually_hidden == old(self).manually_hidden,
            final(self).show_hidden == old(self).show_hidden,
            final(self).daemon_error == old(self).daemon_error,
    {
        let ghost before = items_view(self.devices@);
        let mut i: usize = 0;
        while i < self.devices.len()
            invariant
                i <= self.devices@.len(),
                self.devices@.len() == before.len(),
                self.manually_hidden == old(self).manually_hidden,
                self.show_hidden == old(self).show_hidden,
                self.daemon_error == old(self).daemon_error,
                forall|m: int|
                    0 <= m < self.devices@.len() ==> (#[trigger] self.devices@[m])@ == if m < i
                        && !before[m].hidden {
                        DeviceItemView { enabled: on, ..before[m] }
                    } else {
                        before[m]
                    },
            decreases self.devices@.len() - i,
        {
            if !self.devices[i].hidden {
                let item = DeviceItem {
                    device: self.devices[i].device.clone(),
                    enabled: on,
                    hidden: false,
                };
                self.devices.set(i, item);
            }
            i = i + 1;
        }
        assert(items_view(self.devices@) =~= before.map_values(
            |d: DeviceItemView| if d.hidden {
                d
            } else {
                DeviceItemView { enabled: on, ..d }
            },
        ));
    }

    /// The interface IDs of the visible devices, in order (those that "Enable
    /// All" and "Disable All" act on).
    pub fn visible_ids(&self) -> (r: Vec<String>)
        ensures
            r@.len() == positions_where(items_view(self.devices@), false).len(),
            forall|j: int|
                0 <= j < r@.len() ==> (#[trigger] r@[j])@ == device_key(
                    self.devices@[positions_where(items_view(self.devices@), false)[j]]@.device,
                ),
    {
        let positions = self.visible_devices();
        let ghost ps = positions_where(items_view(self.devices@), false);
        proof {
            lemma_positions_in_range(items_view(self.devices@), false);
        }
        let mut out: Vec<String> = Vec::new();
        let mut j: usize = 0;
        while j < positions.len()
            invariant
                j <= positions@.len(),
                ps == positions@.map_values(|i: usize| i as int),
                forall|k: int| 0 <= k < ps.len() ==> 0 <= #[trigger] ps[k] < self.devices@.len(),
                out@.len() == j,
                forall|k: int|
                    0 <= k < j ==> (#[trigger] out@[k])@ == device_key(self.devices@[ps[k]]@.device),
            decreases positions@.len() - j,
        {
            assert(ps[j as int] == positions@[j as int] as int);
            let id = self.devices[positions[j]].device.iface_id();
            out.push(id.as_str().to_owned());
            j = j + 1;
        }
        out
    }

    /// What clicking the toggle of the item at `i` asks for: its interface ID
    /// and the opposite of its current state.
    pub fn toggle_request(&self, i: usize) -> (r: (String, bool))
        requires
            i < self.devices@.len(),
        ensures
            r.0@ == device_key(self.devices@[i as int].device@),
            r.1 == !self.devices@[i as int].enabled,
    {
        let id = self.devices[i].device.iface_id();
        (id.as_str().to_owned(), !self.devices[i].enabled)
    }

    /// Records the outcome of a toggle: when the daemon did it, the item at
    /// `i` takes the requested state; otherwise nothing changes.
    pub fn toggle_done(&mut self, i: usize, want_on: bool, succeeded: bool)
        requires
            i < old(self).devices@.len(),
        ensures
            succeeded ==> items_view(final(self).devices@) == items_view(old(self).devices@).update(
                i as int,
                DeviceItemView { enabled: want_on, ..old(self).devices@[i as int]@ },
            ),
            !succeeded ==> final(self).devices == old(self).devices,
            final(self).manually_hidden == old(self).manually_hidden,
            final(self).show_hidden == old(self).show_hidden,
            final(self).daemon_error == old(self).daemon_error,
    {
        if succeeded {
            let item = DeviceItem {
                device: self.devices[i].device.clone(),
                enabled: want_on,
                hidden: self.devices[i].hidden,
            };
            let ghost before = self.devices@;
            self.devices.set(i, item);
            assert(items_view(self.devices@) =~= items_view(before).update(
                i as int,
                DeviceItemView { enabled: want_on, ..before[i as int]@ },
            ));
        }
    }

    /// Expands or collapses the section of hidden devices.
    pub fn toggle_show_hidden(&mut self)
        ensures
            final(self).show_hidden == !old(self).show_hidden,
            final(self).devices == old(self).devices,
            final(self).manually_hidden == old(self).manually_hidden,
            final(self).daemon_error == old(self).daemon_error,
    {
        self.show_hidden = !self.show_hidden;
    }
}

/// Every position listed is a position of the list.
pub proof fn lemma_positions_in_range(items: Seq<DeviceItemView>, hidden: bool)
    ensures
        forall|k: int|
            0 <= k < positions_where(items, hidden).len() ==> 0 <= #[trigger] positions_where(
                items,
                hidden,
            )[k] < items.len(),
    decreases items.len(),
{
    if items.len() > 0 {
        lemma_positions_in_range(items.drop_last(), hidden);
        let rest = positions_where(items.drop_last(), hidden);
        let all = positions_where(items, hidden);
        assert forall|k: int| 0 <= k < all.len() implies 0 <= #[trigger] all[k] < items.len() by {
            if k < rest.len() {
                assert(all[k] == rest[k]);
            }
        }
    }
}

/// The positions of the items whose `hidden` flag is `hidden`, in order.
fn positions_with(items: &Vec<DeviceItem>, hidden: bool) -> (r: Vec<usize>)
    ensures
        r@.map_values(|i: usize| i as int) == positions_where(items_view(items@), hidden),
{
    let ghost iv = items_view(items@);
    let mut out: Vec<usize> = Vec::new();
    let mut i: usize = 0;
    while i < items.len()
        invariant
            i <= items@.len(),
            iv == items_view(items@),
            out@.map_values(|i: usize| i as int) == positions_where(iv.take(i as int), hidden),
        decreases items@.len() - i,
    {
        assert(iv.take(i + 1).drop_last() =~= iv.take(i as int));
        assert(iv.take(i + 1).last() == items@[i as int]@);
        if items[i].hidden == hidden {
            let ghost before = out@;
            out.push(i);
            assert(out@.map_values(|i: usize| i as int) =~= before.map_values(|i: usize| i as int).push(i as int));
        }
        i = i + 1;
    }
    assert(iv.take(items@.len() as int) =~= iv);
    out
}

// ── Laws ─────────────────────────────────────────────────────────────────────

/// Every item is listed exactly once, either among the visible or among the
/// hidden devices, in increasing order of position.
pub proof fn law_visible_and_hidden_split_the_list(items: Seq<DeviceItemView>, h: bool)
    ensures
        positions_where(items, false).len() + positions_where(items, true).len() == items.len(),
        forall|k: int|
            0 <= k < positions_where(items, h).len() ==> 0 <= #[trigger] positions_where(items, h)[k]
                < items.len() && items[positions_where(items, h)[k]].hidden == h,
        forall|k1: int, k2: int|
            0 <= k1 < k2 < positions_where(items, h).len() ==> #[trigger] positions_where(items, h)[k1]
                < #[trigger] positions_where(items, h)[k2],
        forall|i: int|
            0 <= i < items.len() && (#[trigger] items[i]).hidden == h ==> exists|k: int|
                0 <= k < positions_where(items, h).len() && positions_where(items, h)[k] == i,
    decreases items.len(),
{
    if items.len() > 0 {
        let p = items.drop_last();
        law_visible_and_hidden_split_the_list(p, h);
        let rest = positions_where(p, h);
        let all = positions_where(items, h);
        assert forall|k: int| 0 <= k < all.len() implies 0 <= #[trigger] all[k] < items.len()
            && items[all[k]].hidden == h by {
            if k < rest.len() {
                assert(all[k] == rest[k]);
                assert(items[rest[k]] == p[rest[k]]);
            }
        }
        assert forall|k1: int, k2: int| 0 <= k1 < k2 < all.len() implies #[trigger] all[k1]
            < #[trigger] all[k2] by {
            if k2 < rest.len() {
                assert(all[k1] == rest[k1] && all[k2] == rest[k2]);
            } else {
                assert(all[k1] == rest[k1]);
            }
        }
        assert forall|i: int| 0 <= i < items.len() && (#[trigger] items[i]).hidden == h implies exists|k: int|
            0 <= k < all.len() && all[k] == i by {
            if i < p.len() {
                assert(p[i] == items[i]);
                let k = choose|k: int| 0 <= k < rest.len() && rest[k] == i;
                assert(all[k] == rest[k]);
            } else {
                assert(all[all.len() - 1] == i);
            }
        }
    }
}

/// The header's count of active devices is at most the count of visible ones.
pub proof fn law_active_at_most_visible(items: Seq<DeviceItemView>)
    ensures
        active_in(items) <= positions_where(items, false).len(),
    decreases items.len(),
{
    if items.len() > 0 {
        law_active_at_most_visible(items.drop_last());
    }
}

/// The items after "Enable All" (`on`) or "Disable All".
pub open spec fn all_visible_set(items: Seq<DeviceItemView>, on: bool) -> Seq<DeviceItemView> {
    items.map_values(
        |d: DeviceItemView| if d.hidden {
            d
        } else {
            DeviceItemView { enabled: on, ..d }
        },
    )
}

/// After "Enable All" every visible device is active; after "Disable All"
/// none is. Which devices are visible does not change.
pub proof fn law_enable_all_sets_every_visible_device(items: Seq<DeviceItemView>, on: bool)
    ensures
        positions_where(all_visible_set(items, on), false) == positions_where(items, false),
        active_in(all_visible_set(items, on)) == if on {
            positions_where(items, false).len()
        } else {
            0
        },
    decreases items.len(),
{
    if items.len() > 0 {
        let p = items.drop_last();
        law_enable_all_sets_every_visible_device(p, on);
        assert(all_visible_set(items, on).drop_last() =~= all_visible_set(p, on));
    }
}

/// Hiding a device the user had not hidden and then unhiding it leaves the
/// hidden list as it was.
pub proof fn law_unhide_undoes_hide(hidden: Set<Seq<char>>, id: Seq<char>)
    requires
        !hidden.contains(id),
    ensures
        hidden.insert(id).remove(id) == hidden,
{
    assert(hidden.insert(id).remove(id) =~= hidden);
}

/// A fetched list counts as changed exactly when it has another length, or
/// at some position another device key or another enabled flag than the
/// shown item; so a list that only flips one device's enabled flag is taken
/// in, and a list equal in keys and flags is not.
pub proof fn law_what_counts_as_a_changed_list(
    fresh: Seq<DeviceView>,
    items: Seq<DeviceItemView>,
)
    ensures
        fresh.len() != items.len() ==> list_differs(fresh, items),
        forall|i: int|
            0 <= i < fresh.len() && fresh.len() == items.len() && (#[trigger] fresh[i]).enabled
                != items[i].enabled ==> list_differs(fresh, items),
        forall|i: int|
            0 <= i < fresh.len() && fresh.len() == items.len() && device_key(#[trigger] fresh[i])
                != device_key(items[i].device) ==> list_differs(fresh, items),
        fresh.len() == items.len() && (forall|i: int|
            0 <= i < fresh.len() ==> device_key(#[trigger] fresh[i]) == device_key(items[i].device)
                && fresh[i].enabled == items[i].enabled) ==> !list_differs(fresh, items),
{
}

/// When the window opens, a device's saved state, if there is one, decides
/// whether it is shown enabled, whatever sysfs says; without one, sysfs
/// decides. It is hidden when it is hidden by default or the user hid its
/// key. A device taken from a later fetch is shown as enabled as the daemon
/// says, hidden by the same rule.
pub proof fn law_saved_state_decides_at_opening(
    d: DeviceView,
    saved: Map<Seq<char>, bool>,
    manually_hidden: Set<Seq<char>>,
)
    ensures
        saved.contains_key(device_key(d)) ==> opening_item(d, saved, manually_hidden).enabled
            == saved[device_key(d)],
        !saved.contains_key(device_key(d)) ==> opening_item(d, saved, manually_hidden).enabled
            == d.enabled,
        opening_item(d, saved, manually_hidden).device == d,
        opening_item(d, saved, manually_hidden).hidden == (d.autohide || manually_hidden.contains(
            device_key(d),
        )),
        fresh_item(d, manually_hidden).device == d,
        fresh_item(d, manually_hidden).enabled == d.enabled,
        fresh_item(d, manually_hidden).hidden == (d.autohide || manually_hidden.contains(
            device_key(d),
        )),
{
}

} // verus!
