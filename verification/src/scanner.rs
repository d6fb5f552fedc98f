//! Recognising input devices in sysfs: the naming rules that classify a
//! device, the search for its USB interface, and the scan of the event nodes.
use vstd::prelude::*;

use crate::device::{
    dedup_by_key, device_key, devices_view, first_of_each_key, first_with_its_key, has_key,
    is_interface_id, keys_unique, lemma_first_of_each_key, lemma_first_of_each_key_keeps_the_first, listed,
    opt_view, Device, DeviceType, DeviceView, InterfaceId,
};
use crate::path::{
    collect_path, collected_path_of, components_of, file_name_of, is_plain_name, path_components,
    path_file_name, strings_view,
};
use crate::text::{
    has_prefix, has_substring, law_trim_is_idempotent, lowercase_of, str_contains, str_equal,
    str_starts_with, to_lowercase, trim, trim_of,
};

verus! {

// ── Naming rules ─────────────────────────────────────────────────────────────

/// The kind of a device, by the words in its lowercased name. The first rule
/// that matches wins; a name that matches none is taken for a gamepad.
pub open spec fn kind_of_lowercase(n: Seq<char>) -> DeviceType {
    if has_substring(n, "pedal"@) || has_substring(n, "rudder"@) || has_substring(n, "torq"@) {
        DeviceType::RudderPedals
    } else if has_substring(n, "throttle"@) || has_substring(n, "mongoose"@) || has_substring(
        n,
        "vmax"@,
    ) {
        DeviceType::Throttle
    } else if has_substring(n, "joystick"@) || has_substring(n, "alpha"@) || has_substring(
        n,
        "constellation"@,
    ) || has_substring(n, "stick"@) || has_substring(n, "warbrd"@) {
        DeviceType::Joystick
    } else if has_substring(n, "gamepad"@) || has_substring(n, "xbox"@) || has_substring(
        n,
        "playstation"@,
    ) || has_substring(n, "dualshock"@) || has_substring(n, "dualsense"@) || has_substring(
        n,
        "logitech f"@,
    ) {
        DeviceType::Gamepad
    } else if has_substring(n, "wheel"@) || has_substring(n, "steering"@) {
        DeviceType::SteeringWheel
    } else {
        DeviceType::Gamepad
    }
}

/// A lowercased name that marks a device to be hidden by default.
pub open spec fn autohide_lowercase(n: Seq<char>) -> bool {
    has_substring(n, "keyboard"@) || has_substring(n, "volume"@) || has_substring(n, "media"@)
        || has_substring(n, "consumer control"@) || has_substring(n, "system control"@)
}

/// A lowercased name that marks a device to be left out of the scan.
pub open spec fn ignore_lowercase(n: Seq<char>) -> bool {
    has_substring(n, "mouse"@)
}

/// The kind of a device whose lowercased name is `n`.
pub fn kind_for_lowercase(n: &str) -> (t: DeviceType)
    ensures
        t == kind_of_lowercase(n@),
{
    if str_contains(n, "pedal") || str_contains(n, "rudder") || str_contains(n, "torq") {
        DeviceType::RudderPedals
    } else if str_contains(n, "throttle") || str_contains(n, "mongoose") || str_contains(
        n,
        "vmax",
    ) {
        DeviceType::Throttle
    } else if str_contains(n, "joystick") || str_contains(n, "alpha") || str_contains(
        n,
        "constellation",
    ) || str_contains(n, "stick") || str_contains(n, "warbrd") {
        DeviceType::Joystick
    } else if str_contains(n, "gamepad") || str_contains(n, "xbox") || str_contains(
        n,
        "playstation",
    ) || str_contains(n, "dualshock") || str_contains(n, "dualsense") || str_contains(
        n,
        "logitech f",
    ) {
        DeviceType::Gamepad
    } else if str_contains(n, "wheel") || str_contains(n, "steering") {
        DeviceType::SteeringWheel
    } else {
        DeviceType::Gamepad
    }
}

/// Whether a device whose lowercased name is `n` is hidden by default.
pub fn autohide_for_lowercase(n: &str) -> (r: bool)
    ensures
        r == autohide_lowercase(n@),
{
    str_contains(n, "keyboard") || str_contains(n, "volume") || str_contains(n, "media")
        || str_contains(n, "consumer control") || str_contains(n, "system control")
}

/// Whether a device whose lowercased name is `n` is left out of the scan.
pub fn ignore_for_lowercase(n: &str) -> (r: bool)
    ensures
        r == ignore_lowercase(n@),
{
    str_contains(n, "mouse")
}

/// The kind of a device by its name, case-insensitively.
pub fn detect_type(name: &str) -> (t: DeviceType)
    ensures
        t == kind_of_lowercase(lowercase_of(name@)),
{
    let n = to_lowercase(name);
    kind_for_lowercase(n.as_str())
}

/// Whether a device is hidden by default (keyboards, volume and media keys,
/// consumer and system control interfaces), by its name, case-insensitively.
pub fn should_autohide(name: &str) -> (r: bool)
    ensures
        r == autohide_lowercase(lowercase_of(name@)),
{
    let n = to_lowercase(name);
    autohide_for_lowercase(n.as_str())
}

/// Whether a device is left out of the scan (mice), by its name,
/// case-insensitively.
pub fn should_ignore(name: &str) -> (r: bool)
    ensures
        r == ignore_lowercase(lowercase_of(name@)),
{
    let n = to_lowercase(name);
    ignore_for_lowercase(n.as_str())
}

/// Checks if a path component looks like a USB interface ID: "1-11.4.1:1.0".
pub fn is_usb_interface(s: &str) -> (r: bool)
    ensures
        r == is_interface_id(s@),
{
    InterfaceId::is_valid(s)
}

// ── The USB interface in a sysfs path ────────────────────────────────────────

/// The position of the first component that is a USB interface identifier.
pub open spec fn first_interface_index(cs: Seq<Seq<char>>) -> Option<int> {
    if exists|i: int| 0 <= i < cs.len() && is_interface_id(cs[i]) {
        Some(
            choose|i: int|
                0 <= i < cs.len() && is_interface_id(cs[i]) && forall|j: int|
                    0 <= j < i ==> !is_interface_id(#[trigger] cs[j]),
        )
    } else {
        None
    }
}

/// The path up to and including the first component that is a USB interface
/// identifier, if some component is one.
pub open spec fn usb_path_of(real_path: Seq<char>) -> Option<Seq<char>> {
    let cs = components_of(real_path);
    match first_interface_index(cs) {
        Some(i) => Some(collected_path_of(cs.take(i + 1))),
        None => None,
    }
}

/// The position of the first component that is a USB interface identifier.
pub fn usb_interface_index(components: &Vec<String>) -> (r: Option<usize>)
    ensures
        match r {
            Some(i) => i < components@.len() && first_interface_index(strings_view(components@))
                == Some(i as int) && is_interface_id(strings_view(components@)[i as int]),
            None => first_interface_index(strings_view(components@)) is None,
        },
{
    let ghost cs = strings_view(components@);
    let mut i: usize = 0;
    while i < components.len()
        invariant
            i <= components@.len(),
            cs == strings_view(components@),
            forall|j: int| 0 <= j < i ==> !is_interface_id(#[trigger] cs[j]),
        decreases components@.len() - i,
    {
        if InterfaceId::is_valid(components[i].as_str()) {
            let ghost c = choose|k: int|
                0 <= k < cs.len() && is_interface_id(cs[k]) && forall|j: int|
                    0 <= j < k ==> !is_interface_id(#[trigger] cs[j]);
            assert(is_interface_id(cs[i as int]));
            assert(c == i) by {
                if c < i {
                    assert(!is_interface_id(cs[c]));
                }
                if c > i {
                    assert(!is_interface_id(cs[i as int]));
                }
            }
            return Some(i);
        }
        i = i + 1;
    }
    None
}

/// A USB interface identifier is a plain file name.
pub proof fn lemma_interface_id_is_plain_name(s: Seq<char>)
    requires
        is_interface_id(s),
    ensures
        is_plain_name(s),
{
    crate::device::law_interface_id_is_one_path_component(s);
    assert(s.len() >= 7);
}

/// The USB path's file name, if it is a USB interface identifier.
pub open spec fn named_by_interface(usb_path: Seq<char>) -> bool {
    file_name_of(usb_path) matches Some(n) && is_interface_id(n)
}

/// Walk a sysfs path to find the USB interface component; gives the path up
/// to and including it, whose file name is that interface identifier.
#[verifier::rlimit(50)]
pub fn find_usb_path(real_path: &str) -> (r: Option<String>)
    ensures
        opt_view(r) == usb_path_of(real_path@),
        r matches Some(p) ==> named_by_interface(p@),
{
    let comps = path_components(real_path);
    match usb_interface_index(&comps) {
        Some(i) => {
            let mut prefix: Vec<String> = Vec::new();
            let mut k: usize = 0;
            while k <= i
                invariant
                    i < comps.len(),
                    k <= i + 1,
                    prefix@.len() == k,
                    forall|j: int| 0 <= j < k ==> prefix@[j]@ == comps@[j]@,
                decreases i + 1 - k,
            {
                prefix.push(comps[k].clone());
                k = k + 1;
            }
            assert(strings_view(prefix@) =~= strings_view(comps@).take(i + 1));
            let ghost last = strings_view(comps@)[i as int];
            assert(prefix@.last()@ == last);
            assert(is_interface_id(last));
            proof {
                lemma_interface_id_is_plain_name(last);
            }
            let p = collect_path(prefix.as_slice());
            assert(file_name_of(p@) == Some(last));
            Some(p)
        },
        None => None,
    }
}


// ── The scan of the event nodes ──────────────────────────────────────────────

/// What was read from sysfs for one entry of the input class directory.
pub struct SysfsEntry {
    /// The entry's name, e.g. `event3`.
    pub file_name: String,
    /// The contents of `device/name`, if it could be read.
    pub device_name: Option<String>,
    /// The contents of `device/capabilities/abs`, if it could be read.
    pub abs_caps: Option<String>,
    /// The canonical path of `device`, if it could be resolved.
    pub real_path: Option<String>,
    /// The contents of `idVendor` in the parent of the USB interface path, if read.
    pub vendor_raw: Option<String>,
    /// The contents of `idProduct` in the parent of the USB interface path, if read.
    pub product_raw: Option<String>,
    /// Whether the USB interface path has a `driver` link.
    pub driver_bound: bool,
}

/// The mathematical value of a [`SysfsEntry`].
pub struct SysfsEntryView {
    pub file_name: Seq<char>,
    pub device_name: Option<Seq<char>>,
    pub abs_caps: Option<Seq<char>>,
    pub real_path: Option<Seq<char>>,
    pub vendor_raw: Option<Seq<char>>,
    pub product_raw: Option<Seq<char>>,
    pub driver_bound: bool,
}

impl View for SysfsEntry {
    type V = SysfsEntryView;

    open spec fn view(&self) -> SysfsEntryView {
        SysfsEntryView {
            file_name: self.file_name@,
            device_name: opt_view(self.device_name),
            abs_caps: opt_view(self.abs_caps),
            real_path: opt_view(self.real_path),
            vendor_raw: opt_view(self.vendor_raw),
            product_raw: opt_view(self.product_raw),
            driver_bound: self.driver_bound,
        }
    }
}

/// The views of a sequence of entries.
pub open spec fn entries_view(v: Seq<SysfsEntry>) -> Seq<SysfsEntryView> {
    v.map_values(|e: SysfsEntry| e@)
}

/// The vendor or product identifier in the raw contents of its file: the
/// trimmed text, unless that is empty.
pub open spec fn id_value_of(raw: Option<Seq<char>>) -> Option<Seq<char>> {
    match raw {
        Some(r) => if trim_of(r).len() == 0 {
            None
        } else {
            Some(trim_of(r))
        },
        None => None,
    }
}

/// The device that an entry stands for, if it is one the scan reports: an
/// `event` node with a readable name that is not ignored, with absolute axes
/// (its `abs` capabilities are neither empty nor `0`), whose device path
/// resolves.
pub open spec fn device_of_entry(e: SysfsEntryView) -> Option<DeviceView> {
    let name = trim_of(e.device_name->0);
    let abs = trim_of(
        match e.abs_caps {
            Some(a) => a,
            None => Seq::empty(),
        },
    );
    if !has_prefix(e.file_name, "event"@) || e.device_name is None || ignore_lowercase(
        lowercase_of(name),
    ) || abs.len() == 0 || abs == "0"@ || e.real_path is None {
        None
    } else {
        let usb = usb_path_of(e.real_path->0);
        Some(
            DeviceView {
                event: e.file_name,
                dev_path: "/dev/input/"@ + e.file_name,
                name: name,
                device_type: kind_of_lowercase(lowercase_of(name)),
                autohide: autohide_lowercase(lowercase_of(name)),
                usb_path: usb,
                interface_id: match usb {
                    Some(p) => file_name_of(p),
                    None => None,
                },
                vendor_id: if usb is Some {
                    id_value_of(e.vendor_raw)
                } else {
                    None
                },
                product_id: if usb is Some {
                    id_value_of(e.product_raw)
                } else {
                    None
                },
                enabled: if usb is Some {
                    e.driver_bound
                } else {
                    true
                },
            },
        )
    }
}

/// The devices that the entries stand for, in their order.
pub open spec fn devices_of_entries(es: Seq<SysfsEntryView>) -> Seq<DeviceView>
    decreases es.len(),
{
    if es.len() == 0 {
        seq![]
    } else {
        let rest = devices_of_entries(es.drop_last());
        match device_of_entry(es.last()) {
            Some(d) => rest.push(d),
            None => rest,
        }
    }
}

/// What a scan of the entries, in this order, reports: the devices they stand
/// for, the first of each key only (several event nodes can share one USB
/// interface).
pub open spec fn scan_of(es: Seq<SysfsEntryView>) -> Seq<DeviceView> {
    first_of_each_key(devices_of_entries(es))
}

/// A device on a USB interface is known by that interface, and the
/// interface's identifier is valid and names the device's USB path.
pub open spec fn usb_identity_holds(d: DeviceView) -> bool {
    &&& (d.usb_path is Some <==> d.interface_id is Some)
    &&& d.usb_path matches Some(p) ==> file_name_of(p) == d.interface_id && is_interface_id(
        d.interface_id->0,
    )
}

/// The view of an optional device.
pub open spec fn opt_device_view(o: Option<Device>) -> Option<DeviceView> {
    match o {
        Some(d) => Some(d@),
        None => None,
    }
}

/// The vendor or product identifier in the raw contents of its file.
pub fn id_value(raw: &Option<String>) -> (r: Option<String>)
    ensures
        opt_view(r) == id_value_of(opt_view(*raw)),
{
    match raw {
        Some(s) => {
            let t = trim(s.as_str());
            if t.is_empty() {
                None
            } else {
                Some(t.to_owned())
            }
        },
        None => None,
    }
}

/// The device that an entry stands for, if the scan reports it.
pub fn device_from_entry(e: &SysfsEntry) -> (r: Option<Device>)
    ensures
        opt_device_view(r) == device_of_entry(e@),
        r matches Some(d) ==> usb_identity_holds(d@),
{
    proof {
        reveal_strlit("");
        reveal_strlit("0");
        reveal_strlit("event");
        reveal_strlit("/dev/input/");
    }
    if !str_starts_with(e.file_name.as_str(), "event") {
        return None;
    }
    let raw_name = match &e.device_name {
        Some(r) => r,
        None => return None,
    };
    let name = trim(raw_name.as_str());
    if should_ignore(name) {
        return None;
    }
    let abs_raw: &str = match &e.abs_caps {
        Some(a) => a.as_str(),
        None => "",
    };
    assert(abs_raw@ == match e@.abs_caps {
        Some(a) => a,
        None => Seq::<char>::empty(),
    });
    let abs = trim(abs_raw);
    if abs.is_empty() || str_equal(abs, "0") {
        return None;
    }
    let real_path = match &e.real_path {
        Some(p) => p,
        None => return None,
    };
    let usb_path = find_usb_path(real_path.as_str());
    let (interface_id, vendor_id, product_id, enabled) = match &usb_path {
        Some(p) => {
            let iid = match path_file_name(p.as_str()) {
                Some(n) => Some(InterfaceId::from(n)),
                None => None,
            };
            (iid, id_value(&e.vendor_raw), id_value(&e.product_raw), e.driver_bound)
        },
        None => (None, None, None, true),
    };
    let mut dev_path = "/dev/input/".to_owned();
    dev_path.append(e.file_name.as_str());
    let d = Device {
        event: e.file_name.clone(),
        dev_path,
        name: name.to_owned(),
        device_type: detect_type(name),
        autohide: should_autohide(name),
        usb_path,
        interface_id,
        vendor_id,
        product_id,
        enabled,
    };
    assert(d@ == device_of_entry(e@)->0);
    Some(d)
}

/// The scan of entries taken in the order given: the devices they stand for,
/// the first of each key only.
pub fn scan_entries(entries: &Vec<SysfsEntry>) -> (r: Vec<Device>)
    ensures
        devices_view(r@) == scan_of(entries_view(entries@)),
        forall|i: int| 0 <= i < r@.len() ==> usb_identity_holds(#[trigger] r@[i]@),
{
    let ghost ev = entries_view(entries@);
    let mut found: Vec<Device> = Vec::new();
    let n = entries.len();
    let mut i: usize = 0;
    while i < n
        invariant
            n == entries@.len(),
            i <= n,
            ev == entries_view(entries@),
            devices_view(found@) == devices_of_entries(ev.take(i as int)),
            forall|m: int| 0 <= m < found@.len() ==> usb_identity_holds(#[trigger] found@[m]@),
        decreases n - i,
    {
        assert(ev.take(i + 1).drop_last() =~= ev.take(i as int));
        assert(ev.take(i + 1).last() == entries@[i as int]@);
        match device_from_entry(&entries[i]) {
            Some(d) => {
                found.push(d);
                assert(devices_view(found@) =~= devices_of_entries(ev.take(i + 1)));
            },
            None => {},
        }
        i = i + 1;
    }
    assert(ev.take(n as int) =~= ev);
    let r = dedup_by_key(&found);
    proof {
        let fv = devices_view(found@);
        lemma_first_of_each_key(fv);
        assert forall|i: int| 0 <= i < r@.len() implies usb_identity_holds(#[trigger] r@[i]@) by {
            assert(devices_view(r@)[i] == r@[i]@);
            assert(listed(fv, r@[i]@));
            let w = choose|w: int| 0 <= w < fv.len() && fv[w] == r@[i]@;
            assert(fv[w] == found@[w]@);
        }
    }
    r
}


/// `a` comes no later than `b` in lexicographic order of their characters
/// (the order of `String`, whose byte order is that of the code points).
pub open spec fn chars_le(a: Seq<char>, b: Seq<char>) -> bool
    decreases a.len(),
{
    if a.len() == 0 {
        true
    } else if b.len() == 0 {
        false
    } else if a[0] != b[0] {
        a[0] < b[0]
    } else {
        chars_le(a.drop_first(), b.drop_first())
    }
}

/// The entries stand in order of their names.
pub open spec fn sorted_by_name(es: Seq<SysfsEntry>) -> bool {
    forall|i: int, j: int|
        0 <= i < j < es.len() ==> chars_le(#[trigger] es[i].file_name@, #[trigger] es[j].file_name@)
}

/// Calls `slice::sort_by_key` with the entry's name as key. Claimed: the
/// entries afterwards are the same entries, in order of their names.
#[verifier::external_body]
fn sort_by_name(entries: &mut Vec<SysfsEntry>)
    ensures
        final(entries)@.to_multiset() == old(entries)@.to_multiset(),
        sorted_by_name(final(entries)@),
{
    entries.sort_by_key(|e| e.file_name.clone());
}

/// Real sysfs implementation of the device scan: the entries of
/// `/sys/class/input` are read by the caller, the decisions are made here.
pub struct LinuxSysfsReader;

impl LinuxSysfsReader {
    /// The devices that the scan reports for the entries read from sysfs,
    /// whatever their order: the entries are taken in order of their names.
    pub fn devices_from_entries(&self, entries: Vec<SysfsEntry>) -> (r: Vec<Device>)
        ensures
            exists|s: Seq<SysfsEntry>|
                #![trigger sorted_by_name(s)]
                s.to_multiset() == entries@.to_multiset() && sorted_by_name(s) && devices_view(r@)
                    == scan_of(entries_view(s)),
            forall|i: int| 0 <= i < r@.len() ==> usb_identity_holds(#[trigger] r@[i]@),
    {
        let mut sorted = entries;
        sort_by_name(&mut sorted);
        let r = scan_entries(&sorted);
        assert(sorted_by_name(sorted@));
        r
    }
}

// ── Laws ─────────────────────────────────────────────────────────────────────

/// Every name gets a known kind: a name that no rule matches is taken for a
/// gamepad, never reported as unknown.
pub proof fn law_detected_kind_is_known(n: Seq<char>)
    ensures
        kind_of_lowercase(n) != DeviceType::Unknown,
{
}

/// Each device that the entries stand for comes from one of them.
pub proof fn lemma_devices_come_from_entries(es: Seq<SysfsEntryView>)
    ensures
        forall|i: int|
            0 <= i < devices_of_entries(es).len() ==> exists|j: int|
                0 <= j < es.len() && device_of_entry(es[j]) == Some(
                    #[trigger] devices_of_entries(es)[i],
                ),
    decreases es.len(),
{
    if es.len() > 0 {
        let p = es.drop_last();
        lemma_devices_come_from_entries(p);
        let rest = devices_of_entries(p);
        let r = devices_of_entries(es);
        assert forall|i: int| 0 <= i < r.len() implies exists|j: int|
            0 <= j < es.len() && device_of_entry(es[j]) == Some(#[trigger] r[i]) by {
            if i < rest.len() {
                assert(r[i] == rest[i]);
                let j = choose|j: int| 0 <= j < p.len() && device_of_entry(p[j]) == Some(rest[i]);
                assert(es[j] == p[j]);
            } else {
                assert(device_of_entry(es[es.len() - 1]) == Some(r[i]));
            }
        }
    }
}

/// The scan reports each key once (several event nodes can share one USB
/// interface), the one reported being the first of its key in the order of
/// the entries, and it loses no key: every key of a reportable entry is
/// reported.
pub proof fn law_scan_reports_each_key_once(es: Seq<SysfsEntryView>)
    ensures
        keys_unique(scan_of(es)),
        forall|i: int|
            0 <= i < scan_of(es).len() ==> first_with_its_key(
                devices_of_entries(es),
                #[trigger] scan_of(es)[i],
            ),
        forall|k: Seq<char>| #[trigger] has_key(scan_of(es), k) <==> has_key(devices_of_entries(es), k),
{
    lemma_first_of_each_key(devices_of_entries(es));
    lemma_first_of_each_key_keeps_the_first(devices_of_entries(es));
}

/// Every device the scan reports is an `event` node, at `/dev/input/` under
/// its name, not ignored by its name, with the kind and the default hiding
/// its name gives; one not on a USB interface is enabled and has no
/// interface, vendor or product identifier. Its name, and its vendor and
/// product identifiers, are trimmed, and the identifiers are not empty.
pub proof fn law_scan_reports_classified_event_nodes(es: Seq<SysfsEntryView>)
    ensures
        forall|i: int|
            0 <= i < scan_of(es).len() ==> {
                let d = #[trigger] scan_of(es)[i];
                &&& has_prefix(d.event, "event"@)
                &&& d.dev_path == "/dev/input/"@ + d.event
                &&& !ignore_lowercase(lowercase_of(d.name))
                &&& d.device_type == kind_of_lowercase(lowercase_of(d.name))
                &&& d.autohide == autohide_lowercase(lowercase_of(d.name))
                &&& d.usb_path is None ==> d.enabled && d.interface_id is None && d.vendor_id is None
                    && d.product_id is None
                &&& trim_of(d.name) == d.name
                &&& d.vendor_id matches Some(v) ==> v.len() > 0 && trim_of(v) == v
                &&& d.product_id matches Some(p) ==> p.len() > 0 && trim_of(p) == p
            },
{
    let c = devices_of_entries(es);
    lemma_first_of_each_key(c);
    lemma_devices_come_from_entries(es);
    assert forall|i: int| 0 <= i < scan_of(es).len() implies {
        let d = #[trigger] scan_of(es)[i];
        &&& has_prefix(d.event, "event"@)
        &&& d.dev_path == "/dev/input/"@ + d.event
        &&& !ignore_lowercase(lowercase_of(d.name))
        &&& d.device_type == kind_of_lowercase(lowercase_of(d.name))
        &&& d.autohide == autohide_lowercase(lowercase_of(d.name))
        &&& d.usb_path is None ==> d.enabled && d.interface_id is None && d.vendor_id is None
            && d.product_id is None
        &&& trim_of(d.name) == d.name
        &&& d.vendor_id matches Some(v) ==> v.len() > 0 && trim_of(v) == v
        &&& d.product_id matches Some(p) ==> p.len() > 0 && trim_of(p) == p
    } by {
        let d = scan_of(es)[i];
        assert(listed(c, d));
        let w = choose|w: int| 0 <= w < c.len() && c[w] == d;
        let j = choose|j: int| 0 <= j < es.len() && device_of_entry(es[j]) == Some(#[trigger] c[w]);
        law_trim_is_idempotent(es[j].device_name->0);
        law_trim_is_idempotent(es[j].vendor_raw->0);
        law_trim_is_idempotent(es[j].product_raw->0);
    }
}

/// The kind rules, rule by rule: the first group of words found in the
/// lowercased name decides — pedals (`pedal`, `rudder`, `torq`), then
/// throttles (`throttle`, `mongoose`, `vmax`), then joysticks (`joystick`,
/// `alpha`, `constellation`, `stick`, `warbrd`), then gamepads (`gamepad`,
/// `xbox`, `playstation`, `dualshock`, `dualsense`, `logitech f`), then
/// wheels (`wheel`, `steering`); a name with none of them is a gamepad.
pub proof fn law_kind_follows_first_matching_group(n: Seq<char>)
    ensures
        ({
            let pedals = has_substring(n, "pedal"@) || has_substring(n, "rudder"@) || has_substring(
                n,
                "torq"@,
            );
            let throttles = has_substring(n, "throttle"@) || has_substring(n, "mongoose"@)
                || has_substring(n, "vmax"@);
            let sticks = has_substring(n, "joystick"@) || has_substring(n, "alpha"@)
                || has_substring(n, "constellation"@) || has_substring(n, "stick"@)
                || has_substring(n, "warbrd"@);
            let pads = has_substring(n, "gamepad"@) || has_substring(n, "xbox"@) || has_substring(
                n,
                "playstation"@,
            ) || has_substring(n, "dualshock"@) || has_substring(n, "dualsense"@)
                || has_substring(n, "logitech f"@);
            let wheels = has_substring(n, "wheel"@) || has_substring(n, "steering"@);
            &&& pedals ==> kind_of_lowercase(n) == DeviceType::RudderPedals
            &&& !pedals && throttles ==> kind_of_lowercase(n) == DeviceType::Throttle
            &&& !pedals && !throttles && sticks ==> kind_of_lowercase(n) == DeviceType::Joystick
            &&& !pedals && !throttles && !sticks && pads ==> kind_of_lowercase(n)
                == DeviceType::Gamepad
            &&& !pedals && !throttles && !sticks && !pads && wheels ==> kind_of_lowercase(n)
                == DeviceType::SteeringWheel
            &&& !pedals && !throttles && !sticks && !pads && !wheels ==> kind_of_lowercase(n)
                == DeviceType::Gamepad
        }),
        autohide_lowercase(n) == (has_substring(n, "keyboard"@) || has_substring(n, "volume"@)
            || has_substring(n, "media"@) || has_substring(n, "consumer control"@) || has_substring(
            n,
            "system control"@,
        )),
        ignore_lowercase(n) == has_substring(n, "mouse"@),
{
}

/// An entry stands for a device exactly when it is an `event` node whose
/// name can be read and is not ignored, which has absolute axes (its trimmed
/// `abs` capabilities are neither empty nor `0`), and whose device path
/// resolves; whether the device is hidden by default plays no part. The
/// device then carries the entry's name (trimmed), the kind and the default
/// hiding that its name gives, and the node `/dev/input/<name>`.
pub proof fn law_which_entries_are_devices(e: SysfsEntryView)
    ensures
        ({
            let abs = trim_of(
                match e.abs_caps {
                    Some(a) => a,
                    None => Seq::empty(),
                },
            );
            device_of_entry(e) is Some <==> (has_prefix(e.file_name, "event"@)
                && e.device_name is Some && !ignore_lowercase(
                lowercase_of(trim_of(e.device_name->0)),
            ) && abs.len() > 0 && abs != "0"@ && e.real_path is Some)
        }),
        device_of_entry(e) matches Some(d) ==> {
            &&& d.event == e.file_name
            &&& d.dev_path == "/dev/input/"@ + e.file_name
            &&& d.name == trim_of(e.device_name->0)
            &&& d.device_type == kind_of_lowercase(lowercase_of(d.name))
            &&& d.autohide == autohide_lowercase(lowercase_of(d.name))
            &&& d.usb_path == usb_path_of(e.real_path->0)
            &&& d.enabled == (d.usb_path is None || e.driver_bound)
        },
{
}

/// Each device that an entry stands for is among the devices of the entries.
pub proof fn lemma_entry_devices_listed(es: Seq<SysfsEntryView>)
    ensures
        forall|j: int|
            0 <= j < es.len() && (#[trigger] device_of_entry(es[j])) is Some ==> listed(
                devices_of_entries(es),
                device_of_entry(es[j])->0,
            ),
    decreases es.len(),
{
    if es.len() > 0 {
        let p = es.drop_last();
        lemma_entry_devices_listed(p);
        let rest = devices_of_entries(p);
        let r = devices_of_entries(es);
        assert forall|j: int|
            0 <= j < es.len() && (#[trigger] device_of_entry(es[j])) is Some implies listed(
                r,
                device_of_entry(es[j])->0,
            ) by {
            if j < p.len() {
                assert(es[j] == p[j]);
                assert(device_of_entry(p[j]) is Some);
                let w = choose|w: int| 0 <= w < rest.len() && rest[w] == device_of_entry(p[j])->0;
                assert(r[w] == rest[w]);
            } else {
                assert(r[r.len() - 1] == device_of_entry(es[j])->0);
            }
        }
    }
}

/// The scan loses no entry that stands for a device, one hidden by default
/// included: the key of every such device is among the reported keys.
pub proof fn law_scan_loses_no_device(es: Seq<SysfsEntryView>)
    ensures
        forall|j: int|
            0 <= j < es.len() && (#[trigger] device_of_entry(es[j])) is Some ==> has_key(
                scan_of(es),
                device_key(device_of_entry(es[j])->0),
            ),
{
    let c = devices_of_entries(es);
    lemma_entry_devices_listed(es);
    lemma_first_of_each_key(c);
    assert forall|j: int|
        0 <= j < es.len() && (#[trigger] device_of_entry(es[j])) is Some implies has_key(
            scan_of(es),
            device_key(device_of_entry(es[j])->0),
        ) by {
        let d = device_of_entry(es[j])->0;
        let w = choose|w: int| 0 <= w < c.len() && c[w] == d;
        assert(device_key(c[w]) == device_key(d));
        assert(has_key(c, device_key(d)));
    }
}

} // verus!
