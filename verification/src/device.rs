//! Input devices, their kinds, and USB interface identifiers.
use vstd::prelude::*;

use crate::text::{chars_of, is_ascii_digit, is_digit};

verus! {

// ── Kinds of devices ─────────────────────────────────────────────────────────

/// The kind of an input device.
#[derive(Debug, Clone, Copy, PartialEq, Eq, Structural)]
pub enum DeviceType {
    Joystick,
    Throttle,
    RudderPedals,
    Gamepad,
    SteeringWheel,
    Unknown,
}

/// The name under which a kind of device is shown.
pub open spec fn device_type_label(t: DeviceType) -> Seq<char> {
    match t {
        DeviceType::Joystick => "Joystick"@,
        DeviceType::Throttle => "Throttle"@,
        DeviceType::RudderPedals => "Rudder Pedals"@,
        DeviceType::Gamepad => "Gamepad"@,
        DeviceType::SteeringWheel => "Steering Wheel"@,
        DeviceType::Unknown => "Unknown"@,
    }
}

impl DeviceType {
    /// The name under which this kind of device is shown, e.g. "Rudder Pedals".
    pub fn to_string(&self) -> (r: String)
        ensures
            r@ == device_type_label(*self),
    {
        let s: &str = match self {
            DeviceType::Joystick => "Joystick",
            DeviceType::Throttle => "Throttle",
            DeviceType::RudderPedals => "Rudder Pedals",
            DeviceType::Gamepad => "Gamepad",
            DeviceType::SteeringWheel => "Steering Wheel",
            DeviceType::Unknown => "Unknown",
        };
        s.to_owned()
    }
}

/// The view of an optional string.
pub open spec fn opt_view(o: Option<String>) -> Option<Seq<char>> {
    match o {
        Some(s) => Some(s@),
        None => None,
    }
}

/// A copy of an optional string.
pub fn copy_opt(o: &Option<String>) -> (r: Option<String>)
    ensures
        opt_view(r) == opt_view(*o),
{
    match o {
        Some(s) => Some(s.clone()),
        None => None,
    }
}

// ── USB interface identifiers ────────────────────────────────────────────────

/// Every position of `s` in `[from, to)` holds an ASCII digit.
pub open spec fn digits_between(s: Seq<char>, from: int, to: int) -> bool {
    forall|m: int| from <= m < to ==> is_digit(#[trigger] s[m])
}

/// Every position of `s` in `[from, to)` holds an ASCII digit or a `'.'`.
pub open spec fn port_chars_between(s: Seq<char>, from: int, to: int) -> bool {
    forall|m: int| from <= m < to ==> is_digit(#[trigger] s[m]) || s[m] == '.'
}

/// `s` reads `<bus>-<port>:<config>.<interface>` with the separators at
/// `dash`, `colon` and `dot`: bus, config and interface are non-empty runs of
/// ASCII digits, and the port is a non-empty run of digits and dots.
pub open spec fn interface_id_layout(s: Seq<char>, dash: int, colon: int, dot: int) -> bool {
    &&& 0 < dash
    &&& dash + 1 < colon
    &&& colon + 1 < dot
    &&& dot + 1 < s.len()
    &&& s[dash] == '-'
    &&& s[colon] == ':'
    &&& s[dot] == '.'
    &&& digits_between(s, 0, dash)
    &&& port_chars_between(s, dash + 1, colon)
    &&& digits_between(s, colon + 1, dot)
    &&& digits_between(s, dot + 1, s.len() as int)
}

/// `s` is a sysfs USB interface identifier such as `1-11.4.1:1.0`.
pub open spec fn is_interface_id(s: Seq<char>) -> bool {
    exists|dash: int, colon: int, dot: int| interface_id_layout(s, dash, colon, dot)
}

/// The first position in `[from, to)` that holds `c`, if any.
fn first_index_of(v: &Vec<char>, c: char, from: usize, to: usize) -> (r: Option<usize>)
    requires
        from <= to <= v@.len(),
    ensures
        match r {
            Some(x) => from <= x < to && v@[x as int] == c && forall|m: int|
                from <= m < x ==> v@[m] != c,
            None => forall|m: int| from <= m < to ==> v@[m] != c,
        },
{
    let mut i = from;
    while i < to
        invariant
            from <= i <= to <= v@.len(),
            forall|m: int| from <= m < i ==> v@[m] != c,
        decreases to - i,
    {
        if v[i] == c {
            return Some(i);
        }
        i = i + 1;
    }
    None
}

/// Whether every position in `[from, to)` holds an ASCII digit (with `dots`,
/// a `'.'` is accepted too).
fn all_digits_between(v: &Vec<char>, from: usize, to: usize, dots: bool) -> (r: bool)
    requires
        from <= to <= v@.len(),
    ensures
        !dots ==> r == digits_between(v@, from as int, to as int),
        dots ==> r == port_chars_between(v@, from as int, to as int),
{
    let mut i = from;
    while i < to
        invariant
            from <= i <= to <= v@.len(),
            !dots ==> digits_between(v@, from as int, i as int),
            dots ==> port_chars_between(v@, from as int, i as int),
        decreases to - i,
    {
        let c = v[i];
        if !(is_ascii_digit(c) || (dots && c == '.')) {
            assert(!is_digit(v@[i as int]));
            return false;
        }
        i = i + 1;
    }
    true
}

/// A valid interface identifier is a single path component: it has no `/`
/// and is neither `.` nor `..` (so it cannot lead out of the sysfs directory
/// it is joined to), and it starts with a digit.
pub proof fn law_interface_id_is_one_path_component(s: Seq<char>)
    requires
        is_interface_id(s),
    ensures
        forall|i: int| 0 <= i < s.len() ==> s[i] != '/',
        s.len() >= 7,
        is_digit(s[0]),
{
    let (d, c, t) = choose|d: int, c: int, t: int| interface_id_layout(s, d, c, t);
    assert forall|i: int| 0 <= i < s.len() implies s[i] != '/' by {
        if i < d {
            assert(is_digit(s[i]));
        } else if d < i < c {
            assert(is_digit(s[i]) || s[i] == '.');
        } else if c < i < t {
            assert(is_digit(s[i]));
        } else if t < i {
            assert(is_digit(s[i]));
        }
    }
    assert(is_digit(s[0]));
}

/// A USB interface identifier as sysfs names it, e.g. `1-11.4.1:1.0`.
/// It keys the saved enabled/disabled state of a device.
#[derive(Debug, PartialEq, Eq, Hash)]
pub struct InterfaceId(String);

impl Clone for InterfaceId {
    fn clone(&self) -> (r: Self)
        ensures
            r@ == self@,
    {
        InterfaceId(self.0.clone())
    }
}

impl From<String> for InterfaceId {
    /// Wraps `s` as it stands; nothing is checked.
    fn from(s: String) -> (r: InterfaceId)
        ensures
            r@ == s@,
    {
        InterfaceId(s)
    }
}

impl vstd::std_specs::convert::FromSpecImpl<String> for InterfaceId {
    open spec fn obeys_from_spec() -> bool {
        true
    }

    closed spec fn from_spec(s: String) -> InterfaceId {
        InterfaceId(s)
    }
}

impl<'a> vstd::std_specs::convert::FromSpecImpl<&'a str> for InterfaceId {
    /// What `from` gives for a `&str` is stated by its own `ensures` (the view of
    /// the result is the text), not through this trait.
    open spec fn obeys_from_spec() -> bool {
        false
    }

    closed spec fn from_spec(s: &'a str) -> InterfaceId {
        choose|r: InterfaceId| r@ == s@
    }
}

impl<'a> From<&'a str> for InterfaceId {
    /// Wraps a copy of `s`; nothing is checked.
    fn from(s: &'a str) -> (r: InterfaceId)
        ensures
            r@ == s@,
    {
        InterfaceId(s.to_owned())
    }
}

impl View for InterfaceId {
    type V = Seq<char>;

    closed spec fn view(&self) -> Seq<char> {
        self.0@
    }
}

impl InterfaceId {
    /// The identifier's text.
    pub fn as_str(&self) -> (r: &str)
        ensures
            r@ == self@,
    {
        self.0.as_str()
    }

    /// Whether two identifiers have the same text.
    pub fn same_as(&self, other: &InterfaceId) -> (r: bool)
        ensures
            r == (self@ == other@),
    {
        self.0 == other.0
    }

    /// Returns true if `s` matches the sysfs USB interface ID format
    /// `<bus>-<port>:<config>.<interface>`.
    pub fn is_valid(s: &str) -> (r: bool)
        ensures
            r == is_interface_id(s@),
    {
        let v = chars_of(s);
        let n = v.len();
        let colon = match first_index_of(&v, ':', 0, n) {
            Some(x) => x,
            None => {
                assert forall|d: int, c: int, t: int| !interface_id_layout(s@, d, c, t) by {
                    if interface_id_layout(s@, d, c, t) {
                        assert(v@[c] == ':');
                    }
                }
                return false;
            },
        };
        let dash = match first_index_of(&v, '-', 0, colon) {
            Some(x) => x,
            None => {
                assert forall|d: int, c: int, t: int| !interface_id_layout(s@, d, c, t) by {
                    if interface_id_layout(s@, d, c, t) {
                        assert(!is_digit(':'));
                        if c < colon {
                            assert(v@[c] == ':');
                        }
                        if colon < c {
                            assert(is_digit(v@[colon as int]) || v@[colon as int] == '.'
                                || colon as int == d);
                        }
                        assert(v@[d] == '-');
                    }
                }
                return false;
            },
        };
        let ok = 0 < dash && dash + 1 < colon && all_digits_between(&v, 0, dash, false)
            && all_digits_between(&v, dash + 1, colon, true);
        if !ok {
            assert forall|d: int, c: int, t: int| !interface_id_layout(s@, d, c, t) by {
                if interface_id_layout(s@, d, c, t) {
                    assert(!is_digit(':') && !is_digit('-'));
                    if c < colon {
                        assert(v@[c] == ':');
                    }
                    if colon < c {
                        assert(is_digit(v@[colon as int]) || v@[colon as int] == '.'
                            || colon as int == d);
                    }
                    if d < dash {
                        assert(v@[d] == '-');
                    }
                    if dash < d {
                        assert(is_digit(v@[dash as int]));
                    }
                }
            }
            return false;
        }
        let dot = match first_index_of(&v, '.', colon + 1, n) {
            Some(x) => x,
            None => {
                assert forall|d: int, c: int, t: int| !interface_id_layout(s@, d, c, t) by {
                    if interface_id_layout(s@, d, c, t) {
                        assert(!is_digit(':') && !is_digit('-'));
                        if c < colon {
                            assert(v@[c] == ':');
                        }
                        if colon < c {
                            assert(is_digit(v@[colon as int]) || v@[colon as int] == '.'
                                || colon as int == d);
                        }
                        assert(v@[t] == '.');
                    }
                }
                return false;
            },
        };
        let ok2 = colon + 1 < dot && dot + 1 < n && all_digits_between(&v, colon + 1, dot, false)
            && all_digits_between(&v, dot + 1, n, false);
        if !ok2 {
            assert forall|d: int, c: int, t: int| !interface_id_layout(s@, d, c, t) by {
                if interface_id_layout(s@, d, c, t) {
                    assert(!is_digit(':') && !is_digit('-') && !is_digit('.'));
                    if c < colon {
                        assert(v@[c] == ':');
                    }
                    if colon < c {
                        assert(is_digit(v@[colon as int]) || v@[colon as int] == '.'
                            || colon as int == d);
                    }
                    if t < dot {
                        assert(v@[t] == '.');
                    }
                    if dot < t {
                        assert(is_digit(v@[dot as int]));
                    }
                }
            }
            return false;
        }
        assert(interface_id_layout(s@, dash as int, colon as int, dot as int));
        true
    }
}


/// The view of an optional interface identifier.
pub open spec fn opt_id_view(o: Option<InterfaceId>) -> Option<Seq<char>> {
    match o {
        Some(i) => Some(i@),
        None => None,
    }
}

// ── Devices ──────────────────────────────────────────────────────────────────

/// An input device as the scanner found it.
#[derive(Debug)]
pub struct Device {
    /// The event node's name, e.g. `event3`.
    pub event: String,
    /// The device node, e.g. `/dev/input/event3`.
    pub dev_path: String,
    pub name: String,
    pub device_type: DeviceType,
    /// Devices that are hidden unless the user asks for them (keyboards, media keys).
    pub autohide: bool,
    /// The sysfs path of the USB interface, when the device sits on one.
    pub usb_path: Option<String>,
    pub interface_id: Option<InterfaceId>,
    pub vendor_id: Option<String>,
    pub product_id: Option<String>,
    pub enabled: bool,
}

/// The mathematical value of a [`Device`].
pub struct DeviceView {
    pub event: Seq<char>,
    pub dev_path: Seq<char>,
    pub name: Seq<char>,
    pub device_type: DeviceType,
    pub autohide: bool,
    pub usb_path: Option<Seq<char>>,
    pub interface_id: Option<Seq<char>>,
    pub vendor_id: Option<Seq<char>>,
    pub product_id: Option<Seq<char>>,
    pub enabled: bool,
}

impl View for Device {
    type V = DeviceView;

    open spec fn view(&self) -> DeviceView {
        DeviceView {
            event: self.event@,
            dev_path: self.dev_path@,
            name: self.name@,
            device_type: self.device_type,
            autohide: self.autohide,
            usb_path: opt_view(self.usb_path),
            interface_id: opt_id_view(self.interface_id),
            vendor_id: opt_view(self.vendor_id),
            product_id: opt_view(self.product_id),
            enabled: self.enabled,
        }
    }
}

/// The key of a device in state maps: its USB interface if known, its event
/// node otherwise.
pub open spec fn device_key(d: DeviceView) -> Seq<char> {
    match d.interface_id {
        Some(i) => i,
        None => d.event,
    }
}

/// The views of a sequence of devices.
pub open spec fn devices_view(v: Seq<Device>) -> Seq<DeviceView> {
    v.map_values(|d: Device| d@)
}

/// Some device in `s` has key `k`.
pub open spec fn has_key(s: Seq<DeviceView>, k: Seq<char>) -> bool {
    exists|i: int| 0 <= i < s.len() && device_key(#[trigger] s[i]) == k
}

/// The devices of `s` whose key no earlier device has, in their order: the
/// first device of each key.
pub open spec fn first_of_each_key(s: Seq<DeviceView>) -> Seq<DeviceView>
    decreases s.len(),
{
    if s.len() == 0 {
        seq![]
    } else {
        let rest = first_of_each_key(s.drop_last());
        if has_key(s.drop_last(), device_key(s.last())) {
            rest
        } else {
            rest.push(s.last())
        }
    }
}

/// No two devices in `s` share a key.
pub open spec fn keys_unique(s: Seq<DeviceView>) -> bool {
    forall|i: int, j: int|
        0 <= i < j < s.len() ==> device_key(#[trigger] s[i]) != device_key(#[trigger] s[j])
}

/// `d` is one of the devices of `s`.
pub open spec fn listed(s: Seq<DeviceView>, d: DeviceView) -> bool {
    exists|j: int| 0 <= j < s.len() && s[j] == d
}

/// Keeping the first device of each key leaves no two devices with one key,
/// keeps only devices of the list, and loses no key.
pub proof fn lemma_first_of_each_key(s: Seq<DeviceView>)
    ensures
        keys_unique(first_of_each_key(s)),
        forall|i: int|
            0 <= i < first_of_each_key(s).len() ==> listed(s, #[trigger] first_of_each_key(s)[i]),
        forall|k: Seq<char>| #[trigger] has_key(first_of_each_key(s), k) <==> has_key(s, k),
    decreases s.len(),
{
    if s.len() > 0 {
        let p = s.drop_last();
        let x = s.last();
        lemma_first_of_each_key(p);
        let rest = first_of_each_key(p);
        let r = first_of_each_key(s);
        assert forall|k: Seq<char>| #[trigger] has_key(s, k) <==> (has_key(p, k) || device_key(x)
            == k) by {
            if has_key(s, k) {
                let w = choose|w: int| 0 <= w < s.len() && device_key(#[trigger] s[w]) == k;
                if w < p.len() {
                    assert(p[w] == s[w]);
                }
            }
            if has_key(p, k) {
                let w = choose|w: int| 0 <= w < p.len() && device_key(#[trigger] p[w]) == k;
                assert(p[w] == s[w]);
            }
            if device_key(x) == k {
                assert(s[s.len() - 1] == x);
            }
        }
        assert forall|j: int| 0 <= j < rest.len() implies listed(s, #[trigger] rest[j]) by {
            assert(listed(p, rest[j]));
            let w = choose|w: int| 0 <= w < p.len() && p[w] == rest[j];
            assert(s[w] == p[w]);
        }
        if !has_key(p, device_key(x)) {
            assert(r == rest.push(x));
            assert forall|k: Seq<char>| #[trigger] has_key(r, k) <==> (has_key(rest, k) || device_key(
                x,
            ) == k) by {
                if has_key(r, k) {
                    let w = choose|w: int| 0 <= w < r.len() && device_key(#[trigger] r[w]) == k;
                    if w < rest.len() {
                        assert(rest[w] == r[w]);
                    }
                }
                if has_key(rest, k) {
                    let w = choose|w: int| 0 <= w < rest.len() && device_key(#[trigger] rest[w]) == k;
                    assert(rest[w] == r[w]);
                }
                if device_key(x) == k {
                    assert(r[r.len() - 1] == x);
                }
            }
            assert forall|i: int, j: int| 0 <= i < j < r.len() implies device_key(#[trigger] r[i])
                != device_key(#[trigger] r[j]) by {
                if j == r.len() - 1 {
                    assert(r[i] == rest[i]);
                    if device_key(r[i]) == device_key(x) {
                        assert(has_key(rest, device_key(x)));
                    }
                } else {
                    assert(r[i] == rest[i] && r[j] == rest[j]);
                }
            }
            assert forall|i: int| 0 <= i < r.len() implies listed(s, #[trigger] r[i]) by {
                if i < rest.len() {
                    assert(r[i] == rest[i]);
                } else {
                    assert(s[s.len() - 1] == x);
                }
            }
        }
    }
}

/// `d` is the first device of its key in `s`.
pub open spec fn first_with_its_key(s: Seq<DeviceView>, d: DeviceView) -> bool {
    exists|j: int|
        0 <= j < s.len() && s[j] == d && forall|m: int|
            0 <= m < j ==> device_key(#[trigger] s[m]) != device_key(d)
}

/// Each device kept is the first of its key in the list.
pub proof fn lemma_first_of_each_key_keeps_the_first(s: Seq<DeviceView>)
    ensures
        forall|i: int|
            0 <= i < first_of_each_key(s).len() ==> first_with_its_key(
                s,
                #[trigger] first_of_each_key(s)[i],
            ),
    decreases s.len(),
{
    if s.len() > 0 {
        let p = s.drop_last();
        let x = s.last();
        lemma_first_of_each_key_keeps_the_first(p);
        let rest = first_of_each_key(p);
        let r = first_of_each_key(s);
        assert forall|i: int| 0 <= i < r.len() implies first_with_its_key(s, #[trigger] r[i]) by {
            if i < rest.len() {
                assert(r[i] == rest[i]);
                assert(first_with_its_key(p, rest[i]));
                let j = choose|j: int|
                    0 <= j < p.len() && p[j] == rest[i] && forall|m: int|
                        0 <= m < j ==> device_key(#[trigger] p[m]) != device_key(rest[i]);
                assert(s[j] == p[j]);
                assert forall|m: int| 0 <= m < j implies device_key(#[trigger] s[m]) != device_key(
                    r[i],
                ) by {
                    assert(s[m] == p[m]);
                }
            } else {
                assert(!has_key(p, device_key(x)));
                assert(r[i] == x);
                assert(s[s.len() - 1] == x);
                assert forall|m: int| 0 <= m < s.len() - 1 implies device_key(#[trigger] s[m])
                    != device_key(r[i]) by {
                    assert(s[m] == p[m]);
                    if device_key(p[m]) == device_key(x) {
                        assert(has_key(p, device_key(x)));
                    }
                }
            }
        }
    }
}

/// Some identifier in `ids` has the text `k`.
pub open spec fn ids_contain(ids: Seq<InterfaceId>, k: Seq<char>) -> bool {
    exists|j: int| 0 <= j < ids.len() && (#[trigger] ids[j])@ == k
}

/// Whether some identifier in `ids` has the text of `id`.
pub fn contains_id(ids: &Vec<InterfaceId>, id: &InterfaceId) -> (r: bool)
    ensures
        r == ids_contain(ids@, id@),
{
    let mut j: usize = 0;
    while j < ids.len()
        invariant
            j <= ids@.len(),
            forall|m: int| 0 <= m < j ==> (#[trigger] ids@[m])@ != id@,
        decreases ids@.len() - j,
    {
        if ids[j].same_as(id) {
            return true;
        }
        j = j + 1;
    }
    false
}

/// Keeps the first device of each key, in order (later devices with a key
/// already seen are dropped).
pub fn dedup_by_key(devices: &Vec<Device>) -> (r: Vec<Device>)
    ensures
        devices_view(r@) == first_of_each_key(devices_view(devices@)),
{
    let ghost dv = devices_view(devices@);
    let mut out: Vec<Device> = Vec::new();
    let mut seen: Vec<InterfaceId> = Vec::new();
    let n = devices.len();
    let mut i: usize = 0;
    while i < n
        invariant
            n == devices@.len(),
            i <= n,
            dv == devices_view(devices@),
            devices_view(out@) == first_of_each_key(dv.take(i as int)),
            forall|k: Seq<char>| has_key(dv.take(i as int), k) <==> ids_contain(seen@, k),
        decreases n - i,
    {
        let key = devices[i].iface_id();
        let ghost seen0 = seen@;
        let ghost prev = dv.take(i as int);
        let ghost next = dv.take(i + 1);
        assert(next.drop_last() =~= prev);
        assert(next.last() == devices@[i as int]@);
        proof {
            assert forall|k: Seq<char>| has_key(next, k) <==> (has_key(prev, k) || device_key(
                dv[i as int],
            ) == k) by {
                if has_key(next, k) {
                    let w = choose|w: int| 0 <= w < next.len() && device_key(#[trigger] next[w]) == k;
                    if w < i {
                        assert(prev[w] == next[w]);
                    }
                }
                if has_key(prev, k) {
                    let w = choose|w: int| 0 <= w < prev.len() && device_key(#[trigger] prev[w]) == k;
                    assert(prev[w] == next[w]);
                }
                if device_key(dv[i as int]) == k {
                    assert(next[i as int] == dv[i as int]);
                }
            }
        }
        if !contains_id(&seen, &key) {
            out.push(devices[i].clone());
            seen.push(key);
            assert(devices_view(out@) =~= first_of_each_key(prev).push(dv[i as int]));
            proof {
                assert forall|k: Seq<char>| ids_contain(seen@, k) <==> (ids_contain(seen0, k) || k
                    == device_key(dv[i as int])) by {
                    if ids_contain(seen@, k) {
                        let w = choose|w: int| 0 <= w < seen@.len() && (#[trigger] seen@[w])@ == k;
                        if w < seen0.len() {
                            assert(seen0[w] == seen@[w]);
                        }
                    }
                    if ids_contain(seen0, k) {
                        let w = choose|w: int| 0 <= w < seen0.len() && (#[trigger] seen0[w])@ == k;
                        assert(seen0[w] == seen@[w]);
                    }
                    if k == device_key(dv[i as int]) {
                        assert(seen@[seen0.len() as int]@ == k);
                    }
                }
            }
        }
        assert(dv[i as int] == devices@[i as int]@);
        assert forall|k: Seq<char>| has_key(next, k) <==> ids_contain(seen@, k) by {
            assert(has_key(prev, k) <==> ids_contain(seen0, k));
            assert(has_key(prev, key@) <==> ids_contain(seen0, key@));
        }
        i = i + 1;
    }
    assert(dv.take(n as int) =~= dv);
    out
}

impl Clone for Device {
    fn clone(&self) -> (r: Self)
        ensures
            r@ == self@,
    {
        Device {
            event: self.event.clone(),
            dev_path: self.dev_path.clone(),
            name: self.name.clone(),
            device_type: self.device_type,
            autohide: self.autohide,
            usb_path: copy_opt(&self.usb_path),
            interface_id: match &self.interface_id {
                Some(i) => Some(i.clone()),
                None => None,
            },
            vendor_id: copy_opt(&self.vendor_id),
            product_id: copy_opt(&self.product_id),
            enabled: self.enabled,
        }
    }
}

impl Device {
    /// The key used in state maps — USB interface if known, event node otherwise.
    pub fn iface_id(&self) -> (r: InterfaceId)
        ensures
            r@ == device_key(self@),
    {
        match &self.interface_id {
            Some(i) => i.clone(),
            None => InterfaceId::from(self.event.as_str()),
        }
    }
}


// ── Per-device enabled/disabled state ────────────────────────────────────────

/// No two entries share a key.
pub open spec fn distinct_keys(entries: Seq<(InterfaceId, bool)>) -> bool {
    forall|i: int, j: int|
        0 <= i < j < entries.len() ==> (#[trigger] entries[i]).0@ != (#[trigger] entries[j]).0@
}

/// Per-device enabled/disabled state, keyed by interface ID.
///
/// The entries are held in a `Vec` whose keys are distinct, not in a
/// `HashMap`: the specification of `HashMap` with `String` keys gives no
/// usable contract for lookups and insertions, and this form lets every
/// operation be proved against the map it stands for.
pub struct DeviceState {
    entries: Vec<(InterfaceId, bool)>,
}

impl DeviceState {
    /// No two entries share a key.
    #[verifier::type_invariant]
    spec fn keys_distinct(&self) -> bool {
        distinct_keys(self.entries@)
    }

    /// With distinct keys, the entry with key `k` is the one at `i`.
    proof fn lemma_position_at(&self, k: Seq<char>, i: int)
        requires
            distinct_keys(self.entries@),
            0 <= i < self.entries@.len(),
            self.entries@[i].0@ == k,
        ensures
            self.position_of(k) == Some(i),
    {
        let p = self.position_of(k)->0;
        assert(self.entries@[p].0@ == k);
        if p != i {
            if p < i {
                assert((self.entries@[p]).0@ != (self.entries@[i]).0@);
            } else {
                assert((self.entries@[i]).0@ != (self.entries@[p]).0@);
            }
        }
    }

    /// The position of the entry with key `k`, if any.
    spec fn position_of(&self, k: Seq<char>) -> Option<int> {
        if exists|i: int| 0 <= i < self.entries@.len() && (#[trigger] self.entries@[i]).0@ == k {
            Some(choose|i: int| 0 <= i < self.entries@.len() && (#[trigger] self.entries@[i]).0@ == k)
        } else {
            None
        }
    }
}

impl View for DeviceState {
    type V = Map<Seq<char>, bool>;

    closed spec fn view(&self) -> Map<Seq<char>, bool> {
        Map::new(
            |k: Seq<char>| self.position_of(k) is Some,
            |k: Seq<char>| self.entries@[self.position_of(k)->0].1,
        )
    }
}

impl DeviceState {
    /// The empty state.
    pub fn new() -> (r: DeviceState)
        ensures
            r@ == Map::<Seq<char>, bool>::empty(),
    {
        let r = DeviceState { entries: Vec::new() };
        assert(r@ =~= Map::<Seq<char>, bool>::empty());
        r
    }

    /// The position of the entry whose key is `id`, if any.
    fn find(&self, id: &InterfaceId) -> (r: Option<usize>)
        ensures
            match r {
                Some(i) => i < self.entries@.len() && self.entries@[i as int].0@ == id@,
                None => forall|i: int|
                    0 <= i < self.entries@.len() ==> (#[trigger] self.entries@[i]).0@ != id@,
            },
    {
        let mut i: usize = 0;
        while i < self.entries.len()
            invariant
                i <= self.entries@.len(),
                forall|m: int| 0 <= m < i ==> (#[trigger] self.entries@[m]).0@ != id@,
            decreases self.entries@.len() - i,
        {
            if self.entries[i].0.same_as(id) {
                return Some(i);
            }
            i = i + 1;
        }
        None
    }

    /// The saved state of the device whose key is `id`, if there is one.
    pub fn get(&self, id: &InterfaceId) -> (r: Option<bool>)
        ensures
            r == (if self@.contains_key(id@) {
                Some(self@[id@])
            } else {
                None
            }),
    {
        proof {
            use_type_invariant(self);
        }
        match self.find(id) {
            Some(i) => {
                proof {
                    self.lemma_position_at(id@, i as int);
                }
                Some(self.entries[i].1)
            },
            None => None,
        }
    }

    /// Records `enabled` as the state of the device whose key is `id`,
    /// replacing what was recorded for it before.
    pub fn insert(&mut self, id: InterfaceId, enabled: bool)
        ensures
            final(self)@ == old(self)@.insert(id@, enabled),
    {
        proof {
            use_type_invariant(&*self);
        }
        let ghost old_self = *self;
        let ghost old_entries = self.entries@;
        match self.find(&id) {
            Some(i) => {
                let mut entries: Vec<(InterfaceId, bool)> = Vec::new();
                std::mem::swap(&mut entries, &mut self.entries);
                let ghost idv = id@;
                entries.set(i, (id, enabled));
                assert(entries@ == old_entries.update(i as int, (entries@[i as int].0, enabled)));
                assert(distinct_keys(entries@)) by {
                    assert forall|a: int, b: int|
                        0 <= a < b < entries@.len() implies (#[trigger] entries@[a]).0@
                        != (#[trigger] entries@[b]).0@ by {
                        if a == i {
                            assert(old_entries[a].0@ != old_entries[b].0@);
                        } else if b == i {
                            assert(old_entries[a].0@ != old_entries[b].0@);
                        } else {
                            assert(old_entries[a].0@ != old_entries[b].0@);
                        }
                    }
                }
                self.entries = entries;
                proof {
                    assert forall|k: Seq<char>| #[trigger] self@.contains_key(k) == old_self@.insert(idv, enabled).contains_key(k)
                        && (self@.contains_key(k) ==> self@[k] == old_self@.insert(idv, enabled)[k]) by {
                        if k == idv {
                            self.lemma_position_at(k, i as int);
                            old_self.lemma_position_at(k, i as int);
                        } else if old_self.position_of(k) is Some {
                            let j = old_self.position_of(k)->0;
                            assert(old_entries[j].0@ == k);
                            assert(j != i);
                            self.lemma_position_at(k, j);
                        } else {
                            if self.position_of(k) is Some {
                                let j = self.position_of(k)->0;
                                assert(self.entries@[j].0@ == k);
                                assert(j != i);
                                assert(old_entries[j].0@ == k);
                            }
                        }
                    }
                    assert(self@ =~= old_self@.insert(idv, enabled));
                }
            },
            None => {
                let mut entries: Vec<(InterfaceId, bool)> = Vec::new();
                std::mem::swap(&mut entries, &mut self.entries);
                let ghost idv = id@;
                entries.push((id, enabled));
                assert(distinct_keys(entries@)) by {
                    assert forall|a: int, b: int|
                        0 <= a < b < entries@.len() implies (#[trigger] entries@[a]).0@
                        != (#[trigger] entries@[b]).0@ by {
                        if b == old_entries.len() {
                            assert(old_entries[a].0@ != idv);
                        } else {
                            assert(old_entries[a].0@ != old_entries[b].0@);
                        }
                    }
                }
                self.entries = entries;
                proof {
                    let n = old_entries.len() as int;
                    assert forall|k: Seq<char>| #[trigger] self@.contains_key(k) == old_self@.insert(idv, enabled).contains_key(k)
                        && (self@.contains_key(k) ==> self@[k] == old_self@.insert(idv, enabled)[k]) by {
                        if k == idv {
                            self.lemma_position_at(k, n);
                        } else if old_self.position_of(k) is Some {
                            let j = old_self.position_of(k)->0;
                            assert(old_entries[j].0@ == k);
                            self.lemma_position_at(k, j);
                        } else {
                            if self.position_of(k) is Some {
                                let j = self.position_of(k)->0;
                                assert(self.entries@[j].0@ == k);
                                assert(old_entries[j].0@ == k);
                            }
                        }
                    }
                    assert(self@ =~= old_self@.insert(idv, enabled));
                }
            },
        }
    }
}

impl DeviceState {
    /// The recorded states as pairs of key and state, each key once.
    pub fn pairs(&self) -> (r: Vec<(String, bool)>)
        ensures
            forall|k: Seq<char>| #[trigger]
                self@.contains_key(k) <==> exists|i: int| 0 <= i < r@.len() && r@[i].0@ == k,
            forall|i: int|
                0 <= i < r@.len() ==> self@.contains_key((#[trigger] r@[i]).0@) && self@[r@[i].0@]
                    == r@[i].1,
    {
        proof {
            use_type_invariant(self);
        }
        let mut out: Vec<(String, bool)> = Vec::new();
        let n = self.entries.len();
        let mut i: usize = 0;
        while i < n
            invariant
                n == self.entries@.len(),
                i <= n,
                distinct_keys(self.entries@),
                out@.len() == i,
                forall|m: int|
                    0 <= m < i ==> (#[trigger] out@[m]).0@ == self.entries@[m].0@ && out@[m].1
                        == self.entries@[m].1,
            decreases n - i,
        {
            out.push((self.entries[i].0.as_str().to_owned(), self.entries[i].1));
            i = i + 1;
        }
        proof {
            assert forall|k: Seq<char>| #[trigger]
                self@.contains_key(k) <==> exists|m: int| 0 <= m < out@.len() && out@[m].0@ == k by {
                if self@.contains_key(k) {
                    let m = self.position_of(k)->0;
                    assert(out@[m].0@ == k);
                }
                if exists|m: int| 0 <= m < out@.len() && out@[m].0@ == k {
                    let m = choose|m: int| 0 <= m < out@.len() && out@[m].0@ == k;
                    self.lemma_position_at(k, m);
                }
            }
            assert forall|m: int| 0 <= m < out@.len() implies self@.contains_key(
                (#[trigger] out@[m]).0@,
            ) && self@[out@[m].0@] == out@[m].1 by {
                self.lemma_position_at(out@[m].0@, m);
            }
        }
        out
    }
}

impl Default for DeviceState {
    /// The empty state.
    fn default() -> (r: DeviceState)
        ensures
            r@ == Map::<Seq<char>, bool>::empty(),
    {
        DeviceState::new()
    }
}

impl Clone for DeviceState {
    fn clone(&self) -> (r: Self)
        ensures
            r@ == self@,
    {
        proof {
            use_type_invariant(self);
        }
        let mut entries: Vec<(InterfaceId, bool)> = Vec::new();
        let n = self.entries.len();
        let mut i: usize = 0;
        while i < n
            invariant
                n == self.entries@.len(),
                i <= n,
                distinct_keys(self.entries@),
                entries@.len() == i,
                forall|m: int|
                    0 <= m < i ==> (#[trigger] entries@[m]).0@ == self.entries@[m].0@
                        && entries@[m].1 == self.entries@[m].1,
            decreases n - i,
        {
            entries.push((self.entries[i].0.clone(), self.entries[i].1));
            i = i + 1;
        }
        assert(distinct_keys(entries@)) by {
            assert forall|a: int, b: int| 0 <= a < b < entries@.len() implies (#[trigger] entries@[a]).0@
                != (#[trigger] entries@[b]).0@ by {
                assert(self.entries@[a].0@ != self.entries@[b].0@);
            }
        }
        let r = DeviceState { entries };
        proof {
            assert forall|k: Seq<char>| #[trigger] r@.contains_key(k) == self@.contains_key(k) && (
            r@.contains_key(k) ==> r@[k] == self@[k]) by {
                if self.position_of(k) is Some {
                    let j = self.position_of(k)->0;
                    r.lemma_position_at(k, j);
                }
                if r.position_of(k) is Some {
                    let j = r.position_of(k)->0;
                    self.lemma_position_at(k, j);
                }
            }
            assert(r@ =~= self@);
        }
        r
    }
}

} // verus!
