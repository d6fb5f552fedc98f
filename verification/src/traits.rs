//! The services the daemon is built from — the device scan, the toggling of
//! devices, and the store of their saved state — and in-memory stand-ins for
//! each, for tests.
use vstd::prelude::*;

use crate::device::{devices_view, Device, DeviceState, InterfaceId};
use crate::id_set::IdSet;

verus! {

/// Why an action on a device or on the saved state failed.
#[derive(Debug)]
pub struct Failure {
    pub message: String,
}

/// A source of the devices currently present.
pub trait SysfsReader {
    fn read_devices(&self) -> Vec<Device>;
}

/// Binds and unbinds devices from their driver.
pub trait DeviceToggler {
    fn enable(&mut self, iface_id: &InterfaceId) -> Result<(), Failure>;

    fn disable(&mut self, iface_id: &InterfaceId) -> Result<(), Failure>;
}

/// Loads and saves the per-device state.
pub trait StateStore {
    fn load(&self) -> DeviceState;

    fn save(&mut self, state: &DeviceState) -> Result<(), Failure>;
}

/// A copy of each device, in order.
pub fn copy_devices(devices: &Vec<Device>) -> (r: Vec<Device>)
    ensures
        devices_view(r@) == devices_view(devices@),
{
    let mut out: Vec<Device> = Vec::new();
    let mut i: usize = 0;
    while i < devices.len()
        invariant
            i <= devices@.len(),
            out@.len() == i,
            forall|m: int| 0 <= m < i ==> (#[trigger] out@[m])@ == devices@[m]@,
        decreases devices@.len() - i,
    {
        out.push(devices[i].clone());
        i = i + 1;
    }
    assert(devices_view(out@) =~= devices_view(devices@));
    out
}

// ── Mocks ────────────────────────────────────────────────────────────────────

/// A device source that reports a fixed list.
#[derive(Debug, Default)]
pub struct MockSysfsReader {
    pub devices: Vec<Device>,
}

impl SysfsReader for MockSysfsReader {
    fn read_devices(&self) -> (r: Vec<Device>)
        ensures
            devices_view(r@) == devices_view(self.devices@),
    {
        copy_devices(&self.devices)
    }
}

/// A toggler that only records which devices are enabled.
pub struct MockDeviceToggler {
    enabled: IdSet,
}

impl View for MockDeviceToggler {
    type V = Set<Seq<char>>;

    closed spec fn view(&self) -> Set<Seq<char>> {
        self.enabled@
    }
}

/// The texts of a sequence of identifiers.
pub open spec fn ids_texts(v: Seq<InterfaceId>) -> Set<Seq<char>> {
    Set::new(|k: Seq<char>| exists|i: int| 0 <= i < v.len() && (#[trigger] v[i])@ == k)
}

impl MockDeviceToggler {
    /// A toggler under which exactly the given devices are enabled.
    pub fn new(initially_enabled: Vec<InterfaceId>) -> (r: MockDeviceToggler)
        ensures
            r@ == ids_texts(initially_enabled@),
    {
        let mut enabled = IdSet::new();
        let mut i: usize = 0;
        while i < initially_enabled.len()
            invariant
                i <= initially_enabled@.len(),
                enabled@ == ids_texts(initially_enabled@.take(i as int)),
            decreases initially_enabled@.len() - i,
        {
            enabled.insert(initially_enabled[i].as_str().to_owned());
            proof {
                let v = initially_enabled@;
                assert(ids_texts(v.take(i + 1)) =~= ids_texts(v.take(i as int)).insert(v[i as int]@)) by {
                    assert forall|k: Seq<char>| #[trigger] ids_texts(v.take(i + 1)).contains(k) ==
                        ids_texts(v.take(i as int)).insert(v[i as int]@).contains(k) by {
                        if ids_texts(v.take(i + 1)).contains(k) {
                            let j = choose|j: int| 0 <= j < i + 1 && (#[trigger] v.take(i + 1)[j])@ == k;
                            if j < i {
                                assert(v.take(i as int)[j] == v.take(i + 1)[j]);
                            }
                        }
                        if ids_texts(v.take(i as int)).contains(k) {
                            let j = choose|j: int| 0 <= j < i && (#[trigger] v.take(i as int)[j])@ == k;
                            assert(v.take(i as int)[j] == v.take(i + 1)[j]);
                        }
                        if k == v[i as int]@ {
                            assert(v.take(i + 1)[i as int] == v[i as int]);
                        }
                    }
                }
            }
            i = i + 1;
        }
        assert(initially_enabled@.take(initially_enabled@.len() as int) =~= initially_enabled@);
        MockDeviceToggler { enabled }
    }

    /// Whether the device is enabled.
    pub fn is_enabled(&self, iface_id: &InterfaceId) -> (r: bool)
        ensures
            r == self@.contains(iface_id@),
    {
        self.enabled.contains(iface_id.as_str())
    }
}

impl DeviceToggler for MockDeviceToggler {
    fn enable(&mut self, iface_id: &InterfaceId) -> (r: Result<(), Failure>)
        ensures
            final(self)@ == old(self)@.insert(iface_id@),
            r is Ok,
    {
        self.enabled.insert(iface_id.as_str().to_owned());
        Ok(())
    }

    fn disable(&mut self, iface_id: &InterfaceId) -> (r: Result<(), Failure>)
        ensures
            final(self)@ == old(self)@.remove(iface_id@),
            r is Ok,
    {
        self.enabled.remove(iface_id.as_str());
        Ok(())
    }
}

/// A state store held in memory.
pub struct MockStateStore {
    state: DeviceState,
}

impl View for MockStateStore {
    type V = Map<Seq<char>, bool>;

    closed spec fn view(&self) -> Map<Seq<char>, bool> {
        self.state@
    }
}

impl MockStateStore {
    /// A store that holds `initial`.
    pub fn new(initial: DeviceState) -> (r: MockStateStore)
        ensures
            r@ == initial@,
    {
        MockStateStore { state: initial }
    }
}

impl Default for MockStateStore {
    /// A store that holds the empty state.
    fn default() -> (r: MockStateStore)
        ensures
            r@ == Map::<Seq<char>, bool>::empty(),
    {
        MockStateStore { state: DeviceState::new() }
    }
}

impl StateStore for MockStateStore {
    fn load(&self) -> (r: DeviceState)
        ensures
            r@ == self@,
    {
        self.state.clone()
    }

    fn save(&mut self, state: &DeviceState) -> (r: Result<(), Failure>)
        ensures
            final(self)@ == state@,
            r is Ok,
    {
        self.state = state.clone();
        Ok(())
    }
}

// ── Laws ─────────────────────────────────────────────────────────────────────

/// On the recording toggler, a device is enabled after `enable` and not after
/// `disable`, and no other device changes.
pub proof fn law_toggler_records_last_action(enabled: Set<Seq<char>>, id: Seq<char>, other: Seq<char>)
    requires
        other != id,
    ensures
        enabled.insert(id).contains(id),
        !enabled.remove(id).contains(id),
        enabled.insert(id).contains(other) == enabled.contains(other),
        enabled.remove(id).contains(other) == enabled.contains(other),
{
}

/// On the state held in memory, a lookup after recording a device's state
/// gives that state, and the other devices keep theirs.
pub proof fn law_state_lookup_after_record(
    state: Map<Seq<char>, bool>,
    id: Seq<char>,
    enabled: bool,
    other: Seq<char>,
)
    requires
        other != id,
    ensures
        state.insert(id, enabled).contains_key(id) && state.insert(id, enabled)[id] == enabled,
        state.insert(id, enabled).contains_key(other) == state.contains_key(other),
        state.contains_key(other) ==> state.insert(id, enabled)[other] == state[other],
{
}

/// The enabled interfaces after the toggler performs `actions` in order,
/// starting from `init`: each action is an interface and whether it is
/// enabled (`true`, a call of `enable`) or disabled (`false`, `disable`).
pub open spec fn after_actions(init: Set<Seq<char>>, actions: Seq<(Seq<char>, bool)>) -> Set<
    Seq<char>,
>
    decreases actions.len(),
{
    if actions.len() == 0 {
        init
    } else {
        let before = after_actions(init, actions.drop_last());
        if actions.last().1 {
            before.insert(actions.last().0)
        } else {
            before.remove(actions.last().0)
        }
    }
}

/// The last action on `id` among `actions`, if any: whether it enabled it.
pub open spec fn last_action_on(actions: Seq<(Seq<char>, bool)>, id: Seq<char>) -> Option<bool>
    decreases actions.len(),
{
    if actions.len() == 0 {
        None
    } else if actions.last().0 == id {
        Some(actions.last().1)
    } else {
        last_action_on(actions.drop_last(), id)
    }
}

/// On the recording toggler made by `MockDeviceToggler::new(ids)`, after any
/// sequence of successful `enable` and `disable` calls (each of which takes
/// the enabled set one step of `after_actions`), a device is enabled exactly
/// when the last call on it was `enable`, or, when there was no call on it,
/// when `ids` held it.
pub proof fn law_mock_toggler_follows_last_action(
    ids: Seq<InterfaceId>,
    actions: Seq<(Seq<char>, bool)>,
    id: Seq<char>,
)
    ensures
        after_actions(ids_texts(ids), actions).contains(id) == match last_action_on(actions, id) {
            Some(on) => on,
            None => ids_texts(ids).contains(id),
        },
    decreases actions.len(),
{
    if actions.len() > 0 {
        law_mock_toggler_follows_last_action(ids, actions.drop_last(), id);
    }
}

} // verus!
