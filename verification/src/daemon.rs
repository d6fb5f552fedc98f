//! The decisions of the daemon's D-Bus methods: which requests are refused,
//! and the device list it reports — live devices merged with the cache and
//! the saved state.
use vstd::prelude::*;

use crate::device::{
    dedup_by_key, device_key, devices_view, first_of_each_key, first_with_its_key, has_key,
    is_interface_id, keys_unique, lemma_first_of_each_key, lemma_first_of_each_key_keeps_the_first,
    listed, Device, DeviceState, DeviceView, InterfaceId,
};
use crate::traits::Failure;

verus! {

// ── Requests ─────────────────────────────────────────────────────────────────

/// Why the daemon refused or failed a request.
#[derive(Debug)]
pub enum RequestError {
    /// The argument is not a USB interface identifier (the text is kept).
    InvalidInterfaceId(String),
    /// The action itself failed.
    Failed(String),
}

/// The interface identifier named by a request, if it is a valid one.
pub fn checked_iface_id(iface_id: String) -> (r: Result<InterfaceId, RequestError>)
    ensures
        is_interface_id(iface_id@) ==> (r matches Ok(id) && id@ == iface_id@),
        !is_interface_id(iface_id@) ==> (r matches Err(RequestError::InvalidInterfaceId(s))
            && s@ == iface_id@),
{
    if InterfaceId::is_valid(iface_id.as_str()) {
        Ok(InterfaceId::from(iface_id))
    } else {
        Err(RequestError::InvalidInterfaceId(iface_id))
    }
}

/// The error a request reports for the outcome of the toggler's call: none
/// when it succeeded, else the toggler's message.
pub fn toggle_outcome(outcome: Result<(), Failure>) -> (r: Result<(), RequestError>)
    ensures
        outcome is Ok ==> r is Ok,
        outcome matches Err(f) ==> (r matches Err(RequestError::Failed(m)) && m == f.message),
{
    match outcome {
        Ok(()) => Ok(()),
        Err(Failure { message }) => Err(RequestError::Failed(message)),
    }
}

/// The toggler call a request asks for.
#[derive(Debug)]
pub enum ToggleRequest {
    /// Call `enable` with the identifier.
    Enable(InterfaceId),
    /// Call `disable` with the identifier.
    Disable(InterfaceId),
}

/// The toggler call for a request to enable (`on`) or disable a device. A
/// request whose argument is not a USB interface identifier is refused, so
/// the toggler is not asked at all.
pub fn toggle_action(iface_id: String, on: bool) -> (r: Result<ToggleRequest, RequestError>)
    ensures
        !is_interface_id(iface_id@) ==> (r matches Err(RequestError::InvalidInterfaceId(s))
            && s@ == iface_id@),
        is_interface_id(iface_id@) && on ==> (r matches Ok(ToggleRequest::Enable(id)) && id@
            == iface_id@),
        is_interface_id(iface_id@) && !on ==> (r matches Ok(ToggleRequest::Disable(id)) && id@
            == iface_id@),
{
    let id = match checked_iface_id(iface_id) {
        Ok(id) => id,
        Err(e) => return Err(e),
    };
    if on {
        Ok(ToggleRequest::Enable(id))
    } else {
        Ok(ToggleRequest::Disable(id))
    }
}

// ── The device list ──────────────────────────────────────────────────────────

/// Some device in `live` sits at the USB path `p`.
pub open spec fn usb_path_listed(live: Seq<DeviceView>, p: Seq<char>) -> bool {
    exists|i: int| 0 <= i < live.len() && (#[trigger] live[i]).usb_path == Some(p)
}

/// A cached device counts as present when some live device has its USB path.
pub open spec fn present_in(live: Seq<DeviceView>, d: DeviceView) -> bool {
    match d.usb_path {
        Some(p) => usb_path_listed(live, p),
        None => false,
    }
}

/// The device marked disabled.
pub open spec fn disabled(d: DeviceView) -> DeviceView {
    DeviceView { enabled: false, ..d }
}

/// The cached devices that are not present, each marked disabled (they are
/// unbound, so sysfs no longer shows them).
pub open spec fn missing_cached(live: Seq<DeviceView>, cached: Seq<DeviceView>) -> Seq<DeviceView>
    decreases cached.len(),
{
    if cached.len() == 0 {
        seq![]
    } else {
        let rest = missing_cached(live, cached.drop_last());
        if present_in(live, cached.last()) {
            rest
        } else {
            rest.push(disabled(cached.last()))
        }
    }
}

/// The device with its saved state, when there is one, in place of what sysfs
/// says.
pub open spec fn with_saved_state(d: DeviceView, state: Map<Seq<char>, bool>) -> DeviceView {
    if state.contains_key(device_key(d)) {
        DeviceView { enabled: state[device_key(d)], ..d }
    } else {
        d
    }
}

/// The device list the daemon reports: the live devices followed by the
/// missing cached ones, the first device of each key only, each with its
/// saved state applied.
pub open spec fn merged_devices(
    live: Seq<DeviceView>,
    cached: Seq<DeviceView>,
    state: Map<Seq<char>, bool>,
) -> Seq<DeviceView> {
    first_of_each_key(live + missing_cached(live, cached)).map_values(
        |d: DeviceView| with_saved_state(d, state),
    )
}

/// Whether some device in `live` sits at the USB path `p`.
fn usb_path_in(live: &Vec<Device>, p: &String) -> (r: bool)
    ensures
        r == usb_path_listed(devices_view(live@), p@),
{
    let ghost lv = devices_view(live@);
    let mut i: usize = 0;
    while i < live.len()
        invariant
            i <= live@.len(),
            lv == devices_view(live@),
            forall|m: int| 0 <= m < i ==> (#[trigger] lv[m]).usb_path != Some(p@),
        decreases live@.len() - i,
    {
        match &live[i].usb_path {
            Some(q) => {
                if *q == *p {
                    assert(lv[i as int].usb_path == Some(p@));
                    return true;
                }
            },
            None => {},
        }
        i = i + 1;
    }
    false
}

/// Live devices merged with the cached ones that are missing from sysfs and
/// with the saved state: the device list the daemon reports.
pub fn merge_devices(live: &Vec<Device>, cached: &Vec<Device>, state: &DeviceState) -> (r: Vec<
    Device,
>)
    ensures
        devices_view(r@) == merged_devices(devices_view(live@), devices_view(cached@), state@),
{
    let ghost lv = devices_view(live@);
    let ghost cv = devices_view(cached@);
    let mut combined: Vec<Device> = Vec::new();
    let mut i: usize = 0;
    while i < live.len()
        invariant
            i <= live@.len(),
            lv == devices_view(live@),
            devices_view(combined@) == lv.take(i as int),
            combined@.len() == i,
        decreases live@.len() - i,
    {
        let ghost before = combined@;
        let d = live[i].clone();
        let ghost dg = d;
        combined.push(d);
        assert(combined@ =~= before.push(dg));
        assert(devices_view(combined@) =~= devices_view(before).push(lv[i as int]));
        assert(devices_view(combined@) =~= lv.take(i + 1));
        i = i + 1;
    }
    assert(lv.take(live@.len() as int) =~= lv);
    let mut j: usize = 0;
    while j < cached.len()
        invariant
            j <= cached@.len(),
            lv == devices_view(live@),
            cv == devices_view(cached@),
            devices_view(combined@) == lv + missing_cached(lv, cv.take(j as int)),
        decreases cached@.len() - j,
    {
        assert(cv.take(j + 1).drop_last() =~= cv.take(j as int));
        assert(cv.take(j + 1).last() == cached@[j as int]@);
        let present = match &cached[j].usb_path {
            Some(p) => usb_path_in(live, p),
            None => false,
        };
        let ghost before = combined@;
        if !present {
            let mut d = cached[j].clone();
            d.enabled = false;
            assert(d@ == disabled(cv[j as int]));
            let ghost dg = d;
            combined.push(d);
            assert(combined@ =~= before.push(dg));
            assert(devices_view(combined@) =~= devices_view(before).push(disabled(cv[j as int])));
        }
        assert(devices_view(combined@) =~= lv + missing_cached(lv, cv.take(j + 1)));
        j = j + 1;
    }
    assert(cv.take(cached@.len() as int) =~= cv);
    let deduped = dedup_by_key(&combined);
    let ghost dd = devices_view(deduped@);
    let mut out: Vec<Device> = Vec::new();
    let mut k: usize = 0;
    while k < deduped.len()
        invariant
            k <= deduped@.len(),
            dd == devices_view(deduped@),
            out@.len() == k,
            forall|m: int| 0 <= m < k ==> (#[trigger] out@[m])@ == with_saved_state(dd[m], state@),
        decreases deduped@.len() - k,
    {
        let mut d = deduped[k].clone();
        let key = d.iface_id();
        match state.get(&key) {
            Some(enabled) => {
                d.enabled = enabled;
            },
            None => {},
        }
        out.push(d);
        k = k + 1;
    }
    assert(devices_view(out@) =~= dd.map_values(|d: DeviceView| with_saved_state(d, state@)));
    out
}

// ── Laws ─────────────────────────────────────────────────────────────────────

/// Each missing cached device is a cached device not present, disabled.
pub proof fn lemma_missing_cached(live: Seq<DeviceView>, cached: Seq<DeviceView>)
    ensures
        forall|i: int|
            0 <= i < missing_cached(live, cached).len() ==> !(
            #[trigger] missing_cached(live, cached)[i]).enabled && exists|j: int|
                0 <= j < cached.len() && !present_in(live, cached[j])
                    && missing_cached(live, cached)[i] == disabled(cached[j]),
        forall|j: int|
            0 <= j < cached.len() && !present_in(live, #[trigger] cached[j]) ==> listed(
                missing_cached(live, cached),
                disabled(cached[j]),
            ),
    decreases cached.len(),
{
    if cached.len() > 0 {
        let p = cached.drop_last();
        lemma_missing_cached(live, p);
        let rest = missing_cached(live, p);
        let r = missing_cached(live, cached);
        assert forall|i: int| 0 <= i < r.len() implies !(#[trigger] r[i]).enabled && exists|j: int|
            0 <= j < cached.len() && !present_in(live, cached[j]) && r[i] == disabled(cached[j]) by {
            if i < rest.len() {
                assert(r[i] == rest[i]);
                let j = choose|j: int|
                    0 <= j < p.len() && !present_in(live, p[j]) && rest[i] == disabled(p[j]);
                assert(cached[j] == p[j]);
            } else {
                assert(r[i] == disabled(cached[cached.len() - 1]));
            }
        }
        assert forall|j: int| 0 <= j < cached.len() && !present_in(live, #[trigger] cached[j]) implies listed(
            r,
            disabled(cached[j]),
        ) by {
            if j < p.len() {
                assert(cached[j] == p[j]);
                let w = choose|w: int| 0 <= w < rest.len() && rest[w] == disabled(p[j]);
                assert(r[w] == rest[w]);
            } else {
                assert(r[r.len() - 1] == disabled(cached[j]));
            }
        }
    }
}

/// Applying the saved state keeps a device's key.
pub proof fn lemma_saved_state_keeps_key(d: DeviceView, state: Map<Seq<char>, bool>)
    ensures
        device_key(with_saved_state(d, state)) == device_key(d),
{
}

/// The reported list holds each key once.
pub proof fn law_merged_keys_unique(
    live: Seq<DeviceView>,
    cached: Seq<DeviceView>,
    state: Map<Seq<char>, bool>,
)
    ensures
        keys_unique(merged_devices(live, cached, state)),
{
    let f = first_of_each_key(live + missing_cached(live, cached));
    lemma_first_of_each_key(live + missing_cached(live, cached));
    let r = merged_devices(live, cached, state);
    assert forall|i: int, j: int| 0 <= i < j < r.len() implies device_key(#[trigger] r[i])
        != device_key(#[trigger] r[j]) by {
        lemma_saved_state_keeps_key(f[i], state);
        lemma_saved_state_keeps_key(f[j], state);
    }
}

/// Saved state overrides the sysfs reading: a reported device whose key has
/// a saved state is as enabled as that state says.
pub proof fn law_saved_state_wins(
    live: Seq<DeviceView>,
    cached: Seq<DeviceView>,
    state: Map<Seq<char>, bool>,
)
    ensures
        forall|i: int|
            0 <= i < merged_devices(live, cached, state).len() && state.contains_key(
                device_key(#[trigger] merged_devices(live, cached, state)[i]),
            ) ==> merged_devices(live, cached, state)[i].enabled == state[device_key(
                merged_devices(live, cached, state)[i],
            )],
{
    let f = first_of_each_key(live + missing_cached(live, cached));
    let r = merged_devices(live, cached, state);
    assert forall|i: int| 0 <= i < r.len() && state.contains_key(device_key(#[trigger] r[i])) implies r[i].enabled
        == state[device_key(r[i])] by {
        lemma_saved_state_keeps_key(f[i], state);
    }
}

/// Every live device's key is reported, and so is the key of every cached
/// device that sysfs no longer shows.
pub proof fn law_merged_keeps_every_key(
    live: Seq<DeviceView>,
    cached: Seq<DeviceView>,
    state: Map<Seq<char>, bool>,
)
    ensures
        forall|i: int|
            0 <= i < live.len() ==> has_key(
                merged_devices(live, cached, state),
                device_key(#[trigger] live[i]),
            ),
        forall|j: int|
            0 <= j < cached.len() && !present_in(live, #[trigger] cached[j]) ==> has_key(
                merged_devices(live, cached, state),
                device_key(cached[j]),
            ),
{
    let m = missing_cached(live, cached);
    let c = live + m;
    let f = first_of_each_key(c);
    let r = merged_devices(live, cached, state);
    lemma_first_of_each_key(c);
    lemma_missing_cached(live, cached);
    assert forall|k: Seq<char>| has_key(f, k) implies has_key(r, k) by {
        let w = choose|w: int| 0 <= w < f.len() && device_key(#[trigger] f[w]) == k;
        lemma_saved_state_keeps_key(f[w], state);
        assert(device_key(r[w]) == k);
    }
    assert forall|i: int| 0 <= i < live.len() implies has_key(r, device_key(#[trigger] live[i])) by {
        assert(c[i] == live[i]);
        assert(has_key(c, device_key(live[i])));
    }
    assert forall|j: int| 0 <= j < cached.len() && !present_in(live, #[trigger] cached[j]) implies has_key(
        r,
        device_key(cached[j]),
    ) by {
        let w = choose|w: int| 0 <= w < m.len() && m[w] == disabled(cached[j]);
        assert(c[live.len() + w] == m[w]);
        assert(has_key(c, device_key(cached[j])));
    }
}

/// A reported device whose key no live device has — a cached device that
/// sysfs no longer shows — is reported disabled, unless a saved state says
/// otherwise.
pub proof fn law_missing_devices_reported_disabled(
    live: Seq<DeviceView>,
    cached: Seq<DeviceView>,
    state: Map<Seq<char>, bool>,
)
    ensures
        forall|i: int|
            0 <= i < merged_devices(live, cached, state).len() && !has_key(
                live,
                device_key(#[trigger] merged_devices(live, cached, state)[i]),
            ) && !state.contains_key(device_key(merged_devices(live, cached, state)[i])) ==> !merged_devices(
                live,
                cached,
                state,
            )[i].enabled,
{
    let m = missing_cached(live, cached);
    let c = live + m;
    let f = first_of_each_key(c);
    let r = merged_devices(live, cached, state);
    lemma_first_of_each_key(c);
    lemma_missing_cached(live, cached);
    assert forall|i: int|
        0 <= i < r.len() && !has_key(live, device_key(#[trigger] r[i])) && !state.contains_key(
            device_key(r[i]),
        ) implies !r[i].enabled by {
        lemma_saved_state_keeps_key(f[i], state);
        assert(listed(c, f[i]));
        let w = choose|w: int| 0 <= w < c.len() && c[w] == f[i];
        if w < live.len() {
            assert(live[w] == c[w]);
            assert(has_key(live, device_key(f[i])));
        } else {
            assert(m[w - live.len()] == c[w]);
        }
    }
}

/// A device sysfs shows wins over a cached device with the same key: a
/// reported device whose key some live device has is a live device (with its
/// saved state applied).
pub proof fn law_live_device_wins_over_cache(
    live: Seq<DeviceView>,
    cached: Seq<DeviceView>,
    state: Map<Seq<char>, bool>,
)
    ensures
        forall|i: int|
            0 <= i < merged_devices(live, cached, state).len() && has_key(
                live,
                device_key(#[trigger] merged_devices(live, cached, state)[i]),
            ) ==> exists|j: int|
                0 <= j < live.len() && with_saved_state(live[j], state) == merged_devices(
                    live,
                    cached,
                    state,
                )[i],
{
    let m = missing_cached(live, cached);
    let c = live + m;
    let f = first_of_each_key(c);
    let r = merged_devices(live, cached, state);
    lemma_first_of_each_key_keeps_the_first(c);
    assert forall|i: int| 0 <= i < r.len() && has_key(live, device_key(#[trigger] r[i])) implies exists|j: int|
        0 <= j < live.len() && with_saved_state(live[j], state) == r[i] by {
        lemma_saved_state_keeps_key(f[i], state);
        let w = choose|w: int| 0 <= w < live.len() && device_key(#[trigger] live[w]) == device_key(r[i]);
        assert(first_with_its_key(c, f[i]));
        let j = choose|j: int|
            0 <= j < c.len() && c[j] == f[i] && forall|k: int|
                0 <= k < j ==> device_key(#[trigger] c[k]) != device_key(f[i]);
        assert(c[w] == live[w]);
        if j > w {
            assert(device_key(c[w]) != device_key(f[i]));
        }
        assert(c[j] == live[j]);
    }
}

/// A cached device counts as present exactly when it has a USB path and some
/// live device has that same USB path; a cached device without a USB path
/// (on Bluetooth, say) is never present.
pub proof fn law_present_means_same_usb_path(live: Seq<DeviceView>, c: DeviceView)
    ensures
        present_in(live, c) <==> (c.usb_path is Some && exists|i: int|
            0 <= i < live.len() && (#[trigger] live[i]).usb_path == c.usb_path),
{
}

/// A cached device that sysfs does not show — it has no USB path, or no live
/// device has its USB path — is reported: its key is in the list. When no
/// live device has its key and no saved state names it, the device reported
/// under that key is disabled.
pub proof fn law_cached_devices_missing_from_sysfs_are_reported(
    live: Seq<DeviceView>,
    cached: Seq<DeviceView>,
    state: Map<Seq<char>, bool>,
)
    ensures
        forall|j: int|
            0 <= j < cached.len() && ((#[trigger] cached[j]).usb_path is None || forall|i: int|
                0 <= i < live.len() ==> live[i].usb_path != cached[j].usb_path) ==> has_key(
                merged_devices(live, cached, state),
                device_key(cached[j]),
            ),
        forall|j: int|
            0 <= j < cached.len() && ((#[trigger] cached[j]).usb_path is None || forall|i: int|
                0 <= i < live.len() ==> live[i].usb_path != cached[j].usb_path) && !has_key(
                live,
                device_key(cached[j]),
            ) && !state.contains_key(device_key(cached[j])) ==> exists|i: int|
                0 <= i < merged_devices(live, cached, state).len() && device_key(
                    merged_devices(live, cached, state)[i],
                ) == device_key(cached[j]) && !merged_devices(live, cached, state)[i].enabled,
{
    let r = merged_devices(live, cached, state);
    law_merged_keeps_every_key(live, cached, state);
    law_missing_devices_reported_disabled(live, cached, state);
    assert forall|j: int|
        0 <= j < cached.len() && ((#[trigger] cached[j]).usb_path is None || forall|i: int|
            0 <= i < live.len() ==> live[i].usb_path != cached[j].usb_path) implies has_key(
        r,
        device_key(cached[j]),
    ) by {
        law_present_means_same_usb_path(live, cached[j]);
        assert(!present_in(live, cached[j]));
    }
    assert forall|j: int|
        0 <= j < cached.len() && ((#[trigger] cached[j]).usb_path is None || forall|i: int|
            0 <= i < live.len() ==> live[i].usb_path != cached[j].usb_path) && !has_key(
            live,
            device_key(cached[j]),
        ) && !state.contains_key(device_key(cached[j])) implies exists|i: int|
        0 <= i < r.len() && device_key(r[i]) == device_key(cached[j]) && !r[i].enabled by {
        law_present_means_same_usb_path(live, cached[j]);
        assert(!present_in(live, cached[j]));
        assert(has_key(r, device_key(cached[j])));
        let i = choose|i: int| 0 <= i < r.len() && device_key(#[trigger] r[i]) == device_key(
            cached[j],
        );
        assert(!r[i].enabled);
    }
}

} // verus!
