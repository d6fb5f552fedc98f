//! Where the device state, the device cache and the user's hidden and shown
//! lists are kept, and which of them is used. Reading and writing the files
//! is left to the caller.
use vstd::prelude::*;

use crate::device::{devices_view, Device, DeviceState, DeviceView};
use crate::path::{join_path, joined_path_of};

verus! {

/// The system copy of the device state, read at boot by the restore service.
pub const SYSTEM_STATE_PATH: &'static str = "/var/lib/joytoggle/state.json";

/// The home directory, or `/tmp` when there is none.
pub open spec fn home_or_tmp(home: Option<Seq<char>>) -> Seq<char> {
    match home {
        Some(h) => h,
        None => "/tmp"@,
    }
}

/// The user's configuration directory, `~/.config/joytoggle`, given the value
/// of `HOME` if it is set.
pub fn config_dir_for(home: Option<String>) -> (r: String)
    ensures
        r@ == joined_path_of(home_or_tmp(crate::device::opt_view(home)), ".config/joytoggle"@),
{
    let base: String = match home {
        Some(h) => h,
        None => "/tmp".to_owned(),
    };
    join_path(base.as_str(), ".config/joytoggle")
}

/// The file of the manually hidden interface IDs in the configuration directory.
pub fn hidden_list_path(config_dir: &str) -> (r: String)
    ensures
        r@ == joined_path_of(config_dir@, "hidden.json"@),
{
    join_path(config_dir, "hidden.json")
}

/// The file of the force-shown interface IDs in the configuration directory.
pub fn shown_list_path(config_dir: &str) -> (r: String)
    ensures
        r@ == joined_path_of(config_dir@, "shown.json"@),
{
    join_path(config_dir, "shown.json")
}

/// Persists the device state to `~/.config/joytoggle/state.json` (primary)
/// and to [`SYSTEM_STATE_PATH`] (for the boot restore service).
pub struct FileStateStore;

impl FileStateStore {
    /// The user's state file in the configuration directory.
    pub fn user_state_path(config_dir: &str) -> (r: String)
        ensures
            r@ == joined_path_of(config_dir@, "state.json"@),
    {
        join_path(config_dir, "state.json")
    }

    /// The state that loading gives, from what could be read and parsed: the
    /// user's file first, then the system's, else the empty state.
    pub fn loaded_state(user: Option<DeviceState>, system: Option<DeviceState>) -> (r: DeviceState)
        ensures
            r@ == (match user {
                Some(u) => u@,
                None => match system {
                    Some(s) => s@,
                    None => Map::empty(),
                },
            }),
    {
        match user {
            Some(u) => u,
            None => match system {
                Some(s) => s,
                None => DeviceState::new(),
            },
        }
    }
}

/// The devices of `s` that are not hidden by default, in order.
pub open spec fn not_autohidden(s: Seq<DeviceView>) -> Seq<DeviceView>
    decreases s.len(),
{
    if s.len() == 0 {
        seq![]
    } else if s.last().autohide {
        not_autohidden(s.drop_last())
    } else {
        not_autohidden(s.drop_last()).push(s.last())
    }
}

/// Persists the scanned device list so that disabled (unbound) devices remain
/// visible after a reboot.
pub struct FileCacheStore {
    pub path: String,
}

impl FileCacheStore {
    /// The cache at `devices_cache.json` in the configuration directory.
    pub fn in_config_dir(config_dir: &str) -> (r: FileCacheStore)
        ensures
            r.path@ == joined_path_of(config_dir@, "devices_cache.json"@),
    {
        FileCacheStore { path: join_path(config_dir, "devices_cache.json") }
    }

    /// The devices that go into the cache: only those not hidden by default.
    pub fn cacheable(devices: &Vec<Device>) -> (r: Vec<Device>)
        ensures
            devices_view(r@) == not_autohidden(devices_view(devices@)),
    {
        let ghost dv = devices_view(devices@);
        let mut out: Vec<Device> = Vec::new();
        let mut i: usize = 0;
        while i < devices.len()
            invariant
                i <= devices@.len(),
                dv == devices_view(devices@),
                devices_view(out@) == not_autohidden(dv.take(i as int)),
            decreases devices@.len() - i,
        {
            assert(dv.take(i + 1).drop_last() =~= dv.take(i as int));
            assert(dv.take(i + 1).last() == devices@[i as int]@);
            if !devices[i].autohide {
                let ghost before = out@;
                let d = devices[i].clone();
                let ghost dg = d;
                out.push(d);
                assert(out@ =~= before.push(dg));
                assert(devices_view(out@) =~= devices_view(before).push(dv[i as int]));
            }
            i = i + 1;
        }
        assert(dv.take(devices@.len() as int) =~= dv);
        out
    }
}

/// Only devices not hidden by default go into the cache, and all of them
/// do, in order.
pub proof fn law_cache_holds_exactly_the_shown_devices(s: Seq<DeviceView>)
    ensures
        forall|i: int|
            0 <= i < not_autohidden(s).len() ==> !(#[trigger] not_autohidden(s)[i]).autohide
                && crate::device::listed(s, not_autohidden(s)[i]),
        forall|j: int|
            0 <= j < s.len() && !(#[trigger] s[j]).autohide ==> crate::device::listed(
                not_autohidden(s),
                s[j],
            ),
    decreases s.len(),
{
    if s.len() > 0 {
        let p = s.drop_last();
        law_cache_holds_exactly_the_shown_devices(p);
        let rest = not_autohidden(p);
        let r = not_autohidden(s);
        assert forall|i: int| 0 <= i < r.len() implies !(#[trigger] r[i]).autohide
            && crate::device::listed(s, r[i]) by {
            if i < rest.len() {
                assert(r[i] == rest[i]);
                let w = choose|w: int| 0 <= w < p.len() && p[w] == rest[i];
                assert(s[w] == p[w]);
            } else {
                assert(r[i] == s[s.len() - 1]);
            }
        }
        assert forall|j: int| 0 <= j < s.len() && !(#[trigger] s[j]).autohide implies crate::device::listed(
            r,
            s[j],
        ) by {
            if j < p.len() {
                assert(s[j] == p[j]);
                let w = choose|w: int| 0 <= w < rest.len() && rest[w] == p[j];
                assert(r[w] == rest[w]);
            } else {
                assert(r[r.len() - 1] == s[j]);
            }
        }
    }
}

/// With `HOME` set to a directory `home` (not ending in `/`), the user's
/// files are `home/.config/joytoggle/state.json`, `devices_cache.json`,
/// `hidden.json` and `shown.json`; without `HOME`, they are under
/// `/tmp/.config/joytoggle`.
pub proof fn law_user_files_under_home(home: Seq<char>)
    requires
        home.len() > 0,
        home.last() != '/',
    ensures
        ({
            let dir = joined_path_of(home_or_tmp(Some(home)), ".config/joytoggle"@);
            &&& dir == home + "/.config/joytoggle"@
            &&& joined_path_of(dir, "state.json"@) == home + "/.config/joytoggle/state.json"@
            &&& joined_path_of(dir, "devices_cache.json"@) == home
                + "/.config/joytoggle/devices_cache.json"@
            &&& joined_path_of(dir, "hidden.json"@) == home + "/.config/joytoggle/hidden.json"@
            &&& joined_path_of(dir, "shown.json"@) == home + "/.config/joytoggle/shown.json"@
        }),
        joined_path_of(home_or_tmp(None), ".config/joytoggle"@) == "/tmp/.config/joytoggle"@,
{
    reveal_strlit(".config/joytoggle");
    reveal_strlit("/.config/joytoggle");
    reveal_strlit("state.json");
    reveal_strlit("devices_cache.json");
    reveal_strlit("hidden.json");
    reveal_strlit("shown.json");
    reveal_strlit("/.config/joytoggle/state.json");
    reveal_strlit("/.config/joytoggle/devices_cache.json");
    reveal_strlit("/.config/joytoggle/hidden.json");
    reveal_strlit("/.config/joytoggle/shown.json");
    reveal_strlit("/tmp");
    reveal_strlit("/tmp/.config/joytoggle");
    let dir = joined_path_of(home, ".config/joytoggle"@);
    assert(dir =~= home + "/.config/joytoggle"@);
    assert(dir.last() == 'e');
    assert(joined_path_of(dir, "state.json"@) =~= home + "/.config/joytoggle/state.json"@);
    assert(joined_path_of(dir, "devices_cache.json"@) =~= home
        + "/.config/joytoggle/devices_cache.json"@);
    assert(joined_path_of(dir, "hidden.json"@) =~= home + "/.config/joytoggle/hidden.json"@);
    assert(joined_path_of(dir, "shown.json"@) =~= home + "/.config/joytoggle/shown.json"@);
    assert(joined_path_of("/tmp"@, ".config/joytoggle"@) =~= "/tmp/.config/joytoggle"@);
}

} // verus!
