# joytoggle-core

Enables and disables joysticks, throttles, pedals and other USB HID input
devices by binding them to, and unbinding them from, their driver in sysfs.

`src/` is the verified library (Verus):

- `device` — device kinds, USB interface identifiers (`InterfaceId::is_valid`
  against the `<bus>-<port>:<config>.<interface>` grammar), devices, the
  per-device saved state, and keeping the first device of each key;
- `scanner` — the naming rules (kind, hidden by default, ignored), the search
  for the USB interface in a sysfs path, and the scan of `/sys/class/input`
  from what was read there;
- `daemon` — refusing invalid requests, and the device list the daemon
  reports: live devices merged with the cache and the saved state;
- `state`, `toggler` — where state, cache and lists are kept, and which sysfs
  file toggling writes;
- `view` — the window's device list: visible, hidden and active devices, and
  how refreshes and clicks change it;
- `traits` — the scan, toggle and store services, with in-memory versions;
- `text`, `path`, `id_set` — text helpers, `std::path` calls, a set of texts.

`app/` is the program around it: the D-Bus daemon (`joytoggle daemon`), the
file and sysfs I/O, the JSON copies of the types, and the gpui window.
