# HDR Netflix

A Windows tray tool that switches display HDR on while Netflix is open and
off again once it closes. This crate holds its logic as a library verified
with Verus, and a thin program around it.

## Layout

- `src/` — the verified library (`hdr_netflix`):
  - `text.rs`: character helpers (ASCII case folding, substring tests,
    decimal rendering, trimming, UTF-16 encoding and decoding);
  - `config.rs`: the settings and the rule that keeps the watched process
    names sane;
  - `netflix.rs`: deciding from the process list and window titles whether
    Netflix is running;
  - `hdr.rs`: display targets, their reboot-stable keys, the selection, and
    the decoding of HDR state;
  - `switch.rs`: the procedures that switch HDR and read HDR state, as
    machines that name each system request and take its outcome;
  - `state.rs`: the shared state and the watcher's decisions;
  - `selection.rs`: editing the saved display selection;
  - `startup.rs`: start-with-Windows registration;
  - `tray.rs`: the tray window's messages and the menu's contents;
  - `icon.rs`: the icon's pixels;
  - `cli.rs`: the command line.
- `app/` — the program: Win32 calls, the settings file (serde, toml), the
  watcher thread and the message loop.
- `tests/` — tests of the library on concrete values.

Display keys are the FNV-1a hash, in 16 hexadecimal digits, of the
monitor's device path, or, when that cannot be read, of its friendly name and
target id (or the target id alone). They never use the adapter's id, which
Windows assigns anew at every boot, so a saved selection survives reboots. Displays are listed once per adapter
and target id; in the fallback two displays can share a key, and both are
still listed.
