# tuned-rs

A TuneD-compatible system tuning daemon, with a power-profiles-daemon front end, whose
decision logic is a library verified with Verus.

## Layout

- `src/` — the verified library (`tuned_rs`):
  - `profile`, `ini`: TuneD profiles (`tuned.conf`) and the profile catalog; INI text is
    parsed by `configparser`.
  - `tuning`: the plugins (`cpu`, `sysctl`, `vm`, `disk`, `acpi`), the relative assignment
    operators and `|` fallback choices (`modifiers`), and the sysfs allowlist (`sysfs`).
    Each plugin decides what to write and records the value it replaces.
  - `rollback`: the original values of changed tunables and how each is restored.
  - `daemon`: the TuneD daemon's state (active profile, running, manual/auto mode) and the
    steps of start, stop, switch, reapply and disable.
  - `ppd`: the PPD configuration (`ppd.conf`) and the PPD daemon's state: holds, base
    profile, power source, performance degradation, TuneD signals.
  - `polkit`, `ipc`: authorization decisions and the fixed answers of the D-Bus methods.
  - `text`, `number`, `strmap`: string, number and small map helpers with their
    specifications.
- `app/` — the programs around the library: D-Bus services (`zbus`), udev monitoring,
  file and sysfs I/O, the rollback file (JSON), and the async runtime.
- `tests/` — tests of the library on concrete values.

## Configuration

- `TUNED_RS_PROFILE_DIRS` — comma- or semicolon-separated profile search path
- `TUNED_RS_ROOT` — prefix for configuration and state paths (testing)
- `/etc/tuned/tuned-main.conf` — `rollback = auto|not_on_exit`
- `/etc/tuned/ppd.conf` — PPD profile mapping, `battery_detection`, `sysfs_acpi_monitor`

The PPD daemon runs when the program is started as `tuned-rs-ppd` or with the argument
`ppd`.
