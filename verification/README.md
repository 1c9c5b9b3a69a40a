# josephine-core

Joséphine watches a Linux machine quietly — CPU, memory, disk, temperature,
systemd services, updates, network, battery, inodes, SMART, kernel incidents,
clock sync and failed logins — and speaks up, warmly, only when it helps.

This crate is her core, written in Verus: the logic in `src/` is proved
against contracts that state what it computes, and its few calls into std and
outside crates stand behind small trusted wrappers whose contracts say what
those calls are documented to do.

- `src/` — the library. The parsers of what the machine reports (`df`,
  `/proc/net/route`, `journalctl`, `smartctl`, `systemctl`, package managers),
  the reports each check makes, the rules engine that turns severities into
  alert states and decides what deserves a notification, the messages and
  phrasings in English and French, the configuration and its validation, the
  profiles, the Prometheus textfile, and the self-update decisions.
  `src/tone.rs` proves what she never says: no alert or recovery of a
  built-in check, no update message around a calm version number and no
  phrasing of her voice holds `ERROR`, `FATAL`, `PANIC`, `CRASH` or `ÉCHEC`,
  in any case, and every alert points to `josephine doctor`.
  Measured quantities are exact thousandths of their unit (`Milli`), and
  their rendering follows Rust's `{:.N}` and `{}` on the exact value.
- `tests/` — the tests, run against the compiled library.
- `app/` — the program around it: the command line, reading the machine
  (files, commands, `sysinfo`), the SQLite history, desktop notifications and
  the background daemon.
