# fresh_driver

The verified core of Fresh Driver, a Windows desktop application that scans
installed device drivers, finds newer ones (Windows Update, the Microsoft
Update Catalog, vendor checks) and installs them elevated, one UAC prompt per
operation, with a System Restore point first.

The library is written in Verus; every function in `src/` carries a contract
that Verus proves.

- `src/text.rs` — character-level text: trimming, searching, replacing,
  hexadecimal numbers, code-point order.
- `src/hwids.rs` — the pci.ids database: parsing, and resolving a hardware id
  to vendor and device names.
- `src/drivers.rs` — enriching installed drivers with those names and listing
  them by class, then name.
- `src/history.rs` — the install history (newest first, at most fifty,
  package names unique to one entry) and the clock.
- `src/ps.rs` — PowerShell: script files, quoting, elevation launchers, the
  outcome of an elevated run, and the framing of `ConvertTo-Json` output.
- `src/catalog.rs`, `src/wupdate.rs`, `src/safety.rs` — ids and package
  names, command lines, scripts, worker steps and outcomes of installs,
  rollbacks and restore points.
- `src/lib.rs` — the entry points of the elevated helper instance.

`app/` is the application around it: running PowerShell, files, the Tauri
command surface and JSON (de)serialisation. It reads the catalog and OEM
scripts and `pci.ids` from `scripts/` and `data/` beside the executable.
