# nitro_hal

Hardware abstraction layer and tools for Acer Nitro laptops on Linux: CPU
performance profiles (intel_pstate/cpufreq and the ACPI platform profile), fan
and keyboard-RGB control through the linuwu-sense WMI interface, a battery
charge limit, a hotkey-driven daemon, a discovery report and a small GUI.

## Layout

- `src/` — the library, verified with Verus. It never touches the filesystem:
  every function reads a `sysfs::SysFs` snapshot of the files it needs and
  returns what it found, or a `plan::Plan` of the attribute writes a request
  makes. Contracts state results over spec functions; the `lemma_*` proof
  functions state the laws that span several functions (a saved colour parses
  back to itself, `restore` undoes `apply`, a charge limit that was set reads
  back, the thermal guard always wins, a hotkey press pins its profile, ...).
  Laws about the machine after a plan speak of `plan::applied`: the snapshot
  once every write of the plan was stored.
  - `daemon` holds the daemon's decisions as a step function from what the loop
    remembers and what it read to the actions of one iteration (`decide`,
    `settle`).
  - `cli` and `panel` hold the decisions of the command line and of the GUI.
  - `render` produces the discovery and telemetry reports as text.
- `app/` — the programs around it: `nitro` (CLI), `nitrod` (daemon),
  `nitro-discover` and `nitro-gui`, chosen by the name the binary is run
  under. This is where files are read and written, commands are spawned,
  floating-point figures are formatted and the egui window is drawn.
- `tests/` — tests of the library on concrete values.
