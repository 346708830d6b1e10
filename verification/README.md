# breadknife

A headless StatusNotifierItem / DBusMenu tray library and the BreadKnife
Hyprland shell, with their logic verified by Verus.

- `src/` — the verified library.
  - `tray/` — the tray data layer: item and menu models, the reading of
    item properties and menu layouts, the runtime's decision core
    (`runtime::TrayCore`: item table, debounced refetch timers, watcher
    take-over and hand-back, signal routing, interaction plans), the timer
    wheel and event fan-out, the `tray-inspect` output, and the demo item's
    state. `tray::laws` holds properties that span several operations.
  - `shell/` — the shell's logic: Hyprland event lines and the subscriber
    table, the daemon's app/monitor table and control commands, the bar's
    workspace labels, and the shell's own tray host and icon choice.
  - `text.rs` — text helpers shared by both (trimming, splitting, decimal
    rendering and parsing).
  - `demo.rs` — the demo host's button rig and log time stamps.
- `tests/` — tests of the library on concrete values.
- `app/` — the programs around it (bus connections and threads, GTK
  windows, sockets, `hyprctl`); one binary that acts as `bread`,
  `tray-inspect`, `demo-tray`, `demo-item` or `tray-minimal` depending on
  the name it is run under.
