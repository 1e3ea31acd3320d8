# clickless

Keyboard-driven pointer control: hold an activation key to move, click,
scroll and drag, or pick a target through a two-letter grid with a nested
3×10 subgrid.

`src/` is the library, verified with Verus:

- `keys`, `machine`, `grid`: layers, leader timing, motion ramp, grid
  navigation and the overlay frames it produces.
- `hook`, `linux`, `macos`, `windows`, `keycode`: the per-platform hook
  decisions (key code translation, what each key does, overlay queueing,
  pause and Settings-focus suspension, capture release).
- `overlay`: the pixel rasterizer shared by every overlay window.
- `config`, `configfile`, `tomltext`, `roundtrip`, `numtext`: configuration
  values, validation, reading the TOML tables, writing TOML text, and the
  proof that writing then reading gives the configuration back.
- `settings_editor`, `settings_model`, `settings_help`, `settings_window`,
  `winui_host`, `placement`, `practice`, `tray`, `gui_error`: the Settings
  editor's draft/apply state, its pages, help, tables and scrolling, window
  placement, the first-run practice flow, tray commands and the bounded log.
- `cli`, `startup`: command-line arguments and the boot configuration.

`app/` is the program around it: argument and file I/O, the TOML reader, and
the Linux runtime (evdev input, enigo output, X11 overlay window).
