# xplane_plugins

The decision logic of a suite of X-Plane plugins, written in Verus and
proved against its contracts:

- `position`, `pad`, `pad_list`, `layout`, `commands`: the Position Aircraft
  window — its PAD file list (filtered, stably sorted, selection kept across
  refreshes), the drop-down list and its scroll bar, field editing from the
  keyboard, clicks and the wheel, safe PAD file names, the re-application of a
  position over the following frames, and its commands and menu.
- `pad_file`: the text of PAD files — sections and `key = value` lines, read
  in any case, the last value of a key winning.
- `view`: what the window shows — button fills, captions, list rows and
  arrows.
- `pattern`: the traffic-pattern tab — its choices and their stored keys, the
  configuration PAD and runway fallbacks, suggested file names, and the
  settings file, which reads back what it wrote.
- `shuttle`: the Shuttle HUD's display levels and flags, when it draws, cockpit controls,
  commands and lifecycle; `shuttle_files`: its optics and runway list files.
- `poweroff180_attitude`, `poweroff180_controller`, `poweroff180_hud`: the
  power-off 180 plugins' aircraft checks, lifecycles, and the HUD's AIRAC
  cycle and approach plan.
- `xgs`: the landing-speed overlay's settings file, menu and on-screen
  placement; `xgs_files`: its rating scales, aircraft mapping, scenery pack
  list and `apt.dat` airport records (each airport taken from its first
  definition).
- `text`, `lines`, `numbers`, `arith`: strings, lines and fields, decimal
  numbers and integer arithmetic as the standard library handles them.

`app/` holds the file-system edges (directory listings, settings and data
files) that feed the library, and the floating-point parts of reading them;
`tests/` exercises the library on concrete values.
