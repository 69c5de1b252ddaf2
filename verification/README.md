# nightbar

A GTK4 status bar for Hyprland (clock, workspaces, Wi-Fi, Bluetooth,
battery and power profiles, volume and brightness), whose decisions are
proved with Verus.

- `src/` is the verified library: text handling for the outputs of
  `wpctl`, `brightnessctl`, `nmcli`, `bluetoothctl`, `powerprofilesctl` and
  the compositor's event socket; the workspace tracker and the batching of
  its reports; the popups' contents; the battery pill and the clock label;
  and the stylesheet, rendered from its template.
- `app/` is the program around it: the GTK widgets, the timers and
  threads, the commands that are run and the files that are read, and the
  volume and brightness sliders, whose levels are floating-point.
- `tests/` runs the library on concrete inputs.
