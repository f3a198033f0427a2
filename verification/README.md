# waylandkb

A split on-screen keyboard for Wayland: two layer-shell panels at the bottom
corners of the screen, English and Russian letter pages, a symbol page and a
function-key page. It follows the system layout, shows itself when a text
field gains focus and hides when it loses it, and offers a tray icon and a
control socket.

## Layout

- `src/` is the library, verified with Verus. It holds the keyboard's
  decisions: the layouts (`layout`), the modifier state machine and key press
  tracking (`keyboard`), the key strokes and event sequences sent to the
  compositor (`backend`), the held-modifier bookkeeping and the event records
  of the shortcut device (`uinput`), automatic visibility (`visibility`,
  `input_method`, `accessibility`), the system-layout readers, their small
  JSON reader and the order in which the sources are asked, the first answer
  winning (`system_layout`, `json`), the tray menu (`tray`), the blurred panel
  region (`blur`) and the control commands (`control`).
- `app/` is the program around it: GTK windows and gestures, Wayland, D-Bus,
  the kernel input device, files, environment and child processes. It also
  carries out what the library decides: it asks each layout source in turn
  and hands back the answer, writes each event record to the device and
  updates the held modifiers after each successful write (stopping at the
  first failed write), and sends on a channel what the input-method state
  publishes.
- `tests/` exercises the library.

## Running

Shortcuts and layout switching go through `/dev/uinput`, which the user
needs write access to (for example through a udev rule that gives the
`input` group access, and membership in that group). Without it, keys are
typed through the Wayland virtual keyboard only.

The virtual keyboard announces an evdev XKB keymap, read from `--keymap`;
the tray icon's artwork is a PNG read from `--tray-icon`.

Send `show`, `hide` or `toggle` to the control socket (`--control-socket`,
by default `/tmp/waylandkb.sock`) to change visibility, e.g. from a
compositor key binding.
