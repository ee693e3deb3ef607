# PolterType core

The part of a keyboard-layout switcher that decides: what a typed word reads as
in each layout, whether it was typed in the wrong one, what is deleted and
retyped, what the manual hotkey acts on, and what the settings window shows.
All of it is written in Verus; what each function returns and changes is stated
in its contract and proved.

| Module | What is in it |
| --- | --- |
| `text`, `time`, `order`, `assoc` | text, clock, sorting and lookup helpers |
| `keys`, `layouts` | key events, and layouts as tables of keys and characters |
| `engine::heuristics` | chords, taps, separators, eligible layouts |
| `engine::decide` | the filters a completed word passes, and what a verdict leads to |
| `engine::correction` | carrying a correction out, as a machine the host drives |
| `engine::correction_laws` | what holds of every correction |
| `engine::force_switch`, `engine::selection` | the manual hotkey |
| `engine::run_loop`, `engine::hotkeys`, `engine::window`, `engine::echo` | commands, keys, pauses, chords, our own keystrokes coming back |
| `settings`, `detectors`, `logsafe`, `commands`, `input` | settings, word lists, redaction, commands, focus |
| `plugins`, `settings_ui` | plug-in menus and panes, the settings window as lines of translatable texts |

The library does no I/O. Where it needs the desktop it takes what was read as a
plain value, or hands out an action and takes the reply: `CorrectionRun` and
`SelectionRun` are driven that way. `app/` holds the other side: the config
file, the run loop, the tray menu, the window, the plug-ins' files and the
Windows focus queries.

`tests/engine_integration.rs` drives the engine end to end against a virtual
clock, a stand-in word buffer and a stand-in desktop.
