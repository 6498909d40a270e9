# luowm

A small compositing window manager for the luo_os desktop, written in Verus.

The library (`src/`) holds the window manager's logic with its behaviour proved:

- `types`: points, rectangles and colours, with exact hit tests.
- `input`: the mouse state machine (button state and drag detection).
- `window`: a window's geometry, state, text content and hit regions.
- `taskbar`, `desktop`: the taskbar buttons and clock, the desktop icons.
- `text`: character-level helpers (cutting titles, splitting output into lines).
- `ipc`: the simulated kernel link and its fixed replies.
- `agent`: the commands AI agents send, and the queue that holds them.
- `compositor`: opening, closing, focusing and filling windows, routing pointer
  events and agent commands, and composing a frame.
- `display`, `render`: a frame as a display list of framebuffer calls, and how
  every part of the screen draws itself into it.
- `invariants`: what every operation keeps true (unique window ids, focus only on
  the top window, one highlighted taskbar button per focused window, ...).

`app/` runs the demo session: it drives the compositor with a few input events and
agent commands, renders frames, and prints a summary. It also holds the JSON forms
of the agent protocol types.
