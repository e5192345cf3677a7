# yaxum

A tiling window manager for X11. All of its decisions are verified: where windows
go, which of them are shown, how the focus and the borders move, what a request
changes, and how a drag with the mouse is followed.

- `src/` is the library. It takes events, requests and replies as plain values and
  answers with the actions to perform, in their order, and with what comes after
  them if none of them fails. `manager` holds the window
  manager, `monitor` and `workspace` its state, `area`, `reshape` and `grab` the
  arithmetic on rectangles, `setup` what happens before the first event. `laws`
  states what holds of the manager as a whole.
- `tests/` runs the library on concrete values.
- `app/` connects the library to a display server.

Where an input would lead out of the range of coordinates, or to a workspace that
is not there, the library asks its caller to find out first: each handler has a
function beside it (`takes_event` beside `handle_event`, and so on) that tells.
