# niri-input-portal

An `org.freedesktop.impl.portal.InputCapture` backend for the niri compositor, so
that KVM software which speaks the input-capture portal can act as a server under
niri. What the backend decides is verified with Verus; the sockets, the bus and
the compositor are driven by ordinary Rust around it.

## Layout

`src/` is the verified library. It performs nothing itself: every handler takes in
one event or call and hands back what to ask of the world, in order.

| Module | What it decides |
|---|---|
| `coord` | positions on the desktop, in steps of the wire's fixed-point numbers |
| `niri` | which zones the compositor's outputs make, and in what order |
| `eis_server` | what an emulated-input connection emits, and when it ends |
| `wayland` | where barriers go (`mod`), how a capture begins, runs and ends (`state`, `capture`, `input`, `surfaces`, `seat`, `commands`), and the selection (`clipboard`) |
| `portal` | sessions, barriers and zone sets (`input_capture`), the clipboard interface (`clipboard`, `tracker`), the control interface (`control`), and what is made of events (`events`) |
| `text`, `counting` | helpers |

What holds over several steps stands as proof functions in `wayland::laws`,
`portal::laws`, `portal::tracker`, and beside the functions they are about.

`app/` is the program: the D-Bus interfaces, the EIS sockets, the Wayland client
and the conversions between their values and the library's. `tests/` runs the
library on concrete values.

## Getting unstuck

An exclusive keyboard grab plus a locked pointer is not a state to be stranded in.

```sh
niri-input-portal --release       # drop the capture, keep the barriers
niri-input-portal --disarm        # drop the capture and clear the screen edges
niri-input-portal --status        # what does it think is going on
niri-input-portal --clip-status   # what is on the clipboard, and whose it is
```

Edges that were disarmed stay clear until a client enables its session again.

A capture is also released when its EIS connection dies, when the compositor drops
the lock, when its output disappears, and by an idle watchdog after 15 seconds
without input. `NIRI_INPUT_PORTAL_IDLE_TIMEOUT` sets the seconds; `0` turns it off.
