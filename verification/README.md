# swww-daemon

A wallpaper daemon for Wayland compositors, whose decisions are verified with Verus.

`src/` is the library. It holds the state of the daemon and decides everything: which pixel format
to draw in, which wallpaper an event of the compositor is about, which animations a request stops
and starts and what it is answered, which frames are drawn in a pass and how long the next poll may
wait, whether the socket may be claimed, and what the main loop does next. It does no input or
output. Where a decision needs something from outside, a function returns what is to be done, and
another one takes what came of it.

| module | about |
| --- | --- |
| `objects` | the Wayland objects, kept in the registry of the `waybackend` crate |
| `setup` | the globals that are bound at the start |
| `format` | the choice of the pixel format |
| `wallpaper`, `animator` | what is known of a wallpaper, and what animates it |
| `daemon` | the state of the daemon, and the operations that events share |
| `events` | the events of the compositor |
| `request` | the requests of clients |
| `draw`, `draw_laws` | a pass over the animators |
| `event_loop`, `exit` | the main loop, and the request to leave it |
| `socket` | claiming the socket |
| `time` | frame delays and poll timeouts |
| `logger` | what is logged, and how a line looks |
| `laws` | what holds across the operations |

Five small functions in `objects` call the registry of `waybackend`; what their contracts say of it
is trusted. Everything else is proved.

Functions whose names begin with `law_` state what holds of the library as a whole.

`tests/` runs the library on concrete values. `app/` is the program around it: the command line,
the connection to the compositor, the control socket, signals, the clock and the pixels.
