# composemux

A terminal viewer for the logs of a compose project. The library, in `src/`, is
written in Verus: what it does is stated in contracts over plain values and
proved. `app/` is ordinary Rust around it: the terminal, the container daemon,
the clock.

| module | what it holds |
| --- | --- |
| `emulator` | the terminal emulator that output is fed to, as far as the library relies on it |
| `store`, `store_laws` | what is kept of one service's output: newline normalisation, retention, replay on resize, release, adoption, scrolling |
| `stores` | the stores of all the services, by key |
| `app_model`, `app`, `app_laws` | the application's state, what each operation does to it, and what holds over several of them |
| `keys`, `focus`, `filter`, `layout`, `config`, `service` | the parts of that state |
| `stream`, `stream_laws` | which containers are read: events, plans, log windows, frames |
| `paint`, `pane`, `status_bar`, `help`, `render` | what is drawn where |
| `text` | searching, splitting and decimal numbers |

A state is a plain value (`LogView`, `AppView`, `SupervisorView`); each operation
is a function from one to the next, and the executable method says that it does
exactly that. Laws are public proof functions over those values.

The calls into other crates (`vt100`, `ratatui`) and the few into `std` that the
verifier has no contract for are small functions marked as trusted, each with
what is relied upon.
