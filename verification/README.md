# win-ioring

The logic of an asynchronous I/O ring driver for Windows, verified with
[Verus](https://github.com/verus-lang/verus).

The kernel holds a pointer into a caller's buffer until an operation completes, and
a future can be dropped at any time. What has to hold for that to be safe is what
this library states and proves: a buffer comes back once, and no earlier than the
operation's own completion; a token that outlived its operation never reaches
another; no wakeup is lost; a shutdown ends with nothing left behind.

## Layout

`src/` is the library. It reaches no ring: each event
is a method that takes what the platform answered and returns what to do next.

| Module | What it holds |
|---|---|
| `token`, `slab` | user-data tokens, and the slots operations live in |
| `driver`, `handle`, `sequential`, `pass`, `teardown` | the driver's state and every event that moves it |
| `buf`, `registry` | registered buffers and the handles checked out of them |
| `future`, `park`, `event` | what a poll, a signal and a drop do |
| `rt`, `oneshot`, `join` | a small single-threaded executor |
| `io_ring` | ring settings, entries and completions |
| `error` | errors, and their texts |
| `*_laws` | what holds across several events, as proof functions |

`tests/` runs the library, the driver against a stand-in for the platform.

`app/` is ordinary Rust around the library: buffers and their addresses, futures,
the executor's thread, and the platform's own calls. The modules that call the
platform are compiled on Windows only.
