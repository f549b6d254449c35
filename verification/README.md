# zenoh_wasm

A browser runtime for Zenoh clients: an executor for compute workers, sleeps that
may move between threads, a pool of workers, tasks that can be cancelled, and
links over WebSockets.

`src/` is the verified library. It holds the state of the runtime and its
decisions. What they do is stated in contracts that Verus proves, and the promises
that span several functions are proof functions beside them.

| module | what it holds |
| --- | --- |
| `wake`, `executor`, `turn` | the queue, the timers and the turns of a worker's executor |
| `wasm_yield`, `time`, `compat` | sleeps, browser timers, instants and deadlines |
| `runtime`, `join` | runtimes, the worker pool and its startup, join handles |
| `task`, `cancel` | task controllers, tasks that can be terminated |
| `timer` | timed events and their fuses |
| `ws_socket`, `ws_link` | the owner of a WebSocket, and the link that reads and writes through it |
| `refill` | what a bounded transmission pipeline owes its publishers |
| `channel`, `receipt`, `text` | channels between threads, and text |

`app/` runs these decisions in a browser: it polls futures, waits on condition
variables, sets timers, starts workers and owns WebSockets. `tests/` runs the
library.

What the library takes from `flume`, `futures` and `tokio-util` is declared in
`receipt` and `cancel`, with what is relied on.
