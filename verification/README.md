# incus_executor

An executor that runs servers in Incus instances, over the Incus API on its Unix socket.

The library under `src/` decides: which requests set a server, an installer or a script up, what the
documents in them say, how answers are read, when the next request is due, which instances are found
again and which are removed, how console output is cut into lines and how fast lines are passed on.
Each function states in its contract what it returns, and Verus proves it. The exceptions are the
calls into other crates and the standard library: the private functions that make them, and two
outside functions that are given a contract directly. Verus believes these contracts without proof,
and the comment above each says what it claims of which function. What holds of the
library as a whole is stated in proof functions whose names begin with `law_`.

| module | what it holds |
| --- | --- |
| `client` | requests, responses and errors of the API |
| `requests` | the requests that instances are made, run and removed with |
| `workflow` | work that takes several requests |
| `executor` | setting processes up, finding them, removing them |
| `process` | starting, stopping and changing a process |
| `instance` | the documents from which instances are made |
| `guarantees` | what holds of every instance |
| `lifecycle` | how what is set up is found again, and removed |
| `naming` | the names of instances |
| `console`, `throttle`, `logs`, `stats` | output, its rate limit, the log, resource usage and status |
| `config`, `json`, `text` | settings, JSON values and text |

`app/` performs what the library decides: connections, tasks, files and the floating point of the
processor load. `tests/` runs the library with the real crates.
