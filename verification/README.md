# chaser_cf

The decisions of a browser-driven Cloudflare challenge client, verified with
Verus. The library never touches a browser: each operation and each wait is a
state machine. `pending` says what to ask for, `step` takes the reply, and
`result` (or the last action) gives the outcome.

| Module | What it holds |
|--------|---------------|
| `dom` | the pierced document tree and the search for the widget in it |
| `click` | one attempt to click the widget |
| `clearance` | the wait for the clearance cookie |
| `token` | the wait for a token |
| `intercept` | the routing of requests whose document is replaced |
| `solver`, `solver_laws` | the four operations, and what holds of all their runs |
| `models`, `error`, `time`, `text` | values, errors, lengths of time, strings |

`app/` carries the operations out with `chaser-oxide` and `tokio`. Whoever owns
the browser implements its `BrowserManager`. Pointer geometry is floating-point
and stands there too.
