# trickshot

Screenshots as an API: `GET /shot?url=…` renders a page and answers with the
image. The library holds what the server, its engines and its command-line client
decide, as executable Rust whose behaviour is stated in contracts and proved by
Verus. The program around it does the I/O.

## Layout

| Where | What |
|-------|------|
| `src/keys.rs`, `src/key_laws.rs`, `src/key_cli.rs` | API keys: the store, what holds of it, and its command line |
| `src/handlers.rs`, `src/config.rs`, `src/reload.rs` | requests, configuration, reloading of the keys |
| `src/ssrf.rs`, `src/target.rs`, `src/net.rs` | targets: which may be rendered, URLs, addresses |
| `src/tunnel.rs`, `src/socks.rs`, `src/frame.rs`, `src/streams.rs` | reverse tunnels |
| `src/chrome.rs`, `src/engine.rs`, `src/renderer.rs` | the engines that render |
| `src/client.rs`, `src/client/` | the client |
| `src/json.rs`, `src/crypto.rs`, `src/text.rs`, `src/error.rs` | documents, digests and chance, text, errors |
| `app/` | the program: HTTP, files, processes, the browser |
| `tests/` | tests of the library |

What waits for something outside (a browser, a process, a WebSocket) is a step
machine: a state says what to do next, and takes what came of it. Public proof
functions named `law_…` state what holds of several operations together.

Calls into other crates stand behind small functions marked
`#[verifier::external_body]`; the comment above each names the function that is
called and says what is believed of it.
