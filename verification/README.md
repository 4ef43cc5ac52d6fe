# conduit

A reverse proxy whose rules are proved with [Verus](https://github.com/verus-lang/verus).

The library under `src/` decides; the program under `app/` does. Everything that
can be said of plain values stands in the library with a contract: what a
configuration has to satisfy, which route takes a request, which backend is
next, when a circuit breaker trips, when a request is sent again, which
certificate a client gets, what a failed request is answered, what is counted,
and when a server has drained. The program reads files, speaks TLS and HTTP,
runs the threads, and asks the library at every turn.

## Layout

| Module | What it holds |
| --- | --- |
| `config` | the configuration, its defaults, and the rules that it is held against |
| `lifecycle` | routes, upstreams by name, and how a request is served |
| `upstream` | backends, breakers, retries, health checks, read timeouts, TLS to backends |
| `transport` | certificates of the listeners, by the name that a client asks for |
| `ingress` | which protocol a connection speaks, and the HTTP/3 exchange |
| `io` | binding, accepting, draining, and the report of a server |
| `control` | counters with their Prometheus text, and the admin endpoint |
| `server` | starting up, reloading, probing, and the answers to failed requests |
| `proto` | cancellation, request heads, bodies held in memory |
| `text`, `time`, `pem` | characters and numbers, spans of time, certificates and keys |

Laws that span several functions are public proof functions beside the functions
that they speak of.

What is taken on trust is little, and each such item says in its doc comment what
it claims: the clock, `Arc::clone` and `String::push` of the standard library, PEM
decoding (`rustls-pki-types`), trust anchors and keys (`rustls`), and the parsing
of URIs and the text of status codes (`http`).

## Configuration

`conduit --config conduit.toml` serves; `--check` only checks the file. The exit
code is 0 after a clean shutdown, 1 where the server could not start or cut
connections off, 2 where the configuration is at fault, and 78 where it leaves
nothing to serve. SIGHUP reads the file anew, and a file that is at fault changes
nothing. SIGTERM and SIGINT drain.
