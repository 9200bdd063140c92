# edgee

An edge proxy that forwards requests to configured backends, injects the Edgee
SDK into HTML pages, collects analytics events, and a small client for the
Edgee AI gateway. The logic is written in Verus and proved against its
contracts; the program around it is ordinary Rust.

## Layout

- `src/`: the verified library.
  - `text`, `numbers`, `headers`: strings, decimal numbers and HTTP headers,
    each with a mathematical model.
  - `path`: the obfuscated event paths (`generate`, `validate`).
  - `crypto`, `cookie`: the encrypted visitor cookie.
  - `html`, `collect`, `payload`, `compute`: reading pages and building the
    data-collection payload.
  - `proxy`, `routing`, `request`, `providers`, `config`: what the proxy does
    with each request and where it sends it.
  - `models`, `client`: the gateway client's types, its tool loop and its
    stream decoder.
- `tests/`: tests of the library, run against the real outside crates.
- `app/`: the binary: command line, configuration files, logging, the HTTP
  server and the gateway's network calls.

Calls into outside crates go through small trusted functions whose contracts
are stated in `src/` next to them.
