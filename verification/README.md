# homepage

A personal web site that serves several hostnames, with sign-in through OAuth providers, passkeys, and
a page that talks to MCP servers.

- `src/` is the library, verified with Verus. What it decides stands in `requires` and `ensures`; the
  public proof functions state what holds between the functions. The calls into other crates are in
  small functions marked `external_body`, each with a comment that says what is taken on trust.
  - `site/`: hostnames, redirects, static files, pages and certificates.
  - `oauth/`: sign-in with providers, in the version with configured providers and the fixed one.
  - `mcpclient/`: challenges, discovery, registration and the callback of the MCP page.
  - `transport/`: Streamable HTTP and HTTP with server-sent events, and the reading of their streams.
  - `config`, `session`, `error`: the settings, the session and the errors of the MCP client.
  - `webauthn`: registration and sign-in with passkeys.
  - `text`, `json`, `encoding`, `urls`, `time`, `exchange`: what the others are built on.
- `app/` is the program around it: sockets, files, TLS, timers and templates. It sends what the library
  prepares and hands back what came.
- `tests/` runs the library with the real crates.
