# qq_warning

A command-line client for the QQ open platform bot API: it sends, streams and
recalls messages, manages guilds, and keeps a gateway connection that logs,
downloads and notifies incoming messages.

The crate is in two parts.

- `src/` is the library, verified with Verus. It holds what the bot decides
  and builds: the method, path and body of every API call (`api`), the
  message sequence numbers, token cache and rate-limit pause (`session`),
  the chunks of a streamed message and the per-user stream state (`stream`),
  the group/user tell-apart and the send plans of the commands (`routing`),
  keyboards (`keyboard`), the gateway session and the handling of incoming
  messages (`gateway`), file sizes (`utils`) and the configuration with its
  checks (`config`). Each public function states its result in its
  `ensures`; the laws that span several calls are public proof functions
  named `lemma_*`.
- `app/` is the program around it: the command line, the configuration file,
  HTTP and WebSocket traffic, timers, logging, downloads and desktop
  notifications. It carries out what the library decides.

`tests/` runs the library on concrete values.
