# tmux-otg

Watch your tmux sessions live from a browser: strictly read-only, over
Server-Sent Events, and only sessions named `public-insecure-*`.

- `src/` is the library, written in [Verus](https://github.com/verus-lang/verus):
  the name allowlist, the arguments given to tmux and the meaning of its answers,
  the registry of per-session capturers, the HTML pages, and the reply of every
  endpoint. Each function carries a contract, and the properties of the server as
  a whole (which names can show up, what a stream sends, that a session never has
  two capturers) are proved as lemmas beside them.
- `app/` is the server around it: command line, processes, tasks and HTTP.
- `tests/` exercises the compiled library.
