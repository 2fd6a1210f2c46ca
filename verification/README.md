# gritty

Persistent terminal sessions over Unix sockets. The shell keeps running when a client
disconnects, and a client that lost its connection reconnects and goes on.

The crate is a verified library with a program around it.

- `src/` is the library, verified by Verus. It works on plain values: frames and bytes,
  the daemon's table of sessions, what a session or a client does on an event, the SSH
  commands, and the rules about directories and sockets. Each function states what it
  computes; functions named `law_*` state what the parts promise together.
- `app/` is the program: command line, sockets, terminals, processes and timers. It asks
  the library what to do and does it.
- `tests/` runs the library.

Modules of the library:

| Module | What it holds |
|--------|---------------|
| `protocol`, `roundtrip` | frames, the codec, and the promise that frames survive the wire |
| `daemon`, `daemon_laws` | the table of sessions, the control requests, and what they promise |
| `server` | one session: starting the shell, relaying, handing over |
| `client` | keyboard, escape sequences, heartbeat, reconnecting |
| `connect`, `tunnel`, `negotiation` | destinations, SSH commands, the tunnel, finding or making a session |
| `security`, `paths` | directories, sockets, peers, window sizes; paths as bytes |
| `cli` | what the daemon's replies come to, and how sessions are listed |
| `end_to_end` | what client, daemon and session promise together |
| `text`, `rows`, `buffer`, `errors` | characters, lines and fields, byte buffers, kinds of failure |

What is taken on trust is marked `Trusted:` in `buffer`: the behaviour of the `bytes`
crate and of UTF-8 decoding in the standard library.
