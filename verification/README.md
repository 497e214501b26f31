# rshare_net

The networking layer of R-ShareMouse, which lets a mouse, a keyboard and files move between
the computers of a local network.

`src/` is a library verified with Verus. It holds the decisions and no socket: what goes on
the wire, who is trusted, which input is delivered, which connection speaks for a device,
which file piece is taken. Each function states in its contract what it returns and what it
changes; what holds of many calls together is stated in public proof functions next to them.

| module | what it decides |
| --- | --- |
| `codec`, `reliable_wire`, `wire`, `buffer` | the wire formats and the stream decoder |
| `qos`, `sender`, `registry` | the lanes, what a sender admits, who is registered |
| `inbound`, `lanes`, `bootstrap` | what is read from a peer, and how a breach ends |
| `handshake`, `encryption`, `ids` | greetings, certificates, identifiers |
| `transport`, `connection`, `network_manager` | pooled connections and their generations |
| `discovery` | announcements, and the devices that are found by them |
| `media_transport` | who may attach an audio path |
| `file_transfer`, `file_jobs`, `file_sources` | transfers, from the dropped files to the copies |

`app/` is ordinary Rust around the library: QUIC, UDP, files, clocks and tasks. It carries out
what the library decides and hands the outcome back. One rule is its own: how fast audio may
come in, which is reckoned in floating point.

`tests/` runs the library with the real crates behind it.

What the library believes without proof are the functions of `bytes`, `bincode`, `sha2`,
`rcgen` and `uuid` that it calls. Each stands behind a small function whose comment says what
is claimed of it.
