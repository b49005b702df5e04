# bored-node

A LAN peer-to-peer clipboard: text pasted on one device arrives in a bounded
local queue on every other device running the node, where it can be dismissed
or starred (kept in a small on-disk store).

Layout:

- `src/` — the verified library.
  - `queue.rs`: the bounded first-in first-out queue of received items.
  - `node.rs`: the node's decisions as a state machine: each command or
    network event, applied to the node state, gives the next state and the
    actions to carry out (events to report, requests, answers, store work).
  - `starred.rs`: what the starred store keeps, under which key, and its limit.
  - `protocol.rs`: commands, events and the request/response messages.
  - `cli.rs`: reading a command line; `text.rs`: decimal text and previews.
  - `peer_id.rs`, `clock.rs`: the calls into libp2p and the system clock.
- `app/` — the program around it: the libp2p swarm and event loop, the SQLite
  store, the async node handle and the command-line interface.
- `tests/` — tests of the library.
