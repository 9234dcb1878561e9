# hatch-chat

Peer-to-peer chat over iroh: two nodes that share only a passphrase find each other via the
BitTorrent Mainline DHT. A terminal interface and a desktop window share one networking core.

- `src/` is the library: the chat node, both front-ends' state, peer discovery, addresses and the
  peer cache, written in Verus. Contracts state what its functions return, and the laws of the library
  (what events keep, what a save gives back, what pruning removes) are public proof functions.
- `app/` is the program around it: arguments, threads, the gossip connection, the database file,
  drawing.
- `tests/` runs the library on concrete values.

What the library takes from elsewhere on trust is marked `external_body` or
`assume_specification`: the reading of multiaddresses by libp2p (`src/address.rs`), the operations
on a redb table (`src/peer_table.rs`), the clock (`src/peer_cache.rs`) and two string operations
of the standard library (`src/text.rs`).
