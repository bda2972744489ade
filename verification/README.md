# rexmq

The verified core of RexMq, a topic-based message broker, and of its
command-line tool.

- `src/protocol`: commands and return codes, the packed `RexData` packet
  (head, title, payload), the framed message codec with its CRC, and the
  length-prefixed frame reader.
- `src/client`: what a connected client knows (its subscribed titles) and
  the rules every client transport shares: what a received packet means,
  acknowledgements, heartbeats, reconnection back-off.
- `src/cluster`: the consistent hash ring, the global route table, failure
  detection, message forwarding between nodes, gossip target selection,
  membership, and the frames nodes exchange.
- `src/config`: the configuration schema with its defaults, the validation
  rules, and the layers that override the defaults (TOML file, `REX__`
  environment variables, command-line flags).
- `src/net`, `src/text`: socket addresses and the text conversions the rest
  needs, written as `std` writes them.
- `src/bridge`: the outside crates the library calls (`bytes`, `dashmap`,
  `crc32fast`, `rkyv`, `ahash`, `rand`, `fastrand`, `uuid`, `toml`), each call
  behind a function whose contract states what the crate's source shows.
- `app`: the `rex-cli` program: argument parsing, files and environment,
  sockets, timers and tasks. It hands plain values to the library and acts on
  what the library decides.
- `tests`: tests of the library from outside.
