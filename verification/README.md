# s5_rust

A node of the S5 storage network, written in Verus.

- `src/` is the verified library: the configuration types, the protocol
  constants, node identifiers (`z` + base58), the MessagePack encodings of the
  peer protocol, the handshake and signed-message handling, the typed values
  kept in the embedded sled database, and the decisions of a connection
  attempt. Calls into outside crates (sha2, ed25519-dalek, bs58, base58, rmp,
  rmpv, bincode, sled, url, state) sit behind small trusted items whose
  contracts say what those crates do.
- `app/` is the program around it: reading the configuration file, the TCP
  connections, the async tasks and the random challenge and seed.
- `tests/` runs the library against the real outside crates.
