# Peillute

A distributed payment ledger: every node keeps a copy of the ledger, spreads each
transaction to the others with a wave protocol, orders events with Lamport and vector
clocks, takes global snapshots to check that the copies agree, and can take a global
lock on the whole network.

- `src/` is the library, verified with Verus: clocks, snapshots, the node's state and
  its protocols, command parsing, and the rules of the ledger.
- `app/` is the node program around it: command line, TCP connections, MessagePack and
  JSON encodings, and the SQLite database (amounts of money are floats and stay there).
- `tests/` exercises the library.
