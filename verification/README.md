# ethercrab mailbox

The EtherCAT mailbox channel (ETG.1000.4) and File over EtherCAT (ETG.1000.6), verified with Verus.

- `src/wire.rs`: reading and writing values in their wire form. The little endian primitives and
  the byte copy come from `ethercrab-wire`; their contracts are trusted.
- `src/mailbox.rs`, `src/raw_mailbox.rs`: the mailbox header, outgoing frames, received messages.
- `src/foe/`: FoE headers and frames, the read and write transfers as state machines without I/O,
  and in `exchange.rs` what a read and a write amount to together.
- `app/`: the wire traits of `ethercrab-wire` on the library's types, and thread parking.

Each transfer has a mathematical state (`ReadState`, `WriteState`) which is its view. Its `after`
and `outcome` say what one reply does; the functions named `law_*` are theorems about them.
