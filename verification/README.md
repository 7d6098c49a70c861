# etherage

An EtherCAT master library whose protocol logic is verified with Verus.

## Layout

- `src/` is the verified library. Its functions that compute carry `requires`/`ensures` contracts that Verus
  proves, and the laws of the library (encodings that decode back, fields that read back what was written, frames
  that read back what was stacked, mapping insertions that keep the logical memory contiguous, reserved groups
  that never overlap, ...) are public proof functions named `law_*`.
  - `data`: the `PduData` trait packing values into bytes and bits, `Field` and `BitField` locating them
  - `numbers`: little and big endian integers
  - `registers`: the standard registers of a slave's physical memory
  - `rawmaster`: PDU headers, the stacking of PDUs in frames, the parsing of received frames, the PDU tokens
  - `ethernet`: ethernet framing of EtherCAT frames
  - `mailbox`: mailbox headers and the mailbox exchange rules
  - `can`: CoE (CANopen over EtherCAT) SDO requests and responses
  - `sdo`: addresses and contents of the standard SDOs
  - `sii`: the slave information interface (EEPROM) registers, categories and access rules
  - `mapping`: allocation of the logical memory, mapping of slaves' memory through FMMUs and sync channels, and
    the exchanges configuring a slave for a mapping
  - `slave`: the state machine of a slave
  - `clock`, `synchro`: the distributed clock topology and delays, the initialization of the clock from the times
    the slaves latched, the offset and drift settings, the synchronization requests; the timed exchange loop
    itself is not part of the library
  - `error`: the error type of the library
- `app/` is the asynchronous master around the library: sockets, the tasks sending and receiving frames, and the
  exchanges that the library decides (the clock initialization among them), and the groups of slaves sharing the
  logical memory. The timed synchronization loop of the distributed clock is not written.
- `tests/` runs the library on concrete values.
