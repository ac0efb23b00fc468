# zigbee_stack

Parts of a Zigbee PRO protocol stack, written in Verus and proved against
their contracts.

## Layout

- `src/types.rs` — addresses, identifiers and little-endian helpers.
- `src/hvec.rs` — the `heapless::Vec` capacities used by the stack, with
  trusted wrappers that state what each method does to the items held.
- `src/mac/` — IEEE 802.15.4 frame builders and parsers, PIB values, and the
  state and decisions of the CC2340 and ESP32 radio drivers.
- `src/nwk/` — the NWK information base.
- `src/aps/` — APS frame header codec and the APS layer's counter.
- `src/zcl/` — ZCL frame codec and the Discover Attributes / Commands
  foundation commands.
- `src/runtime/` — log-structured non-volatile storage over raw flash, a
  RAM-backed flash for hosts, the device builder and device templates.
- `src/bdb/` — BDB status codes, attributes and the Finding & Binding
  decisions (what to send, which bindings to create, what each answer leads to).
- `app/` — ordinary Rust around the library: FFI to TI's radio library and the
  interrupt callbacks, the `esp-radio` driver, and the asynchronous Finding &
  Binding exchanges with other devices.

## What is proved

Every public function states its result exactly in its `ensures`. Beyond
that, the library proves, among others:

- frame codecs read back what they write (APS header, ZCL frame, MAC
  requests);
- the storage gives back the data last written for an item, finds nothing
  after a deletion, leaves other items untouched, and keeps every item's
  latest data through compaction; reopening its flash after a power cycle
  reads the same records;
- Finding & Binding binds exactly the matching clusters of two endpoints.
