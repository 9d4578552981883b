# ndn_mobile

The decisions of an embedded NDN forwarder for phones and its bindings, written
in Verus: every function of `src/` is verified against its contract.

- `src/mobile/` is the engine: what a configuration builds, how peers are kept
  connected, the IP tunnel, the relay of streamed objects, and enrolment.
- `src/bridge/` is what the host language sees: fragmentation and nonces, the
  table of nearby peers, the offer board, identities, signing on request,
  recovery, and the operator console.
- `src/name.rs`, `src/tlv.rs`, `src/text.rs` and `src/json.rs` are what these
  share; `src/peer.rs` is the command line of the desktop peer.
- `app/` performs what the library decides: sockets, radios, key stores and
  timers. A loop there hands the library an event and does what it answers.
- `tests/` runs the library on concrete values.

Where the library depends on something it cannot compute, such as whether a text
is an NDN name or what came of a signature, that outcome is an argument.
