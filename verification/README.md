# yamux

Yamux stream multiplexing over one secured connection. The library is written
in Verus: its functions carry contracts, and the contracts are proved. Of the
random session ID alone nothing is promised.

- `src/header.rs`, `src/frame.rs`: frame headers, their wire format, and frames
- `src/io.rs`: reading frames from a transport that delivers chunks
- `src/writer.rs`: the sending half of a session
- `src/reader.rs`: the receiving half of a session; `src/model.rs` says what it
  does with each frame and request
- `src/stream.rs`, `src/session.rs`, `src/config.rs`: the types of a session
- `src/client.rs`, `src/text.rs`, `src/bytes.rs`: users of a session, text, and
  integers on the wire
- `src/channel.rs`: what the library takes from outside crates, and what it
  relies on there
- `src/format.rs`: what it takes from `std::fmt`
- `src/laws.rs`: laws that relate several functions

The library decides and computes. It does no input or output: `app/` runs it
on a transport, puts what the library returns into channels, and sends what it
returns as messages.
