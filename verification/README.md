# wsframe

Reading and writing of WebSocket frames, verified with Verus.

- `src/` is the library. It does no I/O: where a frame socket needs some, it
  returns an action, and takes the outcome back as an event.
  - `buffer`: the FIFO buffer for input and the list of chunks for output.
  - `protocol::frame`: frames on the wire, the codec, and the frame socket;
    `laws` states what holds of reading and writing as a whole.
  - `bindings`: what is taken on trust from `std` and from the `bytes` crate.
- `app/` runs the sockets on streams that are `Read` and `Write`, and gives the
  buffers their `bytes::Buf`.
- `tests/` runs the library.
