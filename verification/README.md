# websocket

The server's side of a WebSocket, verified with Verus. The library does no I/O:
it is handed the headers of a request and the bytes that were read from a socket,
and gives back the response, the messages and the bytes to be written.

- `src/handshake.rs`: which requests ask for a WebSocket, and the response to one
- `src/receiver.rs`: reception of a client's frame, one read at a time
- `src/reception.rs`: laws on the reception of whole frames
- `src/sender.rs`: the bytes of a frame that the server sends
- `src/connection.rs`: `Websocket`, which puts reception and sending together
- `src/frame.rs`, `src/mask.rs`, `src/bigendian.rs`: frames, masking, numbers
- `src/http.rs`, `src/text.rs`, `src/number.rs`, `src/error.rs`: headers, text
  operations, decimal numbers, errors
- `src/digest.rs`: SHA-1 and Base64
- `app/`: the same on a blocking stream

Taken on trust are SHA-1 (`sha1`), Base64 (`base64`), the ASCII test of `ascii`, and
from the standard library the UTF-8 decoder and the parser of 16-bit integers. What
is assumed of each stands at its declaration.
