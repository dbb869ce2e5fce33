# chat_server

The verified core of a small chat server: it serves files from `html/` over
HTTP and runs a WebSocket chat room on the same port.

- `src/frame.rs`: WebSocket frames, built and read back.
- `src/socket.rs`: the opening handshake, chat messages, who is shown what,
  and what a connection does with each frame.
- `src/http.rs`: request routing and response bytes.
- `src/headers.rs`: header fields and header-line parsing.
- `src/text.rs`, `src/bytes.rs`: string and byte helpers.
- `app/main.rs`: the program, which does the network and file I/O.
