# karu

The logic of the Karu desktop chat client, verified with Verus.

- `src/base64.rs`: base64 encoding and decoding, with the round-trip law.
- `src/dados.rs`: image MIME types, avatar file candidates, image data URLs.
- `src/chat.rs`: reading history lines and grouping them for display.
- `src/markdown.rs`: the small markdown dialect messages are shown in.
- `src/estado.rs`: the client's state machine (one step per event, returning
  the work to do: messages to send, a file to read, avatars to render).
- `src/conexao.rs`: what the connection loop does with each WebSocket frame.
- `src/protocolo.rs`, `src/pfps.rs`, `src/texto.rs`: protocol types, the avatar
  registry and text helpers.
- `src/leis.rs`: laws that span several functions.
- `app/`: the iced window, the WebSocket connection, file reads, image
  resizing and the JSON wire format.
