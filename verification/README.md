# rusty_group_chat

A group chat: a websocket server that admits users under unique names and
relays their messages as JSON, and a command-line client that joins it.

- `src/` is the verified library: the name registry (`user_repo`), chat
  messages and their JSON text (`chat`, `system_chat_message`), the server's
  per-session decisions (`web::handlers::group_chat_handler`), the client's
  address normalisation, line input and display rules (`cli`), and the text
  operations they rest on (`text`).
- `app/` runs the programs (`server` as first argument starts the server;
  otherwise the client) and does the terminal, network and serde work.
- `tests/` exercises the library on concrete values.
