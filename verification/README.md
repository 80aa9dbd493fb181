# tui_chat

A terminal chat over TCP: a server that logs clients in against a SQLite
user store and relays their lines to everyone, and a client with a
text interface.

- `src/` is the verified library:
  - `text` — Unicode whitespace, trimming, joining lines;
  - `protocol` — the login reply codes and how the client reads them;
  - `login` — the server's login handshake as a state machine, with the
    law that a client is admitted only right after the store answered a
    password check for that username with a match, or stored it as new;
  - `room` — the server's chat history and each session's steps, and the
    client's relay of server lines;
  - `view` — the client's input line, cursor, received lines and scroll;
  - `screen` — the split of the terminal into panes.
- `app/` runs the I/O: sockets, the database, the terminal, the clock.
  `tui_chat server` starts the server, `tui_chat client` the client.
- `tests/` exercises the library on concrete values.
