# correspondchess

The verified core of an anonymous correspondence chess server.

- `src/chess.rs` replays a game's recorded moves (Standard Algebraic
  Notation) with shakmaty and judges a new move: legal, checkmate,
  stalemate, or the error that refuses it.
- `src/models.rs` orders a game's stored move rows and decides whether a
  player's move is recorded.
- `src/webapp.rs` writes and reads game links (hashids of the game id and
  the side, made with harsh) and builds the answers to the REST requests.
- `src/position.rs` and `src/hashid.rs` hold shakmaty's and harsh's values,
  which only the trusted calls into those crates make.
- `src/wsserver.rs` keeps the websocket sessions and the game side each one
  follows, and says which sessions a notification reaches.
- `src/api/` holds the values exchanged with clients.

`app/` is the server itself: configuration, SQLite storage with diesel, the
actix-web handlers and the websocket actors.
