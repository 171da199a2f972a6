# btc_indexer

A Bitcoin address indexer: it follows the chain (through the Blockstream.info
explorer and through Bitcoin peers), records the outputs paid to the addresses
that users track, marks them spent, and answers balance, UTXO and history
requests over a REST interface with bearer-token logins.

## Layout

- `src/` — the library, verified with Verus:
  - `hexcodec`, `numparse`: hexadecimal and decimal text.
  - `merkle`, `header`: merkle inclusion proofs and block headers.
  - `tracking`: what an explorer transaction means for a watched address.
  - `p2p`: what a block received from a peer means, the peer session state
    machine, peer selection and message framing.
  - `peer_message`: reading a peer's message into the library's types.
  - `indexer`: the chain follower state machine (reorganisation handling) and
    the resume point.
  - `handling`, `auth`, `config`: tokens, passwords, request answers, settings.
  - `db`, `models`: the records exchanged with the database and the web.
- `tests/` — tests of the library on concrete values.
- `app/` — the program: database access (sqlx), HTTP (axum, reqwest), the
  peer connections (tokio, bitcoin), and the loops that perform the actions
  the library's state machines ask for.
