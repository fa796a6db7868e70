# Listening rooms

A service in which Spotify users open rooms and see what the others in a room are playing.

- `src/` decides: what is asked of Spotify and of the database, what each request is answered, and
  what a room holds. It is verified with Verus and does no I/O.
- `app/` does what the library asks for: HTTP, PostgreSQL, session tokens and websockets.
- `tests/` runs the library on concrete values.

A request that needs something from outside is taken turn by turn. A turn says what is needed next;
its reply is handed in with the following turn, until the turn is a response. The functions named
`law_...` are proofs of what holds over several turns or calls.
