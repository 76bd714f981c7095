# vcod_server

The integer and text logic of a Call of Duty 1.1 dedicated server, written
in Verus and proved against its contracts.

- `src/` is the verified library. Each module states what its functions
  compute over spec functions and views, and holds the laws (public proof
  functions named `law_*`) that relate several calls. Besides the front
  door (rate limiter, challenge table, connect admission, timeouts) it holds
  the decisions of the level boundaries (`level`: what a `map_restart` does,
  what a `map` refuses before tearing anything down, which clients each
  reaches), the animation choices (`anim`), the weapon-event and frame-tail
  rules (`combat`, `frame`), the move replay schedule, the item registry,
  the weapon list, the placed-entity tables and the scoreboard.
- `tests/` runs the library on concrete values.
- `app/` is the `vcod-server` binary: the command line, a check of the game
  data, the UDP socket, and the connectionless front door, which hands every
  packet decision to the library.

What this crate does not hold: the server's level itself. The gamestate and
snapshot encoding, the movement and combat simulation (floating point), the
script runtime and the bots are not here, and the binary serves no game;
those parts are built on the engine crates `vcod_common` and `vcod_gsc`,
which this crate does not depend on. Where a decision of theirs could be
taken apart from them, it stands in `src/` as a function over plain values
that the caller fills in.
