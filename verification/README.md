# frontier

The rules of Frontier Echoes, a small server-authoritative multiplayer survival
game, as a Verus library: each public function carries a contract, and Verus
proves the code against it.

## Layout

- `src/` — the verified library.
  - `envelope`, `kinds`, `wire`, `records`, `sections`, `client`, `server`:
    the versioned packet envelope and every client command and server state
    that travels in it, with round-trip laws for each.
  - `frame`, `hud`, `login`: the client's decisions in a frame — which packet
    it sends, which snapshot it follows, which other players it shows, what
    the inventory line and the password field read, and how the sign-in form
    reacts to keys.
  - `http`, `serving`: the HTTP requests and answers exchanged with the
    account service and the asset server.
  - `auth`, `accounts`, `config`, `presence`, `redact`: the account rules
    (credential limits, password hashing and checking, sessions, refusals),
    inventory storage, configuration, presence keys and expiry, and the
    masking of connection URLs in logs.
  - `text`: small text operations with contracts over characters.
- `tests/` — tests that run the compiled library.
- `app/` — the programs around it: the game server with its database, Redis
  and HTTP plumbing, and the Macroquad client (`app client`). Movement,
  interpolation and drawing work on floating-point numbers and stay there.

Floating-point fields of the wire records are carried as the bit patterns of
their `f32` values.
