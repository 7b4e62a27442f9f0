# remud

The rules of a MUD server, as a library whose functions carry contracts that Verus
proves: how players log in and change passwords, how typed lines become commands and
actions, how color markup is rendered for telnet and web clients, how scripts are stored,
hooked and served over the web API, how objects move between players and rooms, how
creatures wander and follow, and which SQL statements record each change.

Layout:

- `src/` — the verified library, one module per concern (`actions`, `commands`, `login`,
  `update_password`, `clients`, `session`, `telnet_color`, `ws`, `web`, `script_api`,
  `scripts`, `persist`, `items`, `attaching`, `npc`, `timing`, `targeting`, `observe`, ...).
- `tests/` — tests of the library on concrete values.
- `app/` — the command line entry point and the serde forms of the web API's messages.

What is not here:

- The servers themselves. The telnet and web listeners, the game loop's scheduling, the
  database and the world's entity store are asynchronous I/O on crates that are not part
  of this build. `app/` therefore reads and checks the command line and prints the settings
  it would run with; it does not start the engine. The decisions those servers make are
  the library's functions: the telnet input and rendering steps (`session`), the engine's
  handling of client messages (`clients::Clients::handle`), the web API's checks and
  replies (`web`, `script_api`), and the steps of the world's actions.
- The type-keyed store (`Stash`, with its query types). It is built on runtime type
  identities, `Any` and `RefCell`, which the verifier does not model, and nothing in the
  server uses it.
- The metrics timer (`StatsTimer`). It reads the clock and reports through a metrics
  client when dropped; it decides nothing.
