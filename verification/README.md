# client_backend

The client of MegaAntiCheat (MAC) for Team Fortress 2: it follows the game's
console and RCON output, keeps track of the players on the server, looks
their profiles and friends lists up on the Steam Web API, records the user's
verdicts in a playerlist, parses and uploads demos to the masterbase, and
serves a web interface.

- `src/` is the library, verified with Verus: the console and `g15_dumpplayer`
  parsers, the player and party bookkeeping, the playerlist and settings, the
  closed-caption compiler, the decisions of the RCON connection, the Steam
  lookups, the web API, the demo parser (over `tf_demo_parser`) and the
  demo watcher and uploader, each with its contract, and the laws that
  relate them.
- `app/` is the program around it: command line, files, the event loop, and
  the network and file I/O (RCON, Steam Web API, masterbase, web server,
  demo files).
- `tests/` runs the library on concrete inputs.
