# limusic

The core of a music player for YouTube Music, written in Verus: everything the player decides, with
contracts that Verus proves.

- `src/` is the library. It never waits and never talks to anyone. A command or an event goes in
  together with what has to be known of the outside (whether we are a guest of a room, whether the
  player is idle, what a radio answered), the state changes, and the actions to perform come back
  in order.
  - `order`, `shuffle`, `queue`, `edit`: the play queue, and every edit of it.
  - `state`, `commands`, `load`, `radio`, `progress`, `snapshot`, `listen`: the playback manager.
  - `identity`, `auth`: which YouTube channel a session acts as.
  - `text`, `duration`, `song`, `settings`, `playback`, `json`: what these are made of.
- `app/` is the application around it: the loops that wait for the network, the player, the
  database and the windows, the JSON records, and what is floating point.
- `tests/` runs the library.

What the library promises beyond single calls stands in public proof functions named `law_...`,
next to what they speak of.
