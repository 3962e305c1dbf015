# bulletforcehax

A launcher and man-in-the-middle proxy for Bullet Force. The server hosts a copy of the game and
a web interface; the game's web requests and websocket traffic go through the server, which reads
the Photon (protocol 16) messages, keeps track of the lobby and the match, and rewrites the room
list where the settings ask for it.

## Layout

- `src/` is the verified library (Verus):
  - `wire`, `codec`, `value`, `message`: the Photon wire format, with the law that a written
    message reads back as itself (`round_trip`);
  - `ordered_map`, `convert`, `highlevel`: maps that keep insertion order, and the typed structs
    read out of and written into them, with round trips in both directions. The maps stand in
    for `indexmap::IndexMap`, which Verus does not accept inside the recursive photon value;
  - `hax`, `state`: the state kept while proxying and the handling of each message;
  - `proxy`, `assets`, `version`, `version_scraper`, `config`: the decisions of the server
    around the proxies, the files it serves, the game version on disk and the configuration.
- `app/` is the server program: command line, files, network and the web framework.
- `tests/` holds the tests of the library.
