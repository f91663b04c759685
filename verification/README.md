# lyrix

Lyrics for the track a desktop music player is playing: search a lyrics source for the
track, score and pick a result, fetch its lyrics (or read the file the player keeps), and
parse them into timed lines.

- `src/` is the library, verified with Verus: text and byte search, the parsers (Apple Music
  TTML, Spotify color lyrics), the scoring of search results and the choice among them, the
  QQ Music reply and file-name readers, the race between a local read and a network fetch,
  the trial cut of lyrics, the log settings, and the errors. Calls into `memchr`, `base64`,
  `md5`, `aes`/`ecb` and `hex` stand behind small trusted wrappers whose contracts say what
  those crates compute.
- `app/` is the service around it: HTTP (`reqwest`) and websocket (`tokio-tungstenite`)
  requests, reading the QQ Music files, the log writer thread, JSON forms of the reply models
  (`serde`), and the asynchronous orchestration that runs the library's decisions.
- `tests/` runs the library on concrete inputs.
