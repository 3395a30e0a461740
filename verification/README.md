# zomboid_save_sync

Synchronises single saves of Project Zomboid with a server of one's own: an upload packs a save,
keeps the archive for the next time, and sends it in chunks of 256 KiB that can be resumed after an
interruption; a download unpacks the server's copy and puts it in the place of the local save.

`src/` is the library, verified with Verus. It performs no input or output. Each longer operation
is a state machine: `action` says what is to be done next, `handle` takes what that came to. Beside
each machine stands its model, a transition system over mathematical values; the contracts say that
the machine follows the model, and the `law_` proofs say what holds of every course of it.

- `upload`, `legacy`: uploading a save, in chunks or in one piece.
- `prepare`, `walk`, `scan`, `fingerprint`, `compress`: which files make up a save, and bringing
  its archive up to date.
- `download`, `extract`: downloading and unpacking a save.
- `roundtrip`: the archive holds the files of the save, and what is packed comes out again.
- `replace`: replacing a file without losing either version.
- `listing`, `remote`: the local saves, and those on the server.
- `resume`, `chunks`, `digest`, `endpoint`, `http`, `json`, `names`, `order`, `paths`,
  `process`, `progress`, `messages`, `text`: what these are made of.

A download keeps the save that it replaces, in a directory beside it whose name ends in `.backup`.

`app/` is the desktop application around the library; `tests/` runs the library on examples.
