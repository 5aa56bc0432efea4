# charly

The logic of a desktop notes board that turns whatever is copied to the clipboard
(text, images, lists of files) into sticky notes, verified with Verus.

- `src/` is the verified library: the clipboard watcher's decisions and the notes it
  makes (`watcher`, `file_uris`, `decode`), note timestamps (`timestamp`, with a proof
  that they are calendar dates on the days where the date formula holds, and that
  their texts sort as their instants do: `timestamp_order`), colours and placement
  (`palette`), ids (`ids`), copied images (`images`), the pairing code and socket relay
  of the mobile view (`pairing`, `relay`), JSON documents (`json`), server and peer
  addresses (`network`), and the tray menu (`board`).
- `app/` is the desktop shell around it: the Tauri commands and tray, the clipboard
  thread, the SQLite store, the axum server for phones and the tailnet discovery.
- `tests/` runs the library, in part against the same formulas computed with `std`
  parsing and formatting.
