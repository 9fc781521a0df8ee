# meclipboard

A clipboard-history manager for the desktop: it records every text and image
copied, lists them (pinned entries first), lets the user search, pin, delete,
undo a deletion and restore an entry to the clipboard, and sweeps old entries
by age and by a storage cap.

`src/` is the verified library (Verus):

- `models` – entries, content kinds, stored rows, what a restore writes.
- `text` – decimal and boolean spelling and parsing, text comparison, trimming.
- `settings` – preferences, how they are stored and read back with fallbacks.
- `fingerprint` – the SHA-256 fingerprint of an image and the path it is saved at.
- `monitor` – the clipboard watcher's de-duplication decisions.
- `cleanup` – the storage sweep as a state machine (age, then size cap, then
  image files no entry refers to).
- `store` – values handed to and taken from the SQLite queries, and which image
  files may be deleted.
- `commands` – the decisions of the IPC commands (search, restore, preview).

`app/` is the desktop program: the Tauri shell, the SQLite queries, the image
files, and the polling and sweep loops that act on the library's decisions.
