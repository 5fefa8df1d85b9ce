# update_downloader

Fetches an update manifest (`update.json`), lists the files it names,
downloads them with checksum verification, retries and optional ranged
chunks, and unpacks the archives among them, optionally limited by a
whitelist read from XML files shipped alongside.

- `src/` is the library, verified with Verus: manifest listing
  (`parser`, `json`), name filtering (`filter`), manifest and base URLs and
  request headers (`endpoint`), run flags (`control`), per-file download
  decisions and temporary names (`transfer`), the retry state machine
  (`retry`), the XML whitelist (`xml`, `whitelist`, `whitespace`), unpacking
  decisions (`unzip`), run planning and task batches (`process`), MD5
  checksums (`checksum`), and the text helpers they share (`text`, `decimal`).
- `app/` is the Tauri desktop application: commands, HTTP, reading and
  writing files, unpacking archives, timers and threads; the checks and
  choices it makes along the way come from the library.
- `tests/` exercise the library on concrete values.
