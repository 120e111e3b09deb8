# spacetaxi

End-to-end encrypted file sharing. Files are encrypted on the client with
XChaCha20-Poly1305 before upload; the key (or, for password-protected files, the
Argon2id salt) travels only in the URL fragment.

Layout:

- `src/` — the verified library (Verus):
  - `crypto.rs`: keys, password keys, per-chunk nonces, chunk encryption and decryption;
  - `codec.rs`: base64, JSON string literals and UTF-8 at the edges;
  - `types.rs`: the messages, upload metadata and the URL fragment;
  - `headers.rs`: upload metadata as HTTP headers, both directions;
  - `storage.rs`: on-disk layout of files and chunks, and reading chunk numbers back;
  - `chunked.rs`: a chunked upload in progress;
  - `server.rs`: download validity, cleanup selection, records, refusals, ids, escaping;
  - `page.rs`: the download page;
  - `cli.rs`: expiry options, key choice, chunk plan, share link and notes;
  - `text.rs`: decimal numbers, white space and string building.
- `tests/` — tests of the library.
- `app/` — the two programs around it: the command-line client and the HTTP server
  (argument parsing, HTTP, SQLite, file I/O, JSON forms of the messages).
