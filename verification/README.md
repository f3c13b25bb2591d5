# clipboard_history

A clipboard history for the DBX host: it watches the system clipboard (text,
images and file lists), keeps the newest 500 entries, lets them be searched,
copied back, shown enlarged, deleted and cleared, and saves them to disk.

`src/` is the library, verified with Verus:

- `store` — the history itself: loading saved items, taking in captures
  (duplicates, the cap, the one-time suppression after a copy-back), search,
  lookup, deletion, moving an item to the front.
- `item` — history items, how each kind of capture becomes one, and search matching.
- `fingerprint` — the fingerprints by which captures are told apart.
- `text` — character-level helpers: trimming, truncation, substring search, decimals.
- `media` — PNG/JPEG encoding, decoding and scaling through the `image` crate,
  base64 data URLs, the quality loop that brings an enlarged view down toward
  the host's limit.
- `clipboard` — the order in which clipboard formats are read.
- `request` — request routing and the checks that come before any work.
- `host` — the clock, fresh ids, where the history is saved.
- `laws` — properties that span several operations.

`app/main.rs` is the plugin process: the host bridge, clipboard and file
access, the watcher thread, the saved JSON form of items, and the floating-point
choice of a scaled image size.
