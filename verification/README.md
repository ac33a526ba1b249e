# hellcall_stratagems

The stratagem catalog of a desktop companion for a game: it reads the
stratagems that the game's wiki lists, gives each an id and keeps them in a
cache.

- `src/` is the verified library: which answers of the wiki are used, how a page
  is read, what its tables list, how ids are made, and what becomes of the cache.
  Documents are parsed and searched by the crate `scraper`, ids are encoded by
  the crate `base64`; `src/document.rs`, `src/encoding.rs`, `src/clock.rs` and
  `src/text.rs` say what is taken for granted of them and of the standard
  library. `src/laws.rs` holds what is proved of the library as a whole.
- `app/` makes the requests, reads and writes the cache file and hands the
  catalog to the user interface.
- `tests/` runs the library.
