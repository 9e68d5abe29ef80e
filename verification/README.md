# lcu

Build and augment recommendations for the League of Legends client, written
in Verus.

- `src/` is the verified library:
  - `source` — the built-in build sources and their game-mode labels;
  - `mayhem` — the ARAM Mayhem augment recommendations: the OP.GG page
    parser, the naming, rarity and description rules, and the assembly of
    the list from the ranking data, the page and the client's catalog;
  - `opgg_native` — builds from OP.GG's champion statistics: native sources,
    ranked positions, rune pages, item sets and build sections;
  - `builds` — the build data handed to the client;
  - `order` — the order of a stable sort by descending key;
  - `pattern` — the `regex` and `serde_json` calls the parser makes;
  - `text` — character-level helpers (trimming, search, case, numbers).
- `app/` holds the HTTP requests, JSON types and floating-point statistics
  around the library.
- `tests/` runs the library on concrete inputs.
