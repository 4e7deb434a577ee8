# manga_vault_plugins

The logic of the source plugins of a Manga Vault plugin repository, and of
the tool that packs them, as a library verified with Verus.

A source plugin runs inside the Manga Vault host, which performs its HTTP
requests and its HTML selector queries. The library takes what the host
hands back (page texts, matched elements with their text and attributes,
values read from JSON answers) and decides what a source answers: listing
addresses, the works of a listing, the details and chapters of a work, the
pages or paragraphs of a chapter, and the errors.

Layout:

- `src/text.rs`, `src/model.rs`, `src/sort.rs`: string operations as `str`
  performs them, the values a source hands to the host, the model of a
  matched element, and a stable sort by key.
- `src/encoding.rs`, `src/json.rs`, `src/cipher.rs`, `src/archive.rs`: the
  calls into `urlencoding`, `serde_json`, `base64`, `aes-gcm`, `tar`,
  `flate2` and `sha2`, each with the contract it is trusted to meet.
- one module per source (`src/hari_manga.rs`, `src/manga_dex.rs`, ...).
- `src/pack.rs`: the build decisions, manifest reading, archive and index
  entries of the packing tool.
- `app/`: the packing tool's program (files, processes, TOML and JSON) and
  each source's requests and selector queries over the host's interface.
- `tests/`: tests of the library on concrete values.
