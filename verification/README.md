# qwert

A small, agent-friendly tool for local Markdown vaults: wikilinks and
backlinks, renaming a note with every link to it rewritten (a "revision"),
invisible-character detection, full-text search, a Markdown preview that
drops raw HTML, disarms `javascript:` links and fetches no outside images,
and appearance settings checked before they reach a front end.

The core is written in Verus: every function of the library carries a
contract, and the properties the tool promises (escaped TSV fields never break
a row, a dry run lists exactly the notes a revision rewrites, a new path never
leaves the vault, CSS values always pass the gatekeeper, …) are stated and
proved as `law_*` proof functions (the preview keeps no raw HTML, no script
link and no outside image; asking `describe` for one noun gives the full list
filtered to it; …).

## Layout

- `src/` — the verified library (`qwert`):
  - `text`, `paths`, `pattern` — characters, `/` paths, and regular
    expressions (through the `regex` crate);
  - `cmark`, `markdown` — Markdown parsing (through `pulldown-cmark`) and the
    preview transformation;
  - `link_index`, `backlinks` — wikilink extraction, renaming and resolution;
  - `sanitize`, `report` — invisible characters and their reports;
  - `revision`, `revision_diff` — naming styles, plans, edits and diffs;
  - `vault`, `status`, `search` — vault containment, the note tree, the
    editing list, health and search;
  - `config`, `appearance` — settings, CSS variables, contrast colors;
  - `cli`, `describe`, `error`, `responses` — exit codes, TSV, argument
    checks, command schemas, error envelopes and front-end records.
- `tests/` — tests of the library.
- `app/` — the `qwert` program: the clap command line, file-system and TOML
  I/O, the write-ahead-logged revision commit, file watchers, the WCAG
  contrast arithmetic, and the MCP server (`rmcp`).

## Collections

A map and a set are kept as vectors in the library:

- `CssVars` holds its variables as a `Vec` of `(name, value)` pairs rather
  than a `HashMap<String, String>`. Its keys are strings, and vstd specifies
  a `HashMap` only for keys whose hashing and equality it can see through;
  with `String` keys nothing about `insert` or `get` could be proved. The
  vector is filled in a fixed order, its keys are proved pairwise distinct
  (`law_css_keys_distinct`), and `get` returns the value under a key, so it
  answers every lookup as the map would, and the front end receives the
  variables in a stable order.
- `duplicate_key_specs` remembers the key specifications it has seen in a
  `Vec` rather than a `HashSet<String>`, for the same reason; the contract
  states exactly which specifications are reported as repeated.
