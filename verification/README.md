# refactor

A command-line tool that scans, checks, refactors and migrates a source
repository (TypeScript, JavaScript, PHP, JSON): broken imports and references,
unused and duplicate files, string replacement, renames that rewrite relative
imports, import and path migrations, migration plans, clean-up, and a Model
Context Protocol server that offers the same tools.

## Layout

- `src/` — the library, verified with Verus. Each command's decisions live
  here with contracts over mathematical models: path arithmetic (`paths`),
  text operations (`text`), the language analyzers (`languages`), the
  scanners and analyzers over loaded files (`scanner`, `analyzers`), the
  planners of replacements, renames and migrations (`refactor`), what every
  command reports (`commands`, `output`), and the MCP message and tool
  decisions (`mcp`). Calls into `regex`, `blake3` and a few `std` functions
  go through small trusted wrappers whose contracts name their results.
- `app/` — the program around the library: argument parsing (clap), reading
  and writing files (ignore, walkdir, tempfile), TOML/JSON parsing (serde),
  terminal rendering (console), the update download (reqwest) and the MCP
  stdio loop.
- `tests/` — tests of the library on concrete inputs.

Laws proved in `src/` include: a relative specifier resolves back to its
target (`refactor::rename::law_relative_specifier_resolves`), so every
specifier a rename writes resolves to the destination
(`refactor::rename::law_rename_specifiers_resolve`), stripping and
restoring a byte-order mark round-trips (`filesystem::reader`), and applying
no line edits leaves a text unchanged
(`refactor::import_migration::law_no_edits_identity`).
