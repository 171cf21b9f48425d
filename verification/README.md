# scriptvault

A personal search engine for scripts: it scans configured directories for
scripts, reads their inline `scriptvault.*` header comments and
`<script>.scriptvault.yaml` sidecars, and lets you search, filter, rank, run
and annotate them from an interactive terminal interface or a headless
`search` command.

## Layout

- `src/` — the library, verified with Verus. Header and sidecar parsing,
  language detection, the query language and its engine (filters, views,
  multi-term matching, ranking, limits), persisted user state (favorites,
  recents, playlists, notes, saved searches), configuration layering and
  validation, the scan's decisions (ignores, candidates, dedup), the
  decisions behind running scripts and opening editors, the CLI renderers
  (table, CSV, the Workstate feed), and the interactive interface's state
  machine with what each pane shows.
- `app/` — the program around it: argument parsing, reading and writing
  files, the directory walk, spawning processes, the terminal event loop and
  drawing (with syntect lexing the preview, whose scopes the library's
  `classify` sorts into kinds), the system clipboard, and the
  floating-point hybrid score that ranking is fed with.
- `tests/` — tests of the library on concrete values.
