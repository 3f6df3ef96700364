# kubectl_rs

A small kubectl for people at a terminal: `get` (one context or a group of
contexts, as JSON, YAML or a table), `create` and `delete` from a manifest
file, and `config view`.

- `src/` is the library, verified with Verus: the ordered name map that keeps
  results per context (`name_map`), text splitting, joining and ordering
  (`text`), the printer columns (`printers`), the table layout of listings
  (`listing`, on top of `tabprinter` through `grid` and of `serde_json_path`
  through `json_query`), group/version and resource names (`api`, through
  `kube-core`), context groups (`groups`), `get`, `config` and manifest
  handling (`get`, `config`, `manifest`).
- `app/` is the program: command-line parsing, reading files, talking to the
  API server and printing.
- `tests/` runs the library on concrete values.
