# rainy_mate

The verified core of the Rainy MaTE desktop agent services, written in Verus.

`src/` is the library. Each module holds one service's decisions, with
contracts over mathematical views (`Seq`, `Map`-like pair lists, spec
functions) that Verus proves:

- tool admission and policy (`admission`, `tool_policy`, `executor`, `tools`,
  `dispatch`), path and network scopes (`paths`, `net`);
- the task queue and manager (`tasks`), the persistent scheduler's tables
  (`schedule`, `scheduler`), sessions, grants and the native shell
  (`sessions`), the workflow recorder (`recorder`);
- memory (`memory`, `vault`, `crystalline`, `distiller`, `reflection`),
  prompt skills (`prompt_skills`), settings (`settings`), third-party skills
  (`third_party`, `installer`, `manifest`, `sandbox`);
- tool-side decisions for files, search, documents, browser, EVM, web
  research, the cloud node and its socket (`files`, `search`, `documents`,
  `browser`, `evm`, `research`, `neural`, `socket`).

Calls into outside crates (SHA-256, hex, URL parsing, cron, UUIDs, the
clock, a few std string functions) stand behind small trusted wrappers whose
contracts say what the crate's source shows.

`app/` holds the plain-Rust side: files, processes and JSON around the
library. `tests/` runs the library on concrete values.
