# memx

MemX is a local-first long-term memory store for AI agents: memories are
embedded, kept in a libSQL database, and served over a REST API, an MCP
stdio server and a command line.

This crate is the MemX core as a library verified with Verus, and the
program built around it.

- `src/` — the library. Every function carries a `requires`/`ensures`
  contract that Verus proves:
  - `text` — the character-level model of strings (trimming, case,
    parsing and printing numbers, sorting);
  - `fts` — preparing text for the full-text index (CJK characters as
    separate tokens);
  - `search` — the full-text query, tag signatures, de-duplication of
    ranked results, recency and frequency inputs, retrieval and access
    tracking;
  - `types`, `rows` — memory and link kinds and their stored form;
  - `schema` — schema upgrade decisions and the schema's statements;
  - `config`, `setup` — resolving and writing the configuration, and the
    rules of the setup and diagnostics commands;
  - `requests` — limits and windows of the tools and routes;
  - `embed` — the embedding client's retry machine;
  - `version` — semantic versions as the `semver` crate parses and
    orders them, and whether a release is newer than the running binary;
  - `paths` — paths as `std::path` reads and joins them on Unix and on
    Windows (separators; drive, UNC, device and verbatim prefixes),
    managed installs and uninstalls;
  - `dates` — the dates shown next to memories;
  - `updater`, `update_flow`, `os_service` — self-update (assets, tags,
    file steps, the course of an update, installing a release only when it
    is newer) and background-service plans.
  Each module also states, as public proof functions named `law_…`, the
  properties that relate its functions.
- `tests/` — tests on concrete values.
- `app/` — the program: command line, HTTP and MCP servers, database and
  HTTP access, file system and process work, and the floating-point search
  scoring.
