# skytab

A command-line client and read-only MCP server for the SkyTab API, built
around a verified core library.

## Layout

- `src/` — the library, verified with Verus. Each public function carries a
  contract stating its result; the laws of the library are proof functions
  named `law_*`.
  - `text`, `json`, `csv`: characters, the JSON value model with its compact
    and pretty renderings, CSV cells and records.
  - `output`: JSON, CSV (generic and fixed schemas) and NDJSON output.
  - `read_api`, `requests`, `reports`: argument checks, location and
    time-zone resolution, request payloads and paging, reading report rows.
  - `client`: request URLs, login, retries with backoff, the refresh after a
    `401`.
  - `config`, `cache`: base URL, credentials and keyring storage, the token
    cache.
  - `doctor`, `display`, `mcp`, `update`: diagnostics, text for people, MCP
    tool errors, self-update decisions.
  - `time`: calendar dates and time zones through `chrono` and `chrono-tz`.
- `app/` — the program: command-line parsing (`clap`), HTTP (`reqwest`),
  files and the environment, the MCP server (`rmcp`), and the arithmetic on
  money amounts and hours, which are decimal fractions.
- `tests/` — tests of the library.

Started under the name `skytab-mcp`, the program serves MCP over stdio.
