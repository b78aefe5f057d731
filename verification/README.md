# super_lotto

The core of a lottery desktop application, written in Verus: every function
of the library carries a contract that Verus proves.

## Layout

- `src/` — the verified library.
  - `config/` — configuration values, sources, providers, the file loader,
    validation rules, the configuration manager with its history, and the
    configuration errors (their messages, categories, status codes and
    severities, the context they happened in, and counts of them).
  - `logging/` — log levels, records and contexts, filters (level, target,
    time, message, field, composite, rate limit), formatters (plain,
    coloured, JSON, compact, template) and metrics.
  - `error/` — the application error kinds with their codes and messages,
    error contexts, and the statistics of the error log.
  - `di/` — service descriptors, factories, the registry with its
    dependency checks, and the container's resolution bookkeeping.
  - `cache/`, `database/`, `api/`, `performance` — caches with lifetimes,
    query building and the health checker, request metrics and batching.
  - `auth` — the messages the authentication commands show on failure.
  - `text`, `assoc`, `order`, `parse`, `patterns`, `clock` — shared
    helpers: text operations, association lists, orderings, number parsing,
    regular expressions (through `regex`) and time rendering (through
    `chrono`).
- `tests/` — tests run against the compiled library.
- `app/` — a command-line front end: it reads a configuration file, parses
  JSON, YAML or TOML with serde, hands the parsed value to the library's
  loader, prints the flat keys, and on failure can append the error to a
  JSON-lines error log.

Laws that relate several operations are stated as public proof functions
next to the operations they speak of (for instance
`error::types::lemma_code_identifies_kind`,
`config::error::lemma_category_identifies_kind`,
`config::manager::lemma_write_goes_to_first_taker` and
`auth::lemma_login_hides_cause`).
