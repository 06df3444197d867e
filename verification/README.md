# codex_monitor

Read-only adapter logic for a desktop monitor of a local Codex client, written
in Verus: every function of `src/` carries a contract that Verus proves.

- `src/` — the verified library.
  - `discovery`, `sqlite`, `rollout`, `auth`: finding the client's data roots
    by their structure and reading the state databases, rollout logs and the
    login claims into per-field candidates.
  - `candidate`, `snapshot`, `status`: choosing one candidate per field (by
    source priority, then time, then confidence) and building the status.
  - `diagnostics`: the redacted diagnostic report.
  - `recon`, `pattern`: the read-only reconnaissance (sampling, masking,
    ranking, the report text).
  - `mapping`, `provider`: field-mapping rules and the provider routes.
  - `json`, `paths`, `time`, `text`, `order`: the outside crates and std
    functions the logic calls, behind small trusted wrappers, and shared
    helpers (a verified stable sort, text utilities).
- `tests/` — tests of the library.
- `app/` — the command-line program around the library: file-system walks,
  SQLite access, process listing, port probes, JSON files, and the floating
  point share computations.
