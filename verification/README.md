# canary_gate

Canary deployment health checks from log output: log lines are classified
into typed events by configured rules, behavioral tests are evaluated over
the events, and a recommendation state machine turns each cycle's results
into promote, hold or rollback (exit codes 0, 1, 2; 3 for tool errors).

## Layout

- `src/` is the verified library (Verus). Every function carries a contract;
  the laws of the recommendation engine and of classification are public
  proof functions (`law_*`).
  - `ingestion` numbers lines, detects JSON, extracts timestamps, merges and
    stably sorts the lines of several files, selects a directory's log files.
  - `classification` matches lines against event rules (first match wins).
  - `events` holds canonical events and their SHA-256 fingerprints.
  - `behavior` evaluates `event_present`, `event_absent` and `rate` tests.
  - `recommendation` is the cycle tracker and its state machine (`step`);
    the operator carries its soft-fail streaks in the resource status.
  - `verdict` assembles verdicts, their reasoning, table and exit code.
  - `config` validates configurations; `metrics` reads the structure of
    Prometheus responses, and with `stats` turns metric and statistical
    outcomes into test evaluations; `operator` holds the
    Kubernetes resource model and reconciliation decisions; `tui`, `api`,
    `db`, `cli` hold the small decisions of the dashboard, HTTP API, audit
    trail and command line.
- `app/` is the program around it: YAML and JSON forms, files, SQLite,
  Prometheus over HTTP and its numeric values, the Mann-Whitney U test (floating point), the
  terminal dashboard and the Kubernetes controller.
- `tests/` exercises the library on concrete inputs.
