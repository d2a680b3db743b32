# do-harness

The decision logic of the `do-harness` agent execution harness, as a Verus
library whose functions carry `requires`/`ensures` contracts proved by Verus.

- `src/` — the verified library:
  - `dora/` — DORA deployment metrics: git and `gh` output parsing, deploy
    planning, the one-pass deploy scan, nearest-rank percentiles, snapshot
    assembly, and the integer threshold rules of the pinned policy.
  - `config`, `applicability`, `changes` — sensor configuration and its
    validation, change discovery from git output, and which sensors a change
    selects.
  - `ci_explain/` — classification of CI jobs, failure reasons, and the
    mapping of a failed job back to a local sensor.
  - `baselines`, `distill`, `distill_strikes`, `approver` — the findings
    ratchet, the evidence rules of heuristic distillation, strike-driven
    skill scaffolds, and bless-approver resolution.
  - `db/`, `dbcheck`, `doctor`, `audit` — the migration catalog and skew,
    root discovery, `SQLite` failure classification, database health, the
    doctor findings, and the event-chain audit.
  - `text`, `order`, `lines`, `assoc`, `seqs`, `paths`, `glob`, `digest`,
    `clock` — string, ordering and path helpers, and the calls into
    `globset`, `sha2`, `hex` and the system clock.
- `tests/` — the test suite.
- `app/` — the command-line program: argument parsing, running `git` and
  `gh`, reading files, the state database, and JSON output.
