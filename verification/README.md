# magi-core

The decision core of a three-agent ("MAGI") review system, written in Verus:
each function states what it returns in a `requires`/`ensures` contract, and
Verus proves the code against it.

Layout:

- `src/` — the verified library.
  - `schema`: the mages, modes, verdicts, severities, categories, findings.
  - `backoff`: reading `Retry-After` headers and the backoff ceiling.
  - `finding_id`: path normalization and the stable SHA-256 finding id.
  - `error`, `telemetry`: the error vocabulary and the messages it renders.
  - `consensus`: vote counting, majority and tie-break, labels, dissent,
    conditions and cross-agent finding deduplication.
  - `agent`, `prompts`: agents, the agent factory, prompt files.
  - `orchestrator`, `seat`, `join`: the decisions of a run (input screening,
    failure routing, the per-seat attempt state with its corrective retry and
    completion records, rotation, the join loop's bookkeeping, quorum and
    abort).
  - `text`, `durations`: the text and time models the contracts use.
  - Functions named `law_*` are proof functions stating properties that span
    several functions.
- `tests/` — the test suite, run against the compiled library.
- `app/` — what stays outside the proofs: floating-point scoring and jitter,
  serde forms of the library's types, file reading, `tracing` warnings, the
  loops that drive the seat and join state machines around caller-supplied
  provider calls, and a stand-in command-line client.
