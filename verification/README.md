# novel_core

The verified core of a desktop assistant for writing novels with AI help.
The library in `src/` is written in Verus: every function carries a
`requires`/`ensures` contract over mathematical models (`Seq`, `Map`, `int`)
and is proved against it. `app/` is ordinary Rust around it: SQLite storage,
HTTP exchanges with model providers, the system clock, the encrypted key file
used on Windows when the OS keyring fails, serde decoding, and the
floating-point settings and similarity rankings.

## Layout of `src/`

- `text`, `ids`, `json` — character-level text operations, record identifiers,
  and the JSON and SHA-256 calls (through `serde_json`, `uuid` and `sha2`).
- `domain`, `entity`, `materials`, `review_model` — the domain records and
  their validation and status transitions.
- `planning` — planning prompts: project and reference text cut into blocks and
  chunks, keyword scoring, selection within a character budget, and selection
  from rankings computed by the caller.
- `application` — context assembly for writing tasks: retrieval evidence,
  prompt sections, task contracts, context versions, review contexts.
- `candidates` — context candidates gathered from project knowledge.
- `ai` — task settings and preferences, provider request shapes and retries,
  output checks, consistency reports, writing admission, run costs, usage and
  quality summaries, secrets.
- `manuscript`, `plan`, `entity_store`, `discussion` — the decisions behind
  stored manuscripts (document merging and normalization), plan trees,
  entities and discussions.

Laws that relate several functions are public proof functions next to the
functions they speak of (for example `manuscript::unchanged_side_merges_cleanly`,
`planning::budget::reference_context_fits_its_limit`,
`planning::ranked::ranked_evidence_fits_the_budget`).

## Building

`tests/` holds the tests of the library; `app/` is a separate crate that uses
it.
