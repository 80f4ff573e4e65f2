# lenso_jobs

A verified library for durable single-step jobs, and the native plugin around it.

One authorized producer enqueues a job. One authorized worker claims it under an
opaque, expiring lease and either completes it or reports a failure that is retried
within bounds or final. An expired lease can never complete a job, and the job may be
claimed again under a new token. An observer inspects the durable state.

## Layout

- `src/` is the library. Every function in it is verified against its contract, and
  `src/laws.rs` proves what holds across operations: that leases fence, that claims
  retire a bounded batch and strand nothing, that refusals never touch storage.
  `src/excerpts.rs` proves that what an operation does to the rows in hand is what it
  does to the whole table.
- `tests/` runs the library on concrete values, with a jobs table in memory and a
  clock set by hand.
- `app/` is ordinary Rust: the PostgreSQL adapter, the schema and its operator, and
  the plugin's factory, endpoint and lifecycle. It locks rows, hands them to
  `table::JobTable`, and writes them back in the same transaction.

## What is taken on trust

A few small functions call other crates, and their contracts are believed: RFC 3339
texts (`time`), JSON (`serde_json`), random bytes (`getrandom`), base64 (`base64`),
SHA-256 (`sha2`) and owned schema names (`lenso-postgres-kit`). Each names the call
it makes and says what is claimed of it.

Execution is at least once, so a job's handler makes its external effects idempotent.
Repeating a request under its key leads back to the stored job until a retry has
moved the job's availability; after that the repetition counts as a conflict.
