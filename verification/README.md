# dongle

A verified library for an on-chain registry of projects: administrators and
multi-signature proposals, fees and refunds, categories, curated and
community collections, bookmarks, changelogs, dependencies, duplicate
disputes, fork detection, probation after verification, automatic archival
of inactive projects, notifications and per-address operation limits.

Every operation works on plain values. Accounts are `Addr` values, the ledger
time is passed in as `now`, and signature checks happen before an operation
is called. Operations that move tokens return the `Transfer` to perform;
digests computed by the host (share tokens, proposal payload hashes) are
passed in.

Each public function states in its `ensures` clause exactly when it succeeds,
which error it returns otherwise, and how the state changes; refused requests
leave the state unchanged. Properties that span several operations are stated
as public proof functions (`lemma_*`) next to the operations they relate.

Layout:

- `src/` — the library, one module per registry, verified with Verus.
- `tests/` — tests that run the library on concrete values.
