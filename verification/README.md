# iceberg_overwrite

The rules by which an Iceberg table replaces data files in one snapshot, and by which a commit
detects data that others added in the meantime. The rules are verified with Verus.

- `src/action.rs`: the overwrite action and its commit
- `src/existing.rs`, `src/operation.rs`: which manifests are kept, and how the others are rewritten
- `src/validate.rs`, `src/partition_filter.rs`: the conflict check
- `src/overwrite_laws.rs`, `src/removal_laws.rs`, `src/commit_laws.rs`, `src/validate_laws.rs`,
  `src/validate_steps.rs`: what these do as a whole
- `src/model.rs`, `src/error.rs`, `src/ids.rs`, `src/text.rs`, `src/seqs.rs`: what they work on
- `app/`: asynchronous functions that run the rules against a table service

The library reads and writes nothing. A function that needs an answer from outside returns a state
that says what is wanted; `resume` takes the answer. Two calls into the `uuid` crate, in
`src/ids.rs`, are taken on trust.
