# iceberg

Table metadata of the Iceberg table format, verified with Verus.

A metadata file describes a table: its schemas, partition specs, sort orders, snapshots and the
logs of its own changes. The library reads such a file from its version 1 or version 2 form, checks
the rules that metadata must keep, brings it to keep those that can be repaired, answers questions
about it, and writes it back.

- `src/` is the library. `metadata.rs` holds the metadata and its accessors, `normalize.rs` the
  rules, `documents.rs` the forms of metadata in files, `reading.rs` and `writing.rs` the way from
  one to the other, and `laws.rs` what holds of all of it: reading gives metadata that keeps the
  rules, bringing metadata to keep the rules twice is the same as once, and what was written is read
  back.
- `app/` turns those forms into JSON and back, and reads and writes files.
- `tests/` runs the library on whole files and on single rules.
