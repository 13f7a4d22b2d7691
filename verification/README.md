# harness_store_sqlite

The rules of a durable session store that is kept in SQLite: an event journal
with fenced writers, tool approvals and settlements, runs and budgets, delegated
tasks, external jobs, schedules, notifications, an index over the journal, and
memory with lineage.

* `src/` is the library. Every operation of the store is decided there, by
  functions from a request and the rows that were read to what is written or to
  the error that the caller gets. Contracts and laws are stated next to the code
  and proved with Verus.
* `app/` holds the database: it opens it, reads the rows, asks the library and
  writes what it says, one transaction for each operation.
* `tests/` runs the library on concrete values.
