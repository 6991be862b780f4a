# opencode_sessions

Reads the sessions that Opencode keeps in its SQLite database: lists them, loads their messages
as a linear chain of records in the order of their creation, and searches the text of their
parts.

- `src/` is the library, verified with Verus. It names the statements to run and gives meaning
  to the rows. `paths` deals with session paths, `time` with instants, `json` with JSON
  documents, `part` and `message` with what a session holds, `session` with sessions and
  projects, `chain` with records and `search` with searching.
- `app/` finds and opens the database, runs the statements and hands the rows to the library.
- `tests/` runs the library on plain values and on a database made for the test.
