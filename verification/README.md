# money_manager

A money manager for GnuCash SQLite books. The library under `src/` holds its
logic, verified with Verus:

- `guid`, `dates`, `text`: GUIDs and ledger dates as the book stores them, with
  laws that what is written reads back.
- `database`, `sql`, `tables`: the checks on a book file, the records of its
  tables and the SQL text that reads and writes them.
- `account_types`, `settings`, `transactions`, `report`, `sorting`, `page`,
  `html`: what the screens show and decide.
- `backup`: which backup copies of a book file to create, delete and rename.

`app/` is the part that talks to the world: the browser page (`web_sys`,
sql.js), the desktop book file (`rusqlite`) and backup copies on disk.
`tests/` runs the library on concrete values.
