# db_logger

A database-backed logger for the `log` crate, storing log entries in PostgreSQL or SQLite
through `sqlx`.

`src/` is the verified library: the statements that create, fill, read and drop the `logs`
table, the values bound to each stored entry (strings cut to the column sizes at character
boundaries, timestamps split and rounded for SQLite, sequence numbers), the text that shows a
stored entry, the classification of database errors, connection options read from environment
values, and the clocks.  `app/` holds what talks to the databases and the environment: it runs
the statements with `sqlx`, reads the rows back and hands their values to the library.
`tests/` runs the library on concrete values.
