# flatlite

A terminal spreadsheet over CSV files. A KDL file declares the tables, their
CSV files and their fields (plain text, a choice among options, or a reference
to a record of another table); the tables are loaded into SQLite, shown as
sheets, edited in place and written back to their CSV files.

- `src/` is the library, verified with Verus: the configuration reader and the
  schema built from it, the statements that load a CSV file and the text
  written back to it, the SQL text the program runs, the spreadsheet model
  (cursor, scrolling, editing, the actions and key bindings and the work they
  leave to do), what the screen shows, and the import of records from a KDL
  document. Calls into the `kdl`, `csv` and `rusqlite` crates stand behind a few
  trusted functions whose contracts say what the crates' sources show.
- `app/` is the program around it: the command line, the SQLite connection,
  reading and writing files, drawing with `ratatui`, and the loop that
  performs the work the model asks for.
- `tests/` runs the library on concrete inputs, with the real outside crates.
