# mailalias

A service that hands out mail aliases. Users and domains are registered
through web forms; a request for a new alias draws a random name, stores it,
and ties it to the user and the domain; a listing shows every address of a
user.

- `src/` is the verified library (Verus):
  - `text`: decimal rendering, splitting and joining of text;
  - `error`: the errors and the HTTP status that answers each;
  - `row`, `table`, `base`: the rows, the SQL request of each table
    operation, the decoding of what the database sends back, and the
    database handle;
  - `webapi` and its modules: base-32 names, cleaning of form fields, and
    the steps of each web request as functions from a reply to the next
    action.
- `app/` is the Rocket server: it holds the SQLite connection, runs the
  requests the library names, and hands the replies back to it.
- `tests/` exercises the library.
