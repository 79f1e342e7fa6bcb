# todomvc

The rules of a TodoMVC service (a REST API over a table of todos and a browser
client), with their contracts checked by Verus.

- `src/` is the verified library:
  - `models` — the todo record and the request bodies;
  - `text` — trimming of titles;
  - `store` — the table of todos, kept in listing order (display order, then id);
  - `api` — the handlers of the six endpoints as functions from the table and
    the request to the response;
  - `components` — the client's decisions on its local list (filtered list,
    toggle-all checkbox, footer, header, todo item with inline edit);
  - `laws` — what holds across operations.
- `app/` is the server around it: axum routes, SQLite persistence through
  sqlx, JSON, and the Leptos components of the client.
- `tests/` runs the library on concrete values.
