# wslc_manager

A web manager for `wslc` containers, images, volumes and networks, with its
core verified by Verus.

- `src/` is the verified library. `client` builds the `wslc` command line of
  every operation and reads what the commands print; `listing` and `table`
  read the column-aligned listings byte for byte, the way string slicing
  does; `json` and `inspect` read `wslc inspect` documents; `api` and `ws`
  hold the decisions behind the HTTP and websocket endpoints (required
  fields, batch tallies, compose files, the clone sequence); `laws` states
  properties that hold across these operations.
- `app/` is the server: it runs the commands, serves HTTP and websockets
  with axum, and converts the library's records to and from JSON.
- `tests/` exercises the library on concrete listings, documents and
  requests.
