# gist_service

A small HTTP service that answers `GET /{user}` with the public gists of a
GitHub user: for each gist its `id`, `description`, `html_url` and the sorted
list of its file names, as a JSON array. A malformed request is answered with
`400`, an unknown user with `404`, and a failure of GitHub's with `502`, each
with a body `{"error": "..."}`.

- `src/` is the library, verified with Verus: reading request lines and paths
  (`http`, `server`), reading what `curl` printed of GitHub's answer
  (`github`, `server`), sorting file names (`names`), writing JSON (`json`)
  and HTTP text (`http`), and the character-level helpers they share
  (`text`).
- `app/` is the program: the `tiny_http` server, running `curl`, and the
  serde reading of GitHub's JSON. It also holds a plain TCP front end
  (`app/tcp.rs`: `run_server`, `handle_connection`) built on the library's
  `connection_reply`; the program does not start it.
- `tests/` exercises the library.
