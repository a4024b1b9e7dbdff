# thumbcloud

A file-sharing server for the local network: visitors browse, download and
upload files of one shared directory from their web browser.

The decisions of the server live in `src/` and are verified with Verus:

- `paths` — Unix paths as lists of components: joining, `starts_with`,
  parents; proofs that joining a relative path stays under its base.
- `json` — the JSON answers sent to the browser, built from JSON string
  literals.
- `config` — settings from the command line: address fallback, blank
  server names, argument checks.
- `decoder` — answering a websocket message: listing requests (checked
  against path traversal) and uptime requests.
- `files`, `files::browse` — directory listings, file categories, secure
  joins, new folders.
- `upload` — where an uploaded file is written, kept inside the shared
  directory.
- `system`, `webserver` — operating-system name, uptime answer, about page
  heading.

`app/` is the program around it: command-line parsing, file-system access,
the actix web server and its websocket, multipart uploads.
