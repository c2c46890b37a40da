# gntp

A client for the Growl Notification Transport Protocol (GNTP 1.0), verified with Verus.

- `src/` is the verified library: building REGISTER and NOTIFY messages (`client`), icon
  resources and their delivery modes (`resource`), base64 (`base64`), notification types and
  options (`notification`), errors (`error`), the decisions of the `sendgrowl` command
  (`delivery`), text helpers (`text`) and the library's laws (`laws`).
- `app/` is the `sendgrowl` program: command line, reading icon files, TCP exchanges with the
  server, retries with delays.
- `tests/` runs the library on concrete values.
