# beam_connect

An HTTP relay over a task broker, with its routing and checking logic
verified by Verus.

- `src/` is the verified library: the routing tables (central site
  discovery, local targets with allow lists), the decisions taken for a
  client's request and for a task from the broker, the steps of a request's
  round trip through a task or a socket, the headers of a forwarded
  request, the site discovery (taken in once at start-up), the socket task
  bookkeeping, base64 bodies and the retry policy, together with
  the character-level helpers these rely on. Calls into `http`/`hyper`,
  `glob`, `regex` and `openssl` stand behind small trusted wrappers whose
  contracts name what those crates compute.
- `app/` is the program around it: command line, files, TLS, the HTTP
  server and client, and the JSON forms of the messages.
- `tests/` runs the library on concrete inputs.
