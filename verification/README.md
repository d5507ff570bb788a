# central_manage

The central management service registers agents, registers their quotas,
issues quotas with a fresh signature and reports quota statistics.

- `src/` is the library, verified with Verus: request rules, the bytes from
  which record identifiers are digested, hexadecimal text, the stages of
  quota issuing and of quota statistics (which query runs next, which reply
  ends a request) and the statistics sums with their overflow conditions.
- `app/` is the HTTP server around it: argument handling, database access,
  the key file, SM3 digests and the signature scheme, and the JSON forms of
  requests and replies.
- `tests/` runs the library on concrete values.
