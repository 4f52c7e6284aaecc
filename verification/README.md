# zero2prod

A small newsletter service. `src/` is the library, verified with Verus:

- `config`: database and listener settings, the database URL (kept secret),
  the bind address, and the deployment environment (`local` or `prod`, also
  written `production`) with its configuration file.
- `secret`: a string kept behind `secrecy::SecretString`.
- `decimal`: decimal notation of ports, with its round-trip law.
- `errors`: the answer to a request that failed validation.
- `handlers`: the answers of the HTTP routes, decided from what the database
  query gave.
- `models`: the subscription records, as plain values.

`app/` is the program around it: reading settings files, the database pool,
the actix-web server and logging.
