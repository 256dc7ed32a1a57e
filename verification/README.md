# openhuman_terminal

Interactive PTY terminal sessions for local shells and SSH, as a verified
library with a thin process layer around it.

- `src/` is verified with Verus:
  - `types` — requests, responses, statuses, timestamps and errors;
  - `validation` — checks of start requests and SSH parameters, size normalization;
  - `session` — one session's state and its bounded, numbered output buffer;
  - `manager` — the registry of sessions and every step of the RPC operations;
  - `command` — labels, `ssh`/shell invocations, environment and working-directory checks;
  - `redact` — credential scrubbing over the matches of the `regex` crate;
  - `audit` — audit events, approval routing and approval reports;
  - `schemas` — the controller schemas of the terminal namespace;
  - `text` — UTF-8 aware string helpers.
- `app/` holds what touches the operating system: pseudo-terminals, child
  processes, reader threads, JSON wire types and the RPC entry points.
- `tests/` exercises the library on concrete values.
