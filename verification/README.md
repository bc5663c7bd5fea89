# tapd_cli

A command-line client for the TAPD project management service, with its
decision logic verified in Verus.

- `src/` — the verified library:
  - `text` — character-level string operations (trim, split, join, search,
    decimal formatting, `i64` parsing), each proved against a spec;
  - `params` — request parameter maps built from `key=value` arguments,
    and their JSON form;
  - `ids` — conversion of short IDs to TAPD's long form;
  - `config` — configuration from environment variables;
  - `client` — client state, headers, URLs, ID normalisation, nick fields,
    response checks, WeCom messages;
  - `cli` — the commands;
  - `dispatch` — what each command asks of the API;
  - `update` — the decisions of the self-update command.
- `app/` — the program: command-line parsing, environment, HTTP, output.
- `tests/` — tests of the library on concrete values.
