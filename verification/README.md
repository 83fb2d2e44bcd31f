# authdog_cli

The core of the Authdog terminal CLI as a verified library, with the terminal shell around it.

- `src/` — the library, verified with Verus. Each public function states what it returns in
  its `ensures`; the `law_*` proof functions state properties that hold across inputs and
  calls.
  - `text`, `seqs`, `json` — text helpers, sorting and de-duplication as specifications, and
    JSON documents as plain values (parsing and printing go through `serde_json`).
  - `api`, `urls` — reading REST responses, error previews, URL building (through `url`).
  - `tenants`, `organizations`, `projects` — listings: rows, organisation filters, reports.
  - `cli_login` — browser sign-in: URLs, poll/redeem replies, the loopback listener's answers.
  - `commands`, `keys`, `shell`, `browse` — slash commands, key handling, list labels and
    the organisation → tenant navigator.
  - `flow` — the shell as a state machine: a submitted command, an Enter in a picker or the
    outcome of a request or a write moves the shell state and names the next outside work
    (a request, a write of the saved session, the browser sign-in).
  - `whoami`, `identity`, `wasm` — JWT claims preview and the tabular identity view.
  - `tui_output` — how output text is split into styled spans.
  - `session_store` — the saved session and where its file lives.
- `tests/` — tests of the library.
- `app/` — the program: terminal drawing (ratatui), input (crossterm), HTTP (reqwest),
  the credentials file and the browser hand-off. It performs the work that `flow` names
  and hands the outcomes back.
