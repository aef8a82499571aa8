# ratatoist

A terminal client for Todoist whose decision-making core is written in Verus
and proved against its contracts.

## Layout

- `src/` — the verified library. Functions carry `requires`/`ensures`
  contracts, and Verus proves the bodies against them; where a result
  depends on the clock, the contract says what holds for any reading.
  - `model`, `ids`, `text`, `dates` — the data model, ids and text helpers,
    calendar arithmetic and due-date labels.
  - `tasks`, `order`, `projects`, `layout`, `prs` — which tasks a view
    shows and in what order, the sidebar, the pull-request list.
  - `keys`, `nav`, `edit`, `actions`, `dispatch` — key handling, cursor
    movement, edits to tasks and forms, and the action each key leads to.
  - `sync`, `delta`, `events`, `todoist` — sync commands, applying a sync
    delta, background results, the rate-limit and reconnect policy.
  - `counters`, `poll`, `settings` — the star and tomato jars, the
    pomodoro, polling intervals, stored settings.
  - `screen`, `sources` — the texts the screen shows, and parsing of what
    the `gh`, `acli` and `gws` command-line tools print.
  - `laws` — properties that span several functions, stated as proof
    functions.
- `tests/` — tests run against the compiled library.
- `app/` — the program around the library: terminal drawing, HTTP and
  WebSocket I/O, files on disk, child processes and the event loop.

Calls into `chrono` and `serde_json` that the library needs stand behind small
trusted functions whose contracts say what those crates document.
