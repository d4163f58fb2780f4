# panewatch

A monitor for tmux panes running trading bots: it pipes each pane's output
through a FIFO, strips ANSI escapes while tracking the style, recognises the
bots' structured blocks (analytics, trades, exits, market ends, session
summaries), keeps a bounded replay buffer per pane, and serves it all over
HTTP and WebSocket, together with statistics read from the bots' CSV logs.

## Layout

- `src/` is the library, written in Verus and verified:
  - `text` — string helpers with exact models (`trim`, prefixes, decimal
    numbers, `lines`).
  - `pattern` — the one place a regular expression is run (`regex`).
  - `types`, `config` — the event and configuration types and the command
    line.
  - `performer` — what each escape-sequence action does to the clean text and
    the current style.
  - `semantic` — the per-pane state machine that turns lines into structured
    reports, with its laws.
  - `registry` — the pane registry and its bounded replay buffers, with their
    laws. The panes are kept in a list of distinct pane ids in registration
    order rather than a `HashMap`: with `String` keys, Verus's specifications
    of the std maps do not let a contract say what a lookup or an insertion
    gives, while a list with a no-duplicates invariant can be stated exactly.
  - `tmux`, `pipeline`, `server`, `trades` — the decisions around attaching
    and detaching panes, each piped line, the WebSocket replies and the trade
    logs. The per-day bet counts are a list sorted by date (the order of
    `String`'s `<`) rather than a `BTreeMap`, for the same reason.
- `app/` is the program around it: `main`, the tokio tasks, the axum server,
  file and process I/O, the `vte` driver and the serde copies of the library
  types.
- `tests/` runs the library on concrete inputs.
