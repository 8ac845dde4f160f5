# vitals

An Apple Silicon system monitor: a CLI that prints structured JSON
(`snapshot`, `top`, `pressure`, `watch`), a local web dashboard, and a menu
bar tray that updates itself from GitHub releases.

The decisions the program makes are a Verus library, proved against their
contracts; the machine, the network, the file system and AppKit stay in an
ordinary Rust program around it.

## Layout

- `src/` — the verified library (`vitals`):
  - `pressure` — how the pressure call is made (reasons, severity, suspects, summary).
  - `procs` — attributing processes to apps and ranking them by CPU and memory.
  - `serve` — the dashboard's request router, `Host` check, replies and port probe.
  - `update` — version and release parsing, the checksum list, the check
    outcome, and the install sequence as a state machine.
  - `tray` — menu texts, the sampler feed, panel state, login-item menu.
  - `cadence`, `cli`, `history`, `ring`, `schema`, `sysctl`, `thermal`,
    `window`, `json`, `text` — the smaller pieces and shared text helpers.
- `tests/` — tests of the library, run with the real outside crates.
- `app/` — the program: argument parsing, sampling the machine, HTTP,
  files, AppKit, and the serde copies of the library's types.

Each `pub proof fn lemma_*` in `src/` states a property of the library as a
whole; the `ensures` of each public function states what it returns.
