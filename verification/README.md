# PageWeave core

PageWeave is a desktop app that translates PDFs with the BabelDOC sidecar and converts
documents to Markdown with the markitdown sidecar. This crate is its core, written in Verus:
every public function states its result in `requires` / `ensures`, a few private helpers
carry no contract of their own, and Verus proves every function against what it states.

Layout:

- `src/` — the verified library.
  - `translate/` — the BabelDOC command line (`args`), the progress parser for BabelDOC's
    stderr (`progress`), request checks and cancellation (`commands`), the decisions of a run
    (`runner`: log events, secret masking, output discovery, how a run ends), the history
    record (`history`), the offline-assets rules (`assets`) and the task table (`state`).
  - `convert/` — the same for markitdown: accepted inputs and output names (`args`), the single
    convert slot (`state`, `commands`) and the decisions of a run (`runner`).
  - `provider/` — presets, provider records and their export, and the connection test / model
    listing (`connectivity`: key choice, URLs, what each HTTP reply means).
  - `registry`, `order`, `paths`, `text`, `sidecar`, `ids` — the task table model,
    lexicographic order and sorting, path components, text helpers, what is shared by both
    sidecars, and the forms of fresh ids and time stamps.
  - `deps` — the few calls into `regex`, `encoding_rs`, `serde_json`, `chrono`, `uuid` and std,
    each behind a trusted contract.
- `tests/` — tests of the library on concrete values.
- `app/` — the Tauri shell: commands, the SQLite store, process spawning and HTTP. It hands
  plain values to the library and acts on what it returns.
