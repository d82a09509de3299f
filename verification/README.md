# herdr_native

Native-session helpers for Herdr, written in Verus: optional activity reports without a pane,
guarded answers to native prompts, and the DSH driver, a terminal client for an external ACP
runtime.

- `src/text.rs`, `src/json.rs`, `src/digest.rs`: text, documents and digests. `serde_json` reads and
  prints the documents and `sha2` computes the digests; what is taken on trust about them stands in
  the last two files.
- `src/activity.rs`, `src/api.rs`, `src/strip.rs`: activity reports, their answers, and the strip
  that shows them.
- `src/menu.rs`, `src/native_prompt.rs`: numbered menus, and the request that inspects or answers
  one, as a state machine.
- `src/dsh/`: launch arguments, launch records, configuration values, frames of the agent protocol,
  the driver's state, the line editor, and the launch as a state machine.

Each module states what its functions do over mathematical models, and as `law_*` proof functions
what holds across calls. `app/` holds what touches the terminal, processes, files and the wire.
