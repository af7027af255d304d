# osl

A searchable vault of the sessions of coding assistants. Sessions are read from the files
and databases in which the assistants keep them, brought into one shape, and written to a
SQLite database, where they can be searched, exported, embedded and reported on.

- `src/` is the library: what a session is, how each source is read, what is written to the
  vault, and what is printed. All of it is verified with Verus. What the library cannot
  prove, because an outside crate does it, stands in a few functions marked
  `external_body`, in `json.rs` (serde_json), `ids.rs` (uuid), `embed.rs` and `text.rs`
  (std); each says what it takes for granted.
- `tests/` runs the library, with real databases where it hands out SQL.
- `app/` is the program: the command line, files, databases, the embedder and the watcher.

## The library

| module | what it holds |
|---|---|
| `connector` | the sources, each with the exact session that its input makes up: `ClaudeCodeConnector`, `CodexCliConnector`, `CopilotChatConnector`, `HermesSessionParser`, `OpenCodeConnector`; `connector::laws` says what holds of every session |
| `ingest` | the plan by which a session is written, and a model of the vault that shows that writing twice is writing once |
| `export`, `report` | sessions and usage as Markdown; `report::shelf` says which reports are kept and when they are served again |
| `search`, `embed` | hits, and the conversation with an embedder; `embed::laws` says what one run and the next do to the messages |
| `setup`, `watch` | the guided first run and the watch, as steps from an event to what to do next |
| `recency`, `calendar` | which days count |
| `discover`, `paths`, `project` | where sessions are, and what they belong to |
| `db`, `cli` | the vault's tables, and the command line |
| `model`, `ids`, `json`, `text`, `error` | the types that all of these share |
