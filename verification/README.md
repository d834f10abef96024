# ai_agent

A tool-using LLM agent whose decision logic is verified with Verus.

- `src/` is the verified library: the event log and execution context, the
  request and chat-message assembly, tool-call recording and confirmation
  handling, the session store, context optimization (compaction, sliding
  window, summarization planning), token counting, strict JSON schemas,
  memory prompts, ranking, file listing and reading, and the terminal's
  command parsing and output lines. Calls into `serde_json`, `tiktoken-rs`,
  `csv`, `uuid`, `chrono` and std's path and case functions go through small
  trusted wrappers whose contracts are stated next to them.
- `app/` is the terminal program: the async agent loop against the OpenAI
  API, the tools that touch the file system and the network, the SQLite
  memory store, embeddings and floating-point similarity.
- `tests/` exercises the library on concrete values.
