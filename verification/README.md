# zeroclaw_core

The decision logic of the ZeroClaw agent runtime, written in Verus: every function in
`src/` carries a contract and is proved against it.

- `src/mcp` — JSON-RPC framing, server configuration, and the tool ledger of the MCP
  registry (names are unique across servers, builtin names are reserved, a total cap holds).
- `src/lark` — Lark / Feishu: URLs, event payload parsing, webhook replies, the long
  connection's frames, fragment reassembly, duplicate suppression and streaming cards.
- `src/docs_sync` — the code-block document format (parse and serialise are inverse),
  the Feishu Docs client's responses and retry policy, sharing and the sync worker's steps.
- `src/hooks` — hook manifests, the audit, loading order, condition matching, the
  modifying pipeline (priority order, stop at the first cancellation) and the reload stamp.
- `src/skills` — skill sources, prompt rendering, the skills CLI.
- `src/multimodal.rs` — image and video markers, MIME detection, data URIs.
- `src/providers.rs` — external provider definitions and the registry's reload.
- `src/transcription.rs` — the integer side of speech recognition: input checks, frame
  counts, language ids and the CTC label collapse.
- `src/tools` — the agent tools' argument checks and results.

Calls into `regex`, `base64`, `sha2` and `std::path` go through small trusted wrappers
whose contracts are stated beside them. `app/` holds the file, process and serde glue
that Verus does not see: reading and writing the hook, skill, provider, MCP and sync files,
the MCP stdio client, and the Lark frame codec. The network loops (HTTP clients, the long
connection, the file watcher) are not part of this crate; their decisions are the step
functions of `src/`. `tests/` runs the library on concrete values.
