# zeroclaw

The logic of the ZeroClaw agent's WeChat channel, of its session files and of its MCP server, written
and proved in Verus.

- `src/channels/weixin/` — the channel over Tencent's iLink Bot Protocol: what the API's calls carry
  and answer (`api`), what its error codes mean (`error`), logins and credentials (`auth`), the
  encryption of media files (`crypto`), what is uploaded and what comes of a download (`media`),
  image markers in outgoing texts (`markers`), and the channel's own state (`mod`).
- `src/agent/session_record.rs` — sessions as they are kept on disk.
- `src/tools/mcp_serve.rs` — which tools other programs are offered, and how their requests are
  answered.
- `src/text.rs`, `src/encoding.rs`, `src/json.rs`, `src/random.rs` — what all of these build on.
- `app/` — HTTP, files, processes and the terminal.

Encryption, digests, base64, JSON, pictures and random numbers come from other crates. What is
believed of them stands above each function that calls them.
