# claude_chat

The verified core of a chat bridge in which agents call tools, message each
other and fetch secrets from a policy-guarded vault.

- `src/agent/tool.rs`: reading `send_to_agent` and `get_secret` tool calls out
  of an agent's reply, and framing messages between agents;
  `src/agent/tool_laws.rs` states what holds of every reply.
- `src/secrets/vault.rs`: the policy (which agent may read which secrets), the
  vault's file layout and its error messages.
- `src/secrets/mcp_server.rs`: the secrets service, answering a request in
  steps that ask the caller to read a file or encrypt, and end in the reply;
  `src/secrets/laws.rs` states what holds across those steps.
- `src/secrets/encoding.rs`: base64 text of the encrypted secret.
- `src/observability/metrics.rs`: the metrics that the service reports and
  their registration; `src/observability/recorder.rs`: the describe calls on
  the installed recorder, with a record of them that only those calls extend.
- `src/text.rs`: character-level helpers (whitespace, trimming, joining,
  decimal numbers, path joining).
- `app/`: file reading, TOML policy loading, age encryption, logging and the
  Prometheus endpoint, around the library.
