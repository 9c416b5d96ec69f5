# pathfinder_mcp

An MCP server that bridges to Language Server Protocol servers, with its
logic verified in Verus.

- `src/` is the verified library:
  - `args` — the command-line grammar (`-e`, `-s ...`, `-w`, `-h`, `-V`)
    and the server specification it gives;
  - `config` — server configuration, its validation and root directory;
  - `documents` — which documents the server has open, and when a document
    must be opened or sent again, with the notification parameters;
  - `lsp_bridge` — request numbering, JSON-RPC messages, how answers are
    matched to requests, the `initialize` parameters and the shutdown
    procedure;
  - `transport` — Content-Length framing of messages, and the message a
    frame carries;
  - `tools::definition` — the jump-to-definition request, how the server's
    answer is read, and when an empty answer is asked for again;
  - `utils` — file names, extensions, language identifiers, `file://` URIs;
  - `json`, `json_text`, `text`, `le_bytes` — the JSON value model, JSON
    text read and written through `serde_json`, character-level helpers,
    and little-endian integers.
- `app/` runs the server: processes, streams, files and the MCP service,
  calling the library for every decision.
- `tests/` exercises the library on concrete values.
