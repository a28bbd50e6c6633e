# asm_lsp

Document handling for an assembly language server, verified with Verus.

The library keeps the text and the syntax tree of every open assembly document in step, and decides
what is done about each message from the client. The connection to the client, the compilers and
the answers to queries are outside of it: a request or a notification comes in as plain values, and
a step that says what to do next comes back.

- `src/filter.rs`, `src/text.rs`: which documents are assembly
- `src/uri.rs`, `src/path.rs`: parsed document URIs and the extensions of their paths
- `src/lines.rs`: where lines start, and which place a position names
- `src/documents.rs`: open documents and changes to them
- `src/syntax.rs`: the assembly parser and its trees
- `src/store.rs`: the store of documents and trees, and its invariant
- `src/params.rs`: reading the parameters of messages
- `src/protocol.rs`: messages, steps and replies
- `src/handle.rs`: the handlers
- `src/diagnostics.rs`: which compile commands produce the diagnostics of a file
- `src/laws.rs`: what holds of the server as a whole
- `app/`: the connection, in ordinary Rust

Calls into `lsp_server`, `lsp_types`, `lsp_textdocument`, `serde_json`, `tree_sitter` and
`tree_sitter_asm`, and that of the standard library for the extension of a path, go through small
functions marked `external_body`. The comment above each names the outside function and says what
is believed of it.
