# lsp_client

A client for the Language Server Protocol, verified with Verus.

- `src/decimal.rs`: decimal text of a `usize`, written and read back.
- `src/frame.rs`: the `Content-Length` framing of messages and the reading of a header block, line by line.
- `src/json.rs`: the JSON text of outgoing requests and notifications (serde_json encodes the method name and the parameters).
- `src/message.rs`: incoming JSON-RPC messages, read with jsonrpc-lite.
- `src/client.rs`: the table of pending requests, how a response is routed to its callback, and the laws that hold of any sequence of sent requests and received messages.
- `app/lib.rs`: the shared handle, the writer to the server's stdin and the reader thread.
