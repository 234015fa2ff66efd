# Trino / Presto connector

The logic of an installable connector for Trino and Presto, verified with Verus.
A host hands the connector requests in JSON and gets answers in JSON.

- `src/stub.rs`: the connector without an engine driver, as the package ships. It
  tells what it is and refuses driver operations.
- `src/driver.rs`: the connector with the driver: `connect`, `query`, `metadata`
  and `close`. Where it needs the coordinator it says what to send, and goes on
  when it is told how that went.
- `src/connections.rs`, `src/config.rs`, `src/http.rs`, `src/statement.rs`,
  `src/catalog.rs`: the open connections, what a request configures and what is
  redacted, the HTTP requests, a statement page by page, and the catalog.
- `src/abi.rs`, `src/json.rs`, `src/codec.rs`, `src/entries.rs`, `src/text.rs`:
  buffers and requests, JSON values, `serde_json` behind them, and text.
- `app/`: the exported C functions, raw memory, and the loop that sends requests
  with `reqwest`.

Contracts speak of what `serde_json` reads and writes by two names,
`json_parsed` and `json_text`; everything around them is proved.
