# autoban

A self-help iptables whitelist service: clients call an HTTP API with a key to whitelist
their address, blacklist others, and list the traffic counted for each whitelisted block.

- `src/` is the verified library. It holds the state of the filter service (the listed
  blocks and ports and the rule settings), computes every change to the `filter` table as a
  list of `TableOp`s, reads the traffic counters out of `iptables -vnL` listings, and decides
  and words every API reply. Each public function has a contract, and `src/laws.rs` proves
  the properties that tie the functions together, among them what the changes do to a model
  of the `filter` table (`src/filer_service/table.rs`).
- `app/` is the program around it: the HTTP server, reading the configuration file, running
  `iptables`, listing the host's addresses, and looking addresses up in the location file.
- `tests/` runs the library on concrete values.
