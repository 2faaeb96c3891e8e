# stellar_router

The off-chain services and contract logic of the Stellar router, written in
Verus: every function in `src/` carries a contract that Verus proves.

- `src/` is the verified library: request authentication, rate limiting,
  replay protection, label cardinality limits, input validation, fee
  estimation, transaction-status polling, the WebSocket session, the SSE event
  framing and dispatch, JSON-RPC answer handling and retry policy, and models
  of the router-access, plugin-interface and fixed-rate plugin contracts.
  Calls into `dashmap`, `subtle` and the clock go through small trusted
  wrappers whose contracts are written against those crates' sources.
- `tests/` exercises the library on concrete values.
- `app/` is the unverified shell: the HTTP servers, the RPC and SSE clients,
  environment and command-line reading, Prometheus metrics, and serde copies
  of the library's types. It reads input, hands plain values to the library,
  and carries out what the library decides.

The XDR encoding and decoding that route lookups and transaction simulation
need is not part of this build, so those calls fail and the fee estimate falls
back to its heuristic model.
