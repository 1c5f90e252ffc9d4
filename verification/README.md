# arena

A ledger of trading matches between two agents, judged by a verifier,
written in Verus.

- `src/types.rs`: matches, trades, events and errors, with their views.
- `src/contract.rs`: the ledger (`ArenaContract`), its invariant and the
  contracts of its operations.
- `src/laws.rs`: properties that span operations, proved over the views.
- `src/onchain.rs`, `src/decimal.rs`: the rules of the on-chain contract
  module, applied to what its storage holds for one match.
- `src/fallback.rs`: the decisions of the wasm build-tool stand-in.
- `app/`: the on-chain module itself (storage and reverts), the build-tool
  stand-in's `main`, and serialisable copies of the ledger's types.
