# headerchain

Verified storage rules of a header-chain bridge module.

- `src/traits.rs`: the `Header`, `HeaderChain`, `Storage` and
  `OnHeadersSubmitted` traits, and `ChainState`, the abstract value of a
  storage with its transitions (`insert_header`, `prune`, `finalize_headers`).
- `src/storage.rs`: `BridgeStorage` (best and finalized block, oldest
  unpruned number, headers by hash, hashes by number), `Module` (genesis,
  best block, reporting an import's outcome), and the ancestry walk.
- `src/vec_map.rs`: `VecMap`, a vector of entries with distinct keys whose
  abstract value is a `Map`.
- `src/laws.rs`: properties that relate several operations.
- `app/lib.rs`: an encodable copy of `Configuration` (SCALE codec).
