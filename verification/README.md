# caseboard

The verified core of a desktop case board for lawyers: the to-do ledger kept
in step with a Feishu table, the material recognition queue, the migration
safety checks that run before the database is opened, the demand-letter
workflow, and device sync over a shared NAS folder (operation capture and
packing, signed and encrypted envelopes, pairing, key rotation, snapshots and
offline recovery packages).

Layout:

- `src/` — the library, verified with Verus. Each module states its
  behaviour in `requires`/`ensures` over spec functions; properties that span
  several functions are public `proof fn lemma_*` items. Calls into outside
  crates (sha2, hmac, pbkdf2, aes-gcm, ed25519-dalek, x25519-dalek, base64,
  chrono, regex, serde_json, rand) sit behind small `external_body` functions
  whose contracts say what the crate computes; `src/outside.rs` and
  `src/device_sync/crypto.rs` hold most of them.
- `tests/` — ordinary Rust tests that run the library with the real crates.
- `app/` — the unverified shell: the data directory, the SQLite transactions
  around the library's decisions, and serde forms of library values.
