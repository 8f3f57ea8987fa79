# proof_of_heart

Verified pieces of a Soroban crowdfunding contract, written in Verus.

- `src/bookmarks.rs`: `save_campaign`, `remove_saved_campaign`, `get_saved`:
  a wallet's saved campaigns, read and written on the ledger, and the
  decision steps `decide_save` / `decide_remove` with their specifications
  `save_plan` / `remove_plan`.
- `src/saved_list.rs`: the edits made to a saved list (`add_bookmark`,
  `remove_bookmark`, `find_bookmark`), their specification
  (`save_outcome`, `remove_outcome`) and the laws proved of them, over
  single edits and over any run of edits (`replay`).
- `src/storage.rs`: the storage keys of saved lists and campaign records,
  and `saved_or_empty`.
- `src/lifecycle.rs`: campaign lookup (`campaign_check`) and `calculate_deadline`.
- `src/pause.rs`: the pause flags and `pause_check`.
- `src/fees.rs`: basis-point constants and the round-up law.
- `src/version.rs`: the storage layout version.
- `src/host.rs`: the `soroban_sdk` types and calls the verified code uses,
  with the contracts that are trusted about them.

`app/lib.rs` holds the entry points that require the wallet's authorization
before running a write.

Tests under `tests/` run the library against `soroban_sdk` with its
`testutils` feature.
