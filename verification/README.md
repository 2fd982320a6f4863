# stateless

Stateless validation of an Ethereum block: given a block and an execution
witness, decide whether the block is valid, and optionally derive the state
root and the candidate block hash after selected transactions.

- `src/` is the library. It checks the ancestor chain and the checkpoint
  selection, puts candidate headers together, holds the access list against its
  limit, and fixes what the outside world is asked, in which order, and what
  each reply leads to. Its functions are verified with Verus.
- `app/` is the program around it, which is not verified. It recovers the
  senders, asks the consensus rules, builds the witness tries, runs the EVM and
  converts between the library's plain values and those of the outside crates.
- `tests/` runs the library with the real hashing and encoding crates.

A validation is a chain of stages (`src/validation.rs`, `src/replay.rs`,
`src/output.rs`). A stage says what it waits for; its one consuming method takes
the reply and gives the next stage or the error that ends the validation.

    inputs -> consensus rules -> trie -> execution -> post-execution rules -> state root

## What is trusted

The proofs rest on the contracts of these wrappers, each of which calls an
outside crate:

- `keccak256`, `ordered_trie_root_encoded` (`src/primitives.rs`)
- `header_hash_slow` (`src/header.rs`)
- `decode_exact_header` (`src/ancestors.rs`)
- `encoded_with_bloom`, `logs_bloom` (`src/receipt.rs`)
- `empty_requests_hash` (`src/candidate.rs`)
- `outside_slots`, `outside_account`, `total_bal_items`,
  `compute_block_access_list_hash`, `item_cost` (`src/access_list.rs`)

They also rest on the program: a verdict of the consensus rules, a state root or
the outcome of a transaction is taken as it is handed in.
