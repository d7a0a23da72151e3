# shard_state

The state of one shard of an asset ledger: asset schemes and owned assets, kept in a write-back
cache with checkpoints over a trie, and the transactions that change them. The library is
verified with Verus.

- `hash`, `address`: hash values, BLAKE2b digests, and the addresses of schemes and assets
- `item`, `transaction`, `error`: schemes, assets, transactions, and why they are refused
- `table`, `cache`, `db`: the cache with its checkpoints, and the leaves that were read of a trie
- `script`: whether the scripts of an input have to be run, and what their outcome means
- `pool`, `orders`, `metadata`: amounts added up by type, orders on a transfer, wrapped coin
- `ledger`: what each transaction makes of a shard, as a mathematical function
- `traits`, `shard_level`: the state itself, proved to do what `ledger` says
- `laws`, `conservation`, `locality`: what follows for all transactions

The scripts of inputs are run by a machine outside the library. `ShardLevelState::script_runs`
says what has to be run, and `apply` takes the outcomes. The leaves that a transaction reads are
listed by `touched_schemes` and `touched_assets`, so that they can be fetched before. `app/`
connects both to a node.

Two functions are trusted, both in `hash`: they call the `blake2` crate, and claim only that a
digest is a function of what is hashed and of the key.
