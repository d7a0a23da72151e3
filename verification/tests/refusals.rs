//! What is refused, what cannot be read, and what stays as it was.

use shard_state::address::{AssetSchemeAddress, OwnedAssetAddress};
use shard_state::cache::ShardCache;
use shard_state::db::{Leaf, ShardTrie, StateDB};
use shard_state::error::{
    Invoice, StateError, StateResult, TransactionError, TrieError, UnlockFailureReason,
};
use shard_state::hash::{script_hash, Address, ShardId, H160, H256};
use shard_state::item::{Asset, AssetScheme, OwnedAsset};
use shard_state::script::ScriptOutcome;
use shard_state::shard_level::ShardLevelState;
use shard_state::traits::ShardStateView;
use shard_state::transaction::{
    AssetMintOutput, AssetOutPoint, AssetTransferInput, AssetTransferOutput, AssetWrapCCCOutput,
    InnerTransaction, Order, OrderOnTransfer, Transaction,
};

const SHARD_ID: ShardId = 3;
const LOCK: [u8; 2] = [0x30, 0x01];

fn address(n: u8) -> Address {
    Address(H160([n; 20]))
}

fn hash(n: u8) -> H256 {
    H256([n; 32])
}

fn scheme_type(transaction_hash: H256) -> H256 {
    H256::from(AssetSchemeAddress::new(transaction_hash, SHARD_ID))
}

fn asset_at(transaction_hash: H256, index: usize) -> H256 {
    H256::from(OwnedAssetAddress::new(transaction_hash, index, SHARD_ID))
}

fn amount_at(state: &ShardLevelState, transaction_hash: H256, index: usize) -> Option<u64> {
    state
        .asset(&OwnedAssetAddress::new(transaction_hash, index, SHARD_ID))
        .unwrap()
        .map(|asset| asset.amount())
}

fn mint(n: u8, amount: u64, administrator: Option<Address>) -> InnerTransaction {
    InnerTransaction::General(Transaction::AssetMint {
        hash: hash(n),
        metadata: "metadata".to_string(),
        approver: None,
        administrator,
        output: AssetMintOutput {
            lock_script_hash: script_hash(&LOCK),
            parameters: vec![],
            amount: Some(amount),
        },
    })
}

fn minted(state: &mut ShardLevelState, n: u8, amount: u64, administrator: Option<Address>) {
    let transaction = mint(n, amount, administrator);
    assert_eq!(
        Ok(Invoice::Success),
        state.apply(&transaction, &address(1), &[], &[], &[])
    );
}

fn out_point(n: u8, asset_type: H256, amount: u64) -> AssetOutPoint {
    AssetOutPoint { transaction_hash: hash(n), index: 0, asset_type, amount }
}

fn input(prev_out: AssetOutPoint) -> AssetTransferInput {
    AssetTransferInput { prev_out, lock_script: LOCK.to_vec(), unlock_script: vec![] }
}

fn output(asset_type: H256, amount: u64) -> AssetTransferOutput {
    AssetTransferOutput {
        lock_script_hash: script_hash(&LOCK),
        parameters: vec![],
        asset_type,
        amount,
    }
}

fn transfer(
    n: u8,
    burns: Vec<AssetTransferInput>,
    inputs: Vec<AssetTransferInput>,
    outputs: Vec<AssetTransferOutput>,
    orders: Vec<OrderOnTransfer>,
) -> InnerTransaction {
    InnerTransaction::General(Transaction::AssetTransfer {
        hash: hash(n),
        burns,
        inputs,
        outputs,
        orders,
    })
}

fn compose(n: u8, inputs: Vec<AssetTransferInput>) -> InnerTransaction {
    InnerTransaction::General(Transaction::AssetCompose {
        hash: hash(n),
        metadata: "composed".to_string(),
        approver: None,
        administrator: None,
        inputs,
        output: AssetMintOutput {
            lock_script_hash: script_hash(&LOCK),
            parameters: vec![],
            amount: Some(1),
        },
    })
}

fn decompose(
    n: u8,
    input: AssetTransferInput,
    outputs: Vec<AssetTransferOutput>,
) -> InnerTransaction {
    InnerTransaction::General(Transaction::AssetDecompose { hash: hash(n), input, outputs })
}

fn failure(error: TransactionError) -> StateResult<Invoice> {
    Ok(Invoice::Failure(error))
}

#[test]
fn an_asset_that_is_not_there_cannot_be_spent() {
    let db = StateDB::new();
    let mut cache = ShardCache::new();
    let mut state = ShardLevelState::try_new(SHARD_ID, &db, &mut cache).unwrap();
    let transaction =
        transfer(11, vec![], vec![input(out_point(10, scheme_type(hash(10)), 30))], vec![], vec![]);
    assert_eq!(
        failure(TransactionError::AssetNotFound(asset_at(hash(10), 0))),
        state.apply(&transaction, &address(1), &[], &[], &[ScriptOutcome::Unlocked])
    );
}

#[test]
fn an_asset_is_spent_only_once() {
    let db = StateDB::new();
    let mut cache = ShardCache::new();
    let mut state = ShardLevelState::try_new(SHARD_ID, &db, &mut cache).unwrap();
    minted(&mut state, 10, 30, None);
    let asset_type = scheme_type(hash(10));
    let twice = transfer(
        11,
        vec![],
        vec![input(out_point(10, asset_type, 30)), input(out_point(10, asset_type, 30))],
        vec![output(asset_type, 60)],
        vec![],
    );
    let outcomes = [ScriptOutcome::Unlocked, ScriptOutcome::Unlocked];
    assert_eq!(
        failure(TransactionError::AssetNotFound(asset_at(hash(10), 0))),
        state.apply(&twice, &address(1), &[], &[], &outcomes)
    );
    assert_eq!(Some(30), amount_at(&state, hash(10), 0));
    assert_eq!(None, amount_at(&state, hash(11), 0));

    let once = transfer(
        12,
        vec![],
        vec![input(out_point(10, asset_type, 30))],
        vec![output(asset_type, 30)],
        vec![],
    );
    let outcomes = [ScriptOutcome::Unlocked];
    assert_eq!(Ok(Invoice::Success), state.apply(&once, &address(1), &[], &[], &outcomes));
    assert_eq!(
        failure(TransactionError::AssetNotFound(asset_at(hash(10), 0))),
        state.apply(&once, &address(1), &[], &[], &outcomes)
    );
    assert_eq!(Some(30), amount_at(&state, hash(12), 0));
}

#[test]
fn scripts_decide_whether_an_asset_moves() {
    let db = StateDB::new();
    let mut cache = ShardCache::new();
    let mut state = ShardLevelState::try_new(SHARD_ID, &db, &mut cache).unwrap();
    minted(&mut state, 10, 30, None);
    let asset_type = scheme_type(hash(10));
    let move_it =
        transfer(11, vec![], vec![input(out_point(10, asset_type, 30))], vec![], vec![]);
    let burn_it =
        transfer(12, vec![input(out_point(10, asset_type, 30))], vec![], vec![], vec![]);
    let at = asset_at(hash(10), 0);
    let unlock = |reason| failure(TransactionError::FailedToUnlock { address: at, reason });
    assert_eq!(
        failure(TransactionError::InvalidScript),
        state.apply(&move_it, &address(1), &[], &[], &[ScriptOutcome::InvalidScript])
    );
    assert_eq!(
        unlock(UnlockFailureReason::ScriptShouldBeBurnt),
        state.apply(&move_it, &address(1), &[], &[], &[ScriptOutcome::Burnt])
    );
    assert_eq!(
        unlock(UnlockFailureReason::ScriptShouldNotBeBurnt),
        state.apply(&burn_it, &address(1), &[], &[], &[ScriptOutcome::Unlocked])
    );
    assert_eq!(
        unlock(UnlockFailureReason::ScriptError),
        state.apply(&move_it, &address(1), &[], &[], &[ScriptOutcome::Fail])
    );
    assert_eq!(
        unlock(UnlockFailureReason::ScriptError),
        state.apply(&burn_it, &address(1), &[], &[], &[ScriptOutcome::RuntimeError])
    );
    assert_eq!(Some(30), amount_at(&state, hash(10), 0));
    assert_eq!(
        Ok(Invoice::Success),
        state.apply(&burn_it, &address(1), &[], &[], &[ScriptOutcome::Burnt])
    );
    assert_eq!(None, amount_at(&state, hash(10), 0));
}

#[test]
fn only_the_administrator_burns_a_centralized_asset() {
    let db = StateDB::new();
    let mut cache = ShardCache::new();
    let mut state = ShardLevelState::try_new(SHARD_ID, &db, &mut cache).unwrap();
    let administrator = address(9);
    minted(&mut state, 10, 30, Some(administrator));
    let asset_type = scheme_type(hash(10));
    let burn = transfer(12, vec![input(out_point(10, asset_type, 30))], vec![], vec![], vec![]);
    assert_eq!(
        failure(TransactionError::CannotBurnCentralizedAsset),
        state.apply(&burn, &address(1), &[], &[], &[ScriptOutcome::Burnt])
    );
    assert_eq!(
        Ok(Invoice::Success),
        state.apply(&burn, &address(1), &[], &[administrator], &[ScriptOutcome::Fail])
    );
}

#[test]
fn a_centralized_asset_is_not_composed() {
    let db = StateDB::new();
    let mut cache = ShardCache::new();
    let mut state = ShardLevelState::try_new(SHARD_ID, &db, &mut cache).unwrap();
    let administrator = address(9);
    minted(&mut state, 10, 30, Some(administrator));
    minted(&mut state, 20, 5, None);
    let composition = compose(
        11,
        vec![
            input(out_point(20, scheme_type(hash(20)), 5)),
            input(out_point(10, scheme_type(hash(10)), 30)),
        ],
    );
    let outcomes = [ScriptOutcome::Unlocked, ScriptOutcome::Unlocked];
    assert_eq!(
        failure(TransactionError::CannotComposeCentralizedAsset),
        state.apply(&composition, &administrator, &[], &[], &outcomes)
    );
    assert_eq!(Some(30), amount_at(&state, hash(10), 0));
    assert_eq!(Some(5), amount_at(&state, hash(20), 0));
}

#[test]
fn a_scheme_is_changed_by_its_administrator_only() {
    let db = StateDB::new();
    let mut cache = ShardCache::new();
    let mut state = ShardLevelState::try_new(SHARD_ID, &db, &mut cache).unwrap();
    minted(&mut state, 10, 30, Some(address(9)));
    minted(&mut state, 20, 30, None);
    let change = |asset_type| {
        InnerTransaction::General(Transaction::AssetSchemeChange {
            hash: hash(11),
            asset_type,
            metadata: "new".to_string(),
            approver: None,
            administrator: None,
        })
    };
    let centralized = scheme_type(hash(10));
    let free = scheme_type(hash(20));
    let unknown = scheme_type(hash(30));
    let malformed = asset_at(hash(10), 0);
    assert_eq!(
        failure(TransactionError::InsufficientPermission),
        state.apply(&change(centralized), &address(1), &[], &[], &[])
    );
    assert_eq!(
        failure(TransactionError::InsufficientPermission),
        state.apply(&change(free), &address(1), &[], &[], &[])
    );
    assert_eq!(
        failure(TransactionError::AssetSchemeNotFound(unknown)),
        state.apply(&change(unknown), &address(1), &[], &[], &[])
    );
    assert_eq!(
        failure(TransactionError::AssetSchemeNotFound(malformed)),
        state.apply(&change(malformed), &address(1), &[], &[], &[])
    );
    assert_eq!(
        Ok(Invoice::Success),
        state.apply(&change(centralized), &address(9), &[], &[], &[])
    );
}

#[test]
fn an_order_takes_all_of_its_origin_outputs_or_none() {
    let db = StateDB::new();
    let mut cache = ShardCache::new();
    let mut state = ShardLevelState::try_new(SHARD_ID, &db, &mut cache).unwrap();
    minted(&mut state, 10, 30, None);
    minted(&mut state, 20, 30, None);
    let first = out_point(10, scheme_type(hash(10)), 30);
    let second = out_point(20, scheme_type(hash(20)), 30);
    let with_origins = |origin_outputs| {
        transfer(
            11,
            vec![],
            vec![input(first)],
            vec![output(scheme_type(hash(10)), 30)],
            vec![OrderOnTransfer {
                order: Order { hash: hash(40), origin_outputs },
                consumed_hash: hash(41),
                input_indices: vec![0],
                output_indices: vec![0],
            }],
        )
    };
    let outcomes = [ScriptOutcome::Unlocked];
    assert_eq!(
        failure(TransactionError::InvalidOriginOutputs(hash(40))),
        state.apply(&with_origins(vec![second]), &address(1), &[], &[], &outcomes)
    );
    assert_eq!(
        failure(TransactionError::InvalidOriginOutputs(hash(40))),
        state.apply(&with_origins(vec![first, second]), &address(1), &[], &[], &outcomes)
    );
    assert_eq!(
        Ok(Invoice::Success),
        state.apply(&with_origins(vec![first]), &address(1), &[], &[], &outcomes)
    );

    // What is left of the order moves the output on without its scripts.
    let rest = AssetOutPoint {
        transaction_hash: hash(11),
        index: 0,
        asset_type: scheme_type(hash(10)),
        amount: 30,
    };
    let onward = transfer(
        12,
        vec![],
        vec![input(rest)],
        vec![output(scheme_type(hash(10)), 30)],
        vec![OrderOnTransfer {
            order: Order { hash: hash(41), origin_outputs: vec![] },
            consumed_hash: hash(42),
            input_indices: vec![0],
            output_indices: vec![0],
        }],
    );
    assert_eq!(
        Ok(Invoice::Success),
        state.apply(&onward, &address(1), &[], &[], &[ScriptOutcome::Fail])
    );
    let moved = state.asset(&OwnedAssetAddress::new(hash(12), 0, SHARD_ID)).unwrap().unwrap();
    assert_eq!(Some(hash(42)), moved.order_hash);
}

#[test]
fn the_last_order_that_names_an_output_counts() {
    let db = StateDB::new();
    let mut cache = ShardCache::new();
    let mut state = ShardLevelState::try_new(SHARD_ID, &db, &mut cache).unwrap();
    minted(&mut state, 10, 30, None);
    minted(&mut state, 20, 30, None);
    let first = out_point(10, scheme_type(hash(10)), 30);
    let second = out_point(20, scheme_type(hash(20)), 30);
    let order = |n: u8, origin, at| OrderOnTransfer {
        order: Order { hash: hash(n), origin_outputs: vec![origin] },
        consumed_hash: hash(n + 1),
        input_indices: vec![at],
        output_indices: vec![0],
    };
    let transaction = transfer(
        11,
        vec![],
        vec![input(first), input(second)],
        vec![output(scheme_type(hash(10)), 30)],
        vec![order(40, first, 0), order(50, second, 1)],
    );
    let outcomes = [ScriptOutcome::Unlocked, ScriptOutcome::Unlocked];
    assert_eq!(Ok(Invoice::Success), state.apply(&transaction, &address(1), &[], &[], &outcomes));
    let made = state.asset(&OwnedAssetAddress::new(hash(11), 0, SHARD_ID)).unwrap().unwrap();
    assert_eq!(Some(hash(51)), made.order_hash);
}

#[test]
fn composing_adds_up_by_type_and_decomposing_gives_it_back() {
    let db = StateDB::new();
    let mut cache = ShardCache::new();
    let mut state = ShardLevelState::try_new(SHARD_ID, &db, &mut cache).unwrap();
    minted(&mut state, 10, 30, None);
    minted(&mut state, 20, 5, None);
    let one = scheme_type(hash(10));
    let other = scheme_type(hash(20));
    let split = transfer(
        11,
        vec![],
        vec![input(out_point(10, one, 30))],
        vec![output(one, 12), output(one, 18)],
        vec![],
    );
    let unlocked = ScriptOutcome::Unlocked;
    assert_eq!(Ok(Invoice::Success), state.apply(&split, &address(1), &[], &[], &[unlocked]));

    let part = |index, amount| {
        input(AssetOutPoint { transaction_hash: hash(11), index, asset_type: one, amount })
    };
    let composition =
        compose(12, vec![part(0, 12), input(out_point(20, other, 5)), part(1, 18)]);
    assert_eq!(
        Ok(Invoice::Success),
        state.apply(&composition, &address(1), &[], &[], &[unlocked; 3])
    );
    let composed = scheme_type(hash(12));
    let scheme =
        state.asset_scheme(&AssetSchemeAddress::new(hash(12), SHARD_ID)).unwrap().unwrap();
    assert_eq!(vec![Asset::new(one, 30), Asset::new(other, 5)], scheme.pool);
    assert_eq!(None, amount_at(&state, hash(11), 0));
    assert_eq!(None, amount_at(&state, hash(11), 1));
    assert_eq!(None, amount_at(&state, hash(20), 0));

    let apart = |outputs| decompose(13, input(out_point(12, composed, 1)), outputs);
    assert_eq!(
        failure(TransactionError::InvalidDecomposedOutput {
            address: hash(99),
            expected: 0,
            got: 2
        }),
        state.apply(
            &apart(vec![output(one, 30), output(other, 5), output(hash(99), 2)]),
            &address(1),
            &[],
            &[],
            &[unlocked]
        )
    );
    assert_eq!(
        failure(TransactionError::InvalidDecomposedOutput { address: one, expected: 30, got: 31 }),
        state.apply(
            &apart(vec![output(one, 31), output(other, 5)]),
            &address(1),
            &[],
            &[],
            &[unlocked]
        )
    );
    assert_eq!(
        Ok(Invoice::Success),
        state.apply(
            &apart(vec![output(other, 2), output(one, 30), output(other, 3)]),
            &address(1),
            &[],
            &[],
            &[unlocked]
        )
    );
    assert_eq!(Some(2), amount_at(&state, hash(13), 0));
    assert_eq!(Some(30), amount_at(&state, hash(13), 1));
    assert_eq!(Some(3), amount_at(&state, hash(13), 2));
    assert_eq!(None, amount_at(&state, hash(12), 0));
    assert_eq!(Ok(None), state.asset_scheme(&AssetSchemeAddress::new(hash(12), SHARD_ID)));
}

#[test]
fn decomposing_needs_a_scheme() {
    let db = StateDB::new();
    let mut cache = ShardCache::new();
    let mut state = ShardLevelState::try_new(SHARD_ID, &db, &mut cache).unwrap();
    for asset_type in [scheme_type(hash(10)), asset_at(hash(10), 0)] {
        let transaction = decompose(13, input(out_point(10, asset_type, 1)), vec![]);
        assert_eq!(
            failure(TransactionError::AssetSchemeNotFound(asset_type)),
            state.apply(&transaction, &address(1), &[], &[], &[ScriptOutcome::Unlocked])
        );
    }
}

#[test]
fn nothing_is_defined_for_some_transactions() {
    let db = StateDB::new();
    let mut cache = ShardCache::new();
    let mut state = ShardLevelState::try_new(SHARD_ID, &db, &mut cache).unwrap();
    minted(&mut state, 10, 30, None);
    let asset_type = scheme_type(hash(10));
    let unlocked = ScriptOutcome::Unlocked;
    let spend = |claimed, input_indices, output_indices| {
        transfer(
            11,
            vec![],
            vec![input(out_point(10, claimed, 30))],
            vec![output(claimed, 30)],
            vec![OrderOnTransfer {
                order: Order {
                    hash: hash(40),
                    origin_outputs: vec![out_point(10, claimed, 30)],
                },
                consumed_hash: hash(41),
                input_indices,
                output_indices,
            }],
        )
    };
    // An order names an input or an output that is not there.
    let beyond_inputs = spend(asset_type, vec![1], vec![]);
    assert_eq!(None, state.try_apply(&beyond_inputs, &address(1), &[], &[], &[unlocked]));
    let beyond_outputs = spend(asset_type, vec![0], vec![1]);
    assert_eq!(None, state.try_apply(&beyond_outputs, &address(1), &[], &[], &[unlocked]));
    // An input claims a type that no scheme stands for.
    let unknown_type = spend(scheme_type(hash(77)), vec![0], vec![0]);
    assert_eq!(None, state.try_apply(&unknown_type, &address(1), &[], &[], &[unlocked]));
    let malformed_type = spend(hash(0), vec![0], vec![0]);
    assert_eq!(None, state.try_apply(&malformed_type, &address(1), &[], &[], &[unlocked]));
    // There is not one outcome for each spending.
    let sound = spend(asset_type, vec![0], vec![0]);
    assert_eq!(None, state.try_apply(&sound, &address(1), &[], &[], &[]));
    assert_eq!(Some(30), amount_at(&state, hash(10), 0));

    assert_eq!(
        Some(Ok(Invoice::Success)),
        state.try_apply(&sound, &address(1), &[], &[], &[unlocked])
    );
    assert_eq!(None, amount_at(&state, hash(10), 0));
    assert_eq!(Some(30), amount_at(&state, hash(11), 0));
}

#[test]
fn a_sum_that_is_no_amount_is_not_defined() {
    let db = StateDB::new();
    let mut cache = ShardCache::new();
    let mut state = ShardLevelState::try_new(SHARD_ID, &db, &mut cache).unwrap();
    let asset_type = scheme_type(hash(10));
    let scheme = AssetSchemeAddress::new(hash(10), SHARD_ID);
    let pool = vec![Asset::new(hash(5), 1)];
    assert!(state.create_asset_scheme(&scheme, "m".to_string(), 1, None, None, pool).is_ok());
    let first = OwnedAssetAddress::new(hash(10), 0, SHARD_ID);
    let second = OwnedAssetAddress::new(hash(20), 0, SHARD_ID);
    let lock = script_hash(&LOCK);
    assert!(state.create_asset(&first, asset_type, lock, vec![], u64::MAX, None).is_ok());
    assert!(state.create_asset(&second, asset_type, lock, vec![], 1, None).is_ok());
    let unlocked = ScriptOutcome::Unlocked;
    let composition = compose(
        11,
        vec![
            input(out_point(10, asset_type, u64::MAX)),
            input(out_point(20, asset_type, 1)),
        ],
    );
    assert_eq!(None, state.try_apply(&composition, &address(1), &[], &[], &[unlocked; 2]));
    let apart = decompose(
        12,
        input(out_point(20, asset_type, 1)),
        vec![output(hash(5), u64::MAX), output(hash(5), 1)],
    );
    assert_eq!(None, state.try_apply(&apart, &address(1), &[], &[], &[unlocked]));
    assert_eq!(Some(u64::MAX), amount_at(&state, hash(10), 0));
    assert_eq!(Some(1), amount_at(&state, hash(20), 0));
}

#[test]
fn a_leaf_that_cannot_be_read_fails_the_transaction() {
    let missing = TrieError::IncompleteDatabase(hash(66));
    let root = hash(60);
    let mut trie = ShardTrie::new();
    trie.put_asset(asset_at(hash(11), 1), Leaf::Unreadable(missing));
    trie.put_scheme(scheme_type(hash(10)), Leaf::Item(AssetScheme::new(
        "metadata".to_string(),
        30,
        None,
        None,
        vec![],
    )));
    trie.put_asset(asset_at(hash(10), 0), Leaf::Item(OwnedAsset::new(
        scheme_type(hash(10)),
        script_hash(&LOCK),
        vec![],
        30,
        None,
    )));
    trie.put_scheme(scheme_type(hash(20)), Leaf::Unreadable(missing));
    let mut db = StateDB::new();
    db.insert(root, trie);
    let mut cache = ShardCache::new();
    let mut state = match ShardLevelState::from_existing(SHARD_ID, &db, root, &mut cache) {
        Ok(state) => state,
        Err(error) => panic!("{:?}", error),
    };
    let asset_type = scheme_type(hash(10));
    let transaction = transfer(
        11,
        vec![],
        vec![input(out_point(10, asset_type, 30))],
        vec![output(asset_type, 10), output(asset_type, 20)],
        vec![],
    );
    assert_eq!(
        Err(StateError::Trie(missing)),
        state.apply(&transaction, &address(1), &[], &[], &[ScriptOutcome::Unlocked])
    );
    assert_eq!(Some(30), amount_at(&state, hash(10), 0));
    assert_eq!(None, amount_at(&state, hash(11), 0));
    assert_eq!(
        Err(missing),
        state.asset(&OwnedAssetAddress::new(hash(11), 1, SHARD_ID))
    );
    assert_eq!(
        Err(StateError::Trie(missing)),
        state.apply(&mint(20, 1, None), &address(1), &[], &[], &[])
    );
    let at = AssetSchemeAddress::new(hash(20), SHARD_ID);
    assert_eq!(
        Err(missing),
        state.create_asset_scheme(&at, "m".to_string(), 1, None, None, vec![])
    );
}

#[test]
fn a_state_needs_a_root_that_is_at_hand() {
    let db = StateDB::new();
    let root = hash(60);
    let mut cache = ShardCache::new();
    match ShardLevelState::from_existing(SHARD_ID, &db, root, &mut cache) {
        Ok(_) => panic!("there is no such root"),
        Err(error) => assert_eq!(TrieError::InvalidStateRoot(root), error),
    }
    match ShardLevelState::read_only(&db, root, ShardCache::new()) {
        Ok(_) => panic!("there is no such root"),
        Err(error) => assert_eq!(TrieError::InvalidStateRoot(root), error),
    }
}

#[test]
fn a_read_only_state_reads_the_cache_before_the_trie() {
    let scheme = |amount| AssetScheme::new("m".to_string(), amount, None, None, vec![]);
    let root = hash(60);
    let mut trie = ShardTrie::new();
    trie.put_scheme(scheme_type(hash(10)), Leaf::Item(scheme(1)));
    trie.put_scheme(scheme_type(hash(20)), Leaf::Item(scheme(2)));
    let mut db = StateDB::new();
    db.insert(root, trie);
    let mut cache = ShardCache::new();
    {
        let mut state = match ShardLevelState::from_existing(SHARD_ID, &db, root, &mut cache) {
            Ok(state) => state,
            Err(error) => panic!("{:?}", error),
        };
        let at = AssetSchemeAddress::new(hash(10), SHARD_ID);
        let made = state.create_asset_scheme(&at, "n".to_string(), 7, None, None, vec![]);
        assert_eq!(Ok(AssetScheme::new("n".to_string(), 7, None, None, vec![])), made);
    }
    let state = match ShardLevelState::read_only(&db, root, cache) {
        Ok(state) => state,
        Err(error) => panic!("{:?}", error),
    };
    let amount = |n| {
        state
            .asset_scheme(&AssetSchemeAddress::new(hash(n), SHARD_ID))
            .unwrap()
            .map(|scheme| scheme.amount)
    };
    assert_eq!(Some(7), amount(10));
    assert_eq!(Some(2), amount(20));
    assert_eq!(None, amount(30));
    assert_eq!(Ok(None), state.asset(&OwnedAssetAddress::new(hash(10), 0, SHARD_ID)));
}

#[test]
fn unwrapping_asks_for_no_approvers() {
    let db = StateDB::new();
    let mut cache = ShardCache::new();
    let mut state = ShardLevelState::try_new(SHARD_ID, &db, &mut cache).unwrap();
    let approver = address(8);
    let at = AssetSchemeAddress::new_with_zero_suffix(SHARD_ID);
    let asset_type = H256::from(at);
    assert!(state
        .create_asset_scheme(&at, "m".to_string(), 9, Some(approver), None, vec![])
        .is_ok());
    let wrap = InnerTransaction::AssetWrapCCC {
        parcel_hash: hash(10),
        output: AssetWrapCCCOutput {
            lock_script_hash: script_hash(&LOCK),
            parameters: vec![],
            amount: 4,
        },
    };
    assert_eq!(Ok(Invoice::Success), state.apply(&wrap, &address(1), &[], &[], &[]));
    // The scheme that was there before stays.
    assert_eq!(9, state.asset_scheme(&at).unwrap().unwrap().amount);
    let unwrap = InnerTransaction::General(Transaction::AssetUnwrapCCC {
        hash: hash(11),
        burn: input(out_point(10, asset_type, 4)),
    });
    assert_eq!(
        failure(TransactionError::NotApproved(approver)),
        state.apply(&unwrap, &address(1), &[], &[approver], &[ScriptOutcome::Burnt])
    );
    assert_eq!(
        Ok(Invoice::Success),
        state.apply(&unwrap, &approver, &[], &[], &[ScriptOutcome::Burnt])
    );
}

#[test]
fn a_scheme_without_administrator_is_final() {
    let db = StateDB::new();
    let mut cache = ShardCache::new();
    let mut state = ShardLevelState::try_new(SHARD_ID, &db, &mut cache).unwrap();
    let administrator = address(9);
    minted(&mut state, 10, 30, Some(administrator));
    let asset_type = scheme_type(hash(10));
    let change = |metadata: &str, administrator| {
        InnerTransaction::General(Transaction::AssetSchemeChange {
            hash: hash(11),
            asset_type,
            metadata: metadata.to_string(),
            approver: None,
            administrator,
        })
    };
    assert_eq!(
        Ok(Invoice::Success),
        state.apply(&change("last", None), &administrator, &[], &[], &[])
    );
    minted(&mut state, 20, 5, None);
    for sender in [administrator, address(1)] {
        assert_eq!(
            failure(TransactionError::InsufficientPermission),
            state.apply(&change("more", Some(sender)), &sender, &[], &[administrator], &[])
        );
    }
    let scheme =
        state.asset_scheme(&AssetSchemeAddress::new(hash(10), SHARD_ID)).unwrap().unwrap();
    assert_eq!("last", scheme.metadata);
    assert_eq!(None, scheme.administrator);
}

#[test]
fn the_first_failing_script_decides() {
    let db = StateDB::new();
    let mut cache = ShardCache::new();
    let mut state = ShardLevelState::try_new(SHARD_ID, &db, &mut cache).unwrap();
    minted(&mut state, 10, 30, None);
    minted(&mut state, 20, 5, None);
    let transaction = transfer(
        11,
        vec![],
        vec![
            input(out_point(10, scheme_type(hash(10)), 30)),
            input(out_point(20, scheme_type(hash(20)), 5)),
        ],
        vec![],
        vec![],
    );
    let expected = failure(TransactionError::FailedToUnlock {
        address: asset_at(hash(10), 0),
        reason: UnlockFailureReason::ScriptError,
    });
    for second in [ScriptOutcome::Unlocked, ScriptOutcome::Burnt, ScriptOutcome::InvalidScript] {
        let outcomes = [ScriptOutcome::Fail, second];
        assert_eq!(expected, state.apply(&transaction, &address(1), &[], &[], &outcomes));
    }
    assert_eq!(Some(30), amount_at(&state, hash(10), 0));
    assert_eq!(Some(5), amount_at(&state, hash(20), 0));
}

#[test]
fn shard_users_bear_on_minting_only() {
    let db = StateDB::new();
    let mut cache = ShardCache::new();
    let mut state = ShardLevelState::try_new(SHARD_ID, &db, &mut cache).unwrap();
    let stranger = address(1);
    let users = [address(5)];
    minted(&mut state, 10, 30, None);
    let asset_type = scheme_type(hash(10));
    let composition = compose(11, vec![input(out_point(10, asset_type, 30))]);
    assert_eq!(
        failure(TransactionError::InsufficientPermission),
        state.apply(&composition, &stranger, &users, &[], &[ScriptOutcome::Unlocked])
    );
    assert_eq!(Some(30), amount_at(&state, hash(10), 0));
    let onward = transfer(
        12,
        vec![],
        vec![input(out_point(10, asset_type, 30))],
        vec![output(asset_type, 30)],
        vec![],
    );
    assert_eq!(
        Ok(Invoice::Success),
        state.apply(&onward, &stranger, &users, &[], &[ScriptOutcome::Unlocked])
    );
    let wrap = InnerTransaction::AssetWrapCCC {
        parcel_hash: hash(13),
        output: AssetWrapCCCOutput {
            lock_script_hash: script_hash(&LOCK),
            parameters: vec![],
            amount: 4,
        },
    };
    assert_eq!(Ok(Invoice::Success), state.apply(&wrap, &stranger, &users, &[], &[]));
}
