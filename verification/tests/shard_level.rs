//! Transactions applied one after the other to an empty shard.

use shard_state::address::{AssetSchemeAddress, OwnedAssetAddress};
use shard_state::cache::ShardCache;
use shard_state::db::StateDB;
use shard_state::error::{Invoice, Mismatch, StateResult, TransactionError};
use shard_state::hash::{script_hash, Address, ShardId, H160, H256};
use shard_state::item::{Asset, AssetScheme, OwnedAsset};
use shard_state::script::{ScriptOutcome, ScriptRun};
use shard_state::shard_level::ShardLevelState;
use shard_state::traits::ShardStateView;
use shard_state::transaction::{
    AssetMintOutput, AssetOutPoint, AssetTransferInput, AssetTransferOutput, AssetWrapCCCOutput,
    InnerTransaction, Order, OrderOnTransfer, Transaction,
};

const SHARD_ID: ShardId = 0;

fn address(n: u8) -> Address {
    Address(H160([n; 20]))
}

fn hash(n: u8) -> H256 {
    H256([n; 32])
}

fn h160(hex: &str) -> H160 {
    let digits = hex.trim_start_matches("0x");
    let mut bytes = [0u8; 20];
    for i in 0..20 {
        bytes[i] = u8::from_str_radix(&digits[2 * i..2 * i + 2], 16).unwrap();
    }
    H160(bytes)
}

/// Scripts as they behave on the machine: `[0x30, 0x01]` unlocks and `[0x01]` burns.
fn run_script(run: &ScriptRun) -> ScriptOutcome {
    if run.lock_script == vec![0x30, 0x01] {
        ScriptOutcome::Unlocked
    } else if run.lock_script == vec![0x01] {
        ScriptOutcome::Burnt
    } else {
        panic!("unknown script")
    }
}

fn apply(
    state: &mut ShardLevelState,
    transaction: &InnerTransaction,
    sender: &Address,
    users: &[Address],
    approvers: &[Address],
) -> StateResult<Invoice> {
    let outcomes: Vec<ScriptOutcome> = state
        .script_runs(transaction, sender, approvers)
        .iter()
        .map(|run| match run {
            Some(run) => run_script(run),
            None => ScriptOutcome::Fail,
        })
        .collect();
    state.apply(transaction, sender, users, approvers, &outcomes)
}

fn scheme(state: &ShardLevelState, transaction_hash: H256) -> AssetScheme {
    scheme_at(state, &AssetSchemeAddress::new(transaction_hash, SHARD_ID))
}

fn scheme_at(state: &ShardLevelState, at: &AssetSchemeAddress) -> AssetScheme {
    state.asset_scheme(at).unwrap().expect("the scheme is there")
}

fn no_scheme(state: &ShardLevelState, transaction_hash: H256) -> bool {
    state.asset_scheme(&AssetSchemeAddress::new(transaction_hash, SHARD_ID)) == Ok(None)
}

fn asset(state: &ShardLevelState, transaction_hash: H256, index: usize) -> OwnedAsset {
    state
        .asset(&OwnedAssetAddress::new(transaction_hash, index, SHARD_ID))
        .unwrap()
        .expect("the asset is there")
}

fn no_asset(state: &ShardLevelState, transaction_hash: H256, index: usize) -> bool {
    state.asset(&OwnedAssetAddress::new(transaction_hash, index, SHARD_ID)) == Ok(None)
}

fn check_scheme(state: &ShardLevelState, transaction_hash: H256, metadata: &str, amount: u64) {
    let scheme = scheme(state, transaction_hash);
    assert_eq!(metadata, scheme.metadata);
    assert_eq!(amount, scheme.amount);
}

fn check_asset(
    state: &ShardLevelState,
    transaction_hash: H256,
    index: usize,
    asset_type: H256,
    amount: u64,
) {
    let asset = asset(state, transaction_hash, index);
    assert_eq!(asset_type, *asset.asset_type());
    assert_eq!(amount, asset.amount());
}

fn mint(
    transaction_hash: H256,
    metadata: &str,
    lock_script_hash: H160,
    amount: Option<u64>,
    approver: Option<Address>,
    administrator: Option<Address>,
) -> InnerTransaction {
    InnerTransaction::General(Transaction::AssetMint {
        hash: transaction_hash,
        metadata: metadata.to_string(),
        approver,
        administrator,
        output: AssetMintOutput { lock_script_hash, parameters: vec![], amount },
    })
}

fn out_point(
    transaction_hash: H256,
    index: usize,
    asset_type: H256,
    amount: u64,
) -> AssetOutPoint {
    AssetOutPoint { transaction_hash, index, asset_type, amount }
}

fn input(prev_out: AssetOutPoint, lock_script: Vec<u8>) -> AssetTransferInput {
    AssetTransferInput { prev_out, lock_script, unlock_script: vec![] }
}

fn output(
    lock_script_hash: H160,
    parameters: Vec<Vec<u8>>,
    asset_type: H256,
    amount: u64,
) -> AssetTransferOutput {
    AssetTransferOutput { lock_script_hash, parameters, asset_type, amount }
}

fn transfer(
    transaction_hash: H256,
    burns: Vec<AssetTransferInput>,
    inputs: Vec<AssetTransferInput>,
    outputs: Vec<AssetTransferOutput>,
    orders: Vec<OrderOnTransfer>,
) -> InnerTransaction {
    InnerTransaction::General(Transaction::AssetTransfer {
        hash: transaction_hash,
        burns,
        inputs,
        outputs,
        orders,
    })
}

fn compose(
    transaction_hash: H256,
    metadata: &str,
    inputs: Vec<AssetTransferInput>,
    lock_script_hash: H160,
    amount: u64,
) -> InnerTransaction {
    InnerTransaction::General(Transaction::AssetCompose {
        hash: transaction_hash,
        metadata: metadata.to_string(),
        approver: None,
        administrator: None,
        inputs,
        output: AssetMintOutput { lock_script_hash, parameters: vec![], amount: Some(amount) },
    })
}

fn decompose(
    transaction_hash: H256,
    input: AssetTransferInput,
    outputs: Vec<AssetTransferOutput>,
) -> InnerTransaction {
    InnerTransaction::General(Transaction::AssetDecompose {
        hash: transaction_hash,
        input,
        outputs,
    })
}

fn unwrap_ccc(transaction_hash: H256, burn: AssetTransferInput) -> InnerTransaction {
    InnerTransaction::General(Transaction::AssetUnwrapCCC { hash: transaction_hash, burn })
}

fn scheme_type(transaction_hash: H256) -> H256 {
    H256::from(AssetSchemeAddress::new(transaction_hash, SHARD_ID))
}

#[test]
fn mint_permissioned_asset() {
    let sender = address(1);
    let db = StateDB::new();
    let mut cache = ShardCache::new();
    let mut state = ShardLevelState::try_new(SHARD_ID, &db, &mut cache).unwrap();

    let amount = 100;
    let approver = address(2);
    let transaction =
        mint(hash(10), "metadata", H160([7; 20]), Some(amount), Some(approver), None);
    let transaction_hash = transaction.hash();
    assert_eq!(Ok(Invoice::Success), apply(&mut state, &transaction, &sender, &[sender], &[]));

    let asset_type = scheme_type(transaction_hash);
    check_scheme(&state, transaction_hash, "metadata", amount);
    assert_eq!(Some(approver), scheme(&state, transaction_hash).approver);
    check_asset(&state, transaction_hash, 0, asset_type, amount);
}

#[test]
fn mint_infinite_asset() {
    let sender = address(1);
    let db = StateDB::new();
    let mut cache = ShardCache::new();
    let mut state = ShardLevelState::try_new(SHARD_ID, &db, &mut cache).unwrap();

    let approver = address(2);
    let transaction = mint(hash(10), "metadata", H160([7; 20]), None, Some(approver), None);
    let transaction_hash = transaction.hash();
    assert_eq!(Ok(Invoice::Success), apply(&mut state, &transaction, &sender, &[sender], &[]));

    let asset_type = scheme_type(transaction_hash);
    check_scheme(&state, transaction_hash, "metadata", u64::MAX);
    assert_eq!(Some(approver), scheme(&state, transaction_hash).approver);
    check_asset(&state, transaction_hash, 0, asset_type, u64::MAX);
}

#[test]
fn cannot_mint_twice() {
    let sender = address(1);
    let db = StateDB::new();
    let mut cache = ShardCache::new();
    let mut state = ShardLevelState::try_new(SHARD_ID, &db, &mut cache).unwrap();

    let approver = address(2);
    let transaction = mint(hash(10), "metadata", H160([7; 20]), None, Some(approver), None);
    let transaction_hash = transaction.hash();
    assert_eq!(Ok(Invoice::Success), apply(&mut state, &transaction, &sender, &[sender], &[]));
    assert_eq!(
        Ok(Invoice::Failure(TransactionError::AssetSchemeDuplicated(transaction_hash))),
        apply(&mut state, &transaction, &sender, &[sender], &[])
    );

    let asset_type = scheme_type(transaction_hash);
    check_scheme(&state, transaction_hash, "metadata", u64::MAX);
    assert_eq!(Some(approver), scheme(&state, transaction_hash).approver);
    check_asset(&state, transaction_hash, 0, asset_type, u64::MAX);
}

#[test]
fn invalid_approver() {
    let sender = address(1);
    let db = StateDB::new();
    let mut cache = ShardCache::new();
    let mut state = ShardLevelState::try_new(SHARD_ID, &db, &mut cache).unwrap();

    let lock_script_hash = h160("b042ad154a3359d276835c903587ebafefea22af");
    let approver = address(2);
    let amount = 30;
    let mint = mint(hash(10), "metadata", lock_script_hash, Some(amount), Some(approver), None);
    let mint_hash = mint.hash();
    assert_eq!(Ok(Invoice::Success), apply(&mut state, &mint, &sender, &[sender], &[]));

    let asset_type = scheme_type(mint_hash);
    check_scheme(&state, mint_hash, "metadata", amount);
    assert_eq!(Some(approver), scheme(&state, mint_hash).approver);
    check_asset(&state, mint_hash, 0, asset_type, amount);

    let transfer = transfer(
        hash(11),
        vec![],
        vec![input(out_point(mint_hash, 0, asset_type, 30), vec![0x30, 0x01])],
        vec![output(lock_script_hash, vec![], asset_type, 30)],
        vec![],
    );
    let transfer_hash = transfer.hash();
    assert_eq!(
        Ok(Invoice::Failure(TransactionError::NotApproved(approver))),
        apply(&mut state, &transfer, &sender, &[sender], &[])
    );

    check_scheme(&state, mint_hash, "metadata", amount);
    assert_eq!(Some(approver), scheme(&state, mint_hash).approver);
    check_asset(&state, mint_hash, 0, asset_type, amount);
    assert!(no_asset(&state, transfer_hash, 0));
}

#[test]
fn mint_and_transfer() {
    let sender = address(1);
    let db = StateDB::new();
    let mut cache = ShardCache::new();
    let mut state = ShardLevelState::try_new(SHARD_ID, &db, &mut cache).unwrap();

    let lock_script_hash = h160("b042ad154a3359d276835c903587ebafefea22af");
    let amount = 30;
    let mint = mint(hash(10), "metadata", lock_script_hash, Some(amount), None, None);
    let mint_hash = mint.hash();
    assert_eq!(Ok(Invoice::Success), apply(&mut state, &mint, &sender, &[sender], &[]));

    let asset_type = scheme_type(mint_hash);
    check_scheme(&state, mint_hash, "metadata", amount);
    check_asset(&state, mint_hash, 0, asset_type, amount);

    let random_lock_script_hash = H160([9; 20]);
    let transfer = transfer(
        hash(11),
        vec![],
        vec![input(out_point(mint_hash, 0, asset_type, 30), vec![0x30, 0x01])],
        vec![
            output(lock_script_hash, vec![vec![1]], asset_type, 10),
            output(lock_script_hash, vec![], asset_type, 5),
            output(random_lock_script_hash, vec![], asset_type, 15),
        ],
        vec![],
    );
    let transfer_hash = transfer.hash();
    assert_eq!(Ok(Invoice::Success), apply(&mut state, &transfer, &sender, &[sender], &[]));

    check_scheme(&state, mint_hash, "metadata", amount);
    assert!(no_asset(&state, mint_hash, 0));
    check_asset(&state, transfer_hash, 0, asset_type, 10);
    assert_eq!(lock_script_hash, asset(&state, transfer_hash, 0).lock_script_hash);
    check_asset(&state, transfer_hash, 1, asset_type, 5);
    assert_eq!(lock_script_hash, asset(&state, transfer_hash, 1).lock_script_hash);
    check_asset(&state, transfer_hash, 2, asset_type, 15);
    assert_eq!(random_lock_script_hash, asset(&state, transfer_hash, 2).lock_script_hash);
}

#[test]
fn mint_and_burn() {
    let sender = address(1);
    let db = StateDB::new();
    let mut cache = ShardCache::new();
    let mut state = ShardLevelState::try_new(SHARD_ID, &db, &mut cache).unwrap();

    let lock_script_hash = h160("ca5d3fa0a6887285ef6aa85cb12960a2b6706e00");
    let amount = 30;
    let mint = mint(hash(10), "metadata", lock_script_hash, Some(amount), None, None);
    let mint_hash = mint.hash();
    assert_eq!(Ok(Invoice::Success), apply(&mut state, &mint, &sender, &[sender], &[]));

    let asset_type = scheme_type(mint_hash);
    check_scheme(&state, mint_hash, "metadata", amount);
    check_asset(&state, mint_hash, 0, asset_type, amount);

    let burn = transfer(
        hash(11),
        vec![input(out_point(mint_hash, 0, asset_type, amount), vec![0x01])],
        vec![],
        vec![],
        vec![],
    );
    let burn_hash = burn.hash();
    assert_eq!(Ok(Invoice::Success), apply(&mut state, &burn, &sender, &[sender], &[]));

    check_scheme(&state, mint_hash, "metadata", amount);
    assert!(no_asset(&state, mint_hash, 0));
    assert!(no_asset(&state, burn_hash, 0));
}

#[test]
fn mint_and_transfer_and_burn() {
    let sender = address(1);
    let db = StateDB::new();
    let mut cache = ShardCache::new();
    let mut state = ShardLevelState::try_new(SHARD_ID, &db, &mut cache).unwrap();

    let lock_script_hash = h160("b042ad154a3359d276835c903587ebafefea22af");
    let amount = 30;
    let mint = mint(hash(10), "metadata", lock_script_hash, Some(amount), None, None);
    let mint_hash = mint.hash();
    assert_eq!(Ok(Invoice::Success), apply(&mut state, &mint, &sender, &[sender], &[]));

    let asset_type = scheme_type(mint_hash);
    check_scheme(&state, mint_hash, "metadata", amount);
    check_asset(&state, mint_hash, 0, asset_type, amount);

    let lock_script_hash_burn = h160("ca5d3fa0a6887285ef6aa85cb12960a2b6706e00");
    let random_lock_script_hash = H160([9; 20]);
    let first_transfer = transfer(
        hash(11),
        vec![],
        vec![input(out_point(mint_hash, 0, asset_type, 30), vec![0x30, 0x01])],
        vec![
            output(lock_script_hash, vec![vec![1]], asset_type, 10),
            output(lock_script_hash_burn, vec![], asset_type, 5),
            output(random_lock_script_hash, vec![], asset_type, 15),
        ],
        vec![],
    );
    let transfer_hash = first_transfer.hash();
    assert_eq!(Ok(Invoice::Success), apply(&mut state, &first_transfer, &sender, &[sender], &[]));

    check_scheme(&state, mint_hash, "metadata", amount);
    assert!(no_asset(&state, mint_hash, 0));
    check_asset(&state, transfer_hash, 0, asset_type, 10);
    check_asset(&state, transfer_hash, 1, asset_type, 5);
    check_asset(&state, transfer_hash, 2, asset_type, 15);

    let burn = transfer(
        hash(12),
        vec![input(out_point(transfer_hash, 1, asset_type, 5), vec![0x01])],
        vec![],
        vec![],
        vec![],
    );
    let burn_hash = burn.hash();
    assert_eq!(Ok(Invoice::Success), apply(&mut state, &burn, &sender, &[sender], &[]));

    check_scheme(&state, mint_hash, "metadata", amount);
    assert!(no_asset(&state, mint_hash, 0));
    check_asset(&state, transfer_hash, 0, asset_type, 10);
    assert!(no_asset(&state, transfer_hash, 1));
    check_asset(&state, transfer_hash, 2, asset_type, 15);
    assert!(no_asset(&state, burn_hash, 0));
}

#[test]
fn administrator_can_transfer() {
    let sender = address(1);
    let db = StateDB::new();
    let mut cache = ShardCache::new();
    let mut state = ShardLevelState::try_new(SHARD_ID, &db, &mut cache).unwrap();

    let administrator = address(2);
    let lock_script_hash = h160("b042ad154a3359d276835c903587ebafefea22af");
    let amount = 30;
    let mint =
        mint(hash(10), "metadata", lock_script_hash, Some(amount), None, Some(administrator));
    let mint_hash = mint.hash();
    assert_eq!(Ok(Invoice::Success), apply(&mut state, &mint, &sender, &[sender], &[]));

    let asset_type = scheme_type(mint_hash);
    check_scheme(&state, mint_hash, "metadata", amount);
    assert_eq!(Some(administrator), scheme(&state, mint_hash).administrator);
    check_asset(&state, mint_hash, 0, asset_type, amount);

    let transfer = transfer(
        hash(11),
        vec![],
        vec![input(out_point(mint_hash, 0, asset_type, 30), vec![])],
        vec![
            output(lock_script_hash, vec![vec![1]], asset_type, 10),
            output(H160([8; 20]), vec![], asset_type, 5),
            output(H160([9; 20]), vec![], asset_type, 15),
        ],
        vec![],
    );
    let transfer_hash = transfer.hash();
    assert_eq!(Ok(Invoice::Success), apply(&mut state, &transfer, &administrator, &[sender], &[]));

    check_scheme(&state, mint_hash, "metadata", amount);
    assert_eq!(Some(administrator), scheme(&state, mint_hash).administrator);
    assert!(no_asset(&state, mint_hash, 0));
    check_asset(&state, transfer_hash, 0, asset_type, 10);
    check_asset(&state, transfer_hash, 1, asset_type, 5);
    check_asset(&state, transfer_hash, 2, asset_type, 15);
}

#[test]
fn administrator_can_burn() {
    let sender = address(1);
    let db = StateDB::new();
    let mut cache = ShardCache::new();
    let mut state = ShardLevelState::try_new(SHARD_ID, &db, &mut cache).unwrap();

    let administrator = address(2);
    let lock_script_hash = h160("b042ad154a3359d276835c903587ebafefea22af");
    let amount = 30;
    let mint =
        mint(hash(10), "metadata", lock_script_hash, Some(amount), None, Some(administrator));
    let mint_hash = mint.hash();
    assert_eq!(Ok(Invoice::Success), apply(&mut state, &mint, &sender, &[sender], &[]));

    let asset_type = scheme_type(mint_hash);
    check_scheme(&state, mint_hash, "metadata", amount);
    assert_eq!(Some(administrator), scheme(&state, mint_hash).administrator);
    check_asset(&state, mint_hash, 0, asset_type, amount);

    let burn = transfer(
        hash(11),
        vec![input(out_point(mint_hash, 0, asset_type, 30), vec![])],
        vec![],
        vec![],
        vec![],
    );
    let burn_hash = burn.hash();
    assert_eq!(Ok(Invoice::Success), apply(&mut state, &burn, &administrator, &[sender], &[]));

    check_scheme(&state, mint_hash, "metadata", amount);
    assert_eq!(Some(administrator), scheme(&state, mint_hash).administrator);
    assert!(no_asset(&state, mint_hash, 0));
    assert!(no_asset(&state, burn_hash, 0));
}

#[test]
fn cannot_transfer_because_prev_out_amount_is_invalid() {
    let sender = address(1);
    let db = StateDB::new();
    let mut cache = ShardCache::new();
    let mut state = ShardLevelState::try_new(SHARD_ID, &db, &mut cache).unwrap();

    let lock_script_hash = h160("b042ad154a3359d276835c903587ebafefea22af");
    let amount = 30;
    let mint = mint(hash(10), "metadata", lock_script_hash, Some(amount), None, None);
    let mint_hash = mint.hash();
    assert_eq!(Ok(Invoice::Success), apply(&mut state, &mint, &sender, &[sender], &[]));

    let asset_type = scheme_type(mint_hash);
    check_scheme(&state, mint_hash, "metadata", amount);
    check_asset(&state, mint_hash, 0, asset_type, amount);

    let transfer = transfer(
        hash(11),
        vec![],
        vec![input(out_point(mint_hash, 0, asset_type, 20), vec![0x30, 0x01])],
        vec![output(lock_script_hash, vec![vec![1]], asset_type, 20)],
        vec![],
    );
    let transfer_hash = transfer.hash();
    let asset_address = H256::from(OwnedAssetAddress::new(mint_hash, 0, SHARD_ID));
    assert_eq!(
        Ok(Invoice::Failure(TransactionError::InvalidAssetAmount {
            address: asset_address,
            expected: 30,
            got: 20
        })),
        apply(&mut state, &transfer, &sender, &[sender], &[])
    );

    check_scheme(&state, mint_hash, "metadata", amount);
    check_asset(&state, mint_hash, 0, asset_type, amount);
    assert!(no_asset(&state, transfer_hash, 0));
}

#[test]
fn cannot_transfer_because_prev_out_type_is_invalid() {
    let sender = address(1);
    let db = StateDB::new();
    let mut cache = ShardCache::new();
    let mut state = ShardLevelState::try_new(SHARD_ID, &db, &mut cache).unwrap();

    let lock_script_hash = h160("b042ad154a3359d276835c903587ebafefea22af");
    let amount = 30;

    let mint1 = mint(hash(10), "metadata", lock_script_hash, Some(amount), None, None);
    let mint_hash1 = mint1.hash();
    let asset_type1 = scheme_type(mint_hash1);
    let mint2 = mint(hash(20), "metadata2", lock_script_hash, Some(amount), None, None);
    let mint_hash2 = mint2.hash();
    let asset_type2 = scheme_type(mint_hash2);

    assert_eq!(Ok(Invoice::Success), apply(&mut state, &mint1, &sender, &[sender], &[]));
    check_scheme(&state, mint_hash1, "metadata", amount);
    assert!(no_scheme(&state, mint_hash2));
    check_asset(&state, mint_hash1, 0, asset_type1, amount);

    assert_eq!(Ok(Invoice::Success), apply(&mut state, &mint2, &sender, &[sender], &[]));
    check_scheme(&state, mint_hash1, "metadata", amount);
    check_scheme(&state, mint_hash2, "metadata2", amount);
    check_asset(&state, mint_hash1, 0, asset_type1, amount);
    check_asset(&state, mint_hash2, 0, asset_type2, amount);

    let transfer = transfer(
        hash(11),
        vec![],
        vec![input(out_point(mint_hash1, 0, asset_type2, 30), vec![0x30, 0x01])],
        vec![output(lock_script_hash, vec![vec![1]], asset_type2, 30)],
        vec![],
    );
    let transfer_hash = transfer.hash();
    assert_eq!(
        Ok(Invoice::Failure(TransactionError::InvalidAssetType(asset_type2))),
        apply(&mut state, &transfer, &sender, &[sender], &[])
    );

    check_scheme(&state, mint_hash1, "metadata", amount);
    check_scheme(&state, mint_hash2, "metadata2", amount);
    check_asset(&state, mint_hash1, 0, asset_type1, amount);
    check_asset(&state, mint_hash2, 0, asset_type2, amount);
    assert!(no_asset(&state, transfer_hash, 0));
}

fn mint_for_transfer(
    state: &mut ShardLevelState,
    mint_hash: H256,
    sender: Address,
    metadata: &str,
    amount: u64,
) -> AssetOutPoint {
    let lock_script_hash = h160("b042ad154a3359d276835c903587ebafefea22af");
    let mint = mint(mint_hash, metadata, lock_script_hash, Some(amount), None, None);
    assert_eq!(Ok(Invoice::Success), apply(state, &mint, &sender, &[sender], &[]));

    let asset_type = scheme_type(mint_hash);
    check_scheme(state, mint_hash, metadata, amount);
    check_asset(state, mint_hash, 0, asset_type, amount);

    out_point(mint_hash, 0, asset_type, amount)
}

#[test]
fn mint_three_times_and_transfer_with_order() {
    let sender = address(1);
    let db = StateDB::new();
    let mut cache = ShardCache::new();
    let mut state = ShardLevelState::try_new(SHARD_ID, &db, &mut cache).unwrap();

    let mint_output_1 = mint_for_transfer(&mut state, hash(10), sender, "metadata1", 30);
    let mint_output_2 = mint_for_transfer(&mut state, hash(20), sender, "metadata2", 30);
    let mint_output_3 = mint_for_transfer(&mut state, hash(30), sender, "metadata3", 30);
    let asset_type_1 = mint_output_1.asset_type;
    let asset_type_2 = mint_output_2.asset_type;
    let asset_type_3 = mint_output_3.asset_type;

    let lock_script_hash = h160("b042ad154a3359d276835c903587ebafefea22af");
    let order = Order { hash: hash(40), origin_outputs: vec![mint_output_1, mint_output_3] };
    let order_consumed_hash = hash(41);

    let transfer = transfer(
        hash(11),
        vec![],
        vec![
            input(mint_output_1, vec![0x30, 0x01]),
            input(mint_output_2, vec![0x30, 0x01]),
            input(mint_output_3, vec![0x30, 0x01]),
        ],
        vec![
            output(lock_script_hash, vec![], asset_type_1, 10),
            output(lock_script_hash, vec![], asset_type_2, 10),
            output(lock_script_hash, vec![], asset_type_3, 10),
            output(lock_script_hash, vec![], asset_type_1, 20),
            output(lock_script_hash, vec![], asset_type_2, 20),
            output(lock_script_hash, vec![], asset_type_3, 20),
        ],
        vec![OrderOnTransfer {
            order,
            consumed_hash: order_consumed_hash,
            input_indices: vec![0, 2],
            output_indices: vec![0, 1, 2],
        }],
    );
    let transfer_hash = transfer.hash();
    assert_eq!(Ok(Invoice::Success), apply(&mut state, &transfer, &sender, &[sender], &[]));

    check_scheme(&state, mint_output_1.transaction_hash, "metadata1", 30);
    check_scheme(&state, mint_output_2.transaction_hash, "metadata2", 30);
    check_scheme(&state, mint_output_3.transaction_hash, "metadata3", 30);
    assert!(no_asset(&state, mint_output_1.transaction_hash, 0));
    assert!(no_asset(&state, mint_output_2.transaction_hash, 0));
    assert!(no_asset(&state, mint_output_3.transaction_hash, 0));
    check_asset(&state, transfer_hash, 0, asset_type_1, 10);
    assert_eq!(Some(order_consumed_hash), asset(&state, transfer_hash, 0).order_hash);
    check_asset(&state, transfer_hash, 1, asset_type_2, 10);
    assert_eq!(Some(order_consumed_hash), asset(&state, transfer_hash, 1).order_hash);
    check_asset(&state, transfer_hash, 2, asset_type_3, 10);
    assert_eq!(Some(order_consumed_hash), asset(&state, transfer_hash, 2).order_hash);
    check_asset(&state, transfer_hash, 3, asset_type_1, 20);
    assert_eq!(None, asset(&state, transfer_hash, 3).order_hash);
    check_asset(&state, transfer_hash, 4, asset_type_2, 20);
    assert_eq!(None, asset(&state, transfer_hash, 4).order_hash);
    check_asset(&state, transfer_hash, 5, asset_type_3, 20);
    assert_eq!(None, asset(&state, transfer_hash, 5).order_hash);
}

#[test]
fn mint_and_compose() {
    let db = StateDB::new();
    let mut cache = ShardCache::new();
    let mut state = ShardLevelState::try_new(SHARD_ID, &db, &mut cache).unwrap();
    let sender = address(1);

    let lock_script_hash = h160("0xb042ad154a3359d276835c903587ebafefea22af");
    let amount = 30;
    let mint = mint(hash(10), "metadata", lock_script_hash, Some(amount), None, None);
    let mint_hash = mint.hash();
    let asset_type = scheme_type(mint_hash);
    assert_eq!(Ok(Invoice::Success), apply(&mut state, &mint, &sender, &[], &[]));

    check_scheme(&state, mint_hash, "metadata", amount);
    check_asset(&state, mint_hash, 0, asset_type, amount);

    let random_lock_script_hash = H160([9; 20]);
    let compose = compose(
        hash(11),
        "composed",
        vec![input(out_point(mint_hash, 0, asset_type, 30), vec![0x30, 0x01])],
        random_lock_script_hash,
        1,
    );
    let compose_hash = compose.hash();
    let composed_asset_type = scheme_type(compose_hash);
    assert_eq!(Ok(Invoice::Success), apply(&mut state, &compose, &sender, &[], &[]));

    check_scheme(&state, mint_hash, "metadata", amount);
    assert!(no_asset(&state, mint_hash, 0));
    check_scheme(&state, compose_hash, "composed", 1);
    assert_eq!(vec![Asset::new(asset_type, amount)], scheme(&state, compose_hash).pool);
    check_asset(&state, compose_hash, 0, composed_asset_type, 1);
}

#[test]
fn mint_and_compose_and_decompose() {
    let db = StateDB::new();
    let mut cache = ShardCache::new();
    let mut state = ShardLevelState::try_new(SHARD_ID, &db, &mut cache).unwrap();
    let sender = address(1);

    let lock_script_hash = h160("0xb042ad154a3359d276835c903587ebafefea22af");
    let amount = 30;
    let mint = mint(hash(10), "metadata", lock_script_hash, Some(amount), None, None);
    let mint_hash = mint.hash();
    let asset_type = scheme_type(mint_hash);
    assert_eq!(Ok(Invoice::Success), apply(&mut state, &mint, &sender, &[], &[]));

    check_scheme(&state, mint_hash, "metadata", amount);
    check_asset(&state, mint_hash, 0, asset_type, amount);

    let compose = compose(
        hash(11),
        "composed",
        vec![input(out_point(mint_hash, 0, asset_type, amount), vec![0x30, 0x01])],
        lock_script_hash,
        1,
    );
    let compose_hash = compose.hash();
    let composed_asset_type = scheme_type(compose_hash);
    assert_eq!(Ok(Invoice::Success), apply(&mut state, &compose, &sender, &[], &[]));

    check_scheme(&state, mint_hash, "metadata", amount);
    assert!(no_asset(&state, mint_hash, 0));
    check_scheme(&state, compose_hash, "composed", 1);
    assert_eq!(vec![Asset::new(asset_type, amount)], scheme(&state, compose_hash).pool);
    check_asset(&state, compose_hash, 0, composed_asset_type, 1);

    let random_lock_script_hash = H160([9; 20]);
    let decompose = decompose(
        hash(12),
        input(out_point(compose_hash, 0, composed_asset_type, 1), vec![0x30, 0x01]),
        vec![output(random_lock_script_hash, vec![], asset_type, amount)],
    );
    let decompose_hash = decompose.hash();
    assert_eq!(Ok(Invoice::Success), apply(&mut state, &decompose, &sender, &[], &[]));

    check_scheme(&state, mint_hash, "metadata", amount);
    assert!(no_asset(&state, mint_hash, 0));
    assert!(no_scheme(&state, compose_hash));
    assert!(no_asset(&state, compose_hash, 0));
    check_asset(&state, decompose_hash, 0, asset_type, amount);
}

#[test]
fn decompose_fail_invalid_input_different_asset_type() {
    let db = StateDB::new();
    let mut cache = ShardCache::new();
    let mut state = ShardLevelState::try_new(SHARD_ID, &db, &mut cache).unwrap();
    let sender = address(1);

    let lock_script_hash = h160("0xb042ad154a3359d276835c903587ebafefea22af");
    let amount = 30;
    let mint1 = mint(hash(10), "metadata", lock_script_hash, Some(amount), None, None);
    let mint_hash = mint1.hash();
    let asset_type = scheme_type(mint_hash);
    assert_eq!(Ok(Invoice::Success), apply(&mut state, &mint1, &sender, &[], &[]));

    check_scheme(&state, mint_hash, "metadata", amount);
    check_asset(&state, mint_hash, 0, asset_type, amount);

    let mint2 = mint(hash(20), "invalid_asset", lock_script_hash, Some(amount), None, None);
    let mint2_hash = mint2.hash();
    let asset_type2 = scheme_type(mint2_hash);
    assert_eq!(Ok(Invoice::Success), apply(&mut state, &mint2, &sender, &[], &[]));

    check_scheme(&state, mint_hash, "metadata", amount);
    check_asset(&state, mint_hash, 0, asset_type, amount);
    check_scheme(&state, mint2_hash, "invalid_asset", amount);
    check_asset(&state, mint2_hash, 0, asset_type2, amount);

    let compose = compose(
        hash(11),
        "composed",
        vec![input(out_point(mint_hash, 0, asset_type, amount), vec![0x30, 0x01])],
        lock_script_hash,
        1,
    );
    let compose_hash = compose.hash();
    let composed_asset_type = scheme_type(compose_hash);
    assert_eq!(Ok(Invoice::Success), apply(&mut state, &compose, &sender, &[], &[]));

    check_scheme(&state, mint_hash, "metadata", amount);
    assert!(no_asset(&state, mint_hash, 0));
    check_scheme(&state, mint2_hash, "invalid_asset", amount);
    check_asset(&state, mint2_hash, 0, asset_type2, amount);
    check_scheme(&state, compose_hash, "composed", 1);
    assert_eq!(vec![Asset::new(asset_type, amount)], scheme(&state, compose_hash).pool);
    check_asset(&state, compose_hash, 0, composed_asset_type, 1);

    let random_lock_script_hash = H160([9; 20]);
    let decompose = decompose(
        hash(12),
        input(out_point(mint2_hash, 0, asset_type2, 1), vec![0x30, 0x01]),
        vec![output(random_lock_script_hash, vec![], asset_type, amount)],
    );
    assert_eq!(
        Ok(Invoice::Failure(TransactionError::InvalidDecomposedInput {
            address: asset_type2,
            got: 0,
        })),
        apply(&mut state, &decompose, &sender, &[], &[])
    );

    check_scheme(&state, mint_hash, "metadata", amount);
    assert!(no_asset(&state, mint_hash, 0));
    check_scheme(&state, mint2_hash, "invalid_asset", amount);
    check_asset(&state, mint2_hash, 0, asset_type2, amount);
    check_scheme(&state, compose_hash, "composed", 1);
    assert_eq!(vec![Asset::new(asset_type, amount)], scheme(&state, compose_hash).pool);
    check_asset(&state, compose_hash, 0, composed_asset_type, 1);
}

#[test]
fn decompose_fail_invalid_output_insufficient_output() {
    let db = StateDB::new();
    let mut cache = ShardCache::new();
    let mut state = ShardLevelState::try_new(SHARD_ID, &db, &mut cache).unwrap();
    let sender = address(1);

    let lock_script_hash = h160("0xb042ad154a3359d276835c903587ebafefea22af");
    let amount = 30;
    let mint1 = mint(hash(10), "metadata", lock_script_hash, Some(amount), None, None);
    let mint_hash = mint1.hash();
    let asset_type = scheme_type(mint_hash);
    assert_eq!(Ok(Invoice::Success), apply(&mut state, &mint1, &sender, &[], &[]));

    check_scheme(&state, mint_hash, "metadata", amount);
    check_asset(&state, mint_hash, 0, asset_type, amount);

    let mint2 = mint(hash(20), "invalid_asset", lock_script_hash, Some(1), None, None);
    let mint2_hash = mint2.hash();
    let asset_type2 = scheme_type(mint2_hash);
    assert_eq!(Ok(Invoice::Success), apply(&mut state, &mint2, &sender, &[], &[]));

    check_scheme(&state, mint_hash, "metadata", amount);
    check_asset(&state, mint_hash, 0, asset_type, amount);
    check_scheme(&state, mint2_hash, "invalid_asset", 1);
    check_asset(&state, mint2_hash, 0, asset_type2, 1);

    let compose = compose(
        hash(11),
        "composed",
        vec![
            input(out_point(mint_hash, 0, asset_type, amount), vec![0x30, 0x01]),
            input(out_point(mint2_hash, 0, asset_type2, 1), vec![0x30, 0x01]),
        ],
        lock_script_hash,
        1,
    );
    let compose_hash = compose.hash();
    let composed_asset_type = scheme_type(compose_hash);
    assert_eq!(Ok(Invoice::Success), apply(&mut state, &compose, &sender, &[], &[]));

    check_scheme(&state, mint_hash, "metadata", amount);
    assert!(no_asset(&state, mint_hash, 0));
    check_scheme(&state, mint2_hash, "invalid_asset", 1);
    assert!(no_asset(&state, mint2_hash, 0));
    check_scheme(&state, compose_hash, "composed", 1);
    check_asset(&state, compose_hash, 0, composed_asset_type, 1);

    let random_lock_script_hash = H160([9; 20]);
    let decompose = decompose(
        hash(12),
        input(out_point(compose_hash, 0, composed_asset_type, 1), vec![0x30, 0x01]),
        vec![output(random_lock_script_hash, vec![], asset_type, amount)],
    );
    assert_eq!(
        Ok(Invoice::Failure(TransactionError::InvalidDecomposedOutput {
            address: asset_type2,
            expected: 1,
            got: 0,
        })),
        apply(&mut state, &decompose, &sender, &[], &[])
    );

    check_scheme(&state, mint_hash, "metadata", amount);
    assert!(no_asset(&state, mint_hash, 0));
    check_scheme(&state, mint2_hash, "invalid_asset", 1);
    assert!(no_asset(&state, mint2_hash, 0));
    check_scheme(&state, compose_hash, "composed", 1);
    check_asset(&state, compose_hash, 0, composed_asset_type, 1);
}

#[test]
fn decompose_fail_invalid_output_insufficient_amount() {
    let db = StateDB::new();
    let mut cache = ShardCache::new();
    let mut state = ShardLevelState::try_new(SHARD_ID, &db, &mut cache).unwrap();
    let sender = address(1);

    let lock_script_hash = h160("0xb042ad154a3359d276835c903587ebafefea22af");
    let amount = 30;
    let mint1 = mint(hash(10), "metadata", lock_script_hash, Some(amount), None, None);
    let mint_hash = mint1.hash();
    let asset_type = scheme_type(mint_hash);
    assert_eq!(Ok(Invoice::Success), apply(&mut state, &mint1, &sender, &[], &[]));

    check_scheme(&state, mint_hash, "metadata", amount);
    check_asset(&state, mint_hash, 0, asset_type, amount);

    let mint2 = mint(hash(20), "invalid_asset", lock_script_hash, Some(1), None, None);
    let mint2_hash = mint2.hash();
    let asset_type2 = scheme_type(mint2_hash);
    assert_eq!(Ok(Invoice::Success), apply(&mut state, &mint2, &sender, &[], &[]));

    check_scheme(&state, mint_hash, "metadata", amount);
    check_asset(&state, mint_hash, 0, asset_type, amount);
    check_scheme(&state, mint2_hash, "invalid_asset", 1);
    check_asset(&state, mint2_hash, 0, asset_type2, 1);

    let compose = compose(
        hash(11),
        "composed",
        vec![
            input(out_point(mint_hash, 0, asset_type, amount), vec![0x30, 0x01]),
            input(out_point(mint2_hash, 0, asset_type2, 1), vec![0x30, 0x01]),
        ],
        lock_script_hash,
        1,
    );
    let compose_hash = compose.hash();
    let composed_asset_type = scheme_type(compose_hash);
    assert_eq!(Ok(Invoice::Success), apply(&mut state, &compose, &sender, &[], &[]));

    check_scheme(&state, mint_hash, "metadata", amount);
    assert!(no_asset(&state, mint_hash, 0));
    check_scheme(&state, mint2_hash, "invalid_asset", 1);
    assert!(no_asset(&state, mint2_hash, 0));
    check_scheme(&state, compose_hash, "composed", 1);
    check_asset(&state, compose_hash, 0, composed_asset_type, 1);

    let random_lock_script_hash = H160([9; 20]);
    let decompose = decompose(
        hash(12),
        input(out_point(compose_hash, 0, composed_asset_type, 1), vec![0x30, 0x01]),
        vec![
            output(random_lock_script_hash, vec![], asset_type, 10),
            output(random_lock_script_hash, vec![], asset_type2, 1),
        ],
    );
    assert_eq!(
        Ok(Invoice::Failure(TransactionError::InvalidDecomposedOutput {
            address: asset_type,
            expected: 30,
            got: 10,
        })),
        apply(&mut state, &decompose, &sender, &[], &[])
    );

    check_scheme(&state, mint_hash, "metadata", amount);
    assert!(no_asset(&state, mint_hash, 0));
    check_scheme(&state, mint2_hash, "invalid_asset", 1);
    assert!(no_asset(&state, mint2_hash, 0));
    check_scheme(&state, compose_hash, "composed", 1);
    check_asset(&state, compose_hash, 0, composed_asset_type, 1);
}

#[test]
fn wrap_and_unwrap_ccc() {
    let sender = address(1);
    let db = StateDB::new();
    let mut cache = ShardCache::new();
    let mut state = ShardLevelState::try_new(SHARD_ID, &db, &mut cache).unwrap();

    let lock_script_hash = h160("ca5d3fa0a6887285ef6aa85cb12960a2b6706e00");
    let parcel_hash = hash(10);
    let amount = 30;
    let wrap_ccc = InnerTransaction::AssetWrapCCC {
        parcel_hash,
        output: AssetWrapCCCOutput { lock_script_hash, parameters: vec![], amount },
    };
    let wrap_ccc_hash = wrap_ccc.hash();
    let asset_scheme_address = AssetSchemeAddress::new_with_zero_suffix(SHARD_ID);
    let asset_type = H256::from(asset_scheme_address);

    assert_eq!(wrap_ccc_hash, parcel_hash);
    assert_eq!(Ok(Invoice::Success), apply(&mut state, &wrap_ccc, &sender, &[sender], &[]));

    assert_eq!(u64::MAX, scheme_at(&state, &asset_scheme_address).amount);
    check_asset(&state, wrap_ccc_hash, 0, asset_type, amount);

    let unwrap_ccc =
        unwrap_ccc(hash(11), input(out_point(wrap_ccc_hash, 0, asset_type, 30), vec![0x01]));
    assert_eq!(Ok(Invoice::Success), apply(&mut state, &unwrap_ccc, &sender, &[sender], &[]));

    assert_eq!(u64::MAX, scheme_at(&state, &asset_scheme_address).amount);
    assert!(no_asset(&state, wrap_ccc_hash, 0));
}

#[test]
fn wrap_ccc_and_transfer_and_unwrap_ccc() {
    let sender = address(1);
    let db = StateDB::new();
    let mut cache = ShardCache::new();
    let mut state = ShardLevelState::try_new(SHARD_ID, &db, &mut cache).unwrap();

    let lock_script_hash = h160("b042ad154a3359d276835c903587ebafefea22af");
    let parcel_hash = hash(10);
    let amount = 30;
    let wrap_ccc = InnerTransaction::AssetWrapCCC {
        parcel_hash,
        output: AssetWrapCCCOutput { lock_script_hash, parameters: vec![], amount },
    };
    let wrap_ccc_hash = wrap_ccc.hash();

    assert_eq!(wrap_ccc_hash, parcel_hash);
    assert_eq!(Ok(Invoice::Success), apply(&mut state, &wrap_ccc, &sender, &[sender], &[]));

    let asset_scheme_address = AssetSchemeAddress::new_with_zero_suffix(SHARD_ID);
    let asset_type = H256::from(asset_scheme_address);
    assert_eq!(u64::MAX, scheme_at(&state, &asset_scheme_address).amount);
    check_asset(&state, wrap_ccc_hash, 0, asset_type, amount);

    let lock_script_hash_burn = h160("ca5d3fa0a6887285ef6aa85cb12960a2b6706e00");
    let random_lock_script_hash = H160([9; 20]);
    let transfer = transfer(
        hash(11),
        vec![],
        vec![input(out_point(wrap_ccc_hash, 0, asset_type, 30), vec![0x30, 0x01])],
        vec![
            output(lock_script_hash, vec![vec![1]], asset_type, 10),
            output(lock_script_hash_burn, vec![], asset_type, 5),
            output(random_lock_script_hash, vec![], asset_type, 15),
        ],
        vec![],
    );
    let transfer_hash = transfer.hash();
    assert_eq!(Ok(Invoice::Success), apply(&mut state, &transfer, &sender, &[sender], &[]));

    assert_eq!(u64::MAX, scheme_at(&state, &asset_scheme_address).amount);
    assert!(no_asset(&state, wrap_ccc_hash, 0));
    check_asset(&state, transfer_hash, 0, asset_type, 10);
    check_asset(&state, transfer_hash, 1, asset_type, 5);
    check_asset(&state, transfer_hash, 2, asset_type, 15);

    let unwrap_ccc =
        unwrap_ccc(hash(12), input(out_point(transfer_hash, 1, asset_type, 5), vec![0x01]));
    assert_eq!(Ok(Invoice::Success), apply(&mut state, &unwrap_ccc, &sender, &[sender], &[]));

    assert_eq!(u64::MAX, scheme_at(&state, &asset_scheme_address).amount);
    assert!(no_asset(&state, wrap_ccc_hash, 0));
    check_asset(&state, transfer_hash, 0, asset_type, 10);
    assert!(no_asset(&state, transfer_hash, 1));
    check_asset(&state, transfer_hash, 2, asset_type, 15);
}

#[test]
fn mint_and_failed_transfer_and_successful_transfer() {
    let sender = address(1);
    let db = StateDB::new();
    let mut cache = ShardCache::new();
    let mut state = ShardLevelState::try_new(SHARD_ID, &db, &mut cache).unwrap();

    let lock_script_hash = h160("b042ad154a3359d276835c903587ebafefea22af");
    let amount = 30;
    let mint = mint(hash(10), "metadata", lock_script_hash, Some(amount), None, None);
    let mint_hash = mint.hash();
    let asset_type = scheme_type(mint_hash);
    assert_eq!(Ok(Invoice::Success), apply(&mut state, &mint, &sender, &[sender], &[]));

    check_scheme(&state, mint_hash, "metadata", amount);
    check_asset(&state, mint_hash, 0, asset_type, amount);

    let failed_lock_script = vec![0x30];
    let failed_transfer = transfer(
        hash(11),
        vec![],
        vec![input(out_point(mint_hash, 0, asset_type, 30), failed_lock_script.clone())],
        vec![output(lock_script_hash, vec![vec![1]], asset_type, 30)],
        vec![],
    );
    let failed_transfer_hash = failed_transfer.hash();

    let sender = address(2);
    assert_eq!(
        Ok(Invoice::Failure(TransactionError::ScriptHashMismatch(Mismatch {
            expected: lock_script_hash,
            found: script_hash(&failed_lock_script),
        }))),
        apply(&mut state, &failed_transfer, &sender, &[sender], &[])
    );

    check_scheme(&state, mint_hash, "metadata", amount);
    check_asset(&state, mint_hash, 0, asset_type, amount);
    assert!(no_asset(&state, failed_transfer_hash, 0));

    let random_lock_script_hash = H160([9; 20]);
    let successful_transfer = transfer(
        hash(12),
        vec![],
        vec![input(out_point(mint_hash, 0, asset_type, 30), vec![0x30, 0x01])],
        vec![
            output(lock_script_hash, vec![vec![1]], asset_type, 10),
            output(lock_script_hash, vec![], asset_type, 5),
            output(random_lock_script_hash, vec![], asset_type, 15),
        ],
        vec![],
    );
    let successful_transfer_hash = successful_transfer.hash();
    assert_eq!(
        Ok(Invoice::Success),
        apply(&mut state, &successful_transfer, &sender, &[sender], &[])
    );

    check_scheme(&state, mint_hash, "metadata", amount);
    assert!(no_asset(&state, mint_hash, 0));
    assert!(no_asset(&state, failed_transfer_hash, 0));
    check_asset(&state, successful_transfer_hash, 0, asset_type, 10);
    check_asset(&state, successful_transfer_hash, 1, asset_type, 5);
    check_asset(&state, successful_transfer_hash, 2, asset_type, 15);
}

#[test]
fn users_can_mint_asset() {
    let sender = address(1);
    let db = StateDB::new();
    let mut cache = ShardCache::new();
    let mut state = ShardLevelState::try_new(SHARD_ID, &db, &mut cache).unwrap();

    let approver = address(2);
    let transaction = mint(hash(10), "metadata", H160([7; 20]), None, Some(approver), None);
    let transaction_hash = transaction.hash();
    let asset_type = scheme_type(transaction_hash);
    assert_eq!(Ok(Invoice::Success), apply(&mut state, &transaction, &sender, &[sender], &[]));

    check_scheme(&state, transaction_hash, "metadata", u64::MAX);
    check_asset(&state, transaction_hash, 0, asset_type, u64::MAX);
}

#[test]
fn mint_is_failed_when_the_sender_is_not_user() {
    let sender = address(1);
    let db = StateDB::new();
    let mut cache = ShardCache::new();
    let mut state = ShardLevelState::try_new(SHARD_ID, &db, &mut cache).unwrap();

    let approver = address(2);
    let transaction = mint(hash(10), "metadata", H160([7; 20]), None, Some(approver), None);
    let transaction_hash = transaction.hash();
    let shard_user = address(3);
    assert_eq!(
        Ok(Invoice::Failure(TransactionError::InsufficientPermission)),
        apply(&mut state, &transaction, &sender, &[shard_user], &[])
    );

    assert!(no_scheme(&state, transaction_hash));
    assert!(no_asset(&state, transaction_hash, 0));
}

#[test]
fn anyone_can_mint_if_no_users() {
    let sender = address(1);
    let db = StateDB::new();
    let mut cache = ShardCache::new();
    let mut state = ShardLevelState::try_new(SHARD_ID, &db, &mut cache).unwrap();

    let approver = address(2);
    let transaction = mint(hash(10), "metadata", H160([7; 20]), None, Some(approver), None);
    let transaction_hash = transaction.hash();
    let asset_type = scheme_type(transaction_hash);
    assert_eq!(Ok(Invoice::Success), apply(&mut state, &transaction, &sender, &[], &[]));

    check_scheme(&state, transaction_hash, "metadata", u64::MAX);
    assert_eq!(Some(approver), scheme(&state, transaction_hash).approver);
    check_asset(&state, transaction_hash, 0, asset_type, u64::MAX);
}

#[test]
fn change_asset_scheme() {
    let sender = address(1);
    let db = StateDB::new();
    let mut cache = ShardCache::new();
    let mut state = ShardLevelState::try_new(SHARD_ID, &db, &mut cache).unwrap();

    let amount = 100;
    let administrator = address(2);
    let mint =
        mint(hash(10), "metadata", H160([7; 20]), Some(amount), None, Some(administrator));
    let mint_hash = mint.hash();
    let asset_type = scheme_type(mint_hash);
    assert_eq!(Ok(Invoice::Success), apply(&mut state, &mint, &sender, &[sender], &[]));

    check_scheme(&state, mint_hash, "metadata", amount);
    assert_eq!(None, scheme(&state, mint_hash).approver);
    assert_eq!(Some(administrator), scheme(&state, mint_hash).administrator);
    check_asset(&state, mint_hash, 0, asset_type, amount);

    let approver = address(3);
    let change_asset_scheme = InnerTransaction::General(Transaction::AssetSchemeChange {
        hash: hash(11),
        asset_type,
        metadata: "New metadata".to_string(),
        approver: Some(approver),
        administrator: None,
    });
    assert_eq!(
        Ok(Invoice::Success),
        apply(&mut state, &change_asset_scheme, &sender, &[], &[administrator])
    );

    check_scheme(&state, mint_hash, "New metadata", amount);
    assert_eq!(Some(approver), scheme(&state, mint_hash).approver);
    assert_eq!(None, scheme(&state, mint_hash).administrator);
    check_asset(&state, mint_hash, 0, asset_type, amount);
}
