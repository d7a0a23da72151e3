//! The parts that the state of a shard is made of.

use shard_state::address::{AssetSchemeAddress, OwnedAssetAddress};
use shard_state::cache::ShardCache;
use shard_state::db::{StateDB, BLAKE_NULL_RLP};
use shard_state::error::{
    Invoice, Mismatch, TransactionError, UnlockFailureReason,
};
use shard_state::hash::{script_hash, Address, ShardId, H160, H256};
use shard_state::item::{Asset, AssetScheme, OwnedAsset};
use shard_state::locality::{touched_assets, touched_schemes};
use shard_state::metadata::wrapped_metadata;
use shard_state::pool::{add_to_pool, match_pool, tally_outputs, take_from_pool};
use shard_state::script::{judge, lets_pass, need_scripts, HashSubject, ScriptOutcome, ScriptRun};
use shard_state::shard_level::ShardLevelState;
use shard_state::traits::ShardStateView;
use shard_state::transaction::{
    AssetMintOutput, AssetOutPoint, AssetTransferInput, AssetTransferOutput, InnerTransaction,
    Order, OrderOnTransfer, Transaction,
};

const SHARD_ID: ShardId = 0x0102;

fn address(n: u8) -> Address {
    Address(H160([n; 20]))
}

fn hash(n: u8) -> H256 {
    H256([n; 32])
}

fn bytes(hex: &str) -> Vec<u8> {
    (0..hex.len() / 2)
        .map(|i| u8::from_str_radix(&hex[2 * i..2 * i + 2], 16).unwrap())
        .collect()
}

fn scheme(approver: Option<Address>, administrator: Option<Address>) -> AssetScheme {
    AssetScheme::new("metadata".to_string(), 30, approver, administrator, vec![])
}

fn locked(lock_script_hash: H160, order_hash: Option<H256>) -> OwnedAsset {
    OwnedAsset::new(hash(5), lock_script_hash, vec![vec![1, 2]], 30, order_hash)
}

#[test]
fn scripts_are_named_by_their_blake2b_digest() {
    assert_eq!(
        bytes("b042ad154a3359d276835c903587ebafefea22af"),
        script_hash(&[0x30, 0x01]).0.to_vec()
    );
    assert_eq!(
        bytes("ca5d3fa0a6887285ef6aa85cb12960a2b6706e00"),
        script_hash(&[0x01]).0.to_vec()
    );
    assert_eq!(bytes("3345524abf6bbe1809449224b5972c41790b6cf2"), script_hash(&[]).0.to_vec());
}

#[test]
fn addresses_are_stamped_digests() {
    let scheme = H256::from(AssetSchemeAddress::new(hash(7), SHARD_ID));
    assert_eq!(
        bytes("53000102c7161e2a0f01c52dd5badc00c1d677fcc7a09e70c4f10f4a432f3ac0"),
        scheme.0.to_vec()
    );
    let asset = H256::from(OwnedAssetAddress::new(hash(7), 258, SHARD_ID));
    assert_eq!(
        bytes("410001027f4d8b5915adfc0d19987cfeb208597bb51633bef9d0be2f157cca52"),
        asset.0.to_vec()
    );
    let wrapped = H256::from(AssetSchemeAddress::new_with_zero_suffix(SHARD_ID));
    assert_eq!(
        bytes("5300010200000000000000000000000000000000000000000000000000000000"),
        wrapped.0.to_vec()
    );
    assert_eq!(Some(scheme), AssetSchemeAddress::from_hash(scheme).map(|a| a.hash()));
    assert_eq!(None, AssetSchemeAddress::from_hash(asset));
}

#[test]
fn the_null_root_is_always_at_hand() {
    let db = StateDB::new();
    assert!(db.contains(&H256(BLAKE_NULL_RLP)));
    assert!(!db.contains(&hash(1)));
}

#[test]
fn wrapped_coin_is_described_by_its_shard() {
    let text = |n: &str| {
        format!("{{\"name\":\"Wrapped CCC\",\"description\":\"Wrapped CCC in shard {}\"}}", n)
    };
    assert_eq!(text("0"), wrapped_metadata(0));
    assert_eq!(text("9"), wrapped_metadata(9));
    assert_eq!(text("10"), wrapped_metadata(10));
    assert_eq!(text("65535"), wrapped_metadata(65535));
}

#[test]
fn pools_add_up_by_type() {
    let mut pool: Vec<Asset> = vec![];
    assert!(add_to_pool(&mut pool, hash(1), 10));
    assert!(add_to_pool(&mut pool, hash(2), u64::MAX));
    assert!(add_to_pool(&mut pool, hash(1), 5));
    assert!(!add_to_pool(&mut pool, hash(2), 1));
    assert_eq!(vec![Asset::new(hash(1), 15), Asset::new(hash(2), u64::MAX)], pool);
    assert_eq!(None, take_from_pool(&mut pool, &hash(3)));
    assert_eq!(Some(15), take_from_pool(&mut pool, &hash(1)));
    assert_eq!(vec![Asset::new(hash(2), u64::MAX)], pool);
}

#[test]
fn outputs_of_amount_zero_count_as_their_type() {
    let output = |asset_type, amount| AssetTransferOutput {
        lock_script_hash: H160([0; 20]),
        parameters: vec![],
        asset_type,
        amount,
    };
    let sum = tally_outputs(&[output(hash(1), 3), output(hash(2), 0), output(hash(1), 4)]).unwrap();
    assert_eq!(vec![Asset::new(hash(1), 7), Asset::new(hash(2), 0)], sum);
    assert_eq!(None, tally_outputs(&[output(hash(1), u64::MAX), output(hash(1), 1)]));
    let pool = [Asset::new(hash(1), 7)];
    assert_eq!(
        Err(TransactionError::InvalidDecomposedOutput { address: hash(2), expected: 0, got: 0 }),
        match_pool(&pool, sum)
    );
    assert_eq!(Ok(()), match_pool(&pool, vec![Asset::new(hash(1), 7)]));
    assert_eq!(
        Err(TransactionError::InvalidDecomposedOutput { address: hash(1), expected: 7, got: 0 }),
        match_pool(&pool, vec![])
    );
}

#[test]
fn who_may_do_without_scripts() {
    let lock = H160([4; 20]);
    let sender = address(1);
    let administrator = address(2);
    let asset = locked(lock, Some(hash(40)));
    let free = scheme(None, None);
    let centralized = scheme(None, Some(administrator));
    let found = lock;
    assert_eq!(Ok(true), need_scripts(&asset, &free, None, false, &sender, &[], found));
    assert_eq!(
        Ok(false),
        need_scripts(&asset, &centralized, None, true, &administrator, &[], H160([5; 20]))
    );
    assert_eq!(
        Ok(false),
        need_scripts(&asset, &centralized, None, true, &sender, &[administrator], H160([5; 20]))
    );
    assert_eq!(
        Err(TransactionError::CannotBurnCentralizedAsset),
        need_scripts(&asset, &centralized, None, true, &sender, &[], found)
    );
    assert_eq!(
        Ok(true),
        need_scripts(&asset, &centralized, None, false, &sender, &[], found)
    );
    assert_eq!(
        Ok(false),
        need_scripts(&asset, &free, Some(hash(40)), false, &sender, &[], H160([5; 20]))
    );
    assert_eq!(
        Ok(true),
        need_scripts(&asset, &free, Some(hash(41)), false, &sender, &[], found)
    );
    assert_eq!(
        Err(TransactionError::ScriptHashMismatch(Mismatch {
            expected: lock,
            found: H160([5; 20])
        })),
        need_scripts(&asset, &free, Some(hash(41)), false, &sender, &[], H160([5; 20]))
    );
}

#[test]
fn what_an_outcome_means() {
    let failed = |reason| Err(TransactionError::FailedToUnlock { address: hash(3), reason });
    assert_eq!(Ok(()), judge(hash(3), &ScriptOutcome::Unlocked, false));
    assert_eq!(Ok(()), judge(hash(3), &ScriptOutcome::Burnt, true));
    assert_eq!(
        failed(UnlockFailureReason::ScriptShouldBeBurnt),
        judge(hash(3), &ScriptOutcome::Burnt, false)
    );
    assert_eq!(
        failed(UnlockFailureReason::ScriptShouldNotBeBurnt),
        judge(hash(3), &ScriptOutcome::Unlocked, true)
    );
    assert_eq!(
        failed(UnlockFailureReason::ScriptError),
        judge(hash(3), &ScriptOutcome::Fail, true)
    );
    assert_eq!(
        failed(UnlockFailureReason::ScriptError),
        judge(hash(3), &ScriptOutcome::RuntimeError, false)
    );
    assert_eq!(
        Err(TransactionError::InvalidScript),
        judge(hash(3), &ScriptOutcome::InvalidScript, false)
    );
    for burn in [false, true] {
        assert_eq!(!burn, lets_pass(&ScriptOutcome::Unlocked, burn));
        assert_eq!(burn, lets_pass(&ScriptOutcome::Burnt, burn));
        assert!(!lets_pass(&ScriptOutcome::Fail, burn));
    }
}

#[test]
fn checkpoints_are_taken_back_one_by_one() {
    let db = StateDB::new();
    let mut cache = ShardCache::new();
    let mut state = ShardLevelState::try_new(SHARD_ID, &db, &mut cache).unwrap();
    let at = OwnedAssetAddress::new(hash(1), 0, SHARD_ID);
    let other = OwnedAssetAddress::new(hash(2), 0, SHARD_ID);
    let lock = H160([0; 20]);
    let amount = |state: &ShardLevelState, at: &OwnedAssetAddress| {
        state.asset(at).unwrap().map(|asset| asset.amount())
    };
    assert!(state.create_asset(&at, hash(5), lock, vec![], 1, None).is_ok());
    state.create_checkpoint(10);
    assert!(state.create_asset(&at, hash(5), lock, vec![], 2, None).is_ok());
    state.create_checkpoint(11);
    assert!(state.create_asset(&at, hash(5), lock, vec![], 3, None).is_ok());
    assert!(state.create_asset(&other, hash(5), lock, vec![], 4, None).is_ok());
    state.discard_checkpoint(11);
    assert_eq!(Some(3), amount(&state, &at));
    state.create_checkpoint(12);
    assert!(state.create_asset(&at, hash(5), lock, vec![], 5, None).is_ok());
    state.revert_to_checkpoint(12);
    assert_eq!(Some(3), amount(&state, &at));
    assert_eq!(Some(4), amount(&state, &other));
    state.revert_to_checkpoint(10);
    assert_eq!(Some(1), amount(&state, &at));
    assert_eq!(None, amount(&state, &other));
}

fn spend(n: u8, lock_script: Vec<u8>) -> AssetTransferInput {
    AssetTransferInput {
        prev_out: AssetOutPoint {
            transaction_hash: hash(n),
            index: 0,
            asset_type: AssetSchemeAddress::new(hash(n), SHARD_ID).hash(),
            amount: 30,
        },
        lock_script,
        unlock_script: vec![9],
    }
}

fn mint(n: u8, administrator: Option<Address>) -> InnerTransaction {
    InnerTransaction::General(Transaction::AssetMint {
        hash: hash(n),
        metadata: "metadata".to_string(),
        approver: None,
        administrator,
        output: AssetMintOutput {
            lock_script_hash: script_hash(&[0x30, 0x01]),
            parameters: vec![vec![1, 2]],
            amount: Some(30),
        },
    })
}

#[test]
fn the_machine_is_told_what_to_run() {
    let db = StateDB::new();
    let mut cache = ShardCache::new();
    let mut state = ShardLevelState::try_new(SHARD_ID, &db, &mut cache).unwrap();
    let sender = address(1);
    for (n, administrator) in [(10, None), (20, Some(sender)), (30, None), (50, None)] {
        assert_eq!(
            Ok(Invoice::Success),
            state.apply(&mint(n, administrator), &sender, &[], &[], &[])
        );
    }
    let transaction = InnerTransaction::General(Transaction::AssetTransfer {
        hash: hash(11),
        burns: vec![spend(50, vec![0x30, 0x01])],
        inputs: vec![
            spend(10, vec![0x30, 0x01]),
            spend(20, vec![0x30, 0x01]),
            spend(30, vec![0x77]),
            spend(40, vec![0x30, 0x01]),
        ],
        outputs: vec![],
        orders: vec![OrderOnTransfer {
            order: Order { hash: hash(60), origin_outputs: vec![] },
            consumed_hash: hash(61),
            input_indices: vec![0],
            output_indices: vec![],
        }],
    });
    let run = |to_hash, burn| {
        Some(ScriptRun {
            lock_script: vec![0x30, 0x01],
            unlock_script: vec![9],
            parameters: vec![vec![1, 2]],
            to_hash,
            burn,
        })
    };
    assert_eq!(
        vec![
            run(HashSubject::Order(hash(60)), false),
            None,
            None,
            None,
            run(HashSubject::Transaction, true),
        ],
        state.script_runs(&transaction, &sender, &[])
    );
    assert_eq!(Vec::<Option<ScriptRun>>::new(), state.script_runs(&mint(70, None), &sender, &[]));
}

#[test]
fn a_transaction_touches_what_it_spends_and_what_it_makes() {
    let scheme_at = |n| AssetSchemeAddress::new(hash(n), SHARD_ID).hash();
    let asset_at = |n, index| OwnedAssetAddress::new(hash(n), index, SHARD_ID).hash();
    let output = || AssetTransferOutput {
        lock_script_hash: H160([0; 20]),
        parameters: vec![],
        asset_type: hash(5),
        amount: 1,
    };
    let transfer = InnerTransaction::General(Transaction::AssetTransfer {
        hash: hash(11),
        burns: vec![spend(20, vec![])],
        inputs: vec![spend(10, vec![])],
        outputs: vec![output(), output()],
        orders: vec![],
    });
    assert_eq!(vec![scheme_at(10), scheme_at(20)], touched_schemes(&transfer, SHARD_ID));
    assert_eq!(
        vec![asset_at(10, 0), asset_at(20, 0), asset_at(11, 0), asset_at(11, 1)],
        touched_assets(&transfer, SHARD_ID)
    );
    let mint = mint(12, None);
    assert_eq!(vec![scheme_at(12)], touched_schemes(&mint, SHARD_ID));
    assert_eq!(vec![asset_at(12, 0)], touched_assets(&mint, SHARD_ID));
}
