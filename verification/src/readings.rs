//! What is read of a shard is what was put there, and what is handed to the machine is what was
//! read.

use crate::cache::{CacheView, Overlay};
use crate::db::Leaf;
use crate::error::{
    refusal, unreadable, Mismatch, StateError, Stop, TransactionError, TrieError,
    UnlockFailureReason,
};
use crate::hash::{blake2b_160, Address, H160, H256};
use crate::item::{byte_strings, AssetScheme, AssetView, OwnedAsset, SchemeView};
use crate::ledger::{asked, asset_read, scheme_read, spendings, Ledger};
use crate::promises::{has_scheme_form, inputs_are_there, named, paying_order};
use crate::script::{
    consents, run_of, scripts_needed, unlocked, HashSubject, ScriptOutcome, ScriptRun,
};
use crate::shard_level::{ReadOnlyShardLevelState, ShardLevelState};
use crate::traits::ShardStateView;
use crate::transaction::{
    general_hash_of, hash_of, AssetTransferInput, InnerTransaction, Transaction,
};
use vstd::prelude::*;

verus! {

/// What the cache says of an address counts: an item that is there, or that it was taken away.
/// Where it says nothing, the leaf of the trie counts, or that there is none.
pub proof fn law_cache_counts_before_trie(ledger: Ledger, address: H256)
    ensures
        ledger.overlay.schemes.contains_key(address) ==> ledger.scheme(address) == Ok::<
            _,
            TrieError,
        >(ledger.overlay.schemes[address]),
        ledger.overlay.assets.contains_key(address) ==> ledger.asset(address) == Ok::<
            _,
            TrieError,
        >(ledger.overlay.assets[address]),
        !ledger.overlay.schemes.contains_key(address) ==> (match ledger.scheme(address) {
            Ok(Some(item)) => ledger.trie.schemes.contains_key(address)
                && ledger.trie.schemes[address] == Leaf::Item(item),
            Ok(None) => !ledger.trie.schemes.contains_key(address),
            Err(error) => ledger.trie.schemes.contains_key(address)
                && ledger.trie.schemes[address] == Leaf::<SchemeView>::Unreadable(error),
        }),
        !ledger.overlay.assets.contains_key(address) ==> (match ledger.asset(address) {
            Ok(Some(item)) => ledger.trie.assets.contains_key(address)
                && ledger.trie.assets[address] == Leaf::Item(item),
            Ok(None) => !ledger.trie.assets.contains_key(address),
            Err(error) => ledger.trie.assets.contains_key(address) && ledger.trie.assets[address]
                == Leaf::<AssetView>::Unreadable(error),
        }),
{
}

/// What is put at an address is read there, and nowhere else: neither at another address, nor as a
/// thing of the other kind.
pub proof fn law_read_what_was_put(
    ledger: Ledger,
    address: H256,
    scheme: Option<SchemeView>,
    asset: Option<AssetView>,
    other: H256,
)
    ensures
        ledger.with_scheme(address, scheme).scheme(address) == Ok::<_, TrieError>(scheme),
        ledger.with_asset(address, asset).asset(address) == Ok::<_, TrieError>(asset),
        ledger.with_scheme(address, scheme).asset(other) == ledger.asset(other),
        ledger.with_asset(address, asset).scheme(other) == ledger.scheme(other),
        other != address ==> ledger.with_scheme(address, scheme).scheme(other) == ledger.scheme(
            other,
        ),
        other != address ==> ledger.with_asset(address, asset).asset(other) == ledger.asset(other),
        ledger.with_scheme(address, scheme).shard_id == ledger.shard_id,
        ledger.with_asset(address, asset).shard_id == ledger.shard_id,
        ledger.with_scheme(address, scheme).trie == ledger.trie,
        ledger.with_asset(address, asset).trie == ledger.trie,
{
}

/// The same of a cache, whose checkpoints stay.
pub proof fn law_cache_holds_what_was_put(
    cache: CacheView,
    address: H256,
    scheme: Option<SchemeView>,
    asset: Option<AssetView>,
)
    ensures
        cache.with_scheme(address, scheme).current.schemes == cache.current.schemes.insert(
            address,
            scheme,
        ),
        cache.with_scheme(address, scheme).current.assets == cache.current.assets,
        cache.with_scheme(address, scheme).saved == cache.saved,
        cache.with_asset(address, asset).current.assets == cache.current.assets.insert(
            address,
            asset,
        ),
        cache.with_asset(address, asset).current.schemes == cache.current.schemes,
        cache.with_asset(address, asset).saved == cache.saved,
{
}

/// Checkpoints nest. One more is set on top of the others with what is in force; giving it up
/// keeps what is in force; going back to it brings back what was in force when it was set.
pub proof fn law_checkpoints_nest(cache: CacheView, later: Overlay)
    ensures
        cache.checkpointed().current == cache.current,
        cache.checkpointed().saved == cache.saved.push(cache.current),
        (CacheView { current: later, ..cache.checkpointed() }).discarded() == (CacheView {
            current: later,
            saved: cache.saved,
        }),
        (CacheView { current: later, ..cache.checkpointed() }).reverted() == cache,
{
    assert(cache.saved.push(cache.current).drop_last() =~= cache.saved);
}

/// A state reads the trie under its root in its database, with what its cache holds over it, as
/// the shard that it is.
pub proof fn law_state_reads_its_own(state: ShardLevelState, cache: CacheView, address: H256)
    requires
        cache == state.cache@,
    ensures
        state.ledger().shard_id == state.shard_id,
        state.ledger().trie == state.db@[state.root],
        state.ledger().overlay == cache.current,
        state.scheme_at(address) == state.ledger().scheme(address),
        state.asset_at(address) == state.ledger().asset(address),
        state.wf() ==> state.db@.contains_key(state.root),
{
}

/// States with the same base differ in nothing but what is in force.
pub proof fn law_same_base(
    one: ShardLevelState,
    other: ShardLevelState,
    one_cache: CacheView,
    other_cache: CacheView,
)
    requires
        one.same_base(&other),
        one_cache == one.cache@,
        other_cache == other.cache@,
    ensures
        one.db@ == other.db@,
        one.root == other.root,
        one.shard_id == other.shard_id,
        one.id_of_checkpoints@ == other.id_of_checkpoints@,
        one_cache.saved == other_cache.saved,
{
}

/// A read-only state reads the trie under its root with what its cache holds over it.
pub proof fn law_read_only_reads_its_own(
    state: ReadOnlyShardLevelState,
    ledger: Ledger,
    address: H256,
)
    requires
        ledger.trie == state.db@[state.root],
        ledger.overlay == state.cache@.current,
    ensures
        state.scheme_at(address) == ledger.scheme(address),
        state.asset_at(address) == ledger.asset(address),
{
}

/// What is handed out of a read is what was read.
pub proof fn law_reads_hand_out_what_is_there(
    scheme: Result<Option<AssetScheme>, TrieError>,
    asset: Result<Option<OwnedAsset>, TrieError>,
)
    ensures
        match (scheme, scheme_read(scheme)) {
            (Ok(Some(s)), Ok(Some(v))) => v == s@,
            (Ok(None), Ok(None)) => true,
            (Err(e), Err(f)) => e == f,
            _ => false,
        },
        match (asset, asset_read(asset)) {
            (Ok(Some(s)), Ok(Some(v))) => v == s@,
            (Ok(None), Ok(None)) => true,
            (Err(e), Err(f)) => e == f,
            _ => false,
        },
{
}

/// Two schemes with the same contents agree in every field, and so do two assets: nothing that
/// they hold is left out of account.
pub proof fn law_contents_leave_nothing_out(
    s1: AssetScheme,
    s2: AssetScheme,
    a1: OwnedAsset,
    a2: OwnedAsset,
)
    ensures
        s1@ == s2@ <==> s1.metadata@ == s2.metadata@ && s1.amount == s2.amount && s1.approver
            == s2.approver && s1.administrator == s2.administrator && s1.pool@ == s2.pool@,
        a1@ == a2@ ==> a1.asset == a2.asset && a1.lock_script_hash == a2.lock_script_hash
            && a1.order_hash == a2.order_hash && a1.parameters@.len() == a2.parameters@.len() && (
        forall|p: int|
            0 <= p < a1.parameters@.len() ==> (#[trigger] a1.parameters@[p])@
                == a2.parameters@[p]@),
        s1@.metadata == s1.metadata@,
        s1@.amount == s1.amount,
        s1@.approver == s1.approver,
        s1@.administrator == s1.administrator,
        s1@.pool == s1.pool@,
        a1@.asset_type == a1.asset.asset_type,
        a1@.amount == a1.asset.amount,
        a1@.lock_script_hash == a1.lock_script_hash,
        a1@.order_hash == a1.order_hash,
        a1@.parameters.len() == a1.parameters@.len(),
        forall|p: int|
            0 <= p < a1.parameters@.len() ==> #[trigger] a1@.parameters[p]
                == a1.parameters@[p]@,
{
    if a1@ == a2@ {
        assert(a1@.parameters == byte_strings(a1.parameters@));
        assert(a2@.parameters == byte_strings(a2.parameters@));
        assert(a1@.parameters.len() == a2@.parameters.len());
        assert forall|p: int| 0 <= p < a1.parameters@.len() implies (
        #[trigger] a1.parameters@[p])@ == a2.parameters@[p]@ by {
            assert(a1@.parameters[p] == a2@.parameters[p]);
        }
    }
}

/// The contents of a run are its fields.
pub proof fn law_run_contents(run: ScriptRun)
    ensures
        run@.lock_script == run.lock_script@,
        run@.unlock_script == run.unlock_script@,
        run@.to_hash == run.to_hash,
        run@.burn == run.burn,
        run@.parameters.len() == run.parameters@.len(),
        forall|p: int|
            0 <= p < run.parameters@.len() ==> #[trigger] run@.parameters[p]
                == run.parameters@[p]@,
{
}

/// What a transaction spends: the inputs of a transfer and then its burns, the inputs of a
/// composition, the one input of a decomposition, the one burn of an unwrapping, and nothing else.
/// The last order that names an input of a transfer pays with it. Burns are burnt, and only they.
pub proof fn law_what_is_spent(transaction: InnerTransaction, k: int)
    ensures
        match transaction {
            InnerTransaction::General(
                Transaction::AssetTransfer { burns, inputs, orders, .. },
            ) => {
                &&& spendings(transaction).len() == inputs@.len() + burns@.len()
                &&& 0 <= k < inputs@.len() ==> {
                    &&& spendings(transaction)[k].input == inputs@[k]
                    &&& spendings(transaction)[k].order == paying_order(orders@, k)
                    &&& !spendings(transaction)[k].burn
                }
                &&& inputs@.len() <= k < inputs@.len() + burns@.len() ==> {
                    &&& spendings(transaction)[k].input == burns@[k - inputs@.len()]
                    &&& spendings(transaction)[k].order is None
                    &&& spendings(transaction)[k].burn
                }
            },
            InnerTransaction::General(Transaction::AssetCompose { inputs, .. }) => {
                &&& spendings(transaction).len() == inputs@.len()
                &&& 0 <= k < inputs@.len() ==> {
                    &&& spendings(transaction)[k].input == inputs@[k]
                    &&& spendings(transaction)[k].order is None
                    &&& !spendings(transaction)[k].burn
                }
            },
            InnerTransaction::General(Transaction::AssetDecompose { input, .. }) => {
                &&& spendings(transaction).len() == 1
                &&& spendings(transaction)[0].input == input
                &&& spendings(transaction)[0].order is None
                &&& !spendings(transaction)[0].burn
            },
            InnerTransaction::General(Transaction::AssetUnwrapCCC { burn, .. }) => {
                &&& spendings(transaction).len() == 1
                &&& spendings(transaction)[0].input == burn
                &&& spendings(transaction)[0].order is None
                &&& spendings(transaction)[0].burn
            },
            _ => spendings(transaction).len() == 0,
        },
{
    if let InnerTransaction::General(Transaction::AssetTransfer { burns, inputs, orders, .. }) =
        transaction {
        crate::promises::lemma_last_to_pay(orders@, orders@.len() as int, k);
    }
}

/// What has to be run for a spending is its own lock script and unlock script, with the parameters
/// of the asset that it names, over the order that it pays for or over the transaction.
///
/// It has to be run exactly where the asset and its scheme are there, the administrator of the
/// scheme neither sent the transaction nor approves of it, the spending does not burn what is under
/// an administrator, the asset does not lie under the order that it pays for, and the lock script
/// has the hash that the asset names.
pub proof fn law_machine_gets_what_is_there(
    ledger: Ledger,
    transaction: InnerTransaction,
    sender: Address,
    approvers: Seq<Address>,
    k: int,
)
    requires
        0 <= k < spendings(transaction).len(),
    ensures
        ({
            let spending = spendings(transaction)[k];
            let input = spending.input;
            let friends = if transaction matches InnerTransaction::General(
                Transaction::AssetUnwrapCCC { .. },
            ) {
                Seq::<Address>::empty()
            } else {
                approvers
            };
            let in_range = match transaction {
                InnerTransaction::General(Transaction::AssetTransfer { inputs, orders, .. }) =>
                    inputs_are_there(orders@, inputs@.len()),
                _ => true,
            };
            match (
                ledger.asset(named(input, ledger.shard_id)),
                ledger.scheme(input.prev_out.asset_type),
            ) {
                (Ok(Some(asset)), Ok(Some(scheme))) => {
                    let administrator = scheme.administrator;
                    let needed = in_range && has_scheme_form(input.prev_out.asset_type) && !(
                    administrator is Some && (sender == administrator->0 || friends.contains(
                        administrator->0,
                    ))) && !(spending.burn && administrator is Some) && !(spending.order is Some
                        && asset.order_hash == spending.order) && asset.lock_script_hash == H160(
                        blake2b_160(input.lock_script@),
                    );
                    match asked(ledger, transaction, sender, approvers, k) {
                        None => !needed,
                        Some(run) => {
                            &&& needed
                            &&& run.lock_script == input.lock_script@
                            &&& run.unlock_script == input.unlock_script@
                            &&& run.parameters == asset.parameters
                            &&& run.burn == spending.burn
                            &&& spending.order is None ==> run.to_hash is Transaction
                            &&& spending.order matches Some(hash) ==> run.to_hash
                                == HashSubject::Order(hash)
                        },
                    }
                },
                _ => asked(ledger, transaction, sender, approvers, k) is None,
            }
        }),
{
    if let InnerTransaction::General(Transaction::AssetTransfer { inputs, orders, .. }) =
        transaction {
        crate::promises::lemma_ranges(orders@, inputs@.len(), 0);
    }
}

/// A party consents exactly where it is the sender or is among the approvers. So an approver who
/// is not the party makes no difference.
pub proof fn law_consent(
    party: Address,
    sender: Address,
    approvers: Seq<Address>,
    stranger: Address,
)
    ensures
        consents(party, sender, approvers) <==> party == sender || approvers.contains(party),
        stranger != party ==> consents(party, sender, approvers.push(stranger)) == consents(
            party,
            sender,
            approvers,
        ),
        consents(party, party, approvers),
        consents(party, sender, approvers.push(party)),
{
    let more = approvers.push(stranger);
    if approvers.contains(party) {
        let i = choose|i: int| 0 <= i < approvers.len() && approvers[i] == party;
        assert(more[i] == party);
    }
    if more.contains(party) && stranger != party {
        let i = choose|i: int| 0 <= i < more.len() && more[i] == party;
        assert(approvers[i] == party);
    }
    assert(approvers.push(party)[approvers.len() as int] == party);
}

/// Whether scripts have to be run, whatever hash `found` of the lock script is given.
pub proof fn law_need_of_scripts(
    asset: AssetView,
    scheme: SchemeView,
    order: Option<H256>,
    burn: bool,
    sender: Address,
    approvers: Seq<Address>,
    found: H160,
)
    ensures
        ({
            let need = scripts_needed(asset, scheme, order, burn, sender, approvers, found);
            let administrator = scheme.administrator;
            let in_charge = administrator is Some && (sender == administrator->0
                || approvers.contains(administrator->0));
            let forbidden = administrator is Some && burn && !in_charge;
            let under_order = order is Some && asset.order_hash == order;
            &&& need == Err::<bool, _>(TransactionError::CannotBurnCentralizedAsset) <==> forbidden
            &&& need == Ok::<_, TransactionError>(false) <==> in_charge || (!forbidden
                && under_order)
            &&& need == Ok::<_, TransactionError>(true) <==> !in_charge && !forbidden
                && !under_order && found == asset.lock_script_hash
            &&& !in_charge && !forbidden && !under_order && found != asset.lock_script_hash
                ==> need == Err::<bool, _>(
                TransactionError::ScriptHashMismatch(
                    Mismatch { expected: asset.lock_script_hash, found },
                ),
            )
        }),
{
}

/// What is handed to the machine for an input is what the input and the asset hold.
pub proof fn law_run_of_an_input(
    asset: AssetView,
    input: AssetTransferInput,
    order: Option<H256>,
    burn: bool,
)
    ensures
        run_of(asset, input, order, burn).lock_script == input.lock_script@,
        run_of(asset, input, order, burn).unlock_script == input.unlock_script@,
        run_of(asset, input, order, burn).parameters == asset.parameters,
        run_of(asset, input, order, burn).burn == burn,
        order is None <==> run_of(asset, input, order, burn).to_hash is Transaction,
        order matches Some(hash) ==> run_of(asset, input, order, burn).to_hash
            == HashSubject::Order(hash),
{
}

/// An outcome lets an input be spent exactly where it burns what is to be burnt, or unlocks what is
/// not. Every other outcome has its own reason.
pub proof fn law_outcomes(address: H256, outcome: ScriptOutcome, burn: bool)
    ensures
        unlocked(address, outcome, burn) is Ok <==> outcome == if burn {
            ScriptOutcome::Burnt
        } else {
            ScriptOutcome::Unlocked
        },
        outcome is InvalidScript ==> unlocked(address, outcome, burn) == Err::<(), _>(
            TransactionError::InvalidScript,
        ),
        outcome is Burnt && !burn ==> unlocked(address, outcome, burn) == Err::<(), _>(
            TransactionError::FailedToUnlock {
                address,
                reason: UnlockFailureReason::ScriptShouldBeBurnt,
            },
        ),
        outcome is Unlocked && burn ==> unlocked(address, outcome, burn) == Err::<(), _>(
            TransactionError::FailedToUnlock {
                address,
                reason: UnlockFailureReason::ScriptShouldNotBeBurnt,
            },
        ),
        outcome is Fail || outcome is RuntimeError ==> unlocked(address, outcome, burn) == Err::<
            (),
            _,
        >(
            TransactionError::FailedToUnlock { address, reason: UnlockFailureReason::ScriptError },
        ),
{
}

/// A stop carries its reason unchanged.
pub proof fn law_stops_carry_their_reason(error: TransactionError, read_error: TrieError)
    ensures
        refusal(error) == Stop::Error(StateError::Transaction(error)),
        unreadable(read_error) == Stop::Error(StateError::Trie(read_error)),
{
}

/// A transaction goes by the hash that came with it, and wrapping by that of its parcel.
pub proof fn law_hash_of_transactions(transaction: InnerTransaction)
    ensures
        match transaction {
            InnerTransaction::General(general) => {
                &&& hash_of(transaction) == general_hash_of(general)
                &&& match general {
                    Transaction::AssetMint { hash, .. } => general_hash_of(general) == hash,
                    Transaction::AssetTransfer { hash, .. } => general_hash_of(general) == hash,
                    Transaction::AssetSchemeChange { hash, .. } => general_hash_of(general)
                        == hash,
                    Transaction::AssetCompose { hash, .. } => general_hash_of(general) == hash,
                    Transaction::AssetDecompose { hash, .. } => general_hash_of(general) == hash,
                    Transaction::AssetUnwrapCCC { hash, .. } => general_hash_of(general) == hash,
                }
            },
            InnerTransaction::AssetWrapCCC { parcel_hash, .. } => hash_of(transaction)
                == parcel_hash,
        },
{
}

/// The address of the asset that an input spends is that which its transaction made it at.
pub proof fn law_spent_by_out_point(ledger: Ledger, input: AssetTransferInput)
    ensures
        ledger.spent(input) == crate::address::asset_address(
            input.prev_out.transaction_hash,
            input.prev_out.index as int,
            ledger.shard_id,
        ),
{
}

} // verus!
