//! What the scripts of an input have to do with whether it may be spent.
//!
//! The scripts are run by a machine outside this crate. Here it is decided whether they have to
//! be run at all, what is handed to the machine, and what its answer means.

use crate::error::{Mismatch, TransactionError, UnlockFailureReason};
use crate::hash::{contains_address, Address, H160, H256};
use crate::item::{
    byte_strings, copy_byte_strings, AssetScheme, AssetView, OwnedAsset, SchemeView,
};
use crate::transaction::AssetTransferInput;
use vstd::prelude::*;

verus! {

/// What the signatures in a script are made over.
#[derive(Clone, Copy, Debug, PartialEq, Eq)]
pub enum HashSubject {
    /// The transaction that holds the input.
    Transaction,
    /// The order with this hash, which the input pays for.
    Order(H256),
}

/// What came of the scripts of an input.
#[derive(Clone, Copy, Debug, PartialEq, Eq)]
pub enum ScriptOutcome {
    /// The lock script or the unlock script could not be decoded.
    InvalidScript,
    Burnt,
    Unlocked,
    Fail,
    RuntimeError,
}

/// What is handed to the machine that runs scripts.
#[derive(Debug, PartialEq, Eq)]
pub struct ScriptRun {
    pub lock_script: Vec<u8>,
    pub unlock_script: Vec<u8>,
    pub parameters: Vec<Vec<u8>>,
    pub to_hash: HashSubject,
    pub burn: bool,
}

/// The contents of a [`ScriptRun`].
#[verifier::ext_equal]
pub struct ScriptRunView {
    pub lock_script: Seq<u8>,
    pub unlock_script: Seq<u8>,
    pub parameters: Seq<Seq<u8>>,
    pub to_hash: HashSubject,
    pub burn: bool,
}

impl View for ScriptRun {
    type V = ScriptRunView;

    open spec fn view(&self) -> ScriptRunView {
        ScriptRunView {
            lock_script: self.lock_script@,
            unlock_script: self.unlock_script@,
            parameters: byte_strings(self.parameters@),
            to_hash: self.to_hash,
            burn: self.burn,
        }
    }
}

/// `party` sent the transaction or approves of it.
pub open spec fn consents(party: Address, sender: Address, approvers: Seq<Address>) -> bool {
    party == sender || approvers.contains(party)
}

/// Says whether `party` sent the transaction or approves of it.
pub fn has_consent(party: &Address, sender: &Address, approvers: &[Address]) -> (yes: bool)
    ensures
        yes == consents(*party, *sender, approvers@),
{
    *party == *sender || contains_address(approvers, party)
}

/// Whether the scripts of an input have to be run, where `found` is the hash of its lock
/// script. The administrator of a centralized asset moves it without them, and alone may burn
/// it. An asset that already lies under the order that it pays for moves without them too.
pub open spec fn scripts_needed(
    asset: AssetView,
    scheme: SchemeView,
    order: Option<H256>,
    burn: bool,
    sender: Address,
    approvers: Seq<Address>,
    found: H160,
) -> Result<bool, TransactionError> {
    if scheme.administrator is Some && consents(scheme.administrator->0, sender, approvers) {
        Ok(false)
    } else if scheme.administrator is Some && burn {
        Err(TransactionError::CannotBurnCentralizedAsset)
    } else if order is Some && asset.order_hash == order {
        Ok(false)
    } else if asset.lock_script_hash != found {
        Err(
            TransactionError::ScriptHashMismatch(
                Mismatch { expected: asset.lock_script_hash, found },
            ),
        )
    } else {
        Ok(true)
    }
}

/// Decides whether the scripts of an input have to be run, where `found` is the hash of its
/// lock script.
pub fn need_scripts(
    asset: &OwnedAsset,
    scheme: &AssetScheme,
    order: Option<H256>,
    burn: bool,
    sender: &Address,
    approvers: &[Address],
    found: H160,
) -> (needed: Result<bool, TransactionError>)
    ensures
        needed == scripts_needed(asset@, scheme@, order, burn, *sender, approvers@, found),
{
    if let Some(administrator) = &scheme.administrator {
        if has_consent(administrator, sender, approvers) {
            return Ok(false);
        } else if burn {
            return Err(TransactionError::CannotBurnCentralizedAsset);
        }
    }
    if let Some(order_hash) = order {
        if let Some(asset_order_hash) = asset.order_hash {
            if asset_order_hash == order_hash {
                return Ok(false);
            }
        }
    }
    if asset.lock_script_hash != found {
        return Err(
            TransactionError::ScriptHashMismatch(
                Mismatch { expected: asset.lock_script_hash, found },
            ),
        );
    }
    Ok(true)
}

/// What is handed to the machine for an input.
pub open spec fn run_of(
    asset: AssetView,
    input: AssetTransferInput,
    order: Option<H256>,
    burn: bool,
) -> ScriptRunView {
    ScriptRunView {
        lock_script: input.lock_script@,
        unlock_script: input.unlock_script@,
        parameters: asset.parameters,
        to_hash: match order {
            Some(hash) => HashSubject::Order(hash),
            None => HashSubject::Transaction,
        },
        burn,
    }
}

/// Makes out what is handed to the machine for an input.
pub fn script_run(
    asset: &OwnedAsset,
    input: &AssetTransferInput,
    order: Option<H256>,
    burn: bool,
) -> (run: ScriptRun)
    ensures
        run@ == run_of(asset@, *input, order, burn),
{
    ScriptRun {
        lock_script: vstd::slice::slice_to_vec(input.lock_script.as_slice()),
        unlock_script: vstd::slice::slice_to_vec(input.unlock_script.as_slice()),
        parameters: copy_byte_strings(asset.parameters.as_slice()),
        to_hash: match order {
            Some(hash) => HashSubject::Order(hash),
            None => HashSubject::Transaction,
        },
        burn,
    }
}

/// What an answer of the machine means for the asset at `address`.
pub open spec fn unlocked(address: H256, outcome: ScriptOutcome, burn: bool) -> Result<
    (),
    TransactionError,
> {
    match outcome {
        ScriptOutcome::InvalidScript => Err(TransactionError::InvalidScript),
        ScriptOutcome::Burnt => if burn {
            Ok(())
        } else {
            Err(
                TransactionError::FailedToUnlock {
                    address,
                    reason: UnlockFailureReason::ScriptShouldBeBurnt,
                },
            )
        },
        ScriptOutcome::Unlocked => if burn {
            Err(
                TransactionError::FailedToUnlock {
                    address,
                    reason: UnlockFailureReason::ScriptShouldNotBeBurnt,
                },
            )
        } else {
            Ok(())
        },
        ScriptOutcome::Fail | ScriptOutcome::RuntimeError => Err(
            TransactionError::FailedToUnlock { address, reason: UnlockFailureReason::ScriptError },
        ),
    }
}

/// Judges an answer of the machine on the asset at `address`.
pub fn judge(address: H256, outcome: &ScriptOutcome, burn: bool) -> (verdict: Result<
    (),
    TransactionError,
>)
    ensures
        verdict == unlocked(address, *outcome, burn),
{
    let reason = match (outcome, burn) {
        (ScriptOutcome::InvalidScript, _) => {
            return Err(TransactionError::InvalidScript);
        },
        (ScriptOutcome::Burnt, true) => {
            return Ok(());
        },
        (ScriptOutcome::Burnt, false) => UnlockFailureReason::ScriptShouldBeBurnt,
        (ScriptOutcome::Unlocked, false) => {
            return Ok(());
        },
        (ScriptOutcome::Unlocked, true) => UnlockFailureReason::ScriptShouldNotBeBurnt,
        (ScriptOutcome::Fail, _) => UnlockFailureReason::ScriptError,
        (ScriptOutcome::RuntimeError, _) => UnlockFailureReason::ScriptError,
    };
    Err(TransactionError::FailedToUnlock { address, reason })
}

/// Says whether an answer of the machine lets an input be spent.
pub fn lets_pass(outcome: &ScriptOutcome, burn: bool) -> (yes: bool)
    ensures
        forall|address: H256| yes == (#[trigger] unlocked(address, *outcome, burn) is Ok),
{
    match outcome {
        ScriptOutcome::Burnt => burn,
        ScriptOutcome::Unlocked => !burn,
        _ => false,
    }
}

} // verus!
