//! The hook validator: the state transition run once per transfer.
//!
//! Both participant accounts must carry an active transferring flag — set by
//! the token program only for the duration of a transfer — and the counter is
//! then incremented.  The flag checks come before the increment, so a failed
//! call leaves the counter unchanged; under the host's transaction atomicity
//! either order is observably the same.  The count wraps around at the 64-bit
//! limit, so the validator itself never fails on a full counter.
use vstd::prelude::*;
use spl_token_2022::extension::BaseStateWithExtensions;
use crate::HookError;
use crate::counter::{Counter, CounterModel};

verus! {

/// What parsing a participant account's bytes yields: the transferring flag,
/// or nothing when the bytes are not token-account state with a transfer-hook
/// extension.
pub uninterp spec fn transferring_of(data: Seq<u8>) -> Option<bool>;

/// Relies on `spl_token_2022::extension::StateWithExtensions::<Account>::unpack`
/// and `BaseStateWithExtensions::get_extension::<TransferHookAccount>`: both
/// are pure parses of the byte buffer, so the flag — or the parse failure —
/// is a function of the bytes alone, and neither call panics.
#[verifier::external_body]
fn read_transferring_flag(account_data: &[u8]) -> (r: Option<bool>)
    ensures
        r == transferring_of(account_data@),
{
    let state = match spl_token_2022::extension::StateWithExtensions::<
        spl_token_2022::state::Account,
    >::unpack(account_data) {
        Ok(s) => s,
        Err(_) => return None,
    };
    match state.get_extension::<spl_token_2022::extension::transfer_hook::TransferHookAccount>() {
        Ok(ext) => Some(bool::from(ext.transferring)),
        Err(_) => None,
    }
}

/// How one participant account fares: mid-transfer passes, a cleared flag is
/// a call from outside a transfer, unparseable bytes are invalid.
pub open spec fn spec_check_transferring(flag: Option<bool>) -> Result<(), HookError> {
    match flag {
        Some(true) => Ok(()),
        Some(false) => Err(HookError::ProgramCalledOutsideOfTransfer),
        None => Err(HookError::InvalidAccountData),
    }
}

/// Require one participant account to be flagged as mid-transfer.
pub fn check_token_account_is_transferring(account_data: &[u8]) -> (r: Result<(), HookError>)
    ensures
        r == spec_check_transferring(transferring_of(account_data@)),
{
    match read_transferring_flag(account_data) {
        Some(true) => Ok(()),
        Some(false) => Err(HookError::ProgramCalledOutsideOfTransfer),
        None => Err(HookError::InvalidAccountData),
    }
}

/// The increment, wrapping at the 64-bit limit.
pub open spec fn wrapping_inc(c: u64) -> u64 {
    if c == u64::MAX {
        0
    } else {
        (c + 1) as u64
    }
}

/// One step of the hook validator: with both flags set the counter advances
/// by one and the call succeeds; otherwise the counter is unchanged and the
/// call fails as the first failing participant dictates, source first.
pub open spec fn spec_transfer_hook(c: CounterModel, src: Option<bool>, dst: Option<bool>) -> (
    CounterModel,
    Result<(), HookError>,
) {
    if src == Some(true) && dst == Some(true) {
        (CounterModel { owner: c.owner, count: wrapping_inc(c.count) }, Ok(()))
    } else if src != Some(true) {
        (c, spec_check_transferring(src))
    } else {
        (c, spec_check_transferring(dst))
    }
}

/// The hook validator.  The amount is accepted but never constrains the
/// outcome: it is informational only.
#[allow(unused_variables)]
pub fn transfer_hook(
    counter: &mut Counter,
    source_data: &[u8],
    destination_data: &[u8],
    amount: u64,
) -> (r: Result<(), HookError>)
    ensures
        ({
            let (c2, rr) = spec_transfer_hook(
                old(counter)@,
                transferring_of(source_data@),
                transferring_of(destination_data@),
            );
            final(counter)@ == c2 && r == rr
        }),
{
    check_token_account_is_transferring(source_data)?;
    check_token_account_is_transferring(destination_data)?;
    counter.count = if counter.count == u64::MAX {
        0
    } else {
        counter.count + 1
    };
    Ok(())
}

/// The counter after `n` hook invocations in sequence, all mid-transfer.
pub open spec fn spec_hooks_mid_transfer(c: CounterModel, n: nat) -> CounterModel
    decreases n,
{
    if n == 0 {
        c
    } else {
        spec_transfer_hook(spec_hooks_mid_transfer(c, (n - 1) as nat), Some(true), Some(true)).0
    }
}

/// Law: with both participants mid-transfer the hook succeeds, keeps the
/// owner, and raises the count by exactly one.
pub proof fn lemma_hook_mid_transfer_increments(c: CounterModel)
    ensures
        ({
            let (c2, r) = spec_transfer_hook(c, Some(true), Some(true));
            &&& r is Ok
            &&& c2.owner == c.owner
            &&& c2.count == wrapping_inc(c.count)
        }),
{
}

/// Law: `n` hook invocations in sequence, all mid-transfer, raise the count
/// by exactly `n` — so a counter that starts at zero reads `n` afterwards.
pub proof fn lemma_hook_count_after_n(c: CounterModel, n: nat)
    requires
        c.count + n <= u64::MAX,
    ensures
        spec_hooks_mid_transfer(c, n).owner == c.owner,
        spec_hooks_mid_transfer(c, n).count == c.count + n,
    decreases n,
{
    if n > 0 {
        lemma_hook_count_after_n(c, (n - 1) as nat);
    }
}

/// Law: when either participant's flag is cleared (and both parse), the hook
/// fails with `ProgramCalledOutsideOfTransfer` and the counter is unchanged.
pub proof fn lemma_hook_outside_transfer(c: CounterModel, src: Option<bool>, dst: Option<bool>)
    requires
        src is Some,
        dst is Some,
        src == Some(false) || dst == Some(false),
    ensures
        ({
            let (c2, r) = spec_transfer_hook(c, src, dst);
            c2 == c && r == Err::<(), HookError>(HookError::ProgramCalledOutsideOfTransfer)
        }),
{
}

} // verus!
