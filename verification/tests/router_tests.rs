#![allow(deprecated)]
use spl_token_2022::extension::transfer_hook::TransferHookAccount;
use spl_token_2022::extension::{
    BaseStateWithExtensionsMut, ExtensionType, StateWithExtensionsMut,
};
use spl_token_2022::state::{Account, AccountState};
use spl_transfer_hook_interface::instruction::TransferHookInstruction;
use transferhook::counter::Counter;
use transferhook::router::{decode_execute_amount, fallback};
use transferhook::HookError;

fn account_data(transferring: bool) -> Vec<u8> {
    let len = ExtensionType::try_calculate_account_len::<Account>(&[
        ExtensionType::TransferHookAccount,
    ])
    .unwrap();
    let mut data = vec![0u8; len];
    let mut state = StateWithExtensionsMut::<Account>::unpack_uninitialized(&mut data).unwrap();
    let ext = state.init_extension::<TransferHookAccount>(true).unwrap();
    ext.transferring = transferring.into();
    state.base.state = AccountState::Initialized;
    state.pack_base();
    state.init_account_type().unwrap();
    data
}

fn execute_buffer(amount: u64) -> Vec<u8> {
    TransferHookInstruction::Execute { amount }.pack()
}

fn fresh_counter() -> Counter {
    Counter { owner: vec![3u8; 32], count: 0 }
}

#[test]
fn decode_execute_amount_round_trips() {
    assert_eq!(decode_execute_amount(&execute_buffer(0)), Some(0));
    assert_eq!(decode_execute_amount(&execute_buffer(7)), Some(7));
    assert_eq!(decode_execute_amount(&execute_buffer(u64::MAX)), Some(u64::MAX));
    assert_eq!(decode_execute_amount(&[]), None);
    assert_eq!(decode_execute_amount(&[0u8; 16]), None);
}

#[test]
fn fallback_runs_the_hook_on_execute() {
    let src = account_data(true);
    let dst = account_data(true);
    let mut counter = fresh_counter();
    assert_eq!(fallback(&mut counter, &src, &dst, &execute_buffer(42)), Ok(()));
    assert_eq!(counter.count, 1);
}

#[test]
fn fallback_ignores_bytes_past_the_execute_encoding() {
    let src = account_data(true);
    let dst = account_data(true);
    let mut counter = fresh_counter();
    let mut buffer = execute_buffer(42);
    buffer.push(99);
    assert_eq!(fallback(&mut counter, &src, &dst, &buffer), Ok(()));
    assert_eq!(counter.count, 1);
}

#[test]
fn fallback_rejects_empty_and_malformed_buffers() {
    let src = account_data(true);
    let dst = account_data(true);
    let mut counter = fresh_counter();
    assert_eq!(
        fallback(&mut counter, &src, &dst, &[]),
        Err(HookError::InvalidInstructionData)
    );
    assert_eq!(
        fallback(&mut counter, &src, &dst, &[0u8; 16]),
        Err(HookError::InvalidInstructionData)
    );
    // an Execute buffer truncated before its amount
    let buffer = execute_buffer(42);
    assert_eq!(
        fallback(&mut counter, &src, &dst, &buffer[..12]),
        Err(HookError::InvalidInstructionData)
    );
    assert_eq!(counter.count, 0);
}

#[test]
fn fallback_rejects_other_opcodes_of_the_interface() {
    let src = account_data(true);
    let dst = account_data(true);
    let mut counter = fresh_counter();
    let buffer = TransferHookInstruction::InitializeExtraAccountMetaList {
        extra_account_metas: vec![],
    }
    .pack();
    assert_eq!(
        fallback(&mut counter, &src, &dst, &buffer),
        Err(HookError::InvalidInstructionData)
    );
    assert_eq!(counter.count, 0);
}

#[test]
fn fallback_propagates_the_hook_error_and_keeps_the_count() {
    let src = account_data(true);
    let dst = account_data(false);
    let mut counter = fresh_counter();
    assert_eq!(
        fallback(&mut counter, &src, &dst, &execute_buffer(1)),
        Err(HookError::ProgramCalledOutsideOfTransfer)
    );
    assert_eq!(counter.count, 0);
}

#[test]
fn amount_is_informational_only() {
    let src = account_data(true);
    let dst = account_data(true);
    let mut small = fresh_counter();
    let mut large = fresh_counter();
    assert_eq!(fallback(&mut small, &src, &dst, &execute_buffer(1)), Ok(()));
    assert_eq!(fallback(&mut large, &src, &dst, &execute_buffer(1_000_000)), Ok(()));
    assert_eq!(small.count, 1);
    assert_eq!(large.count, 1);
}
