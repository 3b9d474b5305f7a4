//! The instruction router: the single foreign entry point.
//!
//! The hook is invoked through a generic entry point of a foreign-defined
//! interface, so an opaque instruction buffer arrives first.  Exactly one
//! opcode is recognized — Execute, an 8-byte discriminator followed by an
//! 8-byte little-endian transfer amount — and its amount is re-encoded and
//! handed to the hook validator.  Every other buffer, empty and malformed
//! ones included, is rejected with `InvalidInstructionData`.
use vstd::prelude::*;
use vstd::bytes::{lemma_auto_spec_u64_to_from_le_bytes, u64_from_le_bytes, u64_to_le_bytes};
use crate::HookError;
use crate::counter::Counter;
use crate::hook::{spec_transfer_hook, transfer_hook, transferring_of};

verus! {

/// The 16 bytes that the interface's Execute instruction packs to: its
/// discriminator followed by the amount in little-endian form.
pub uninterp spec fn execute_encoding(amount: u64) -> Seq<u8>;

/// A buffer selects the Execute opcode with `amount` when its first 16 bytes
/// are the Execute encoding of `amount`; bytes past those are ignored.
pub open spec fn encodes_execute(data: Seq<u8>, amount: u64) -> bool {
    data.len() >= 16 && data.subrange(0, 16) == execute_encoding(amount)
}

/// What the router makes of an instruction buffer.
#[derive(PartialEq, Eq, Structural)]
enum DecodedInstruction {
    /// The one recognized opcode, with its transfer amount.
    Execute(u64),
    /// Anything else: another opcode of the interface, or no opcode at all.
    Unrecognized,
}

/// Relies on `TransferHookInstruction::unpack` of the transfer-hook interface
/// crate: it returns `Execute { amount }` exactly when the buffer's first 8
/// bytes are the Execute discriminator and the next 8 hold `amount` in
/// little-endian form — together the 16-byte Execute encoding — with any
/// later bytes ignored; every other buffer yields another variant or an
/// error, and the call does not panic.
#[verifier::external_body]
fn unpack_instruction(data: &[u8]) -> (r: DecodedInstruction)
    ensures
        match r {
            DecodedInstruction::Execute(a) => data@.len() >= 16 && data@.subrange(0, 16)
                == execute_encoding(a),
            DecodedInstruction::Unrecognized => forall|a: u64| !encodes_execute(data@, a),
        },
{
    match spl_transfer_hook_interface::instruction::TransferHookInstruction::unpack(data) {
        Ok(
            spl_transfer_hook_interface::instruction::TransferHookInstruction::Execute { amount },
        ) => DecodedInstruction::Execute(amount),
        _ => DecodedInstruction::Unrecognized,
    }
}

/// Extract the transfer amount from a buffer that encodes Execute; `None` on
/// every other buffer.
pub fn decode_execute_amount(data: &[u8]) -> (r: Option<u64>)
    ensures
        match r {
            Some(a) => encodes_execute(data@, a),
            None => forall|a: u64| !encodes_execute(data@, a),
        },
{
    match unpack_instruction(data) {
        DecodedInstruction::Execute(a) => Some(a),
        DecodedInstruction::Unrecognized => None,
    }
}

/// The foreign entry point.  An Execute buffer behaves exactly as the hook
/// validator on its amount; any other buffer fails with
/// `InvalidInstructionData` and leaves the counter untouched.
pub fn fallback(
    counter: &mut Counter,
    source_data: &[u8],
    destination_data: &[u8],
    instruction_data: &[u8],
) -> (r: Result<(), HookError>)
    ensures
        (forall|a: u64| !encodes_execute(instruction_data@, a)) ==> r == Err::<(), HookError>(
            HookError::InvalidInstructionData,
        ) && final(counter)@ == old(counter)@,
        (exists|a: u64| encodes_execute(instruction_data@, a)) ==> ({
            let (c2, rr) = spec_transfer_hook(
                old(counter)@,
                transferring_of(source_data@),
                transferring_of(destination_data@),
            );
            final(counter)@ == c2 && r == rr
        }),
{
    match unpack_instruction(instruction_data) {
        DecodedInstruction::Execute(amount) => {
            proof {
                assert(encodes_execute(instruction_data@, amount));
            }
            let amount_bytes = u64_to_le_bytes(amount);
            proof {
                lemma_auto_spec_u64_to_from_le_bytes();
            }
            let amount = u64_from_le_bytes(amount_bytes.as_slice());
            transfer_hook(counter, source_data, destination_data, amount)
        },
        DecodedInstruction::Unrecognized => Err(HookError::InvalidInstructionData),
    }
}

} // verus!
