//! A verified model of a token transfer-hook program.
//!
//! The library holds the logic of the hook: the TLV codec for the
//! extra-account-meta list, the derived-address (PDA) resolution used to place
//! the counter record and the meta list, the transfer-in-progress validation,
//! and the instruction router.  The host runtime's own duties (atomic account
//! locking, allocation of storage at a derived address, serialization of the
//! counter record) stay outside; calls into the token and interface crates
//! stand behind a few trusted wrappers with stated contracts.
use vstd::prelude::*;

pub mod counter;
pub mod hook;
pub mod meta_list;
pub mod pda;
pub mod router;

verus! {

/// Number of bytes in an account address (public key).
pub const ADDRESS_LEN: usize = 32;

/// An account address is exactly 32 bytes.
pub open spec fn is_address(s: Seq<u8>) -> bool {
    s.len() == ADDRESS_LEN
}

/// Every way one of the three operations can fail.
///
/// `InvalidAccountData` stands for a participant account whose bytes do not
/// parse as token-account state with a transfer-hook extension; it surfaces
/// the token crate's own parse failure.
/// `InvalidSeeds` stands for a slot address that the seed tuple and bump do
/// not derive; the host-side account constraints reject such a call.
#[derive(Clone, Copy, Debug, PartialEq, Eq, Structural)]
pub enum HookError {
    /// The instruction buffer does not encode the one recognized opcode.
    InvalidInstructionData,
    /// A participant account is not flagged as mid-transfer.
    ProgramCalledOutsideOfTransfer,
    /// A one-shot initializer ran on an already occupied slot.
    AlreadyInitialized,
    /// The meta-list size computation overflowed.
    SizeOverflow,
    /// A participant account's bytes do not parse as token-account state.
    InvalidAccountData,
    /// The given seeds and bump do not derive the given slot address.
    InvalidSeeds,
}

/// Byte-for-byte comparison of two buffers.
pub fn bytes_eq(a: &[u8], b: &[u8]) -> (r: bool)
    ensures
        r == (a@ == b@),
{
    if a.len() != b.len() {
        return false;
    }
    let n = a.len();
    let mut i: usize = 0;
    while i < n
        invariant
            n == a@.len() == b@.len(),
            0 <= i <= n,
            forall|k: int| 0 <= k < i ==> a@[k] == b@[k],
        decreases n - i,
    {
        if *vstd::slice::slice_index_get(a, i) != *vstd::slice::slice_index_get(b, i) {
            return false;
        }
        i += 1;
    }
    proof {
        assert(a@ =~= b@);
    }
    true
}

} // verus!
