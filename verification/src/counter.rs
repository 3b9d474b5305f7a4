//! The per-authority counter record and its lifecycle.
//!
//! A counter is created exactly once, at the slot derived from its
//! authority's address, with the owner recorded and the count at zero.  The
//! only later mutation is the hook validator's increment.
use vstd::prelude::*;
use vstd::slice::slice_to_vec;
use crate::{bytes_eq, is_address, HookError};
use crate::pda::{counter_seeds, create_program_address, pda_address};

verus! {

/// The per-authority usage record: who registered it, and how many times the
/// hook has run for them.
pub struct Counter {
    /// The authority that owns the record; immutable after creation.
    pub owner: Vec<u8>,
    /// How many times the hook validator has succeeded.
    pub count: u64,
}

/// The mathematical value of a counter record.
#[verifier::ext_equal]
pub struct CounterModel {
    /// The authority that owns the record.
    pub owner: Seq<u8>,
    /// How many times the hook validator has succeeded.
    pub count: u64,
}

impl View for Counter {
    type V = CounterModel;

    open spec fn view(&self) -> CounterModel {
        CounterModel { owner: self.owner@, count: self.count }
    }
}

/// A well-formed counter records a 32-byte owner address.
pub open spec fn counter_wf(c: CounterModel) -> bool {
    is_address(c.owner)
}

/// The storage slot a counter lives in: vacant until the one-shot
/// initializer runs, occupied ever after.
pub enum CounterSlot {
    /// No record has been created at this slot.
    Uninitialized,
    /// The slot holds a counter record.
    Initialized(Counter),
}

/// The mathematical value of a counter slot.
#[verifier::ext_equal]
pub enum CounterSlotModel {
    /// No record has been created at this slot.
    Uninitialized,
    /// The slot holds a counter record.
    Initialized(CounterModel),
}

impl View for CounterSlot {
    type V = CounterSlotModel;

    open spec fn view(&self) -> CounterSlotModel {
        match self {
            CounterSlot::Uninitialized => CounterSlotModel::Uninitialized,
            CounterSlot::Initialized(c) => CounterSlotModel::Initialized(c@),
        }
    }
}

/// The one step of the counter lifecycle: creating the record.  A vacant slot
/// receives the authority's record with a zero count; an occupied slot is
/// left unchanged and the call fails.
pub open spec fn spec_initialize(s: CounterSlotModel, authority: Seq<u8>) -> (CounterSlotModel,
    Result<(), HookError>) {
    match s {
        CounterSlotModel::Uninitialized => (
            CounterSlotModel::Initialized(CounterModel { owner: authority, count: 0 }),
            Ok(()),
        ),
        CounterSlotModel::Initialized(_) => (s, Err(HookError::AlreadyInitialized)),
    }
}

/// Create the counter record for an authority.
///
/// The slot's address must be the one the authority's address derives with
/// the given bump; a slot address the seeds do not derive is rejected, as the
/// host-side account constraints reject it.  Creation itself follows
/// [`spec_initialize`]: it succeeds exactly once per slot.
pub fn initialize(
    slot: &mut CounterSlot,
    slot_address: &[u8],
    bump_seed: u8,
    authority: &[u8],
    program_id: &[u8],
) -> (r: Result<(), HookError>)
    requires
        is_address(slot_address@),
        is_address(authority@),
        is_address(program_id@),
    ensures
        pda_address(counter_seeds(authority@).push(seq![bump_seed]), program_id@) != Some(
            slot_address@,
        ) ==> r == Err::<(), HookError>(HookError::InvalidSeeds) && final(slot)@ == old(slot)@,
        pda_address(counter_seeds(authority@).push(seq![bump_seed]), program_id@) == Some(
            slot_address@,
        ) ==> ({
            let (s2, rr) = spec_initialize(old(slot)@, authority@);
            final(slot)@ == s2 && r == rr
        }),
        r is Ok <==> pda_address(counter_seeds(authority@).push(seq![bump_seed]), program_id@)
            == Some(slot_address@) && old(slot)@ is Uninitialized,
        r is Ok ==> final(slot)@ == CounterSlotModel::Initialized(
            CounterModel { owner: authority@, count: 0 },
        ),
{
    let mut seeds: Vec<Vec<u8>> = Vec::new();
    seeds.push(slice_to_vec(authority));
    let mut bump: Vec<u8> = Vec::new();
    bump.push(bump_seed);
    proof {
        assert(bump@ =~= seq![bump_seed]);
    }
    seeds.push(bump);
    proof {
        assert(seeds.deep_view() =~~= counter_seeds(authority@).push(seq![bump_seed]));
    }
    let derived = create_program_address(&seeds, program_id);
    let derivation_ok = match &derived {
        Some(a) => bytes_eq(a.as_slice(), slot_address),
        None => false,
    };
    if !derivation_ok {
        return Err(HookError::InvalidSeeds);
    }
    let occupied = match slot {
        CounterSlot::Initialized(_) => true,
        CounterSlot::Uninitialized => false,
    };
    if occupied {
        return Err(HookError::AlreadyInitialized);
    }
    *slot = CounterSlot::Initialized(Counter { owner: slice_to_vec(authority), count: 0 });
    Ok(())
}

/// The stored form of a counter record: the owner's address, then the count
/// in little-endian form.
pub open spec fn spec_encode_counter(c: CounterModel) -> Seq<u8> {
    c.owner + vstd::bytes::spec_u64_to_le_bytes(c.count)
}

/// Number of bytes in a stored counter record.
pub const COUNTER_RECORD_LEN: usize = 40;

/// Serialize a counter record into its 40-byte stored form.
pub fn encode_counter_record(c: &Counter) -> (r: Vec<u8>)
    requires
        counter_wf(c@),
    ensures
        r@ == spec_encode_counter(c@),
        r@.len() == COUNTER_RECORD_LEN,
{
    let mut out = slice_to_vec(c.owner.as_slice());
    let mut count_bytes = vstd::bytes::u64_to_le_bytes(c.count);
    proof {
        vstd::bytes::lemma_auto_spec_u64_to_from_le_bytes();
    }
    out.append(&mut count_bytes);
    proof {
        assert(out@ =~= spec_encode_counter(c@));
    }
    out
}

/// Read a counter record back from its stored form; `None` on a buffer of
/// the wrong size.
pub fn decode_counter_record(data: &[u8]) -> (r: Option<Counter>)
    ensures
        match r {
            Some(c) => counter_wf(c@) && spec_encode_counter(c@) == data@,
            None => data@.len() != COUNTER_RECORD_LEN,
        },
{
    if data.len() != COUNTER_RECORD_LEN {
        return None;
    }
    let owner = slice_to_vec(vstd::slice::slice_subrange(data, 0, 32));
    let count_bytes = vstd::slice::slice_subrange(data, 32, 40);
    proof {
        vstd::bytes::lemma_auto_spec_u64_to_from_le_bytes();
    }
    let count = vstd::bytes::u64_from_le_bytes(count_bytes);
    let c = Counter { owner, count };
    proof {
        assert(spec_encode_counter(c@) =~= data@);
    }
    Some(c)
}

/// Law: initializing a vacant slot records the authority with a zero count,
/// and a second initialization of the now occupied slot — by any authority —
/// fails with `AlreadyInitialized` and leaves the record unchanged.
pub proof fn lemma_initialize_once_then_rejected(a1: Seq<u8>, a2: Seq<u8>)
    ensures
        ({
            let (s1, r1) = spec_initialize(CounterSlotModel::Uninitialized, a1);
            let (s2, r2) = spec_initialize(s1, a2);
            &&& r1 is Ok
            &&& s1 == CounterSlotModel::Initialized(CounterModel { owner: a1, count: 0 })
            &&& r2 == Err::<(), HookError>(HookError::AlreadyInitialized)
            &&& s2 == s1
        }),
{
}

} // verus!
