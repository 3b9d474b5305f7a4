//! The account-meta codec: an ordered list of auxiliary-account descriptors,
//! encoded to and from a fixed binary layout.
//!
//! The layout is a 4-byte little-endian entry count followed by one fixed-width
//! 35-byte record per entry: a one-byte discriminator, the 32-byte address
//! configuration, and one byte each for the signer and writable flags (0 or 1).
//! Encoding and decoding round-trip, and the required buffer size is a function
//! of the entry count alone.
use vstd::prelude::*;
use vstd::bytes::*;
use vstd::slice::{slice_index_get, slice_subrange, slice_to_vec};
use crate::{bytes_eq, is_address, HookError, ADDRESS_LEN};
use crate::pda::{
    collect_extra_account_metas_signer_seeds, create_program_address, extra_account_metas_seeds,
    pda_address,
};

verus! {

/// Bytes taken by the entry count header.
pub const LIST_HEADER_LEN: usize = 4;

/// Bytes taken by one encoded descriptor.
pub const META_ENTRY_LEN: usize = 35;

/// One auxiliary-account descriptor: how to find the account, and whether the
/// runtime should treat it as a signer or as writable.
#[derive(Debug, PartialEq, Eq)]
pub struct ExtraAccountMeta {
    /// Selects how `address_config` is interpreted.
    pub discriminator: u8,
    /// A raw address or a seed specification; always 32 bytes.
    pub address_config: Vec<u8>,
    /// Whether the account must sign.
    pub is_signer: bool,
    /// Whether the account is written to.
    pub is_writable: bool,
}

/// The mathematical value of one descriptor.
#[verifier::ext_equal]
pub struct ExtraAccountMetaModel {
    /// Selects how `address_config` is interpreted.
    pub discriminator: u8,
    /// A raw address or a seed specification; always 32 bytes.
    pub address_config: Seq<u8>,
    /// Whether the account must sign.
    pub is_signer: bool,
    /// Whether the account is written to.
    pub is_writable: bool,
}

impl View for ExtraAccountMeta {
    type V = ExtraAccountMetaModel;

    open spec fn view(&self) -> ExtraAccountMetaModel {
        ExtraAccountMetaModel {
            discriminator: self.discriminator,
            address_config: self.address_config@,
            is_signer: self.is_signer,
            is_writable: self.is_writable,
        }
    }
}

/// A well-formed descriptor carries a 32-byte address configuration.
pub open spec fn meta_wf(m: ExtraAccountMetaModel) -> bool {
    is_address(m.address_config)
}

/// A well-formed list: every entry well formed, and the count fits the header.
pub open spec fn list_wf(l: Seq<ExtraAccountMetaModel>) -> bool {
    &&& l.len() <= u32::MAX
    &&& forall|i: int| 0 <= i < l.len() ==> meta_wf(#[trigger] l[i])
}

/// The mathematical values of a sequence of descriptors.
pub open spec fn views_of(s: Seq<ExtraAccountMeta>) -> Seq<ExtraAccountMetaModel> {
    s.map_values(|m: ExtraAccountMeta| m@)
}

/// How a flag is stored: one for true, zero for false.
pub open spec fn spec_bool_byte(b: bool) -> u8 {
    if b { 1 } else { 0 }
}

/// The 35-byte record of one descriptor.
pub open spec fn spec_encode_meta(m: ExtraAccountMetaModel) -> Seq<u8> {
    seq![m.discriminator] + m.address_config
        + seq![spec_bool_byte(m.is_signer), spec_bool_byte(m.is_writable)]
}

/// The records of all descriptors, in order.
pub open spec fn spec_encode_entries(l: Seq<ExtraAccountMetaModel>) -> Seq<u8>
    decreases l.len(),
{
    if l.len() == 0 {
        Seq::empty()
    } else {
        spec_encode_meta(l[0]) + spec_encode_entries(l.drop_first())
    }
}

/// The whole buffer: the entry count, then the records.
pub open spec fn spec_encode_list(l: Seq<ExtraAccountMetaModel>) -> Seq<u8> {
    spec_u32_to_le_bytes(l.len() as u32) + spec_encode_entries(l)
}

/// Reading a flag byte back; bytes other than 0 and 1 are rejected.
pub open spec fn spec_decode_bool_byte(b: u8) -> Option<bool> {
    if b == 0 {
        Some(false)
    } else if b == 1 {
        Some(true)
    } else {
        None
    }
}

/// Reading one 35-byte record back.
pub open spec fn spec_decode_meta(b: Seq<u8>) -> Option<ExtraAccountMetaModel> {
    if b.len() != META_ENTRY_LEN {
        None
    } else {
        match (spec_decode_bool_byte(b[33]), spec_decode_bool_byte(b[34])) {
            (Some(s), Some(w)) => Some(
                ExtraAccountMetaModel {
                    discriminator: b[0],
                    address_config: b.subrange(1, 33),
                    is_signer: s,
                    is_writable: w,
                },
            ),
            _ => None,
        }
    }
}

/// The bytes of the record at index `i` of an encoded buffer.
pub open spec fn entry_chunk(data: Seq<u8>, i: int) -> Seq<u8> {
    data.subrange(4 + 35 * i, 4 + 35 * i + 35)
}

/// Reading a whole buffer back; `None` on any buffer that no well-formed list
/// encodes to.
pub open spec fn spec_decode_list(data: Seq<u8>) -> Option<Seq<ExtraAccountMetaModel>> {
    if data.len() < 4 {
        None
    } else {
        let n = spec_u32_from_le_bytes(data.take(4)) as int;
        if data.len() != 4 + 35 * n {
            None
        } else if exists|i: int| 0 <= i < n && spec_decode_meta(#[trigger] entry_chunk(data, i)) is None {
            None
        } else {
            Some(Seq::new(n as nat, |i: int| spec_decode_meta(entry_chunk(data, i))->0))
        }
    }
}

/// A well-formed record is 35 bytes long.
pub proof fn lemma_encode_meta_len(m: ExtraAccountMetaModel)
    requires
        meta_wf(m),
    ensures
        spec_encode_meta(m).len() == 35,
{
}

/// The records of a well-formed list take 35 bytes per entry.
pub proof fn lemma_encode_entries_len(l: Seq<ExtraAccountMetaModel>)
    requires
        forall|i: int| 0 <= i < l.len() ==> meta_wf(#[trigger] l[i]),
    ensures
        spec_encode_entries(l).len() == 35 * l.len(),
    decreases l.len(),
{
    if l.len() > 0 {
        lemma_encode_entries_len(l.drop_first());
    }
}

/// Appending one descriptor appends its record.
pub proof fn lemma_encode_entries_push(l: Seq<ExtraAccountMetaModel>, m: ExtraAccountMetaModel)
    ensures
        spec_encode_entries(l.push(m)) == spec_encode_entries(l) + spec_encode_meta(m),
    decreases l.len(),
{
    let p = l.push(m);
    if l.len() == 0 {
        assert(p[0] == m);
        assert(spec_encode_entries(p) == spec_encode_meta(m) + spec_encode_entries(p.drop_first()));
        assert(spec_encode_entries(p.drop_first()) == Seq::<u8>::empty());
        assert(spec_encode_entries(p) =~= spec_encode_entries(l) + spec_encode_meta(m));
    } else {
        assert(p.drop_first() =~= l.drop_first().push(m));
        lemma_encode_entries_push(l.drop_first(), m);
        assert(p[0] == l[0]);
        assert(spec_encode_entries(p) == spec_encode_meta(p[0]) + spec_encode_entries(p.drop_first()));
        assert(spec_encode_entries(p.drop_first()) == spec_encode_entries(l.drop_first())
            + spec_encode_meta(m));
        assert(spec_encode_entries(l) == spec_encode_meta(l[0]) + spec_encode_entries(l.drop_first()));
        assert(spec_encode_entries(p) =~= spec_encode_entries(l) + spec_encode_meta(m));
    }
}

/// Record `i` of the concatenated records is the record of entry `i`.
pub proof fn lemma_encode_entries_chunk(l: Seq<ExtraAccountMetaModel>, i: int)
    requires
        forall|k: int| 0 <= k < l.len() ==> meta_wf(#[trigger] l[k]),
        0 <= i < l.len(),
    ensures
        35 * i + 35 <= spec_encode_entries(l).len(),
        spec_encode_entries(l).subrange(35 * i, 35 * i + 35) == spec_encode_meta(l[i]),
    decreases i,
{
    lemma_encode_entries_len(l);
    lemma_encode_meta_len(l[0]);
    lemma_encode_entries_len(l.drop_first());
    if i == 0 {
        assert(spec_encode_entries(l).subrange(0, 35) =~= spec_encode_meta(l[0]));
    } else {
        lemma_encode_entries_chunk(l.drop_first(), i - 1);
        assert(l.drop_first()[i - 1] == l[i]);
        assert(spec_encode_entries(l).subrange(35 * i, 35 * i + 35) =~= spec_encode_entries(
            l.drop_first(),
        ).subrange(35 * (i - 1), 35 * (i - 1) + 35));
    }
}

/// Reading one record back yields the descriptor it encodes.
pub proof fn lemma_decode_encode_meta(m: ExtraAccountMetaModel)
    requires
        meta_wf(m),
    ensures
        spec_decode_meta(spec_encode_meta(m)) == Some(m),
{
    let b = spec_encode_meta(m);
    assert(b[33] == spec_bool_byte(m.is_signer));
    assert(b[34] == spec_bool_byte(m.is_writable));
    assert(b.subrange(1, 33) =~= m.address_config);
    assert(spec_decode_meta(b)->0 =~= m);
}

/// Law: decoding an encoded list yields the list that was encoded, for every
/// well-formed list.
pub proof fn lemma_decode_encode_list(l: Seq<ExtraAccountMetaModel>)
    requires
        list_wf(l),
    ensures
        spec_decode_list(spec_encode_list(l)) == Some(l),
{
    let data = spec_encode_list(l);
    let n = l.len() as int;
    lemma_auto_spec_u32_to_from_le_bytes();
    lemma_encode_entries_len(l);
    assert(data.take(4) =~= spec_u32_to_le_bytes(l.len() as u32));
    assert(spec_u32_from_le_bytes(data.take(4)) == l.len() as u32);
    assert(data.len() == 4 + 35 * n);
    assert forall|i: int| 0 <= i < n implies spec_decode_meta(#[trigger] entry_chunk(data, i))
        == Some(l[i]) by {
        lemma_encode_entries_chunk(l, i);
        assert(entry_chunk(data, i) =~= spec_encode_entries(l).subrange(35 * i, 35 * i + 35));
        lemma_decode_encode_meta(l[i]);
    }
    assert(Seq::new(n as nat, |i: int| spec_decode_meta(entry_chunk(data, i))->0) =~= l);
}

/// The storage size an encoded list of `count` entries needs: the header plus
/// 35 bytes per entry.  Rejects a count whose size would overflow, and one that
/// the 4-byte header cannot hold.
pub fn size_of_list(count: usize) -> (r: Result<usize, HookError>)
    ensures
        match r {
            Ok(n) => count <= u32::MAX && n == LIST_HEADER_LEN + META_ENTRY_LEN * count,
            Err(e) => e == HookError::SizeOverflow && (count > u32::MAX || LIST_HEADER_LEN
                + META_ENTRY_LEN * count > usize::MAX),
        },
{
    if count as u64 > u32::MAX as u64 {
        return Err(HookError::SizeOverflow);
    }
    match META_ENTRY_LEN.checked_mul(count) {
        Some(body) => match body.checked_add(LIST_HEADER_LEN) {
            Some(total) => Ok(total),
            None => Err(HookError::SizeOverflow),
        },
        None => Err(HookError::SizeOverflow),
    }
}

/// Encode a list of descriptors into a fresh buffer.  Fails only when the
/// 4-byte header cannot hold the entry count.
pub fn encode_meta_list(metas: &Vec<ExtraAccountMeta>) -> (r: Result<Vec<u8>, HookError>)
    requires
        forall|i: int| 0 <= i < metas@.len() ==> meta_wf(#[trigger] metas@[i]@),
    ensures
        match r {
            Ok(b) => list_wf(views_of(metas@)) && b@ == spec_encode_list(views_of(metas@)),
            Err(e) => e == HookError::SizeOverflow && metas@.len() > u32::MAX,
        },
{
    let ghost l = views_of(metas@);
    let n = metas.len();
    if n as u64 > u32::MAX as u64 {
        return Err(HookError::SizeOverflow);
    }
    let mut out = u32_to_le_bytes(n as u32);
    let mut i: usize = 0;
    proof {
        assert(l.take(0) =~= Seq::<ExtraAccountMetaModel>::empty());
    }
    while i < n
        invariant
            l == views_of(metas@),
            forall|k: int| 0 <= k < metas@.len() ==> meta_wf(#[trigger] metas@[k]@),
            n == metas@.len() <= u32::MAX,
            0 <= i <= n,
            out@ == spec_u32_to_le_bytes(n as u32) + spec_encode_entries(l.take(i as int)),
        decreases n - i,
    {
        let m = &metas[i];
        proof {
            assert(meta_wf(metas@[i as int]@));
        }
        out.push(m.discriminator);
        let ghost after_disc = out@;
        let mut j: usize = 0;
        while j < ADDRESS_LEN
            invariant
                is_address(m.address_config@),
                0 <= j <= ADDRESS_LEN,
                out@ == after_disc + m.address_config@.take(j as int),
            decreases ADDRESS_LEN - j,
        {
            out.push(m.address_config[j]);
            proof {
                assert(m.address_config@.take(j + 1) =~= m.address_config@.take(j as int).push(
                    m.address_config@[j as int],
                ));
            }
            j += 1;
        }
        out.push(if m.is_signer { 1 } else { 0 });
        out.push(if m.is_writable { 1 } else { 0 });
        proof {
            assert(m.address_config@.take(ADDRESS_LEN as int) =~= m.address_config@);
            assert(l.take(i + 1) =~= l.take(i as int).push(metas@[i as int]@));
            lemma_encode_entries_push(l.take(i as int), metas@[i as int]@);
            assert(out@ =~= spec_u32_to_le_bytes(n as u32) + spec_encode_entries(l.take(i + 1)));
        }
        i += 1;
    }
    proof {
        assert(l.take(n as int) =~= l);
    }
    Ok(out)
}

/// Decode a buffer back into the list it encodes.  Fails on every buffer that
/// no well-formed list encodes to.
pub fn decode_meta_list(data: &[u8]) -> (r: Result<Vec<ExtraAccountMeta>, HookError>)
    ensures
        match r {
            Ok(ms) => spec_decode_list(data@) == Some(views_of(ms@)) && list_wf(views_of(ms@)),
            Err(e) => e == HookError::InvalidAccountData && spec_decode_list(data@) is None,
        },
{
    let dlen = data.len();
    if dlen < 4 {
        return Err(HookError::InvalidAccountData);
    }
    let header = slice_subrange(data, 0, 4);
    proof {
        assert(header@ =~= data@.take(4));
    }
    let n32 = u32_from_le_bytes(header);
    let n = n32 as usize;
    if (dlen - 4) as u64 != 35u64 * (n as u64) {
        return Err(HookError::InvalidAccountData);
    }
    let mut out: Vec<ExtraAccountMeta> = Vec::new();
    let mut i: usize = 0;
    while i < n
        invariant
            data@.len() == 4 + 35 * n,
            data@.len() <= usize::MAX,
            n <= u32::MAX,
            spec_u32_from_le_bytes(data@.take(4)) == n,
            0 <= i <= n,
            out@.len() == i,
            forall|k: int| 0 <= k < i ==> spec_decode_meta(#[trigger] entry_chunk(data@, k))
                == Some(out@[k]@) && meta_wf(out@[k]@),
        decreases n - i,
    {
        let base = 4 + 35 * i;
        let disc = *slice_index_get(data, base);
        let addr = slice_to_vec(slice_subrange(data, base + 1, base + 33));
        let sb = *slice_index_get(data, base + 33);
        let wb = *slice_index_get(data, base + 34);
        if sb > 1 || wb > 1 {
            proof {
                assert(entry_chunk(data@, i as int)[33] == sb);
                assert(entry_chunk(data@, i as int)[34] == wb);
                assert(spec_decode_meta(entry_chunk(data@, i as int)) is None);
            }
            return Err(HookError::InvalidAccountData);
        }
        let meta = ExtraAccountMeta {
            discriminator: disc,
            address_config: addr,
            is_signer: sb == 1,
            is_writable: wb == 1,
        };
        proof {
            let chunk = entry_chunk(data@, i as int);
            assert(chunk[0] == disc);
            assert(chunk[33] == sb);
            assert(chunk[34] == wb);
            assert(chunk.subrange(1, 33) =~= data@.subrange(base + 1, base + 33));
            assert(spec_decode_meta(chunk)->0 =~= meta@);
        }
        out.push(meta);
        i += 1;
    }
    proof {
        assert(Seq::new(n as nat, |k: int| spec_decode_meta(entry_chunk(data@, k))->0) =~= views_of(
            out@,
        ));
        assert(spec_decode_list(data@) == Some(views_of(out@)));
    }
    Ok(out)
}

/// The storage slot the encoded list lives in: unassigned until the one-shot
/// initializer sizes and takes ownership of it, then holding the bytes.
pub enum MetaListSlot {
    /// The slot has not been sized or assigned.
    Unassigned,
    /// The slot is owned by the protocol and holds the given bytes.
    Assigned(Vec<u8>),
}

/// The mathematical value of a meta-list slot.
#[verifier::ext_equal]
pub enum MetaListSlotModel {
    /// The slot has not been sized or assigned.
    Unassigned,
    /// The slot is owned by the protocol and holds the given bytes.
    Assigned(Seq<u8>),
}

impl View for MetaListSlot {
    type V = MetaListSlotModel;

    open spec fn view(&self) -> MetaListSlotModel {
        match self {
            MetaListSlot::Unassigned => MetaListSlotModel::Unassigned,
            MetaListSlot::Assigned(b) => MetaListSlotModel::Assigned(b@),
        }
    }
}

/// The one-entry list the initializer writes: the counter's address, not a
/// signer, writable.
pub open spec fn extra_metas_for(counter_address: Seq<u8>) -> Seq<ExtraAccountMetaModel> {
    seq![
        ExtraAccountMetaModel {
            discriminator: 0,
            address_config: counter_address,
            is_signer: false,
            is_writable: true,
        },
    ]
}

/// Materialize the auxiliary-account list at a mint's derived slot.
///
/// The signer seeds — the fixed tag, the mint's address, and the bump — must
/// derive the slot's address; that tuple is the capability under which the
/// slot is sized, taken over, and written.  A slot address the seeds do not
/// derive is rejected, an already assigned slot is not re-initialized, and on
/// success the slot holds the encoding of the one-entry list naming the
/// counter's address, which decodes back to exactly that list.
pub fn initialize_extra_account_meta_list(
    slot: &mut MetaListSlot,
    slot_address: &[u8],
    bump_seed: u8,
    mint: &[u8],
    counter_address: &[u8],
    program_id: &[u8],
) -> (r: Result<(), HookError>)
    requires
        is_address(slot_address@),
        is_address(mint@),
        is_address(counter_address@),
        is_address(program_id@),
    ensures
        pda_address(extra_account_metas_seeds(mint@).push(seq![bump_seed]), program_id@) != Some(
            slot_address@,
        ) ==> r == Err::<(), HookError>(HookError::InvalidSeeds) && final(slot)@ == old(slot)@,
        pda_address(extra_account_metas_seeds(mint@).push(seq![bump_seed]), program_id@) == Some(
            slot_address@,
        ) && old(slot)@ is Assigned ==> r == Err::<(), HookError>(HookError::AlreadyInitialized)
            && final(slot)@ == old(slot)@,
        r is Ok <==> pda_address(
            extra_account_metas_seeds(mint@).push(seq![bump_seed]),
            program_id@,
        ) == Some(slot_address@) && old(slot)@ is Unassigned,
        r is Ok ==> final(slot)@ == MetaListSlotModel::Assigned(
            spec_encode_list(extra_metas_for(counter_address@)),
        ) && spec_decode_list(spec_encode_list(extra_metas_for(counter_address@))) == Some(
            extra_metas_for(counter_address@),
        ),
{
    let mut metas: Vec<ExtraAccountMeta> = Vec::new();
    metas.push(
        ExtraAccountMeta {
            discriminator: 0,
            address_config: slice_to_vec(counter_address),
            is_signer: false,
            is_writable: true,
        },
    );
    let seeds = collect_extra_account_metas_signer_seeds(mint, bump_seed);
    let derived = create_program_address(&seeds, program_id);
    let derivation_ok = match &derived {
        Some(a) => bytes_eq(a.as_slice(), slot_address),
        None => false,
    };
    if !derivation_ok {
        return Err(HookError::InvalidSeeds);
    }
    let occupied = match slot {
        MetaListSlot::Assigned(_) => true,
        MetaListSlot::Unassigned => false,
    };
    if occupied {
        return Err(HookError::AlreadyInitialized);
    }
    let size = match size_of_list(metas.len()) {
        Ok(s) => s,
        Err(e) => { return Err(e) },
    };
    let encoded = match encode_meta_list(&metas) {
        Ok(b) => b,
        Err(e) => { return Err(e) },
    };
    proof {
        assert(views_of(metas@) =~= extra_metas_for(counter_address@));
        lemma_decode_encode_list(extra_metas_for(counter_address@));
        lemma_encode_entries_len(extra_metas_for(counter_address@));
        assert(encoded@.len() == size);
    }
    *slot = MetaListSlot::Assigned(encoded);
    Ok(())
}

} // verus!
