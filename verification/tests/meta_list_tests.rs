use transferhook::meta_list::{
    decode_meta_list, encode_meta_list, initialize_extra_account_meta_list, size_of_list,
    ExtraAccountMeta, MetaListSlot,
};
use transferhook::pda::{
    collect_extra_account_metas_signer_seeds, counter_address, extra_account_metas_address,
    extra_account_metas_seed_bytes,
};
use transferhook::HookError;

const PROGRAM_ID: [u8; 32] = [9u8; 32];
const MINT: [u8; 32] = [7u8; 32];

fn meta(disc: u8, addr: u8, signer: bool, writable: bool) -> ExtraAccountMeta {
    ExtraAccountMeta {
        discriminator: disc,
        address_config: vec![addr; 32],
        is_signer: signer,
        is_writable: writable,
    }
}

fn assert_meta_eq(a: &ExtraAccountMeta, b: &ExtraAccountMeta) {
    assert_eq!(a.discriminator, b.discriminator);
    assert_eq!(a.address_config, b.address_config);
    assert_eq!(a.is_signer, b.is_signer);
    assert_eq!(a.is_writable, b.is_writable);
}

#[test]
fn size_of_list_exact_values() {
    assert_eq!(size_of_list(0), Ok(4));
    assert_eq!(size_of_list(1), Ok(39));
    assert_eq!(size_of_list(3), Ok(109));
}

#[test]
fn size_of_list_rejects_overflowing_counts() {
    assert_eq!(size_of_list(u32::MAX as usize + 1), Err(HookError::SizeOverflow));
    assert_eq!(size_of_list(usize::MAX), Err(HookError::SizeOverflow));
}

#[test]
fn encode_decode_round_trip() {
    let lists: Vec<Vec<ExtraAccountMeta>> = vec![
        vec![],
        vec![meta(0, 5, false, true)],
        vec![meta(0, 1, false, false), meta(2, 9, true, true), meta(255, 0, true, false)],
    ];
    for l in lists {
        let encoded = encode_meta_list(&l).unwrap();
        assert_eq!(encoded.len(), size_of_list(l.len()).unwrap());
        let decoded = decode_meta_list(&encoded).unwrap();
        assert_eq!(decoded.len(), l.len());
        for (a, b) in decoded.iter().zip(l.iter()) {
            assert_meta_eq(a, b);
        }
    }
}

#[test]
fn decode_rejects_malformed_buffers() {
    // too short for the header
    assert_eq!(decode_meta_list(&[1, 0, 0]), Err(HookError::InvalidAccountData));
    // header claims one entry, body missing
    assert_eq!(decode_meta_list(&[1, 0, 0, 0]), Err(HookError::InvalidAccountData));
    // trailing byte after a correct list
    let mut encoded = encode_meta_list(&vec![meta(0, 5, false, true)]).unwrap();
    encoded.push(0);
    assert_eq!(decode_meta_list(&encoded), Err(HookError::InvalidAccountData));
    // flag byte that is neither 0 nor 1
    let mut encoded = encode_meta_list(&vec![meta(0, 5, false, true)]).unwrap();
    encoded[4 + 33] = 2;
    assert_eq!(decode_meta_list(&encoded), Err(HookError::InvalidAccountData));
}

#[test]
fn extra_account_metas_address_matches_interface() {
    let (addr, bump) = extra_account_metas_address(&MINT, &PROGRAM_ID).unwrap();
    let mint = solana_program::pubkey::Pubkey::new_from_array(MINT);
    let pid = solana_program::pubkey::Pubkey::new_from_array(PROGRAM_ID);
    let (expected, expected_bump) =
        spl_transfer_hook_interface::get_extra_account_metas_address_and_bump_seed(&mint, &pid);
    assert_eq!(addr, expected.to_bytes().to_vec());
    assert_eq!(bump, expected_bump);
}

#[test]
fn signer_seeds_match_interface() {
    let (_, bump) = extra_account_metas_address(&MINT, &PROGRAM_ID).unwrap();
    let seeds = collect_extra_account_metas_signer_seeds(&MINT, bump);
    let mint = solana_program::pubkey::Pubkey::new_from_array(MINT);
    let bump_arr = [bump];
    let expected =
        spl_transfer_hook_interface::collect_extra_account_metas_signer_seeds(&mint, &bump_arr);
    assert_eq!(seeds.len(), expected.len());
    for (s, e) in seeds.iter().zip(expected.iter()) {
        assert_eq!(s.as_slice(), *e);
    }
    assert_eq!(extra_account_metas_seed_bytes(), b"extra-account-metas".to_vec());
}

#[test]
fn initialize_meta_list_writes_one_decodable_entry() {
    let authority = vec![3u8; 32];
    let (counter_addr, _) = counter_address(&authority, &PROGRAM_ID).unwrap();
    let (slot_addr, bump) = extra_account_metas_address(&MINT, &PROGRAM_ID).unwrap();
    let mut slot = MetaListSlot::Unassigned;
    let r = initialize_extra_account_meta_list(
        &mut slot,
        &slot_addr,
        bump,
        &MINT,
        &counter_addr,
        &PROGRAM_ID,
    );
    assert_eq!(r, Ok(()));
    match &slot {
        MetaListSlot::Assigned(bytes) => {
            assert_eq!(bytes.len(), size_of_list(1).unwrap());
            let decoded = decode_meta_list(bytes).unwrap();
            assert_eq!(decoded.len(), 1);
            assert_eq!(decoded[0].discriminator, 0);
            assert_eq!(decoded[0].address_config, counter_addr);
            assert!(!decoded[0].is_signer);
            assert!(decoded[0].is_writable);
        }
        MetaListSlot::Unassigned => panic!("slot left unassigned"),
    }
}

#[test]
fn initialize_meta_list_twice_fails_already_initialized() {
    let authority = vec![3u8; 32];
    let (counter_addr, _) = counter_address(&authority, &PROGRAM_ID).unwrap();
    let (slot_addr, bump) = extra_account_metas_address(&MINT, &PROGRAM_ID).unwrap();
    let mut slot = MetaListSlot::Unassigned;
    let first = initialize_extra_account_meta_list(
        &mut slot,
        &slot_addr,
        bump,
        &MINT,
        &counter_addr,
        &PROGRAM_ID,
    );
    assert_eq!(first, Ok(()));
    let second = initialize_extra_account_meta_list(
        &mut slot,
        &slot_addr,
        bump,
        &MINT,
        &counter_addr,
        &PROGRAM_ID,
    );
    assert_eq!(second, Err(HookError::AlreadyInitialized));
}

#[test]
fn initialize_meta_list_with_wrong_bump_fails_invalid_seeds() {
    let authority = vec![3u8; 32];
    let (counter_addr, _) = counter_address(&authority, &PROGRAM_ID).unwrap();
    let (slot_addr, bump) = extra_account_metas_address(&MINT, &PROGRAM_ID).unwrap();
    let mut slot = MetaListSlot::Unassigned;
    let r = initialize_extra_account_meta_list(
        &mut slot,
        &slot_addr,
        bump.wrapping_add(1),
        &MINT,
        &counter_addr,
        &PROGRAM_ID,
    );
    assert_eq!(r, Err(HookError::InvalidSeeds));
    assert!(matches!(slot, MetaListSlot::Unassigned));
}
