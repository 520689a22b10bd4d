use std::str::FromStr;

use blockbuster::error::BlockbusterError;
use blockbuster::instruction::InstructionBundle;
use blockbuster::program_handler::AccountInfo;
use blockbuster::program_handler::ParseResult;
use blockbuster::program_handler::ParsedRecord;
use blockbuster::program_handler::ProgramParser;
use blockbuster::programs::token_metadata::decode_account;
use blockbuster::programs::token_metadata::key_from_tag;
use blockbuster::programs::token_metadata::read_record;
use blockbuster::programs::token_metadata::state_from_record;
use blockbuster::programs::token_metadata::token_metadata_id;
use blockbuster::programs::token_metadata::TokenMetadataAccountData;
use blockbuster::programs::token_metadata::TokenMetadataAccountState;
use blockbuster::programs::token_metadata::TokenMetadataParser;
use blockbuster::programs::ProgramParseResult;
use blockbuster::pubkey::Pubkey;
use borsh::BorshDeserialize;
use borsh::BorshSerialize;
use mpl_token_metadata::state::Collection;
use mpl_token_metadata::state::CollectionAuthorityRecord;
use mpl_token_metadata::state::Creator;
use mpl_token_metadata::state::Data;
use mpl_token_metadata::state::Edition;
use mpl_token_metadata::state::EditionMarker;
use mpl_token_metadata::state::Key;
use mpl_token_metadata::state::MasterEditionV1;
use mpl_token_metadata::state::MasterEditionV2;
use mpl_token_metadata::state::Metadata;
use mpl_token_metadata::state::Reservation;
use mpl_token_metadata::state::ReservationListV1;
use mpl_token_metadata::state::ReservationListV2;
use mpl_token_metadata::state::ReservationV1;
use mpl_token_metadata::state::TokenStandard;
use mpl_token_metadata::state::UseAuthorityRecord;
use mpl_token_metadata::state::UseMethod;
use mpl_token_metadata::state::Uses;

fn address(seed: u8) -> solana_sdk::pubkey::Pubkey {
    solana_sdk::pubkey::Pubkey::new_from_array([seed; 32])
}

/// The bytes of a record, followed by the zero bytes that fill an account.
fn account_of<T: BorshSerialize>(record: &T, padding: usize) -> Vec<u8> {
    let mut bytes = record.try_to_vec().unwrap();
    bytes.extend(std::iter::repeat(0u8).take(padding));
    bytes
}

fn sample_metadata() -> Metadata {
    Metadata {
        key: Key::MetadataV1,
        update_authority: address(1),
        mint: address(2),
        data: Data {
            name: "Degen Ape #1".to_string(),
            symbol: "DAPE".to_string(),
            uri: "https://arweave.net/abc".to_string(),
            seller_fee_basis_points: 420,
            creators: Some(vec![
                Creator { address: address(3), verified: true, share: 60 },
                Creator { address: address(4), verified: false, share: 40 },
            ]),
        },
        primary_sale_happened: true,
        is_mutable: false,
        edition_nonce: Some(254),
        token_standard: Some(TokenStandard::NonFungible),
        collection: Some(Collection { verified: true, key: address(5) }),
        uses: Some(Uses { use_method: UseMethod::Multiple, remaining: 3, total: 10 }),
        collection_details: None,
    }
}

#[test]
fn empty_blob_is_malformed() {
    assert_eq!(decode_account(&[]), Err(BlockbusterError::MalformedAccountData));
}

#[test]
fn uninitialized_tag_whatever_follows() {
    assert_eq!(decode_account(&[0]), Err(BlockbusterError::UninitializedAccount));
    assert_eq!(decode_account(&[0, 0, 0, 0]), Err(BlockbusterError::UninitializedAccount));
    let edition = Edition { key: Key::EditionV1, parent: address(9), edition: 1 };
    let mut blob = account_of(&edition, 10);
    blob[0] = 0;
    assert_eq!(decode_account(&blob), Err(BlockbusterError::UninitializedAccount));
    let long = vec![0u8; 1000];
    assert_eq!(decode_account(&long), Err(BlockbusterError::UninitializedAccount));
    let mut noisy = vec![255u8; 64];
    noisy[0] = 0;
    assert_eq!(decode_account(&noisy), Err(BlockbusterError::UninitializedAccount));
}

#[test]
fn tags_beyond_the_last_kind_are_unknown() {
    for tag in 10u8..=255 {
        assert_eq!(decode_account(&[tag]), Err(BlockbusterError::UnknownAccountDiscriminator));
        let mut blob = vec![0u8; 300];
        blob[0] = tag;
        assert_eq!(decode_account(&blob), Err(BlockbusterError::UnknownAccountDiscriminator));
    }
}

#[test]
fn key_from_tag_numbers_the_kinds_as_the_program_does() {
    for tag in 0u8..=255 {
        let expected = Key::try_from_slice(&[tag]).ok();
        assert_eq!(key_from_tag(tag), expected, "tag {}", tag);
    }
    assert_eq!(key_from_tag(0), Some(Key::Uninitialized));
    assert_eq!(key_from_tag(1), Some(Key::EditionV1));
    assert_eq!(key_from_tag(2), Some(Key::MasterEditionV1));
    assert_eq!(key_from_tag(3), Some(Key::ReservationListV1));
    assert_eq!(key_from_tag(4), Some(Key::MetadataV1));
    assert_eq!(key_from_tag(5), Some(Key::ReservationListV2));
    assert_eq!(key_from_tag(6), Some(Key::MasterEditionV2));
    assert_eq!(key_from_tag(7), Some(Key::EditionMarker));
    assert_eq!(key_from_tag(8), Some(Key::UseAuthorityRecord));
    assert_eq!(key_from_tag(9), Some(Key::CollectionAuthorityRecord));
    assert_eq!(key_from_tag(10), None);
}

#[test]
fn edition_is_decoded() {
    let edition = Edition { key: Key::EditionV1, parent: address(7), edition: 0x0102_0304_0506_0708 };
    let blob = account_of(&edition, 200);
    let state = decode_account(&blob).unwrap();
    assert_eq!(state.key, Key::EditionV1);
    assert_eq!(state.data, TokenMetadataAccountData::EditionV1(edition.clone()));
    // Without the padding the record is read all the same.
    let exact = account_of(&edition, 0);
    assert_eq!(exact.len(), 41);
    assert_eq!(
        decode_account(&exact),
        Ok(TokenMetadataAccountState {
            key: Key::EditionV1,
            data: TokenMetadataAccountData::EditionV1(edition),
        })
    );
}

#[test]
fn edition_without_its_last_byte_is_a_deserialization_error() {
    let edition = Edition { key: Key::EditionV1, parent: address(7), edition: 3 };
    let blob = account_of(&edition, 0);
    for len in 1..blob.len() {
        assert_eq!(
            decode_account(&blob[..len]),
            Err(BlockbusterError::DeserializationError),
            "length {}",
            len
        );
    }
}

#[test]
fn every_kind_with_only_its_tag_is_a_deserialization_error() {
    for tag in 1u8..=9 {
        assert_eq!(decode_account(&[tag]), Err(BlockbusterError::DeserializationError));
    }
}

#[test]
fn master_edition_v1_tag_holds_a_master_edition_v1() {
    let record = MasterEditionV1 {
        key: Key::MasterEditionV1,
        supply: 12,
        max_supply: Some(100),
        printing_mint: address(21),
        one_time_printing_authorization_mint: address(22),
    };
    let blob = account_of(&record, 50);
    assert_eq!(blob[0], 2);
    let state = decode_account(&blob).unwrap();
    assert_eq!(state.key, Key::MasterEditionV1);
    assert_eq!(state.data, TokenMetadataAccountData::MasterEditionV1(record));
}

#[test]
fn master_edition_v2_tag_holds_a_master_edition_v2() {
    let record = MasterEditionV2 { key: Key::MasterEditionV2, supply: 5, max_supply: None };
    let blob = account_of(&record, 0);
    assert_eq!(blob, vec![6, 5, 0, 0, 0, 0, 0, 0, 0, 0]);
    let state = decode_account(&blob).unwrap();
    assert_eq!(state.key, Key::MasterEditionV2);
    assert_eq!(state.data, TokenMetadataAccountData::MasterEditionV2(record));
}

#[test]
fn master_edition_v1_tag_is_not_read_in_the_v2_layout() {
    // Ten bytes are a whole record in the V2 layout and too few for the V1 layout.
    let blob = vec![2u8, 5, 0, 0, 0, 0, 0, 0, 0, 0];
    assert_eq!(decode_account(&blob), Err(BlockbusterError::DeserializationError));
    // The same bytes under the V2 tag are a record.
    let mut v2 = blob.clone();
    v2[0] = 6;
    assert!(decode_account(&v2).is_ok());
}

#[test]
fn master_edition_v2_tag_is_not_read_in_the_v1_layout() {
    let v1 = MasterEditionV1 {
        key: Key::MasterEditionV1,
        supply: 1,
        max_supply: Some(2),
        printing_mint: address(1),
        one_time_printing_authorization_mint: address(2),
    };
    let mut blob = account_of(&v1, 0);
    blob[0] = 6;
    let state = decode_account(&blob).unwrap();
    assert_eq!(state.key, Key::MasterEditionV2);
    assert_eq!(
        state.data,
        TokenMetadataAccountData::MasterEditionV2(MasterEditionV2 {
            key: Key::MasterEditionV2,
            supply: 1,
            max_supply: Some(2),
        })
    );
}

#[test]
fn metadata_is_decoded() {
    let metadata = sample_metadata();
    let blob = account_of(&metadata, 100);
    let state = decode_account(&blob).unwrap();
    assert_eq!(state.key, Key::MetadataV1);
    match state.data {
        TokenMetadataAccountData::MetadataV1(decoded) => {
            assert_eq!(decoded.data.name, "Degen Ape #1");
            assert_eq!(decoded.data.seller_fee_basis_points, 420);
            assert_eq!(decoded.mint, address(2));
            assert_eq!(decoded, metadata);
        }
        other => panic!("wrong variant: {:?}", other),
    }
}

#[test]
fn metadata_cut_inside_its_name_is_a_deserialization_error() {
    let blob = account_of(&sample_metadata(), 0);
    assert_eq!(decode_account(&blob[..70]), Err(BlockbusterError::DeserializationError));
}

#[test]
fn edition_marker_is_decoded() {
    let mut ledger = [0u8; 31];
    ledger[0] = 0b1000_0000;
    ledger[30] = 1;
    let record = EditionMarker { key: Key::EditionMarker, ledger };
    let blob = account_of(&record, 0);
    assert_eq!(blob.len(), 32);
    let state = decode_account(&blob).unwrap();
    assert_eq!(state.key, Key::EditionMarker);
    assert_eq!(state.data, TokenMetadataAccountData::EditionMarker(record));
}

#[test]
fn use_authority_record_is_decoded() {
    let record = UseAuthorityRecord { key: Key::UseAuthorityRecord, allowed_uses: 77, bump: 253 };
    let blob = account_of(&record, 8);
    let state = decode_account(&blob).unwrap();
    assert_eq!(state.key, Key::UseAuthorityRecord);
    assert_eq!(state.data, TokenMetadataAccountData::UseAuthorityRecord(record));
}

#[test]
fn collection_authority_record_is_decoded() {
    let record = CollectionAuthorityRecord { key: Key::CollectionAuthorityRecord, bump: 254 };
    let blob = account_of(&record, 9);
    assert_eq!(&blob[..2], &[9, 254]);
    let state = decode_account(&blob).unwrap();
    assert_eq!(state.key, Key::CollectionAuthorityRecord);
    assert_eq!(state.data, TokenMetadataAccountData::CollectionAuthorityRecord(record));
}

#[test]
fn reservation_list_v1_is_decoded() {
    let record = ReservationListV1 {
        key: Key::ReservationListV1,
        master_edition: address(30),
        supply_snapshot: Some(4),
        reservations: vec![
            ReservationV1 { address: address(31), spots_remaining: 1, total_spots: 2 },
            ReservationV1 { address: address(32), spots_remaining: 0, total_spots: 9 },
        ],
    };
    let blob = account_of(&record, 20);
    let state = decode_account(&blob).unwrap();
    assert_eq!(state.key, Key::ReservationListV1);
    assert_eq!(state.data, TokenMetadataAccountData::ReservationListV1(record));
}

#[test]
fn reservation_list_v2_is_decoded() {
    let record = ReservationListV2 {
        key: Key::ReservationListV2,
        master_edition: address(40),
        supply_snapshot: None,
        reservations: vec![Reservation { address: address(41), spots_remaining: 5, total_spots: 6 }],
        total_reservation_spots: 6,
        current_reservation_spots: 5,
    };
    let blob = account_of(&record, 3);
    let state = decode_account(&blob).unwrap();
    assert_eq!(state.key, Key::ReservationListV2);
    assert_eq!(state.data, TokenMetadataAccountData::ReservationListV2(record));
}

#[test]
fn reservation_list_with_a_count_beyond_the_blob_is_a_deserialization_error() {
    // tag, master edition, no snapshot, then a count of 0xffff_ffff reservations and none of them
    let mut blob = vec![5u8];
    blob.extend([7u8; 32]);
    blob.push(0);
    blob.extend([0xff, 0xff, 0xff, 0xff]);
    assert_eq!(decode_account(&blob), Err(BlockbusterError::DeserializationError));
}

#[test]
fn decoding_twice_gives_the_same_state() {
    let blob = account_of(&sample_metadata(), 17);
    assert_eq!(decode_account(&blob), decode_account(&blob));
    let cut = &blob[..10];
    assert_eq!(decode_account(cut), decode_account(cut));
}

#[test]
fn read_record_reads_nothing_for_an_uninitialized_account() {
    assert!(read_record(Key::Uninitialized, &[0, 1, 2, 3]).is_none());
}

#[test]
fn read_record_reads_the_layout_of_the_kind() {
    let record = UseAuthorityRecord { key: Key::UseAuthorityRecord, allowed_uses: 1, bump: 2 };
    let blob = account_of(&record, 0);
    let read = read_record(Key::UseAuthorityRecord, &blob).unwrap().unwrap();
    assert_eq!(read, TokenMetadataAccountData::UseAuthorityRecord(record));
    // The same bytes are too few for an edition.
    assert!(read_record(Key::EditionV1, &blob).unwrap().is_err());
}

#[test]
fn state_from_record_keeps_the_record_and_maps_the_failure() {
    let record = CollectionAuthorityRecord { key: Key::CollectionAuthorityRecord, bump: 1 };
    let state = state_from_record(
        Key::CollectionAuthorityRecord,
        Ok(TokenMetadataAccountData::CollectionAuthorityRecord(record.clone())),
    );
    assert_eq!(
        state,
        Ok(TokenMetadataAccountState {
            key: Key::CollectionAuthorityRecord,
            data: TokenMetadataAccountData::CollectionAuthorityRecord(record),
        })
    );
    let failure = std::io::Error::new(std::io::ErrorKind::InvalidInput, "Unexpected length of input");
    assert_eq!(
        state_from_record(Key::EditionV1, Err(failure)),
        Err(BlockbusterError::DeserializationError)
    );
}

#[test]
fn token_metadata_parser_answers_for_the_metadata_program() {
    let parser = TokenMetadataParser;
    let expected = solana_sdk::pubkey::Pubkey::from_str("metaqbxxUerdq28cj1RbAWkYQm3ybzjb6a8bt518x1s")
        .unwrap();
    assert_eq!(parser.key().to_bytes(), expected.to_bytes());
    assert_eq!(parser.key().to_bytes(), mpl_token_metadata::ID.to_bytes());
    assert_eq!(token_metadata_id(), parser.key());
    assert!(parser.key_match(&Pubkey(expected.to_bytes())));
    let mut other = expected.to_bytes();
    other[31] ^= 1;
    assert!(!parser.key_match(&Pubkey(other)));
    assert!(!parser.key_match(&Pubkey([0; 32])));
}

#[test]
fn token_metadata_account_without_data_is_a_deserialization_error() {
    let account = AccountInfo { data: None };
    assert_eq!(
        TokenMetadataParser.handle_account(&account),
        Err(BlockbusterError::DeserializationError)
    );
}

#[test]
fn token_metadata_account_with_data_is_decoded() {
    let record = Edition { key: Key::EditionV1, parent: address(1), edition: 2 };
    let blob = account_of(&record, 5);
    let account = AccountInfo { data: Some(&blob) };
    let parsed = TokenMetadataParser.handle_account(&account).unwrap();
    match parsed.result_type() {
        ProgramParseResult::TokenMetadata(state) => {
            assert_eq!(state.key, Key::EditionV1);
            assert_eq!(state.data, TokenMetadataAccountData::EditionV1(record));
            assert_eq!(state.result_type(), ProgramParseResult::TokenMetadata(state));
            assert!(std::ptr::eq(state.result(), state));
        }
        other => panic!("wrong family: {:?}", other),
    }
    let empty = AccountInfo { data: Some(&[]) };
    assert_eq!(
        TokenMetadataParser.handle_account(&empty),
        Err(BlockbusterError::MalformedAccountData)
    );
}

#[test]
fn token_metadata_instruction_is_not_used() {
    let keys = [Pubkey([1; 32]), Pubkey([2; 32])];
    let bundle = InstructionBundle {
        program: token_metadata_id(),
        keys: &keys,
        data: &[33, 0, 1],
        slot: 99,
    };
    let parsed = TokenMetadataParser.handle_instruction(&bundle).unwrap();
    assert!(matches!(parsed, ParsedRecord::NotUsed(_)));
    assert_eq!(parsed.result_type(), ProgramParseResult::Unknown);
    let empty = InstructionBundle { program: token_metadata_id(), keys: &[], data: &[], slot: 0 };
    assert!(matches!(
        TokenMetadataParser.handle_instruction(&empty),
        Ok(ParsedRecord::NotUsed(_))
    ));
}
