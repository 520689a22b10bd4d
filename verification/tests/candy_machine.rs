use std::str::FromStr;

use blockbuster::error::BlockbusterError;
use blockbuster::instruction::InstructionBundle;
use blockbuster::program_handler::AccountInfo;
use blockbuster::program_handler::ParseResult;
use blockbuster::program_handler::ParsedRecord;
use blockbuster::program_handler::ProgramParser;
use blockbuster::programs::candy_machine::candy_machine_id;
use blockbuster::programs::candy_machine::decode_account;
use blockbuster::programs::candy_machine::has_tag;
use blockbuster::programs::candy_machine::state::CandyMachine;
use blockbuster::programs::candy_machine::state::CandyMachineData;
use blockbuster::programs::candy_machine::state::CollectionPDA;
use blockbuster::programs::candy_machine::state::Creator;
use blockbuster::programs::candy_machine::state::EndSettingType;
use blockbuster::programs::candy_machine::state::EndSettings;
use blockbuster::programs::candy_machine::state::FreezePDA;
use blockbuster::programs::candy_machine::state::GatekeeperConfig;
use blockbuster::programs::candy_machine::state::HiddenSettings;
use blockbuster::programs::candy_machine::state::WhitelistMintMode;
use blockbuster::programs::candy_machine::state::WhitelistMintSettings;
use blockbuster::programs::candy_machine::CandyMachineAccountData;
use blockbuster::programs::candy_machine::CandyMachineParser;
use blockbuster::programs::candy_machine::CANDY_MACHINE_DISCRIMINATOR;
use blockbuster::programs::candy_machine::COLLECTION_PDA_DISCRIMINATOR;
use blockbuster::programs::candy_machine::DISCRIMINATOR_BYTES;
use blockbuster::programs::candy_machine::FREEZE_PDA_DISCRIMINATOR;
use blockbuster::programs::ProgramParseResult;
use blockbuster::pubkey::Pubkey;
use borsh::BorshSerialize;

type CreatorFields = ([u8; 32], bool, u8);
type DataFields = (
    String,
    u64,
    String,
    u16,
    u64,
    bool,
    bool,
    Option<i64>,
    Option<(u8, u64)>,
    Vec<CreatorFields>,
    Option<(String, String, [u8; 32])>,
    Option<(u8, [u8; 32], bool, Option<u64>)>,
    u64,
    Option<([u8; 32], bool)>,
);
type MachineFields = ([u8; 32], [u8; 32], Option<[u8; 32]>, u64, DataFields);

/// The fields of a record as the serializer of the program's own format writes them.
fn data_fields(data: &CandyMachineData) -> DataFields {
    (
        data.uuid.clone(),
        data.price,
        data.symbol.clone(),
        data.seller_fee_basis_points,
        data.max_supply,
        data.is_mutable,
        data.retain_authority,
        data.go_live_date,
        data.end_settings.map(|end| {
            (
                match end.end_setting_type {
                    EndSettingType::Date => 0u8,
                    EndSettingType::Amount => 1u8,
                },
                end.number,
            )
        }),
        data.creators.iter().map(|c| (c.address.0, c.verified, c.share)).collect(),
        data.hidden_settings.clone().map(|hidden| (hidden.name, hidden.uri, hidden.hash)),
        data.whitelist_mint_settings.map(|list| {
            (
                match list.mode {
                    WhitelistMintMode::BurnEveryTime => 0u8,
                    WhitelistMintMode::NeverBurn => 1u8,
                },
                list.mint.0,
                list.presale,
                list.discount_price,
            )
        }),
        data.items_available,
        data.gatekeeper.map(|gate| (gate.gatekeeper_network.0, gate.expire_on_use)),
    )
}

fn machine_fields(machine: &CandyMachine) -> MachineFields {
    (
        machine.authority.0,
        machine.wallet.0,
        machine.token_mint.map(|mint| mint.0),
        machine.items_redeemed,
        data_fields(&machine.data),
    )
}

fn tagged(tag: &[u8; 8], body: &[u8]) -> Vec<u8> {
    let mut blob = tag.to_vec();
    blob.extend_from_slice(body);
    blob
}

fn machine_account(machine: &CandyMachine) -> Vec<u8> {
    tagged(&CANDY_MACHINE_DISCRIMINATOR, &machine_fields(machine).try_to_vec().unwrap())
}

fn minimal_machine() -> CandyMachine {
    CandyMachine {
        authority: Pubkey([1; 32]),
        wallet: Pubkey([2; 32]),
        token_mint: None,
        items_redeemed: 0,
        data: CandyMachineData {
            uuid: String::new(),
            price: 0,
            symbol: String::new(),
            seller_fee_basis_points: 0,
            max_supply: 0,
            is_mutable: false,
            retain_authority: false,
            go_live_date: None,
            end_settings: None,
            creators: vec![],
            hidden_settings: None,
            whitelist_mint_settings: None,
            items_available: 0,
            gatekeeper: None,
        },
    }
}

fn full_machine() -> CandyMachine {
    CandyMachine {
        authority: Pubkey([11; 32]),
        wallet: Pubkey([12; 32]),
        token_mint: Some(Pubkey([13; 32])),
        items_redeemed: 0x0102_0304_0506_0708,
        data: CandyMachineData {
            uuid: "a1b2c3".to_string(),
            price: 1_500_000_000,
            symbol: "ÄPE".to_string(),
            seller_fee_basis_points: 0x1234,
            max_supply: u64::MAX,
            is_mutable: true,
            retain_authority: true,
            go_live_date: Some(-1),
            end_settings: Some(EndSettings { end_setting_type: EndSettingType::Amount, number: 777 }),
            creators: vec![
                Creator { address: Pubkey([21; 32]), verified: true, share: 70 },
                Creator { address: Pubkey([22; 32]), verified: false, share: 30 },
            ],
            hidden_settings: Some(HiddenSettings {
                name: "Mystery #".to_string(),
                uri: "https://example.org/hidden.json".to_string(),
                hash: [0xab; 32],
            }),
            whitelist_mint_settings: Some(WhitelistMintSettings {
                mode: WhitelistMintMode::NeverBurn,
                mint: Pubkey([31; 32]),
                presale: true,
                discount_price: Some(1_000),
            }),
            items_available: 10_000,
            gatekeeper: Some(GatekeeperConfig {
                gatekeeper_network: Pubkey([41; 32]),
                expire_on_use: true,
            }),
        },
    }
}

/// Offset of the first byte of the settings' `is_mutable` in the account of `minimal_machine`.
const MINIMAL_IS_MUTABLE: usize = 8 + 32 + 32 + 1 + 8 + 4 + 8 + 4 + 2 + 8;

#[test]
fn candy_machine_tag_with_a_minimal_body_is_a_candy_machine() {
    let mut blob = vec![51u8, 173, 177, 113, 25, 241, 109, 189];
    blob.extend([1u8; 32]); // authority
    blob.extend([2u8; 32]); // wallet
    blob.push(0); // no token mint
    blob.extend([0u8; 8]); // items redeemed
    blob.extend([0u8; 4]); // uuid: no bytes
    blob.extend([0u8; 8]); // price
    blob.extend([0u8; 4]); // symbol: no bytes
    blob.extend([0u8; 2]); // seller fee basis points
    blob.extend([0u8; 8]); // max supply
    blob.push(0); // is mutable
    blob.push(0); // retain authority
    blob.push(0); // no go live date
    blob.push(0); // no end settings
    blob.extend([0u8; 4]); // no creators
    blob.push(0); // no hidden settings
    blob.push(0); // no whitelist
    blob.extend([0u8; 8]); // items available
    blob.push(0); // no gatekeeper
    assert_eq!(blob, machine_account(&minimal_machine()));
    assert_eq!(
        decode_account(&blob),
        Ok(CandyMachineAccountData::CandyMachine(minimal_machine()))
    );
}

#[test]
fn candy_machine_with_every_field_is_decoded() {
    let machine = full_machine();
    let blob = machine_account(&machine);
    match decode_account(&blob) {
        Ok(CandyMachineAccountData::CandyMachine(decoded)) => {
            assert_eq!(decoded.items_redeemed, 0x0102_0304_0506_0708);
            assert_eq!(decoded.data.seller_fee_basis_points, 0x1234);
            assert_eq!(decoded.data.max_supply, u64::MAX);
            assert_eq!(decoded.data.go_live_date, Some(-1));
            assert_eq!(decoded.data.symbol, "ÄPE");
            assert_eq!(decoded.data.creators.len(), 2);
            assert_eq!(decoded.data.creators[1].share, 30);
            assert_eq!(decoded, machine);
        }
        other => panic!("not a candy machine: {:?}", other),
    }
}

#[test]
fn integers_are_little_endian() {
    let mut machine = minimal_machine();
    machine.items_redeemed = 0x0807_0605_0403_0201;
    machine.data.seller_fee_basis_points = 0x0201;
    machine.data.go_live_date = Some(i64::MIN);
    let blob = machine_account(&machine);
    assert_eq!(&blob[8 + 65..8 + 73], &[1, 2, 3, 4, 5, 6, 7, 8]);
    assert_eq!(decode_account(&blob), Ok(CandyMachineAccountData::CandyMachine(machine)));

    let mut blob = machine_account(&minimal_machine());
    // items redeemed: one in the highest byte only
    blob[8 + 65 + 7] = 1;
    // seller fee basis points: low byte 0x34, high byte 0x12
    blob[8 + 65 + 8 + 4 + 8 + 4] = 0x34;
    blob[8 + 65 + 8 + 4 + 8 + 4 + 1] = 0x12;
    match decode_account(&blob) {
        Ok(CandyMachineAccountData::CandyMachine(decoded)) => {
            assert_eq!(decoded.items_redeemed, 1u64 << 56);
            assert_eq!(decoded.data.seller_fee_basis_points, 0x1234);
        }
        other => panic!("not a candy machine: {:?}", other),
    }
}

#[test]
fn signed_dates_keep_their_sign() {
    for date in [0i64, 1, -1, i64::MAX, i64::MIN, -1_650_000_000, 1_650_000_000] {
        let mut machine = minimal_machine();
        machine.data.go_live_date = Some(date);
        let blob = machine_account(&machine);
        assert_eq!(decode_account(&blob), Ok(CandyMachineAccountData::CandyMachine(machine)));
    }
}

#[test]
fn collection_pda_is_decoded() {
    let record = CollectionPDA { mint: Pubkey([5; 32]), candy_machine: Pubkey([6; 32]) };
    let body = (record.mint.0, record.candy_machine.0).try_to_vec().unwrap();
    let blob = tagged(&[203, 128, 119, 125, 234, 89, 232, 157], &body);
    assert_eq!(blob.len(), 72);
    assert_eq!(decode_account(&blob), Ok(CandyMachineAccountData::CollectionPDA(record)));
}

#[test]
fn freeze_pda_is_decoded() {
    let record = FreezePDA {
        candy_machine: Pubkey([9; 32]),
        allow_thaw: true,
        frozen_count: 42,
        mint_start: Some(-5),
        freeze_time: 86_400,
        freeze_fee: 10_000_000,
    };
    let body = (
        record.candy_machine.0,
        record.allow_thaw,
        record.frozen_count,
        record.mint_start,
        record.freeze_time,
        record.freeze_fee,
    )
        .try_to_vec()
        .unwrap();
    let blob = tagged(&[154, 58, 148, 24, 101, 200, 243, 127], &body);
    assert_eq!(decode_account(&blob), Ok(CandyMachineAccountData::FreezePDA(record)));

    let unset = FreezePDA { mint_start: None, allow_thaw: false, ..record };
    let body = (unset.candy_machine.0, false, 42u64, None::<i64>, 86_400i64, 10_000_000u64)
        .try_to_vec()
        .unwrap();
    let blob = tagged(&FREEZE_PDA_DISCRIMINATOR, &body);
    assert_eq!(decode_account(&blob), Ok(CandyMachineAccountData::FreezePDA(unset)));
}

#[test]
fn blobs_shorter_than_the_tag_are_malformed() {
    let blob = machine_account(&minimal_machine());
    for len in 0..DISCRIMINATOR_BYTES {
        assert_eq!(
            decode_account(&blob[..len]),
            Err(BlockbusterError::MalformedAccountData),
            "length {}",
            len
        );
    }
}

#[test]
fn tags_outside_the_table_are_unknown() {
    assert_eq!(decode_account(&[0u8; 8]), Err(BlockbusterError::UnknownAccountDiscriminator));
    assert_eq!(decode_account(&[0u8; 200]), Err(BlockbusterError::UnknownAccountDiscriminator));
    for tag in [CANDY_MACHINE_DISCRIMINATOR, COLLECTION_PDA_DISCRIMINATOR, FREEZE_PDA_DISCRIMINATOR] {
        for i in 0..8 {
            let mut blob = machine_account(&minimal_machine());
            blob[..8].copy_from_slice(&tag);
            blob[i] ^= 0x40;
            assert_eq!(decode_account(&blob), Err(BlockbusterError::UnknownAccountDiscriminator));
        }
    }
}

#[test]
fn a_tag_with_the_body_of_another_record_is_a_deserialization_error() {
    let mut blob = machine_account(&minimal_machine());
    blob[..8].copy_from_slice(&COLLECTION_PDA_DISCRIMINATOR);
    assert_eq!(decode_account(&blob), Err(BlockbusterError::DeserializationError));
    blob[..8].copy_from_slice(&FREEZE_PDA_DISCRIMINATOR);
    assert_eq!(decode_account(&blob), Err(BlockbusterError::DeserializationError));
}

#[test]
fn a_record_cut_short_is_a_deserialization_error() {
    for machine in [minimal_machine(), full_machine()] {
        let blob = machine_account(&machine);
        for len in DISCRIMINATOR_BYTES..blob.len() {
            assert_eq!(
                decode_account(&blob[..len]),
                Err(BlockbusterError::DeserializationError),
                "length {}",
                len
            );
        }
    }
    let body = ([5u8; 32], [6u8; 32]).try_to_vec().unwrap();
    let blob = tagged(&COLLECTION_PDA_DISCRIMINATOR, &body);
    for len in DISCRIMINATOR_BYTES..blob.len() {
        assert_eq!(decode_account(&blob[..len]), Err(BlockbusterError::DeserializationError));
    }
}

#[test]
fn bytes_behind_the_record_are_a_deserialization_error() {
    for machine in [minimal_machine(), full_machine()] {
        let mut blob = machine_account(&machine);
        blob.push(0);
        assert_eq!(decode_account(&blob), Err(BlockbusterError::DeserializationError));
    }
    let body = ([5u8; 32], [6u8; 32], 0u8).try_to_vec().unwrap();
    let blob = tagged(&COLLECTION_PDA_DISCRIMINATOR, &body);
    assert_eq!(decode_account(&blob), Err(BlockbusterError::DeserializationError));
}

#[test]
fn a_truth_value_other_than_zero_and_one_is_a_deserialization_error() {
    let good = machine_account(&minimal_machine());
    assert_eq!(good[MINIMAL_IS_MUTABLE], 0);
    let mut one = good.clone();
    one[MINIMAL_IS_MUTABLE] = 1;
    match decode_account(&one) {
        Ok(CandyMachineAccountData::CandyMachine(decoded)) => assert!(decoded.data.is_mutable),
        other => panic!("not a candy machine: {:?}", other),
    }
    for byte in [2u8, 3, 128, 255] {
        let mut bad = good.clone();
        bad[MINIMAL_IS_MUTABLE] = byte;
        assert_eq!(decode_account(&bad), Err(BlockbusterError::DeserializationError));
    }
}

#[test]
fn a_presence_byte_other_than_zero_and_one_is_a_deserialization_error() {
    let good = machine_account(&minimal_machine());
    // the presence byte of the token mint
    let at = 8 + 64;
    for byte in [2u8, 7, 255] {
        let mut bad = good.clone();
        bad[at] = byte;
        assert_eq!(decode_account(&bad), Err(BlockbusterError::DeserializationError));
    }
    // the presence byte of the gatekeeper is the last byte
    let mut bad = good.clone();
    let last = bad.len() - 1;
    bad[last] = 2;
    assert_eq!(decode_account(&bad), Err(BlockbusterError::DeserializationError));
}

#[test]
fn an_enum_index_without_a_variant_is_a_deserialization_error() {
    let mut machine = minimal_machine();
    machine.data.end_settings = Some(EndSettings { end_setting_type: EndSettingType::Date, number: 5 });
    let good = machine_account(&machine);
    // behind is_mutable, retain_authority, the date's presence byte and the
    // presence byte of the end settings
    let at = MINIMAL_IS_MUTABLE + 4;
    assert_eq!(good[at - 1], 1);
    assert_eq!(good[at], 0);
    assert_eq!(decode_account(&good), Ok(CandyMachineAccountData::CandyMachine(machine.clone())));
    let mut amount = good.clone();
    amount[at] = 1;
    machine.data.end_settings = Some(EndSettings { end_setting_type: EndSettingType::Amount, number: 5 });
    assert_eq!(decode_account(&amount), Ok(CandyMachineAccountData::CandyMachine(machine)));
    for index in [2u8, 3, 255] {
        let mut bad = good.clone();
        bad[at] = index;
        assert_eq!(decode_account(&bad), Err(BlockbusterError::DeserializationError));
    }
}

#[test]
fn a_string_that_is_not_utf8_is_a_deserialization_error() {
    let mut machine = minimal_machine();
    machine.data.uuid = "abcd".to_string();
    let good = machine_account(&machine);
    let at = 8 + 65 + 8 + 4;
    assert_eq!(&good[at..at + 4], b"abcd");
    let mut bad = good.clone();
    bad[at + 1] = 0xff;
    assert_eq!(decode_account(&bad), Err(BlockbusterError::DeserializationError));
    // a lone continuation byte
    let mut bad = good.clone();
    bad[at] = 0x80;
    assert_eq!(decode_account(&bad), Err(BlockbusterError::DeserializationError));
    // a two-byte character is fine
    let mut fine = good.clone();
    fine[at] = 0xc3;
    fine[at + 1] = 0xa4;
    machine.data.uuid = "äcd".to_string();
    assert_eq!(decode_account(&fine), Ok(CandyMachineAccountData::CandyMachine(machine)));
}

#[test]
fn a_string_longer_than_the_blob_is_a_deserialization_error() {
    let good = machine_account(&minimal_machine());
    let at = 8 + 65 + 8;
    for count in [1u32, 1000, u32::MAX] {
        let mut bad = good.clone();
        bad[at..at + 4].copy_from_slice(&count.to_le_bytes());
        assert_eq!(decode_account(&bad), Err(BlockbusterError::DeserializationError));
    }
}

#[test]
fn a_creator_count_beyond_the_blob_is_a_deserialization_error() {
    let good = machine_account(&minimal_machine());
    let at = MINIMAL_IS_MUTABLE + 4;
    assert_eq!(&good[at..at + 4], &[0, 0, 0, 0]);
    for count in [1u32, 2, 0x0100_0000, u32::MAX] {
        let mut bad = good.clone();
        bad[at..at + 4].copy_from_slice(&count.to_le_bytes());
        assert_eq!(decode_account(&bad), Err(BlockbusterError::DeserializationError));
    }
}

#[test]
fn many_creators_are_decoded_in_order() {
    let mut machine = minimal_machine();
    machine.data.creators = (0..200u8)
        .map(|i| Creator { address: Pubkey([i; 32]), verified: i % 2 == 0, share: i })
        .collect();
    let blob = machine_account(&machine);
    match decode_account(&blob) {
        Ok(CandyMachineAccountData::CandyMachine(decoded)) => {
            assert_eq!(decoded.data.creators.len(), 200);
            for (i, creator) in decoded.data.creators.iter().enumerate() {
                assert_eq!(creator.address, Pubkey([i as u8; 32]));
                assert_eq!(creator.share, i as u8);
            }
            assert_eq!(decoded, machine);
        }
        other => panic!("not a candy machine: {:?}", other),
    }
}

#[test]
fn decoding_a_candy_machine_twice_gives_the_same_record() {
    let blob = machine_account(&full_machine());
    assert_eq!(decode_account(&blob), decode_account(&blob));
    assert_eq!(decode_account(&blob[..100]), decode_account(&blob[..100]));
}

#[test]
fn has_tag_compares_the_first_eight_bytes() {
    let blob = machine_account(&minimal_machine());
    assert!(has_tag(&blob, &CANDY_MACHINE_DISCRIMINATOR));
    assert!(!has_tag(&blob, &COLLECTION_PDA_DISCRIMINATOR));
    assert!(!has_tag(&blob, &FREEZE_PDA_DISCRIMINATOR));
    assert!(has_tag(&[1, 2, 3, 4, 5, 6, 7, 8], &[1, 2, 3, 4, 5, 6, 7, 8]));
    assert!(!has_tag(&[1, 2, 3, 4, 5, 6, 7, 9], &[1, 2, 3, 4, 5, 6, 7, 8]));
    assert!(has_tag(&[1, 2, 3, 4, 5, 6, 7, 8, 9, 9], &[1, 2, 3, 4, 5, 6, 7, 8]));
    assert!(!has_tag(&[1, 2, 3, 4, 5, 6, 7], &[1, 2, 3, 4, 5, 6, 7, 8]));
    assert!(!has_tag(&[], &[0; 8]));
}

#[test]
fn candy_machine_parser_answers_for_the_candy_machine_program() {
    let parser = CandyMachineParser;
    let expected = solana_sdk::pubkey::Pubkey::from_str("cndy3Z4yapfJBmL3ShUp5exZKqR3z33thTzeNMm2gRZ")
        .unwrap();
    assert_eq!(parser.key().to_bytes(), expected.to_bytes());
    assert_eq!(candy_machine_id(), parser.key());
    assert!(parser.key_match(&Pubkey(expected.to_bytes())));
    let mut other = expected.to_bytes();
    other[0] ^= 0x80;
    assert!(!parser.key_match(&Pubkey(other)));
    assert!(!parser.key_match(&blockbuster::programs::token_metadata::token_metadata_id()));
}

#[test]
fn candy_machine_account_without_data_is_a_deserialization_error() {
    let account = AccountInfo { data: None };
    assert_eq!(
        CandyMachineParser.handle_account(&account),
        Err(BlockbusterError::DeserializationError)
    );
}

#[test]
fn candy_machine_account_with_data_is_decoded() {
    let blob = machine_account(&full_machine());
    let account = AccountInfo { data: Some(&blob) };
    assert_eq!(account.data(), Some(&blob[..]));
    let parsed = CandyMachineParser.handle_account(&account).unwrap();
    match parsed.result_type() {
        ProgramParseResult::CandyMachine(record) => {
            assert_eq!(record, &CandyMachineAccountData::CandyMachine(full_machine()));
            assert_eq!(record.result_type(), ProgramParseResult::CandyMachine(record));
        }
        other => panic!("wrong family: {:?}", other),
    }
    let short = AccountInfo { data: Some(&blob[..3]) };
    assert_eq!(
        CandyMachineParser.handle_account(&short),
        Err(BlockbusterError::MalformedAccountData)
    );
}

#[test]
fn candy_machine_instruction_is_not_used() {
    let keys = [Pubkey([1; 32])];
    let bundle = InstructionBundle { program: candy_machine_id(), keys: &keys, data: &[1, 2, 3], slot: 5 };
    let parsed = CandyMachineParser.handle_instruction(&bundle).unwrap();
    assert!(matches!(parsed, ParsedRecord::NotUsed(_)));
    assert_eq!(parsed.result_type(), ProgramParseResult::Unknown);
}

/// The record that the fields of the reference deserializer make; none where an enum
/// index names no variant.
fn machine_of(fields: MachineFields) -> Option<CandyMachine> {
    let (authority, wallet, token_mint, items_redeemed, data) = fields;
    let end_settings = match data.8 {
        None => None,
        Some((0, number)) => Some(EndSettings { end_setting_type: EndSettingType::Date, number }),
        Some((1, number)) => Some(EndSettings { end_setting_type: EndSettingType::Amount, number }),
        Some(_) => return None,
    };
    let whitelist_mint_settings = match data.11 {
        None => None,
        Some((index, mint, presale, discount_price)) => Some(WhitelistMintSettings {
            mode: match index {
                0 => WhitelistMintMode::BurnEveryTime,
                1 => WhitelistMintMode::NeverBurn,
                _ => return None,
            },
            mint: Pubkey(mint),
            presale,
            discount_price,
        }),
    };
    Some(CandyMachine {
        authority: Pubkey(authority),
        wallet: Pubkey(wallet),
        token_mint: token_mint.map(Pubkey),
        items_redeemed,
        data: CandyMachineData {
            uuid: data.0,
            price: data.1,
            symbol: data.2,
            seller_fee_basis_points: data.3,
            max_supply: data.4,
            is_mutable: data.5,
            retain_authority: data.6,
            go_live_date: data.7,
            end_settings,
            creators: data
                .9
                .into_iter()
                .map(|(address, verified, share)| Creator { address: Pubkey(address), verified, share })
                .collect(),
            hidden_settings: data.10.map(|(name, uri, hash)| HiddenSettings { name, uri, hash }),
            whitelist_mint_settings,
            items_available: data.12,
            gatekeeper: data
                .13
                .map(|(network, expire_on_use)| GatekeeperConfig {
                    gatekeeper_network: Pubkey(network),
                    expire_on_use,
                }),
        },
    })
}

fn expected_of(blob: &[u8]) -> Result<CandyMachineAccountData, BlockbusterError> {
    let fields = <MachineFields as borsh::BorshDeserialize>::try_from_slice(&blob[8..]);
    match fields.ok().and_then(machine_of) {
        Some(machine) => Ok(CandyMachineAccountData::CandyMachine(machine)),
        None => Err(BlockbusterError::DeserializationError),
    }
}

#[test]
fn decoder_agrees_with_the_reference_deserializer_on_changed_blobs() {
    let mut seed: u64 = 0x9e37_79b9_7f4a_7c15;
    let mut next = move || {
        seed = seed.wrapping_mul(6364136223846793005).wrapping_add(1442695040888963407);
        (seed >> 33) as usize
    };
    let mut accepted = 0;
    let mut rejected = 0;
    for machine in [minimal_machine(), full_machine()] {
        let good = machine_account(&machine);
        // every byte behind the tag, set to each of a few values
        for at in 8..good.len() {
            for value in [0u8, 1, 2, 0x7f, 0x80, 0xff] {
                let mut blob = good.clone();
                blob[at] = value;
                let got = decode_account(&blob);
                assert_eq!(got, expected_of(&blob), "byte {} set to {}", at, value);
                if got.is_ok() {
                    accepted += 1;
                } else {
                    rejected += 1;
                }
            }
        }
        // a few bytes changed at once, and the blob cut or lengthened
        for _ in 0..2000 {
            let mut blob = good.clone();
            for _ in 0..(1 + next() % 3) {
                let at = 8 + next() % (blob.len() - 8);
                blob[at] = [0u8, 1, 2, 3, 4, 0xff][next() % 6];
            }
            match next() % 4 {
                0 => {
                    let len = 8 + next() % (blob.len() - 8);
                    blob.truncate(len);
                }
                1 => blob.extend(std::iter::repeat(0u8).take(next() % 40)),
                _ => {}
            }
            assert_eq!(decode_account(&blob), expected_of(&blob), "blob {:?}", blob);
        }
    }
    assert!(accepted > 100);
    assert!(rejected > 100);
}
