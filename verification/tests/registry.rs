use blockbuster::error::BlockbusterError;
use blockbuster::instruction::InstructionBundle;
use blockbuster::program_handler::NotUsed;
use blockbuster::program_handler::ParseResult;
use blockbuster::program_handler::ParsedRecord;
use blockbuster::program_handler::ProgramParser;
use blockbuster::programs::candy_machine::candy_machine_id;
use blockbuster::programs::candy_machine::state::CollectionPDA;
use blockbuster::programs::candy_machine::CandyMachineAccountData;
use blockbuster::programs::candy_machine::CandyMachineParser;
use blockbuster::programs::token_metadata::token_metadata_id;
use blockbuster::programs::token_metadata::TokenMetadataAccountData;
use blockbuster::programs::token_metadata::TokenMetadataParser;
use blockbuster::programs::ProgramParseResult;
use blockbuster::pubkey::Pubkey;
use blockbuster::registry::Parser;
use blockbuster::registry::Registry;
use borsh::BorshSerialize;
use mpl_token_metadata::state::Key;
use mpl_token_metadata::state::MasterEditionV2;

fn both() -> Registry {
    let mut registry = Registry::new();
    assert!(registry.register(Parser::CandyMachine(CandyMachineParser)));
    assert!(registry.register(Parser::TokenMetadata(TokenMetadataParser)));
    registry
}

fn collection_account() -> Vec<u8> {
    let mut blob = vec![203u8, 128, 119, 125, 234, 89, 232, 157];
    blob.extend([5u8; 32]);
    blob.extend([6u8; 32]);
    blob
}

#[test]
fn an_empty_registry_finds_no_parser() {
    let registry = Registry::new();
    assert_eq!(registry.find_parser(&candy_machine_id()), None);
    assert_eq!(registry.find_parser(&token_metadata_id()), None);
    assert_eq!(
        registry.dispatch_account(&candy_machine_id(), &collection_account()),
        Err(BlockbusterError::UnknownProgram)
    );
}

#[test]
fn a_program_is_registered_once() {
    let mut registry = Registry::new();
    assert!(registry.register(Parser::TokenMetadata(TokenMetadataParser)));
    assert!(!registry.register(Parser::TokenMetadata(TokenMetadataParser)));
    assert!(registry.register(Parser::CandyMachine(CandyMachineParser)));
    assert!(!registry.register(Parser::CandyMachine(CandyMachineParser)));
    assert!(!registry.register(Parser::TokenMetadata(TokenMetadataParser)));
    assert_eq!(
        registry.find_parser(&token_metadata_id()),
        Some(&Parser::TokenMetadata(TokenMetadataParser))
    );
    assert_eq!(
        registry.find_parser(&candy_machine_id()),
        Some(&Parser::CandyMachine(CandyMachineParser))
    );
}

#[test]
fn find_parser_answers_with_the_parser_of_the_program() {
    let registry = both();
    let found = registry.find_parser(&candy_machine_id()).unwrap();
    assert_eq!(found.key(), candy_machine_id());
    assert!(found.key_match(&candy_machine_id()));
    let found = registry.find_parser(&token_metadata_id()).unwrap();
    assert_eq!(found.key(), token_metadata_id());
    // the same reference on every call
    let first = registry.find_parser(&token_metadata_id()).unwrap();
    let second = registry.find_parser(&token_metadata_id()).unwrap();
    assert!(std::ptr::eq(first, second));
}

#[test]
fn find_parser_never_answers_for_another_program() {
    let registry = both();
    assert_eq!(registry.find_parser(&Pubkey([0; 32])), None);
    assert_eq!(registry.find_parser(&Pubkey([255; 32])), None);
    for i in 0..32 {
        let mut near = candy_machine_id().to_bytes();
        near[i] = near[i].wrapping_add(1);
        assert_eq!(registry.find_parser(&Pubkey(near)), None);
        let mut near = token_metadata_id().to_bytes();
        near[i] ^= 0x10;
        assert_eq!(registry.find_parser(&Pubkey(near)), None);
    }
}

#[test]
fn accounts_are_dispatched_by_their_program() {
    let registry = both();
    let parsed = registry.dispatch_account(&candy_machine_id(), &collection_account()).unwrap();
    assert_eq!(
        parsed,
        ParsedRecord::CandyMachine(CandyMachineAccountData::CollectionPDA(CollectionPDA {
            mint: Pubkey([5; 32]),
            candy_machine: Pubkey([6; 32]),
        }))
    );
    let edition = MasterEditionV2 { key: Key::MasterEditionV2, supply: 3, max_supply: Some(9) };
    let blob = edition.try_to_vec().unwrap();
    let parsed = registry.dispatch_account(&token_metadata_id(), &blob).unwrap();
    match parsed.result_type() {
        ProgramParseResult::TokenMetadata(state) => {
            assert_eq!(state.key, Key::MasterEditionV2);
            assert_eq!(state.data, TokenMetadataAccountData::MasterEditionV2(edition));
        }
        other => panic!("wrong family: {:?}", other),
    }
}

#[test]
fn a_blob_is_decoded_by_the_program_that_was_named() {
    let registry = both();
    // The account of one program under the identity of the other: the tag byte 203
    // names no kind of token metadata account.
    assert_eq!(
        registry.dispatch_account(&token_metadata_id(), &collection_account()),
        Err(BlockbusterError::UnknownAccountDiscriminator)
    );
    assert_eq!(
        registry.dispatch_account(&candy_machine_id(), &[0u8; 3]),
        Err(BlockbusterError::MalformedAccountData)
    );
    assert_eq!(
        registry.dispatch_account(&token_metadata_id(), &[0u8; 3]),
        Err(BlockbusterError::UninitializedAccount)
    );
    assert_eq!(
        registry.dispatch_account(&token_metadata_id(), &[]),
        Err(BlockbusterError::MalformedAccountData)
    );
}

#[test]
fn an_unregistered_program_is_unknown() {
    let registry = both();
    assert_eq!(
        registry.dispatch_account(&Pubkey([9; 32]), &collection_account()),
        Err(BlockbusterError::UnknownProgram)
    );
    assert_eq!(
        registry.dispatch_account(&Pubkey([9; 32]), &[]),
        Err(BlockbusterError::UnknownProgram)
    );
    let mut only_candy = Registry::new();
    only_candy.register(Parser::CandyMachine(CandyMachineParser));
    assert_eq!(
        only_candy.dispatch_account(&token_metadata_id(), &[1]),
        Err(BlockbusterError::UnknownProgram)
    );
    let bundle = InstructionBundle { program: token_metadata_id(), keys: &[], data: &[], slot: 1 };
    assert_eq!(only_candy.dispatch_instruction(&bundle), Err(BlockbusterError::UnknownProgram));
}

#[test]
fn dispatch_gives_the_same_outcome_for_the_same_input() {
    let registry = both();
    let blob = collection_account();
    for _ in 0..3 {
        assert_eq!(
            registry.dispatch_account(&candy_machine_id(), &blob),
            registry.dispatch_account(&candy_machine_id(), &blob)
        );
        assert_eq!(
            registry.dispatch_account(&candy_machine_id(), &blob[..20]),
            Err(BlockbusterError::DeserializationError)
        );
    }
    // the order of registration does not change the outcome
    let mut other = Registry::new();
    other.register(Parser::TokenMetadata(TokenMetadataParser));
    other.register(Parser::CandyMachine(CandyMachineParser));
    assert_eq!(
        other.dispatch_account(&candy_machine_id(), &blob),
        registry.dispatch_account(&candy_machine_id(), &blob)
    );
}

#[test]
fn instructions_of_both_programs_are_not_used() {
    let registry = both();
    let keys = [Pubkey([3; 32]), Pubkey([4; 32])];
    for program in [candy_machine_id(), token_metadata_id()] {
        let bundle = InstructionBundle { program, keys: &keys, data: &[0, 1, 2, 3], slot: 7 };
        let parsed = registry.dispatch_instruction(&bundle).unwrap();
        assert_eq!(parsed, ParsedRecord::NotUsed(NotUsed::new()));
        assert_eq!(parsed.result_type(), ProgramParseResult::Unknown);
    }
    let bundle = InstructionBundle { program: Pubkey([1; 32]), keys: &keys, data: &[], slot: 7 };
    assert_eq!(registry.dispatch_instruction(&bundle), Err(BlockbusterError::UnknownProgram));
}

#[test]
fn not_used_is_classified_as_unknown() {
    let marker = NotUsed::new();
    assert_eq!(marker.result_type(), ProgramParseResult::Unknown);
    assert!(std::ptr::eq(marker.result(), &marker));
    assert_eq!(NotUsed::new(), NotUsed::new());
}

#[test]
fn parser_enum_forwards_to_its_parser() {
    let candy = Parser::CandyMachine(CandyMachineParser);
    let meta = Parser::TokenMetadata(TokenMetadataParser);
    assert_eq!(candy.key(), CandyMachineParser.key());
    assert_eq!(meta.key(), TokenMetadataParser.key());
    assert!(candy.key_match(&candy_machine_id()));
    assert!(!candy.key_match(&token_metadata_id()));
    assert!(meta.key_match(&token_metadata_id()));
    assert!(!meta.key_match(&candy_machine_id()));
}
