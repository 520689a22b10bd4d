use vstd::prelude::*;
use crate::programs::candy_machine::CandyMachineAccountData;
use crate::programs::token_metadata::TokenMetadataAccountState;

pub mod candy_machine;
pub mod token_metadata;

verus! {

/// Which program a decoded result belongs to, with the record where one was decoded.
#[derive(Clone, Copy, Debug, PartialEq, Eq)]
pub enum ProgramParseResult<'a> {
    CandyMachine(&'a CandyMachineAccountData),
    TokenMetadata(&'a TokenMetadataAccountState),
    Unknown,
}

} // verus!
