use vstd::prelude::*;
use crate::error::BlockbusterError;
use crate::instruction::InstructionBundle;
use crate::programs::ProgramParseResult;
use crate::programs::candy_machine::{CandyMachineAccountData, CandyMachineAccountView};
use crate::programs::token_metadata::TokenMetadataAccountState;
use crate::pubkey::Pubkey;

verus! {

/// One account as the ingestion side hands it over: what a parser reads of it.
#[derive(Clone, Copy, Debug)]
pub struct AccountInfo<'a> {
    /// The account's stored bytes, if the message carried any.
    pub data: Option<&'a [u8]>,
}

impl<'a> AccountInfo<'a> {
    /// The blob as a sequence of bytes, where there is one.
    pub open spec fn blob(&self) -> Option<Seq<u8>> {
        match self.data {
            Some(bytes) => Some(bytes@),
            None => None,
        }
    }

    /// The account's stored bytes.
    pub fn data(&self) -> (bytes: Option<&'a [u8]>)
        ensures
            bytes == self.data,
    {
        self.data
    }
}

/// What every decoded result can say of itself without being taken apart.
pub trait ParseResult: Sync + Send {
    /// The program family and record that the result carries.
    spec fn classification(&self) -> ProgramParseResult<'_>;

    fn result_type(&self) -> (kind: ProgramParseResult<'_>)
        ensures
            kind == self.classification(),
    ;

    fn result(&self) -> (same: &Self) where Self: Sized
        ensures
            same == self,
    {
        self
    }
}

/// The result of a decode path that yields no data.
#[derive(Clone, Copy, Debug, PartialEq, Eq)]
pub struct NotUsed(());

impl NotUsed {
    pub fn new() -> (marker: Self)
        ensures
            marker.classification() == ProgramParseResult::Unknown,
    {
        NotUsed(())
    }
}

impl ParseResult for NotUsed {
    open spec fn classification(&self) -> ProgramParseResult<'_> {
        ProgramParseResult::Unknown
    }

    fn result_type(&self) -> (kind: ProgramParseResult<'_>) {
        ProgramParseResult::Unknown
    }
}

/// What a parser hands back: the record of one program, or the marker that nothing was decoded.
#[derive(Debug, PartialEq, Eq)]
pub enum ParsedRecord {
    CandyMachine(CandyMachineAccountData),
    TokenMetadata(TokenMetadataAccountState),
    NotUsed(NotUsed),
}

/// A decoded result as contracts speak of it.
pub enum RecordView {
    CandyMachine(CandyMachineAccountView),
    TokenMetadata(TokenMetadataAccountState),
    NotUsed,
}

impl View for ParsedRecord {
    type V = RecordView;

    open spec fn view(&self) -> RecordView {
        match self {
            ParsedRecord::CandyMachine(record) => RecordView::CandyMachine(record@),
            ParsedRecord::TokenMetadata(state) => RecordView::TokenMetadata(*state),
            ParsedRecord::NotUsed(_) => RecordView::NotUsed,
        }
    }
}

impl ParseResult for ParsedRecord {
    open spec fn classification(&self) -> ProgramParseResult<'_> {
        match self {
            ParsedRecord::CandyMachine(record) => ProgramParseResult::CandyMachine(record),
            ParsedRecord::TokenMetadata(state) => ProgramParseResult::TokenMetadata(state),
            ParsedRecord::NotUsed(_) => ProgramParseResult::Unknown,
        }
    }

    fn result_type(&self) -> (kind: ProgramParseResult<'_>) {
        match self {
            ParsedRecord::CandyMachine(record) => ProgramParseResult::CandyMachine(record),
            ParsedRecord::TokenMetadata(state) => ProgramParseResult::TokenMetadata(state),
            ParsedRecord::NotUsed(_) => ProgramParseResult::Unknown,
        }
    }
}

/// The outcome of a decode as contracts speak of it: the record's view, or the error.
pub open spec fn outcome(result: Result<ParsedRecord, BlockbusterError>) -> Result<
    RecordView,
    BlockbusterError,
> {
    match result {
        Ok(record) => Ok(record@),
        Err(error) => Err(error),
    }
}

/// What a program's parser offers to the dispatcher.
pub trait ProgramParser: Sync + Send {
    /// The identity of the program whose blobs this parser decodes.
    spec fn program(&self) -> Pubkey;

    /// How many leading bytes of an account blob select the record layout.
    spec fn discriminator_len(&self) -> nat;

    /// A discriminator names a record of the program.
    spec fn known_discriminator(&self, discriminator: Seq<u8>) -> bool;

    /// What an account blob of the program decodes to.
    spec fn account_outcome(&self, blob: Seq<u8>) -> Result<RecordView, BlockbusterError>;

    /// What an instruction of the program decodes to.
    spec fn instruction_outcome(&self, bundle: InstructionBundle<'_>) -> Result<
        RecordView,
        BlockbusterError,
    >;

    fn key(&self) -> (id: Pubkey)
        ensures
            id == self.program(),
    ;

    fn key_match(&self, key: &Pubkey) -> (same: bool)
        ensures
            same == (*key == self.program()),
    ;

    fn handle_account(&self, account_info: &AccountInfo<'_>) -> (result: Result<
        ParsedRecord,
        BlockbusterError,
    >)
        ensures
            outcome(result) == match account_info.blob() {
                Some(blob) => self.account_outcome(blob),
                None => Err(BlockbusterError::DeserializationError),
            },
    ;

    fn handle_instruction(&self, bundle: &InstructionBundle<'_>) -> (result: Result<
        ParsedRecord,
        BlockbusterError,
    >)
        ensures
            outcome(result) == self.instruction_outcome(*bundle),
    ;
}

} // verus!
