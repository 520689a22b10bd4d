//! Accounts of the candy machine program.
//!
//! An account blob starts with a tag of eight bytes that names the record,
//! and the record fills the rest of the blob to its last byte.
use vstd::prelude::*;
use crate::codec::{
    lemma_holds_all, lemma_holds_behind, lemma_holds_join, lemma_holds_stretch, lemma_holds_whole,
    write_bytes,
};
use crate::error::BlockbusterError;
use crate::instruction::InstructionBundle;
use crate::program_handler::{
    AccountInfo, NotUsed, ParseResult, ParsedRecord, ProgramParser, RecordView,
};
use crate::programs::ProgramParseResult;
use crate::programs::candy_machine::encode::{
    can_encode_candy_machine, write_candy_machine, write_collection_pda, write_freeze_pda,
};
use crate::programs::candy_machine::state::{
    candy_machine_at, candy_machine_bytes, candy_machine_encodable, collection_pda_at,
    collection_pda_bytes, freeze_pda_at, freeze_pda_bytes, lemma_candy_machine_canonical,
    lemma_candy_machine_round_trip, lemma_collection_pda_canonical,
    lemma_collection_pda_round_trip, lemma_freeze_pda_canonical, lemma_freeze_pda_round_trip,
    read_candy_machine, read_collection_pda, read_freeze_pda, CandyMachine, CandyMachineView,
    CollectionPDA, FreezePDA,
};
use crate::pubkey::Pubkey;

pub mod encode;
pub mod state;

verus! {

/// Number of leading bytes that hold the tag of a candy machine account.
pub const DISCRIMINATOR_BYTES: usize = 8;

/// The tag of a `CandyMachine` account.
pub const CANDY_MACHINE_DISCRIMINATOR: [u8; 8] = [51, 173, 177, 113, 25, 241, 109, 189];

/// The tag of a `CollectionPDA` account.
pub const COLLECTION_PDA_DISCRIMINATOR: [u8; 8] = [203, 128, 119, 125, 234, 89, 232, 157];

/// The tag of a `FreezePDA` account.
pub const FREEZE_PDA_DISCRIMINATOR: [u8; 8] = [154, 58, 148, 24, 101, 200, 243, 127];

/// The identity of the candy machine program.
pub open spec fn candy_machine_program() -> Pubkey {
    Pubkey(
        [
            9u8, 42, 238, 61, 252, 45, 14, 85, 120, 35, 19, 131, 121, 105, 234, 245, 33, 81, 192,
            150, 192, 107, 92, 42, 130, 240, 134, 165, 3, 232, 44, 52,
        ],
    )
}

/// The identity of the candy machine program,
/// `cndy3Z4yapfJBmL3ShUp5exZKqR3z33thTzeNMm2gRZ` in base 58.
pub fn candy_machine_id() -> (id: Pubkey)
    ensures
        id == candy_machine_program(),
{
    let id = Pubkey(
        [
            9u8, 42, 238, 61, 252, 45, 14, 85, 120, 35, 19, 131, 121, 105, 234, 245, 33, 81, 192,
            150, 192, 107, 92, 42, 130, 240, 134, 165, 3, 232, 44, 52,
        ],
    );
    assert(id.0 =~= candy_machine_program().0);
    id
}

/// The record of a candy machine account, one variant for each tag.
#[derive(Clone, Debug, PartialEq, Eq)]
pub enum CandyMachineAccountData {
    CandyMachine(CandyMachine),
    CollectionPDA(CollectionPDA),
    FreezePDA(FreezePDA),
}

/// The record of a candy machine account as contracts speak of it.
pub enum CandyMachineAccountView {
    CandyMachine(CandyMachineView),
    CollectionPDA(CollectionPDA),
    FreezePDA(FreezePDA),
}

impl View for CandyMachineAccountData {
    type V = CandyMachineAccountView;

    open spec fn view(&self) -> CandyMachineAccountView {
        match self {
            CandyMachineAccountData::CandyMachine(record) => CandyMachineAccountView::CandyMachine(
                record@,
            ),
            CandyMachineAccountData::CollectionPDA(record) => CandyMachineAccountView::CollectionPDA(
                *record,
            ),
            CandyMachineAccountData::FreezePDA(record) => CandyMachineAccountView::FreezePDA(
                *record,
            ),
        }
    }
}

impl ParseResult for CandyMachineAccountData {
    open spec fn classification(&self) -> ProgramParseResult<'_> {
        ProgramParseResult::CandyMachine(self)
    }

    fn result_type(&self) -> (kind: ProgramParseResult<'_>) {
        ProgramParseResult::CandyMachine(self)
    }
}

impl CandyMachineAccountView {
    /// The tag that an account of this record starts with.
    pub open spec fn tag(self) -> Seq<u8> {
        match self {
            CandyMachineAccountView::CandyMachine(_) => CANDY_MACHINE_DISCRIMINATOR@,
            CandyMachineAccountView::CollectionPDA(_) => COLLECTION_PDA_DISCRIMINATOR@,
            CandyMachineAccountView::FreezePDA(_) => FREEZE_PDA_DISCRIMINATOR@,
        }
    }

    /// The encoding of the record, without the tag.
    pub open spec fn body(self) -> Seq<u8> {
        match self {
            CandyMachineAccountView::CandyMachine(record) => candy_machine_bytes(record),
            CandyMachineAccountView::CollectionPDA(record) => collection_pda_bytes(record),
            CandyMachineAccountView::FreezePDA(record) => freeze_pda_bytes(record),
        }
    }

    /// The record can be encoded: its strings and lists are short enough for their counts.
    pub open spec fn encodable(self) -> bool {
        match self {
            CandyMachineAccountView::CandyMachine(record) => candy_machine_encodable(record),
            CandyMachineAccountView::CollectionPDA(_) => true,
            CandyMachineAccountView::FreezePDA(_) => true,
        }
    }

    /// The bytes of an account that holds the record: the tag, then the record.
    pub open spec fn account_bytes(self) -> Seq<u8> {
        self.tag() + self.body()
    }
}

/// The record that was read, where it ends with the blob; none where bytes are left over
/// or the record was not there.
pub open spec fn filling<T>(held: (T, int), len: nat) -> Option<T> {
    if held.1 == len {
        Some(held.0)
    } else {
        None
    }
}

/// The record that fills a blob behind a tag of the given kind, if there is one.
pub open spec fn record_behind(tag: Seq<u8>, blob: Seq<u8>) -> Option<CandyMachineAccountView> {
    let start = DISCRIMINATOR_BYTES as int;
    if tag == CANDY_MACHINE_DISCRIMINATOR@ {
        match filling(candy_machine_at(blob, start), blob.len()) {
            Some(record) => Some(CandyMachineAccountView::CandyMachine(record)),
            None => None,
        }
    } else if tag == COLLECTION_PDA_DISCRIMINATOR@ {
        match filling(collection_pda_at(blob, start), blob.len()) {
            Some(record) => Some(CandyMachineAccountView::CollectionPDA(record)),
            None => None,
        }
    } else if tag == FREEZE_PDA_DISCRIMINATOR@ {
        match filling(freeze_pda_at(blob, start), blob.len()) {
            Some(record) => Some(CandyMachineAccountView::FreezePDA(record)),
            None => None,
        }
    } else {
        None
    }
}

/// A tag names a record of the program.
pub open spec fn known_tag(tag: Seq<u8>) -> bool {
    ||| tag == CANDY_MACHINE_DISCRIMINATOR@
    ||| tag == COLLECTION_PDA_DISCRIMINATOR@
    ||| tag == FREEZE_PDA_DISCRIMINATOR@
}

/// What the bytes of a candy machine account decode to.
pub open spec fn candy_machine_account(blob: Seq<u8>) -> Result<
    CandyMachineAccountView,
    BlockbusterError,
> {
    if blob.len() < DISCRIMINATOR_BYTES {
        Err(BlockbusterError::MalformedAccountData)
    } else {
        let tag = blob.subrange(0, DISCRIMINATOR_BYTES as int);
        if !known_tag(tag) {
            Err(BlockbusterError::UnknownAccountDiscriminator)
        } else {
            match record_behind(tag, blob) {
                Some(record) => Ok(record),
                None => Err(BlockbusterError::DeserializationError),
            }
        }
    }
}

/// The outcome of decoding an account as contracts speak of it.
pub open spec fn account_view(result: Result<CandyMachineAccountData, BlockbusterError>) -> Result<
    CandyMachineAccountView,
    BlockbusterError,
> {
    match result {
        Ok(record) => Ok(record@),
        Err(error) => Err(error),
    }
}

/// Tells whether a blob starts with a tag. A blob shorter than a tag starts with none.
pub fn has_tag(blob: &[u8], tag: &[u8; 8]) -> (same: bool)
    ensures
        same == (blob@.len() >= DISCRIMINATOR_BYTES && blob@.subrange(
            0,
            DISCRIMINATOR_BYTES as int,
        ) == tag@),
{
    if blob.len() < DISCRIMINATOR_BYTES {
        return false;
    }
    let mut i: usize = 0;
    while i < DISCRIMINATOR_BYTES
        invariant
            i <= DISCRIMINATOR_BYTES,
            blob.len() >= DISCRIMINATOR_BYTES,
            forall|j: int| 0 <= j < i ==> blob@[j] == tag@[j],
        decreases DISCRIMINATOR_BYTES - i,
    {
        if blob[i] != tag[i] {
            assert(blob@.subrange(0, DISCRIMINATOR_BYTES as int)[i as int] != tag@[i as int]);
            return false;
        }
        i = i + 1;
    }
    assert(blob@.subrange(0, DISCRIMINATOR_BYTES as int) =~= tag@);
    true
}

/// Decodes the bytes of a candy machine account.
///
/// The blob decodes to a record exactly when it is the account bytes of that record:
/// the tag, then the encoding of every field, and no byte more. A blob that is the
/// account of no record is told apart by where it fails: before the tag ends, at the
/// tag, or behind it.
pub fn decode_account(blob: &[u8]) -> (result: Result<CandyMachineAccountData, BlockbusterError>)
    ensures
        account_view(result) == candy_machine_account(blob@),
        result matches Ok(record) ==> record@.encodable() && record@.account_bytes() == blob@,
        result is Err ==> forall|record: CandyMachineAccountView|
            record.encodable() ==> #[trigger] record.account_bytes() != blob@,
        result matches Err(error) ==> error == if blob@.len() < DISCRIMINATOR_BYTES {
            BlockbusterError::MalformedAccountData
        } else if !known_tag(blob@.subrange(0, DISCRIMINATOR_BYTES as int)) {
            BlockbusterError::UnknownAccountDiscriminator
        } else {
            BlockbusterError::DeserializationError
        },
{
    proof {
        lemma_tags_differ();
        if candy_machine_account(blob@) is Ok {
            lemma_account_canonical(blob@);
        } else {
            assert forall|record: CandyMachineAccountView| record.encodable() implies
                #[trigger] record.account_bytes() != blob@ by {
                lemma_account_round_trip(record);
            }
        }
    }
    if blob.len() < DISCRIMINATOR_BYTES {
        return Err(BlockbusterError::MalformedAccountData);
    }
    if has_tag(blob, &CANDY_MACHINE_DISCRIMINATOR) {
        match read_candy_machine(blob, DISCRIMINATOR_BYTES) {
            Some((record, end)) => if end == blob.len() {
                Ok(CandyMachineAccountData::CandyMachine(record))
            } else {
                Err(BlockbusterError::DeserializationError)
            },
            None => Err(BlockbusterError::DeserializationError),
        }
    } else if has_tag(blob, &COLLECTION_PDA_DISCRIMINATOR) {
        match read_collection_pda(blob, DISCRIMINATOR_BYTES) {
            Some((record, end)) => if end == blob.len() {
                Ok(CandyMachineAccountData::CollectionPDA(record))
            } else {
                Err(BlockbusterError::DeserializationError)
            },
            None => Err(BlockbusterError::DeserializationError),
        }
    } else if has_tag(blob, &FREEZE_PDA_DISCRIMINATOR) {
        match read_freeze_pda(blob, DISCRIMINATOR_BYTES) {
            Some((record, end)) => if end == blob.len() {
                Ok(CandyMachineAccountData::FreezePDA(record))
            } else {
                Err(BlockbusterError::DeserializationError)
            },
            None => Err(BlockbusterError::DeserializationError),
        }
    } else {
        Err(BlockbusterError::UnknownAccountDiscriminator)
    }
}

/// Tells whether a record can be encoded.
pub fn can_encode_account(record: &CandyMachineAccountData) -> (can: bool)
    ensures
        can == record@.encodable(),
{
    match record {
        CandyMachineAccountData::CandyMachine(inner) => can_encode_candy_machine(inner),
        CandyMachineAccountData::CollectionPDA(_) => true,
        CandyMachineAccountData::FreezePDA(_) => true,
    }
}

/// Gives the bytes of the account that holds a record: its tag, then its fields.
/// A record that cannot be encoded has none.
pub fn encode_account(record: &CandyMachineAccountData) -> (bytes: Option<Vec<u8>>)
    ensures
        match bytes {
            Some(blob) => record@.encodable() && blob@ == record@.account_bytes(),
            None => !record@.encodable(),
        },
{
    if !can_encode_account(record) {
        return None;
    }
    let mut blob: Vec<u8> = Vec::new();
    match record {
        CandyMachineAccountData::CandyMachine(inner) => {
            write_bytes(CANDY_MACHINE_DISCRIMINATOR.as_slice(), &mut blob);
            write_candy_machine(inner, &mut blob);
        },
        CandyMachineAccountData::CollectionPDA(inner) => {
            write_bytes(COLLECTION_PDA_DISCRIMINATOR.as_slice(), &mut blob);
            write_collection_pda(inner, &mut blob);
        },
        CandyMachineAccountData::FreezePDA(inner) => {
            write_bytes(FREEZE_PDA_DISCRIMINATOR.as_slice(), &mut blob);
            write_freeze_pda(inner, &mut blob);
        },
    }
    assert(blob@ =~= record@.account_bytes());
    Some(blob)
}

/// The three tags are three different byte sequences of eight bytes.
pub proof fn lemma_tags_differ()
    ensures
        CANDY_MACHINE_DISCRIMINATOR@.len() == DISCRIMINATOR_BYTES,
        COLLECTION_PDA_DISCRIMINATOR@.len() == DISCRIMINATOR_BYTES,
        FREEZE_PDA_DISCRIMINATOR@.len() == DISCRIMINATOR_BYTES,
        CANDY_MACHINE_DISCRIMINATOR@ != COLLECTION_PDA_DISCRIMINATOR@,
        CANDY_MACHINE_DISCRIMINATOR@ != FREEZE_PDA_DISCRIMINATOR@,
        COLLECTION_PDA_DISCRIMINATOR@ != FREEZE_PDA_DISCRIMINATOR@,
{
    assert(CANDY_MACHINE_DISCRIMINATOR@[0] == 51);
    assert(COLLECTION_PDA_DISCRIMINATOR@[0] == 203);
    assert(FREEZE_PDA_DISCRIMINATOR@[0] == 154);
}

/// Decoding inverts encoding: the account that holds a record decodes to that record.
pub proof fn lemma_account_round_trip(record: CandyMachineAccountView)
    requires
        record.encodable(),
    ensures
        candy_machine_account(record.account_bytes()) == Ok::<_, BlockbusterError>(record),
{
    lemma_tags_differ();
    let tag = record.tag();
    let body = record.body();
    let blob = record.account_bytes();
    let start = DISCRIMINATOR_BYTES as int;
    assert(blob.subrange(0, start) =~= tag);
    lemma_holds_whole(body);
    lemma_holds_behind(tag, body, 0, body.len() as int, body);
    match record {
        CandyMachineAccountView::CandyMachine(inner) => {
            lemma_candy_machine_round_trip(blob, start, blob.len() as int, inner);
        },
        CandyMachineAccountView::CollectionPDA(inner) => {
            lemma_collection_pda_round_trip(blob, start, blob.len() as int, inner);
        },
        CandyMachineAccountView::FreezePDA(inner) => {
            lemma_freeze_pda_round_trip(blob, start, blob.len() as int, inner);
        },
    }
}

/// Encoding inverts decoding: a blob that decodes to a record is the account that
/// holds the record, byte for byte, and the record can be encoded.
pub proof fn lemma_account_canonical(blob: Seq<u8>)
    requires
        candy_machine_account(blob) is Ok,
    ensures
        candy_machine_account(blob)->Ok_0.encodable(),
        candy_machine_account(blob)->Ok_0.account_bytes() == blob,
{
    lemma_tags_differ();
    let record = candy_machine_account(blob)->Ok_0;
    let start = DISCRIMINATOR_BYTES as int;
    let tag = blob.subrange(0, start);
    lemma_holds_stretch(blob, 0, start);
    match record {
        CandyMachineAccountView::CandyMachine(inner) => {
            lemma_candy_machine_canonical(blob, start);
        },
        CandyMachineAccountView::CollectionPDA(inner) => {
            lemma_collection_pda_canonical(blob, start);
        },
        CandyMachineAccountView::FreezePDA(inner) => {
            lemma_freeze_pda_canonical(blob, start);
        },
    }
    lemma_holds_join(blob, 0, start, blob.len() as int, tag, record.body());
    lemma_holds_all(blob, tag + record.body());
}

/// No two records have the same account bytes.
pub proof fn lemma_account_bytes_differ(first: CandyMachineAccountView, second: CandyMachineAccountView)
    requires
        first.encodable(),
        second.encodable(),
        first.account_bytes() == second.account_bytes(),
    ensures
        first == second,
{
    lemma_account_round_trip(first);
    lemma_account_round_trip(second);
}

/// The parser of the candy machine program.
#[derive(Clone, Copy, Debug, PartialEq, Eq)]
pub struct CandyMachineParser;

impl ProgramParser for CandyMachineParser {
    open spec fn program(&self) -> Pubkey {
        candy_machine_program()
    }

    open spec fn discriminator_len(&self) -> nat {
        DISCRIMINATOR_BYTES as nat
    }

    open spec fn known_discriminator(&self, discriminator: Seq<u8>) -> bool {
        known_tag(discriminator)
    }

    open spec fn account_outcome(&self, blob: Seq<u8>) -> Result<RecordView, BlockbusterError> {
        match candy_machine_account(blob) {
            Ok(record) => Ok(RecordView::CandyMachine(record)),
            Err(error) => Err(error),
        }
    }

    open spec fn instruction_outcome(&self, bundle: InstructionBundle<'_>) -> Result<
        RecordView,
        BlockbusterError,
    > {
        Ok(RecordView::NotUsed)
    }

    fn key(&self) -> (id: Pubkey) {
        candy_machine_id()
    }

    fn key_match(&self, key: &Pubkey) -> (same: bool) {
        *key == candy_machine_id()
    }

    fn handle_account(&self, account_info: &AccountInfo<'_>) -> (result: Result<
        ParsedRecord,
        BlockbusterError,
    >) {
        let blob = if let Some(blob) = account_info.data() {
            blob
        } else {
            return Err(BlockbusterError::DeserializationError);
        };
        match decode_account(blob) {
            Ok(record) => Ok(ParsedRecord::CandyMachine(record)),
            Err(error) => Err(error),
        }
    }

    fn handle_instruction(&self, _bundle: &InstructionBundle<'_>) -> (result: Result<
        ParsedRecord,
        BlockbusterError,
    >) {
        Ok(ParsedRecord::NotUsed(NotUsed::new()))
    }
}

} // verus!
