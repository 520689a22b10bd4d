//! Accounts of the token metadata program.
//!
//! An account blob starts with one byte that numbers the kind of the account. The
//! records themselves are those of `mpl_token_metadata`, and that crate decodes them:
//! this module picks the layout that the tag names, hands the blob to the decoder of
//! that layout, and joins the tag's kind with the record. What a decoder yields for
//! given bytes has a name here (`edition_in` and the like) and no definition: the
//! contracts say which decoder's result is returned, and for which blobs.
use vstd::prelude::*;
use mpl_token_metadata::state::{
    CollectionAuthorityRecord, Edition, EditionMarker, Key, MasterEditionV1, MasterEditionV2,
    Metadata, ReservationListV1, ReservationListV2, UseAuthorityRecord,
};
use solana_sdk::borsh::try_from_slice_unchecked;
use crate::error::BlockbusterError;
use crate::instruction::InstructionBundle;
use crate::program_handler::{
    AccountInfo, NotUsed, ParseResult, ParsedRecord, ProgramParser, RecordView,
};
use crate::programs::ProgramParseResult;
use crate::pubkey::Pubkey;

verus! {

/// `mpl_token_metadata::state::Key`, the account kinds of the token metadata program in
/// the order of their one-byte tags. Verus reads the variants from the crate itself.
#[verifier::external_type_specification]
pub struct ExKey(Key);

/// `mpl_token_metadata::state::Edition`, carried as it was decoded.
#[verifier::external_type_specification]
#[verifier::external_body]
pub struct ExEdition(Edition);

/// `mpl_token_metadata::state::MasterEditionV1`, carried as it was decoded.
#[verifier::external_type_specification]
#[verifier::external_body]
pub struct ExMasterEditionV1(MasterEditionV1);

/// `mpl_token_metadata::state::Metadata`, carried as it was decoded.
#[verifier::external_type_specification]
#[verifier::external_body]
pub struct ExMetadata(Metadata);

/// `mpl_token_metadata::state::MasterEditionV2`, carried as it was decoded.
#[verifier::external_type_specification]
#[verifier::external_body]
pub struct ExMasterEditionV2(MasterEditionV2);

/// `mpl_token_metadata::state::EditionMarker`, carried as it was decoded.
#[verifier::external_type_specification]
#[verifier::external_body]
pub struct ExEditionMarker(EditionMarker);

/// `mpl_token_metadata::state::UseAuthorityRecord`, carried as it was decoded.
#[verifier::external_type_specification]
#[verifier::external_body]
pub struct ExUseAuthorityRecord(UseAuthorityRecord);

/// `mpl_token_metadata::state::CollectionAuthorityRecord`, carried as it was decoded.
#[verifier::external_type_specification]
#[verifier::external_body]
pub struct ExCollectionAuthorityRecord(CollectionAuthorityRecord);

/// `mpl_token_metadata::state::ReservationListV2`, carried as it was decoded.
#[verifier::external_type_specification]
#[verifier::external_body]
pub struct ExReservationListV2(ReservationListV2);

/// `mpl_token_metadata::state::ReservationListV1`, carried as it was decoded.
#[verifier::external_type_specification]
#[verifier::external_body]
pub struct ExReservationListV1(ReservationListV1);

/// `std::io::Error`, the reason that a decoding call gives for its failure.
#[verifier::external_type_specification]
#[verifier::external_body]
pub struct ExIoError(std::io::Error);

/// The `Edition` that the leading bytes of a blob hold, if they hold one.
pub uninterp spec fn edition_in(blob: Seq<u8>) -> Option<Edition>;

/// The `MasterEditionV1` that the leading bytes of a blob hold, if they hold one.
pub uninterp spec fn master_edition_v1_in(blob: Seq<u8>) -> Option<MasterEditionV1>;

/// The `Metadata` that the leading bytes of a blob hold, if they hold one.
pub uninterp spec fn metadata_in(blob: Seq<u8>) -> Option<Metadata>;

/// The `MasterEditionV2` that the leading bytes of a blob hold, if they hold one.
pub uninterp spec fn master_edition_v2_in(blob: Seq<u8>) -> Option<MasterEditionV2>;

/// The `EditionMarker` that the leading bytes of a blob hold, if they hold one.
pub uninterp spec fn edition_marker_in(blob: Seq<u8>) -> Option<EditionMarker>;

/// The `UseAuthorityRecord` that the leading bytes of a blob hold, if they hold one.
pub uninterp spec fn use_authority_record_in(blob: Seq<u8>) -> Option<UseAuthorityRecord>;

/// The `CollectionAuthorityRecord` that the leading bytes of a blob hold, if they hold one.
pub uninterp spec fn collection_authority_record_in(blob: Seq<u8>) -> Option<
    CollectionAuthorityRecord,
>;

/// The `ReservationListV2` that the leading bytes of a blob hold, if they hold one.
pub uninterp spec fn reservation_list_v2_in(blob: Seq<u8>) -> Option<ReservationListV2>;

/// The `ReservationListV1` that the leading bytes of a blob hold, if they hold one.
pub uninterp spec fn reservation_list_v1_in(blob: Seq<u8>) -> Option<ReservationListV1>;

/// The record of a decoding call, without the reason of a failure.
pub open spec fn found<T>(decoded: Result<T, std::io::Error>) -> Option<T> {
    match decoded {
        Ok(record) => Some(record),
        Err(_) => None,
    }
}

/// Calls `solana_sdk::borsh::try_from_slice_unchecked` for `Edition`, which reads the
/// record's fields in order from the start of the blob and leaves what follows unread.
/// Trusted: the call succeeds or fails, and yields its record, by the blob's bytes alone.
#[verifier::external_body]
fn read_edition(blob: &[u8]) -> (decoded: Result<Edition, std::io::Error>)
    ensures
        found(decoded) == edition_in(blob@),
{
    try_from_slice_unchecked::<Edition>(blob)
}

/// Calls `solana_sdk::borsh::try_from_slice_unchecked` for `MasterEditionV1`, which reads
/// the record's fields in order from the start of the blob and leaves what follows unread.
/// Trusted: the call succeeds or fails, and yields its record, by the blob's bytes alone.
#[verifier::external_body]
fn read_master_edition_v1(blob: &[u8]) -> (decoded: Result<MasterEditionV1, std::io::Error>)
    ensures
        found(decoded) == master_edition_v1_in(blob@),
{
    try_from_slice_unchecked::<MasterEditionV1>(blob)
}

/// Calls `solana_sdk::borsh::try_from_slice_unchecked` for `Metadata`, which reads the
/// record's fields in order from the start of the blob, replaces trailing optional fields
/// that do not decode by empty ones (and prints a line where the last of them does not),
/// and leaves what follows unread.
/// Trusted: the call succeeds or fails, and yields its record, by the blob's bytes alone.
#[verifier::external_body]
fn read_metadata(blob: &[u8]) -> (decoded: Result<Metadata, std::io::Error>)
    ensures
        found(decoded) == metadata_in(blob@),
{
    try_from_slice_unchecked::<Metadata>(blob)
}

/// Calls `solana_sdk::borsh::try_from_slice_unchecked` for `MasterEditionV2`, which reads
/// the record's fields in order from the start of the blob and leaves what follows unread.
/// Trusted: the call succeeds or fails, and yields its record, by the blob's bytes alone.
#[verifier::external_body]
fn read_master_edition_v2(blob: &[u8]) -> (decoded: Result<MasterEditionV2, std::io::Error>)
    ensures
        found(decoded) == master_edition_v2_in(blob@),
{
    try_from_slice_unchecked::<MasterEditionV2>(blob)
}

/// Calls `solana_sdk::borsh::try_from_slice_unchecked` for `EditionMarker`, which reads the
/// record's fields in order from the start of the blob and leaves what follows unread.
/// Trusted: the call succeeds or fails, and yields its record, by the blob's bytes alone.
#[verifier::external_body]
fn read_edition_marker(blob: &[u8]) -> (decoded: Result<EditionMarker, std::io::Error>)
    ensures
        found(decoded) == edition_marker_in(blob@),
{
    try_from_slice_unchecked::<EditionMarker>(blob)
}

/// Calls `solana_sdk::borsh::try_from_slice_unchecked` for `UseAuthorityRecord`, which reads
/// the record's fields in order from the start of the blob and leaves what follows unread.
/// Trusted: the call succeeds or fails, and yields its record, by the blob's bytes alone.
#[verifier::external_body]
fn read_use_authority_record(blob: &[u8]) -> (decoded: Result<
    UseAuthorityRecord,
    std::io::Error,
>)
    ensures
        found(decoded) == use_authority_record_in(blob@),
{
    try_from_slice_unchecked::<UseAuthorityRecord>(blob)
}

/// Calls `solana_sdk::borsh::try_from_slice_unchecked` for `CollectionAuthorityRecord`,
/// which reads the record's fields in order from the start of the blob and leaves what
/// follows unread.
/// Trusted: the call succeeds or fails, and yields its record, by the blob's bytes alone.
#[verifier::external_body]
fn read_collection_authority_record(blob: &[u8]) -> (decoded: Result<
    CollectionAuthorityRecord,
    std::io::Error,
>)
    ensures
        found(decoded) == collection_authority_record_in(blob@),
{
    try_from_slice_unchecked::<CollectionAuthorityRecord>(blob)
}

/// Calls `solana_sdk::borsh::try_from_slice_unchecked` for `ReservationListV2`, which reads
/// the record's fields in order from the start of the blob and leaves what follows unread.
/// Trusted: the call succeeds or fails, and yields its record, by the blob's bytes alone.
#[verifier::external_body]
fn read_reservation_list_v2(blob: &[u8]) -> (decoded: Result<
    ReservationListV2,
    std::io::Error,
>)
    ensures
        found(decoded) == reservation_list_v2_in(blob@),
{
    try_from_slice_unchecked::<ReservationListV2>(blob)
}

/// Calls `solana_sdk::borsh::try_from_slice_unchecked` for `ReservationListV1`, which reads
/// the record's fields in order from the start of the blob and leaves what follows unread.
/// Trusted: the call succeeds or fails, and yields its record, by the blob's bytes alone.
#[verifier::external_body]
fn read_reservation_list_v1(blob: &[u8]) -> (decoded: Result<
    ReservationListV1,
    std::io::Error,
>)
    ensures
        found(decoded) == reservation_list_v1_in(blob@),
{
    try_from_slice_unchecked::<ReservationListV1>(blob)
}

/// The identity of the token metadata program.
pub open spec fn token_metadata_program() -> Pubkey {
    Pubkey(
        [
            11u8, 112, 101, 177, 227, 209, 124, 69, 56, 157, 82, 127, 107, 4, 195, 205, 88, 184,
            108, 115, 26, 160, 253, 181, 73, 182, 209, 188, 3, 248, 41, 70,
        ],
    )
}

/// The identity of the token metadata program,
/// `metaqbxxUerdq28cj1RbAWkYQm3ybzjb6a8bt518x1s` in base 58.
pub fn token_metadata_id() -> (id: Pubkey)
    ensures
        id == token_metadata_program(),
{
    let id = Pubkey(
        [
            11u8, 112, 101, 177, 227, 209, 124, 69, 56, 157, 82, 127, 107, 4, 195, 205, 88, 184,
            108, 115, 26, 160, 253, 181, 73, 182, 209, 188, 3, 248, 41, 70,
        ],
    );
    assert(id.0 =~= token_metadata_program().0);
    id
}

/// The record of a token metadata account, one variant for each layout.
#[derive(Debug, PartialEq, Eq)]
pub enum TokenMetadataAccountData {
    EditionV1(Edition),
    MasterEditionV1(MasterEditionV1),
    MetadataV1(Metadata),
    MasterEditionV2(MasterEditionV2),
    EditionMarker(EditionMarker),
    UseAuthorityRecord(UseAuthorityRecord),
    CollectionAuthorityRecord(CollectionAuthorityRecord),
    ReservationListV2(ReservationListV2),
    ReservationListV1(ReservationListV1),
}

/// A decoded token metadata account: the kind that its tag names, and the record.
#[derive(Debug, PartialEq, Eq)]
pub struct TokenMetadataAccountState {
    pub key: Key,
    pub data: TokenMetadataAccountData,
}

impl TokenMetadataAccountData {
    /// The account kind whose layout the record has.
    pub open spec fn layout(self) -> Key {
        match self {
            TokenMetadataAccountData::EditionV1(_) => Key::EditionV1,
            TokenMetadataAccountData::MasterEditionV1(_) => Key::MasterEditionV1,
            TokenMetadataAccountData::MetadataV1(_) => Key::MetadataV1,
            TokenMetadataAccountData::MasterEditionV2(_) => Key::MasterEditionV2,
            TokenMetadataAccountData::EditionMarker(_) => Key::EditionMarker,
            TokenMetadataAccountData::UseAuthorityRecord(_) => Key::UseAuthorityRecord,
            TokenMetadataAccountData::CollectionAuthorityRecord(_) => Key::CollectionAuthorityRecord,
            TokenMetadataAccountData::ReservationListV2(_) => Key::ReservationListV2,
            TokenMetadataAccountData::ReservationListV1(_) => Key::ReservationListV1,
        }
    }
}

impl ParseResult for TokenMetadataAccountState {
    open spec fn classification(&self) -> ProgramParseResult<'_> {
        ProgramParseResult::TokenMetadata(self)
    }

    fn result_type(&self) -> (kind: ProgramParseResult<'_>) {
        ProgramParseResult::TokenMetadata(self)
    }
}

/// Number of leading bytes that hold the tag of a token metadata account.
pub const TOKEN_METADATA_TAG_BYTES: usize = 1;

/// The account kind that a tag byte names: the kinds are numbered from 0 in the order
/// in which `Key` lists them.
pub open spec fn key_of_tag(tag: u8) -> Option<Key> {
    if tag == 0 {
        Some(Key::Uninitialized)
    } else if tag == 1 {
        Some(Key::EditionV1)
    } else if tag == 2 {
        Some(Key::MasterEditionV1)
    } else if tag == 3 {
        Some(Key::ReservationListV1)
    } else if tag == 4 {
        Some(Key::MetadataV1)
    } else if tag == 5 {
        Some(Key::ReservationListV2)
    } else if tag == 6 {
        Some(Key::MasterEditionV2)
    } else if tag == 7 {
        Some(Key::EditionMarker)
    } else if tag == 8 {
        Some(Key::UseAuthorityRecord)
    } else if tag == 9 {
        Some(Key::CollectionAuthorityRecord)
    } else {
        None
    }
}

/// The record that a blob of the given kind holds. Each kind is read in its own layout:
/// a `MasterEditionV1` account as a `MasterEditionV1`, a `MasterEditionV2` account as a
/// `MasterEditionV2`, as `mpl_token_metadata::state::get_master_edition` pairs them.
pub open spec fn record_in(key: Key, blob: Seq<u8>) -> Option<TokenMetadataAccountData> {
    match key {
        Key::Uninitialized => None,
        Key::EditionV1 => match edition_in(blob) {
            Some(record) => Some(TokenMetadataAccountData::EditionV1(record)),
            None => None,
        },
        Key::MasterEditionV1 => match master_edition_v1_in(blob) {
            Some(record) => Some(TokenMetadataAccountData::MasterEditionV1(record)),
            None => None,
        },
        Key::ReservationListV1 => match reservation_list_v1_in(blob) {
            Some(record) => Some(TokenMetadataAccountData::ReservationListV1(record)),
            None => None,
        },
        Key::MetadataV1 => match metadata_in(blob) {
            Some(record) => Some(TokenMetadataAccountData::MetadataV1(record)),
            None => None,
        },
        Key::ReservationListV2 => match reservation_list_v2_in(blob) {
            Some(record) => Some(TokenMetadataAccountData::ReservationListV2(record)),
            None => None,
        },
        Key::MasterEditionV2 => match master_edition_v2_in(blob) {
            Some(record) => Some(TokenMetadataAccountData::MasterEditionV2(record)),
            None => None,
        },
        Key::EditionMarker => match edition_marker_in(blob) {
            Some(record) => Some(TokenMetadataAccountData::EditionMarker(record)),
            None => None,
        },
        Key::UseAuthorityRecord => match use_authority_record_in(blob) {
            Some(record) => Some(TokenMetadataAccountData::UseAuthorityRecord(record)),
            None => None,
        },
        Key::CollectionAuthorityRecord => match collection_authority_record_in(blob) {
            Some(record) => Some(TokenMetadataAccountData::CollectionAuthorityRecord(record)),
            None => None,
        },
    }
}

/// What the bytes of a token metadata account decode to.
pub open spec fn token_metadata_account(blob: Seq<u8>) -> Result<
    TokenMetadataAccountState,
    BlockbusterError,
> {
    if blob.len() < TOKEN_METADATA_TAG_BYTES {
        Err(BlockbusterError::MalformedAccountData)
    } else {
        match key_of_tag(blob[0]) {
            None => Err(BlockbusterError::UnknownAccountDiscriminator),
            Some(Key::Uninitialized) => Err(BlockbusterError::UninitializedAccount),
            Some(key) => account_state(key, record_in(key, blob)),
        }
    }
}

/// The state that a decoded record makes, or the error where none was decoded.
pub open spec fn account_state(key: Key, record: Option<TokenMetadataAccountData>) -> Result<
    TokenMetadataAccountState,
    BlockbusterError,
> {
    match record {
        Some(data) => Ok(TokenMetadataAccountState { key, data }),
        None => Err(BlockbusterError::DeserializationError),
    }
}

/// A decoded account has the kind that its tag names, and a record in the layout of
/// that kind: never the record of another tag.
pub proof fn lemma_state_matches_tag(blob: Seq<u8>)
    requires
        token_metadata_account(blob) is Ok,
    ensures
        blob.len() >= TOKEN_METADATA_TAG_BYTES,
        key_of_tag(blob[0]) == Some(token_metadata_account(blob)->Ok_0.key),
        token_metadata_account(blob)->Ok_0.data.layout() == token_metadata_account(blob)->Ok_0.key,
{
}

/// A blob whose tag is that of an uninitialized account is an `UninitializedAccount`,
/// whatever follows the tag.
pub proof fn lemma_uninitialized_whatever_follows(blob: Seq<u8>)
    requires
        blob.len() >= TOKEN_METADATA_TAG_BYTES,
        blob[0] == 0,
    ensures
        token_metadata_account(blob) == Err::<TokenMetadataAccountState, _>(
            BlockbusterError::UninitializedAccount,
        ),
{
}

/// Names the account kind of a tag byte.
pub fn key_from_tag(tag: u8) -> (key: Option<Key>)
    ensures
        key == key_of_tag(tag),
{
    match tag {
        0 => Some(Key::Uninitialized),
        1 => Some(Key::EditionV1),
        2 => Some(Key::MasterEditionV1),
        3 => Some(Key::ReservationListV1),
        4 => Some(Key::MetadataV1),
        5 => Some(Key::ReservationListV2),
        6 => Some(Key::MasterEditionV2),
        7 => Some(Key::EditionMarker),
        8 => Some(Key::UseAuthorityRecord),
        9 => Some(Key::CollectionAuthorityRecord),
        _ => None,
    }
}

/// Joins the kind of an account with the record that was read from it. A record that
/// did not decode makes the whole account a `DeserializationError`, whatever the reason.
pub fn state_from_record(
    key: Key,
    record: Result<TokenMetadataAccountData, std::io::Error>,
) -> (state: Result<TokenMetadataAccountState, BlockbusterError>)
    ensures
        state == account_state(key, found(record)),
{
    match record {
        Ok(data) => Ok(TokenMetadataAccountState { key, data }),
        Err(_) => Err(BlockbusterError::DeserializationError),
    }
}

/// Reads from a blob the record of the given kind, in the layout of that kind.
pub fn read_record(key: Key, blob: &[u8]) -> (record: Option<
    Result<TokenMetadataAccountData, std::io::Error>,
>)
    ensures
        key == Key::Uninitialized <==> record is None,
        record matches Some(decoded) ==> found(decoded) == record_in(key, blob@),
{
    match key {
        Key::Uninitialized => None,
        Key::EditionV1 => Some(
            match read_edition(blob) {
                Ok(record) => Ok(TokenMetadataAccountData::EditionV1(record)),
                Err(error) => Err(error),
            },
        ),
        Key::MasterEditionV1 => Some(
            match read_master_edition_v1(blob) {
                Ok(record) => Ok(TokenMetadataAccountData::MasterEditionV1(record)),
                Err(error) => Err(error),
            },
        ),
        Key::ReservationListV1 => Some(
            match read_reservation_list_v1(blob) {
                Ok(record) => Ok(TokenMetadataAccountData::ReservationListV1(record)),
                Err(error) => Err(error),
            },
        ),
        Key::MetadataV1 => Some(
            match read_metadata(blob) {
                Ok(record) => Ok(TokenMetadataAccountData::MetadataV1(record)),
                Err(error) => Err(error),
            },
        ),
        Key::ReservationListV2 => Some(
            match read_reservation_list_v2(blob) {
                Ok(record) => Ok(TokenMetadataAccountData::ReservationListV2(record)),
                Err(error) => Err(error),
            },
        ),
        Key::MasterEditionV2 => Some(
            match read_master_edition_v2(blob) {
                Ok(record) => Ok(TokenMetadataAccountData::MasterEditionV2(record)),
                Err(error) => Err(error),
            },
        ),
        Key::EditionMarker => Some(
            match read_edition_marker(blob) {
                Ok(record) => Ok(TokenMetadataAccountData::EditionMarker(record)),
                Err(error) => Err(error),
            },
        ),
        Key::UseAuthorityRecord => Some(
            match read_use_authority_record(blob) {
                Ok(record) => Ok(TokenMetadataAccountData::UseAuthorityRecord(record)),
                Err(error) => Err(error),
            },
        ),
        Key::CollectionAuthorityRecord => Some(
            match read_collection_authority_record(blob) {
                Ok(record) => Ok(TokenMetadataAccountData::CollectionAuthorityRecord(record)),
                Err(error) => Err(error),
            },
        ),
    }
}

/// Decodes the bytes of a token metadata account.
pub fn decode_account(blob: &[u8]) -> (state: Result<TokenMetadataAccountState, BlockbusterError>)
    ensures
        state == token_metadata_account(blob@),
{
    if blob.len() < TOKEN_METADATA_TAG_BYTES {
        return Err(BlockbusterError::MalformedAccountData);
    }
    match key_from_tag(blob[0]) {
        None => Err(BlockbusterError::UnknownAccountDiscriminator),
        Some(key) => match read_record(key, blob) {
            None => Err(BlockbusterError::UninitializedAccount),
            Some(record) => state_from_record(key, record),
        },
    }
}

/// The parser of the token metadata program.
#[derive(Clone, Copy, Debug, PartialEq, Eq)]
pub struct TokenMetadataParser;

impl ProgramParser for TokenMetadataParser {
    open spec fn program(&self) -> Pubkey {
        token_metadata_program()
    }

    open spec fn discriminator_len(&self) -> nat {
        TOKEN_METADATA_TAG_BYTES as nat
    }

    open spec fn known_discriminator(&self, discriminator: Seq<u8>) -> bool {
        key_of_tag(discriminator[0]) is Some
    }

    open spec fn account_outcome(&self, blob: Seq<u8>) -> Result<RecordView, BlockbusterError> {
        match token_metadata_account(blob) {
            Ok(state) => Ok(RecordView::TokenMetadata(state)),
            Err(error) => Err(error),
        }
    }

    open spec fn instruction_outcome(&self, bundle: InstructionBundle<'_>) -> Result<
        RecordView,
        BlockbusterError,
    > {
        Ok(RecordView::NotUsed)
    }

    fn key(&self) -> (id: Pubkey) {
        token_metadata_id()
    }

    fn key_match(&self, key: &Pubkey) -> (same: bool) {
        *key == token_metadata_id()
    }

    fn handle_account(&self, account_info: &AccountInfo<'_>) -> (result: Result<
        ParsedRecord,
        BlockbusterError,
    >) {
        let blob = if let Some(blob) = account_info.data() {
            blob
        } else {
            return Err(BlockbusterError::DeserializationError);
        };
        match decode_account(blob) {
            Ok(state) => Ok(ParsedRecord::TokenMetadata(state)),
            Err(error) => Err(error),
        }
    }

    fn handle_instruction(&self, _bundle: &InstructionBundle<'_>) -> (result: Result<
        ParsedRecord,
        BlockbusterError,
    >) {
        Ok(ParsedRecord::NotUsed(NotUsed::new()))
    }
}

} // verus!
