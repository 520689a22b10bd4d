//! The records of the candy machine program, and how each lies in bytes.
//!
//! Every record has its encoding (`*_bytes`), the record that a byte sequence
//! holds at an offset (`*_at`), its reader (`read_*`), and the two facts that
//! make the reader the inverse of the encoding: a record is read back from
//! where its encoding lies, and where a record is read, its encoding lies.
//!
//! The `*_bytes` and `*_at` of the records are opaque: `reveal` them to
//! compute with the layout of a record.
use vstd::prelude::*;
use crate::codec::{
    bool_at, bool_bytes, bytes32_at, bytes32_bytes, holds, i64_at, i64_bytes,
    lemma_bool_canonical, lemma_bool_round_trip, lemma_bytes32_canonical,
    lemma_bytes32_round_trip, lemma_holds_join, lemma_holds_nothing, lemma_holds_split,
    lemma_i64_canonical, lemma_i64_round_trip, lemma_option_canonical, lemma_option_i64_canonical,
    lemma_option_i64_round_trip, lemma_option_pubkey_canonical, lemma_option_pubkey_round_trip,
    lemma_option_round_trip, lemma_option_u64_canonical, lemma_option_u64_round_trip,
    lemma_pubkey_canonical, lemma_pubkey_round_trip, lemma_string_canonical,
    lemma_string_round_trip, lemma_u16_canonical, lemma_u16_round_trip, lemma_u32_canonical,
    lemma_u32_round_trip, lemma_u64_canonical, lemma_u64_round_trip, lemma_u8_canonical,
    lemma_u8_round_trip, lemma_variant_canonical, lemma_variant_round_trip, option_bytes,
    option_i64_at, option_i64_bytes, option_pubkey_at, option_pubkey_bytes, option_u64_at,
    option_u64_bytes, optional, pubkey_at, pubkey_bytes, read_bool, read_bytes32, read_i64,
    read_option_i64, read_option_pubkey, read_option_u64, read_pubkey, read_string, read_u16,
    read_u32, read_u64, read_u8, read_variant, reads, reads_view, step, stop, string_at,
    string_bytes, string_encodable, u16_at, u16_bytes, u32_at, u32_bytes, u64_at, u64_bytes,
    u8_at, u8_bytes, variant_at, variant_bytes,
};
use crate::pubkey::Pubkey;

verus! {

/// What ends the sale of a candy machine: a date or a count of items.
#[derive(Clone, Copy, Debug, PartialEq, Eq, Structural)]
pub enum EndSettingType {
    Date,
    Amount,
}

/// When the sale of a candy machine ends.
#[derive(Clone, Copy, Debug, PartialEq, Eq, Structural)]
pub struct EndSettings {
    pub end_setting_type: EndSettingType,
    pub number: u64,
}

/// One creator of the items, with the share of the royalties.
#[derive(Clone, Copy, Debug, PartialEq, Eq)]
pub struct Creator {
    pub address: Pubkey,
    pub verified: bool,
    pub share: u8,
}

/// What is shown of the items before they are revealed.
#[derive(Clone, Debug, PartialEq, Eq)]
pub struct HiddenSettings {
    pub name: String,
    pub uri: String,
    pub hash: [u8; 32],
}

/// Whether a whitelist token is burned when it is used.
#[derive(Clone, Copy, Debug, PartialEq, Eq, Structural)]
pub enum WhitelistMintMode {
    BurnEveryTime,
    NeverBurn,
}

/// The whitelist of a candy machine.
#[derive(Clone, Copy, Debug, PartialEq, Eq)]
pub struct WhitelistMintSettings {
    pub mode: WhitelistMintMode,
    pub mint: Pubkey,
    pub presale: bool,
    pub discount_price: Option<u64>,
}

/// The gatekeeper network whose tokens a mint requires.
#[derive(Clone, Copy, Debug, PartialEq, Eq)]
pub struct GatekeeperConfig {
    pub gatekeeper_network: Pubkey,
    pub expire_on_use: bool,
}

/// The settings of a candy machine.
#[derive(Clone, Debug, PartialEq, Eq)]
pub struct CandyMachineData {
    pub uuid: String,
    pub price: u64,
    pub symbol: String,
    pub seller_fee_basis_points: u16,
    pub max_supply: u64,
    pub is_mutable: bool,
    pub retain_authority: bool,
    pub go_live_date: Option<i64>,
    pub end_settings: Option<EndSettings>,
    pub creators: Vec<Creator>,
    pub hidden_settings: Option<HiddenSettings>,
    pub whitelist_mint_settings: Option<WhitelistMintSettings>,
    pub items_available: u64,
    pub gatekeeper: Option<GatekeeperConfig>,
}

/// A candy machine: who owns it, what it has sold, and its settings.
#[derive(Clone, Debug, PartialEq, Eq)]
pub struct CandyMachine {
    pub authority: Pubkey,
    pub wallet: Pubkey,
    pub token_mint: Option<Pubkey>,
    pub items_redeemed: u64,
    pub data: CandyMachineData,
}

/// The collection that a candy machine mints into.
#[derive(Clone, Copy, Debug, PartialEq, Eq)]
pub struct CollectionPDA {
    pub mint: Pubkey,
    pub candy_machine: Pubkey,
}

/// The freeze state of a candy machine.
#[derive(Clone, Copy, Debug, PartialEq, Eq)]
pub struct FreezePDA {
    pub candy_machine: Pubkey,
    pub allow_thaw: bool,
    pub frozen_count: u64,
    pub mint_start: Option<i64>,
    pub freeze_time: i64,
    pub freeze_fee: u64,
}

// ---------------------------------------------------------------------------
// EndSettings
// ---------------------------------------------------------------------------

/// The index of an end setting type in its encoding.
pub open spec fn end_setting_type_index(value: EndSettingType) -> u8 {
    match value {
        EndSettingType::Date => 0,
        EndSettingType::Amount => 1,
    }
}

/// The end setting type that an index names.
pub open spec fn end_setting_type_of(index: u8) -> EndSettingType {
    if index == 0 {
        EndSettingType::Date
    } else {
        EndSettingType::Amount
    }
}

/// The encoding of an end setting type: the index of the variant.
pub open spec fn end_setting_type_bytes(value: EndSettingType) -> Seq<u8> {
    variant_bytes(end_setting_type_index(value))
}

/// The end setting type at an offset.
pub open spec fn end_setting_type_at(s: Seq<u8>, at: int) -> (EndSettingType, int) {
    (end_setting_type_of(variant_at(s, at, 2).0), variant_at(s, at, 2).1)
}

/// Reads an end setting type.
pub fn read_end_setting_type(data: &[u8], at: usize) -> (got: Option<(EndSettingType, usize)>)
    ensures
        reads(got, end_setting_type_at(data@, at as int)),
{
    let (index, next) = read_variant(data, at, 2)?;
    let value = if index == 0 {
        EndSettingType::Date
    } else {
        EndSettingType::Amount
    };
    Some((value, next))
}

/// An end setting type is read back from where its encoding lies.
pub proof fn lemma_end_setting_type_round_trip(
    s: Seq<u8>,
    at: int,
    next: int,
    value: EndSettingType,
)
    requires
        holds(s, at, next, end_setting_type_bytes(value)),
    ensures
        end_setting_type_at(s, at) == (value, next),
{
    lemma_variant_round_trip(s, at, next, end_setting_type_index(value), 2);
}

/// Where an end setting type is read, its encoding lies.
pub proof fn lemma_end_setting_type_canonical(s: Seq<u8>, at: int)
    requires
        end_setting_type_at(s, at).1 >= 0,
    ensures
        holds(
            s,
            at,
            end_setting_type_at(s, at).1,
            end_setting_type_bytes(end_setting_type_at(s, at).0),
        ),
{
    lemma_variant_canonical(s, at, 2);
}

/// The encoding of an end settings record: its fields in order.
#[verifier::opaque]
pub open spec fn end_settings_bytes(value: EndSettings) -> Seq<u8> {
    end_setting_type_bytes(value.end_setting_type)
        + u64_bytes(value.number)
}

/// The end settings record at an offset.
#[verifier::opaque]
pub open spec fn end_settings_at(s: Seq<u8>, at: int) -> (EndSettings, int) {
    let (end_setting_type, at1) = step(at, end_setting_type_at(s, at));
    let (number, at2) = step(at1, u64_at(s, at1));
    (EndSettings { end_setting_type, number }, at2)
}

/// Reads an end settings record.
pub fn read_end_settings(data: &[u8], at: usize) -> (got: Option<(EndSettings, usize)>)
    ensures
        reads(got, end_settings_at(data@, at as int)),
{
    proof {
        reveal(end_settings_at);
    }
    let (end_setting_type, at1) = read_end_setting_type(data, at)?;
    let (number, at2) = read_u64(data, at1)?;
    Some((EndSettings { end_setting_type, number }, at2))
}

/// An end settings record is read back from where its encoding lies.
pub proof fn lemma_end_settings_round_trip(s: Seq<u8>, at: int, next: int, value: EndSettings)
    requires
        holds(s, at, next, end_settings_bytes(value)),
    ensures
        end_settings_at(s, at) == (value, next),
{
    reveal(end_settings_at);
    reveal(end_settings_bytes);
    let b1 = end_setting_type_bytes(value.end_setting_type);
    let b2 = u64_bytes(value.number);
    let q1 = at + b1.len();
    lemma_holds_split(s, at, next, b1, b2);
    lemma_end_setting_type_round_trip(s, at, q1, value.end_setting_type);
    lemma_u64_round_trip(s, q1, next, value.number);
}

/// Where an end settings record is read, its encoding lies.
pub proof fn lemma_end_settings_canonical(s: Seq<u8>, at: int)
    requires
        end_settings_at(s, at).1 >= 0,
    ensures
        holds(s, at, end_settings_at(s, at).1, end_settings_bytes(end_settings_at(s, at).0)),
{
    reveal(end_settings_at);
    reveal(end_settings_bytes);
    let (end_setting_type, at1) = step(at, end_setting_type_at(s, at));
    let (number, at2) = step(at1, u64_at(s, at1));
    assert(at1 >= 0);
    lemma_end_setting_type_canonical(s, at);
    lemma_u64_canonical(s, at1);
    let b1 = end_setting_type_bytes(end_setting_type);
    let b2 = u64_bytes(number);
    lemma_holds_join(s, at, at1, at2, b1, b2);
}

/// The encoding of an optional end settings record.
pub open spec fn option_end_settings_bytes(value: Option<EndSettings>) -> Seq<u8> {
    match value {
        Some(inner) => option_bytes(true, end_settings_bytes(inner)),
        None => option_bytes(false, Seq::empty()),
    }
}

/// The optional end settings record at an offset.
#[verifier::opaque]
pub open spec fn option_end_settings_at(s: Seq<u8>, at: int) -> (Option<EndSettings>, int) {
    optional(bool_at(s, at), end_settings_at(s, bool_at(s, at).1))
}

/// Reads an optional end settings record.
pub fn read_option_end_settings(
    data: &[u8],
    at: usize,
) -> (got: Option<(Option<EndSettings>, usize)>)
    ensures
        reads(got, option_end_settings_at(data@, at as int)),
{
    proof {
        reveal(option_end_settings_at);
    }
    let (present, start) = read_bool(data, at)?;
    if present {
        let (inner, next) = read_end_settings(data, start)?;
        Some((Some(inner), next))
    } else {
        Some((None, start))
    }
}

/// An optional end settings record is read back from where its encoding lies.
pub proof fn lemma_option_end_settings_round_trip(
    s: Seq<u8>,
    at: int,
    next: int,
    value: Option<EndSettings>,
)
    requires
        holds(s, at, next, option_end_settings_bytes(value)),
    ensures
        option_end_settings_at(s, at) == (value, next),
{
    reveal(option_end_settings_at);
    match value {
        Some(inner) => {
            lemma_option_round_trip(s, at, next, true, end_settings_bytes(inner));
            lemma_end_settings_round_trip(s, at + 1, next, inner);
        },
        None => {
            lemma_option_round_trip(s, at, next, false, Seq::empty());
        },
    }
}

/// Where an optional end settings record is read, its encoding lies.
pub proof fn lemma_option_end_settings_canonical(s: Seq<u8>, at: int)
    requires
        option_end_settings_at(s, at).1 >= 0,
    ensures
        holds(
            s,
            at,
            option_end_settings_at(s, at).1,
            option_end_settings_bytes(option_end_settings_at(s, at).0),
        ),
{
    reveal(option_end_settings_at);
    let next = option_end_settings_at(s, at).1;
    if bool_at(s, at).0 {
        let inner = end_settings_at(s, at + 1).0;
        lemma_end_settings_canonical(s, at + 1);
        lemma_option_canonical(s, at, next, end_settings_bytes(inner));
    } else {
        lemma_option_canonical(s, at, next, Seq::empty());
    }
}

// ---------------------------------------------------------------------------
// Creator and the list of creators
// ---------------------------------------------------------------------------

/// The encoding of a creator: its fields in order.
#[verifier::opaque]
pub open spec fn creator_bytes(value: Creator) -> Seq<u8> {
    pubkey_bytes(value.address)
        + bool_bytes(value.verified)
        + u8_bytes(value.share)
}

/// The creator at an offset.
#[verifier::opaque]
pub open spec fn creator_at(s: Seq<u8>, at: int) -> (Creator, int) {
    let (address, at1) = step(at, pubkey_at(s, at));
    let (verified, at2) = step(at1, bool_at(s, at1));
    let (share, at3) = step(at2, u8_at(s, at2));
    (Creator { address, verified, share }, at3)
}

/// Reads a creator.
pub fn read_creator(data: &[u8], at: usize) -> (got: Option<(Creator, usize)>)
    ensures
        reads(got, creator_at(data@, at as int)),
{
    proof {
        reveal(creator_at);
    }
    let (address, at1) = read_pubkey(data, at)?;
    let (verified, at2) = read_bool(data, at1)?;
    let (share, at3) = read_u8(data, at2)?;
    Some((Creator { address, verified, share }, at3))
}

/// A creator is read back from where its encoding lies.
pub proof fn lemma_creator_round_trip(s: Seq<u8>, at: int, next: int, value: Creator)
    requires
        holds(s, at, next, creator_bytes(value)),
    ensures
        creator_at(s, at) == (value, next),
{
    reveal(creator_at);
    reveal(creator_bytes);
    let b1 = pubkey_bytes(value.address);
    let b2 = bool_bytes(value.verified);
    let b3 = u8_bytes(value.share);
    let h2 = b1 + b2;
    let q1 = at + b1.len();
    let q2 = q1 + b2.len();
    lemma_holds_split(s, at, next, h2, b3);
    lemma_holds_split(s, at, q2, b1, b2);
    lemma_pubkey_round_trip(s, at, q1, value.address);
    lemma_bool_round_trip(s, q1, q2, value.verified);
    lemma_u8_round_trip(s, q2, next, value.share);
}

/// Where a creator is read, its encoding lies.
pub proof fn lemma_creator_canonical(s: Seq<u8>, at: int)
    requires
        creator_at(s, at).1 >= 0,
    ensures
        holds(s, at, creator_at(s, at).1, creator_bytes(creator_at(s, at).0)),
{
    reveal(creator_at);
    reveal(creator_bytes);
    let (address, at1) = step(at, pubkey_at(s, at));
    let (verified, at2) = step(at1, bool_at(s, at1));
    let (share, at3) = step(at2, u8_at(s, at2));
    assert(at2 >= 0);
    assert(at1 >= 0);
    lemma_pubkey_canonical(s, at);
    lemma_bool_canonical(s, at1);
    lemma_u8_canonical(s, at2);
    let b1 = pubkey_bytes(address);
    let b2 = bool_bytes(verified);
    let b3 = u8_bytes(share);
    let h2 = b1 + b2;
    lemma_holds_join(s, at, at1, at2, b1, b2);
    lemma_holds_join(s, at, at2, at3, h2, b3);
}

/// The encoding of creators that follow one another.
pub open spec fn creators_bytes(list: Seq<Creator>) -> Seq<u8>
    decreases list.len(),
{
    if list.len() == 0 {
        Seq::empty()
    } else {
        creators_bytes(list.drop_last()) + creator_bytes(list.last())
    }
}

/// The `count` creators that follow one another from an offset.
pub open spec fn creators_at(s: Seq<u8>, at: int, count: nat) -> (Seq<Creator>, int)
    decreases count,
{
    if count == 0 {
        (Seq::empty(), at)
    } else {
        let (init, mid) = creators_at(s, at, (count - 1) as nat);
        let (last, next) = step(mid, creator_at(s, mid));
        (init.push(last), next)
    }
}

/// A list of creators can be encoded when its length fits in 32 bits.
pub open spec fn creator_list_encodable(list: Seq<Creator>) -> bool {
    list.len() <= u32::MAX
}

/// The encoding of a list of creators: their count, then each of them.
pub open spec fn creator_list_bytes(list: Seq<Creator>) -> Seq<u8> {
    u32_bytes(list.len() as u32) + creators_bytes(list)
}

/// The list of creators at an offset.
#[verifier::opaque]
pub open spec fn creator_list_at(s: Seq<u8>, at: int) -> (Seq<Creator>, int) {
    let (count, start) = u32_at(s, at);
    if start >= 0 {
        creators_at(s, start, count as nat)
    } else {
        (Seq::empty(), stop())
    }
}

/// Once one creator is not there, no longer run of creators is.
pub proof fn lemma_creators_stop(s: Seq<u8>, at: int, reached: nat, count: nat)
    requires
        reached <= count,
        creators_at(s, at, reached).1 < 0,
    ensures
        creators_at(s, at, count).1 < 0,
    decreases count,
{
    if reached < count {
        lemma_creators_stop(s, at, reached, (count - 1) as nat);
    }
}

/// Creators are read back from where their encodings lie.
pub proof fn lemma_creators_round_trip(s: Seq<u8>, at: int, next: int, list: Seq<Creator>)
    requires
        holds(s, at, next, creators_bytes(list)),
    ensures
        creators_at(s, at, list.len()) == (list, next),
    decreases list.len(),
{
    if list.len() == 0 {
        assert(list =~= Seq::empty());
    } else {
        let init = list.drop_last();
        lemma_holds_split(s, at, next, creators_bytes(init), creator_bytes(list.last()));
        let mid = at + creators_bytes(init).len();
        lemma_creators_round_trip(s, at, mid, init);
        lemma_creator_round_trip(s, mid, next, list.last());
        assert(init.push(list.last()) =~= list);
    }
}

/// Where creators are read, their encodings lie, and there are as many as were asked for.
pub proof fn lemma_creators_canonical(s: Seq<u8>, at: int, count: nat)
    requires
        0 <= at <= s.len(),
        creators_at(s, at, count).1 >= 0,
    ensures
        creators_at(s, at, count).0.len() == count,
        holds(s, at, creators_at(s, at, count).1, creators_bytes(creators_at(s, at, count).0)),
    decreases count,
{
    if count == 0 {
        lemma_holds_nothing(s, at);
    } else {
        let (init, mid) = creators_at(s, at, (count - 1) as nat);
        let (last, next) = step(mid, creator_at(s, mid));
        lemma_creators_canonical(s, at, (count - 1) as nat);
        lemma_creator_canonical(s, mid);
        lemma_holds_join(s, at, mid, next, creators_bytes(init), creator_bytes(last));
        assert(init.push(last).drop_last() =~= init);
    }
}

/// A list of creators is read back from where its encoding lies.
pub proof fn lemma_creator_list_round_trip(s: Seq<u8>, at: int, next: int, list: Seq<Creator>)
    requires
        creator_list_encodable(list),
        holds(s, at, next, creator_list_bytes(list)),
    ensures
        creator_list_at(s, at) == (list, next),
{
    reveal(creator_list_at);
    lemma_holds_split(s, at, next, u32_bytes(list.len() as u32), creators_bytes(list));
    lemma_u32_round_trip(s, at, at + 4, list.len() as u32);
    lemma_creators_round_trip(s, at + 4, next, list);
}

/// Where a list of creators is read, its encoding lies, and the list can be encoded.
pub proof fn lemma_creator_list_canonical(s: Seq<u8>, at: int)
    requires
        creator_list_at(s, at).1 >= 0,
    ensures
        creator_list_encodable(creator_list_at(s, at).0),
        holds(s, at, creator_list_at(s, at).1, creator_list_bytes(creator_list_at(s, at).0)),
{
    reveal(creator_list_at);
    let (count, start) = u32_at(s, at);
    let (list, next) = creators_at(s, start, count as nat);
    lemma_u32_canonical(s, at);
    lemma_creators_canonical(s, start, count as nat);
    lemma_holds_join(s, at, start, next, u32_bytes(count), creators_bytes(list));
}

/// Reads a list of creators.
pub fn read_creator_list(data: &[u8], at: usize) -> (got: Option<(Vec<Creator>, usize)>)
    ensures
        reads_view(got, creator_list_at(data@, at as int)),
{
    proof {
        reveal(creator_list_at);
    }
    let (count, start) = read_u32(data, at)?;
    let mut list: Vec<Creator> = Vec::new();
    let mut next: usize = start;
    let mut i: u32 = 0;
    while i < count
        invariant
            i <= count,
            u32_at(data@, at as int) == (count, start as int),
            creators_at(data@, start as int, i as nat) == (list@, next as int),
        decreases count - i,
    {
        match read_creator(data, next) {
            Some((creator, behind)) => {
                list.push(creator);
                next = behind;
            },
            None => {
                proof {
                    reveal(creator_list_at);
                    lemma_creators_stop(data@, start as int, (i + 1) as nat, count as nat);
                }
                return None;
            },
        }
        i = i + 1;
    }
    Some((list, next))
}

// ---------------------------------------------------------------------------
// HiddenSettings
// ---------------------------------------------------------------------------

/// Hidden settings as contracts speak of it: strings as their characters, lists as sequences.
pub struct HiddenSettingsView {
    pub name: Seq<char>,
    pub uri: Seq<char>,
    pub hash: [u8; 32],
}

impl View for HiddenSettings {
    type V = HiddenSettingsView;

    open spec fn view(&self) -> HiddenSettingsView {
        HiddenSettingsView {
            name: self.name@,
            uri: self.uri@,
            hash: self.hash,
        }
    }
}

/// A hidden settings record can be encoded when each of its fields can be.
pub open spec fn hidden_settings_encodable(value: HiddenSettingsView) -> bool {
    &&& string_encodable(value.name)
    &&& string_encodable(value.uri)
}

/// The encoding of a hidden settings record: its fields in order.
#[verifier::opaque]
pub open spec fn hidden_settings_bytes(value: HiddenSettingsView) -> Seq<u8> {
    string_bytes(value.name)
        + string_bytes(value.uri)
        + bytes32_bytes(value.hash)
}

/// The hidden settings record at an offset.
#[verifier::opaque]
pub open spec fn hidden_settings_at(s: Seq<u8>, at: int) -> (HiddenSettingsView, int) {
    let (name, at1) = step(at, string_at(s, at));
    let (uri, at2) = step(at1, string_at(s, at1));
    let (hash, at3) = step(at2, bytes32_at(s, at2));
    (HiddenSettingsView { name, uri, hash }, at3)
}

/// Reads a hidden settings record.
pub fn read_hidden_settings(data: &[u8], at: usize) -> (got: Option<(HiddenSettings, usize)>)
    ensures
        reads_view(got, hidden_settings_at(data@, at as int)),
{
    proof {
        reveal(hidden_settings_at);
    }
    let (name, at1) = read_string(data, at)?;
    let (uri, at2) = read_string(data, at1)?;
    let (hash, at3) = read_bytes32(data, at2)?;
    Some((HiddenSettings { name, uri, hash }, at3))
}

/// A hidden settings record is read back from where its encoding lies.
pub proof fn lemma_hidden_settings_round_trip(
    s: Seq<u8>,
    at: int,
    next: int,
    value: HiddenSettingsView,
)
    requires
        hidden_settings_encodable(value),
        holds(s, at, next, hidden_settings_bytes(value)),
    ensures
        hidden_settings_at(s, at) == (value, next),
{
    reveal(hidden_settings_at);
    reveal(hidden_settings_bytes);
    let b1 = string_bytes(value.name);
    let b2 = string_bytes(value.uri);
    let b3 = bytes32_bytes(value.hash);
    let h2 = b1 + b2;
    let q1 = at + b1.len();
    let q2 = q1 + b2.len();
    lemma_holds_split(s, at, next, h2, b3);
    lemma_holds_split(s, at, q2, b1, b2);
    lemma_string_round_trip(s, at, q1, value.name);
    lemma_string_round_trip(s, q1, q2, value.uri);
    lemma_bytes32_round_trip(s, q2, next, value.hash);
}

/// Where a hidden settings record is read, its encoding lies.
pub proof fn lemma_hidden_settings_canonical(s: Seq<u8>, at: int)
    requires
        hidden_settings_at(s, at).1 >= 0,
    ensures
        hidden_settings_encodable(hidden_settings_at(s, at).0),
        holds(
            s,
            at,
            hidden_settings_at(s, at).1,
            hidden_settings_bytes(hidden_settings_at(s, at).0),
        ),
{
    reveal(hidden_settings_at);
    reveal(hidden_settings_bytes);
    let (name, at1) = step(at, string_at(s, at));
    let (uri, at2) = step(at1, string_at(s, at1));
    let (hash, at3) = step(at2, bytes32_at(s, at2));
    assert(at2 >= 0);
    assert(at1 >= 0);
    lemma_string_canonical(s, at);
    lemma_string_canonical(s, at1);
    lemma_bytes32_canonical(s, at2);
    let b1 = string_bytes(name);
    let b2 = string_bytes(uri);
    let b3 = bytes32_bytes(hash);
    let h2 = b1 + b2;
    lemma_holds_join(s, at, at1, at2, b1, b2);
    lemma_holds_join(s, at, at2, at3, h2, b3);
}

/// An optional hidden settings record can be encoded when it is absent or the hidden settings record can be.
pub open spec fn option_hidden_settings_encodable(value: Option<HiddenSettingsView>) -> bool {
    match value {
        Some(inner) => hidden_settings_encodable(inner),
        None => true,
    }
}

/// The encoding of an optional hidden settings record.
pub open spec fn option_hidden_settings_bytes(value: Option<HiddenSettingsView>) -> Seq<u8> {
    match value {
        Some(inner) => option_bytes(true, hidden_settings_bytes(inner)),
        None => option_bytes(false, Seq::empty()),
    }
}

/// The optional hidden settings record at an offset.
#[verifier::opaque]
pub open spec fn option_hidden_settings_at(s: Seq<u8>, at: int) -> (Option<HiddenSettingsView>, int) {
    optional(bool_at(s, at), hidden_settings_at(s, bool_at(s, at).1))
}

/// An optional hidden settings record is read back from where its encoding lies.
pub proof fn lemma_option_hidden_settings_round_trip(
    s: Seq<u8>,
    at: int,
    next: int,
    value: Option<HiddenSettingsView>,
)
    requires
        option_hidden_settings_encodable(value),
        holds(s, at, next, option_hidden_settings_bytes(value)),
    ensures
        option_hidden_settings_at(s, at) == (value, next),
{
    reveal(option_hidden_settings_at);
    match value {
        Some(inner) => {
            lemma_option_round_trip(s, at, next, true, hidden_settings_bytes(inner));
            lemma_hidden_settings_round_trip(s, at + 1, next, inner);
        },
        None => {
            lemma_option_round_trip(s, at, next, false, Seq::empty());
        },
    }
}

/// Where an optional hidden settings record is read, its encoding lies.
pub proof fn lemma_option_hidden_settings_canonical(s: Seq<u8>, at: int)
    requires
        option_hidden_settings_at(s, at).1 >= 0,
    ensures
        option_hidden_settings_encodable(option_hidden_settings_at(s, at).0),
        holds(
            s,
            at,
            option_hidden_settings_at(s, at).1,
            option_hidden_settings_bytes(option_hidden_settings_at(s, at).0),
        ),
{
    reveal(option_hidden_settings_at);
    let next = option_hidden_settings_at(s, at).1;
    if bool_at(s, at).0 {
        let inner = hidden_settings_at(s, at + 1).0;
        lemma_hidden_settings_canonical(s, at + 1);
        lemma_option_canonical(s, at, next, hidden_settings_bytes(inner));
    } else {
        lemma_option_canonical(s, at, next, Seq::empty());
    }
}

/// An optional hidden settings record as contracts speak of it.
pub open spec fn hidden_settings_view(value: Option<HiddenSettings>) -> Option<HiddenSettingsView> {
    match value {
        Some(inner) => Some(inner@),
        None => None,
    }
}

/// Reads an optional hidden settings record.
pub fn read_option_hidden_settings(data: &[u8], at: usize) -> (got: Option<
    (Option<HiddenSettings>, usize),
>)
    ensures
        match got {
            Some((value, next)) => option_hidden_settings_at(data@, at as int) == (
                hidden_settings_view(value),
                next as int,
            ),
            None => option_hidden_settings_at(data@, at as int).1 < 0,
        },
{
    proof {
        reveal(option_hidden_settings_at);
    }
    let (present, start) = read_bool(data, at)?;
    if present {
        let (inner, next) = read_hidden_settings(data, start)?;
        Some((Some(inner), next))
    } else {
        Some((None, start))
    }
}

// ---------------------------------------------------------------------------
// WhitelistMintSettings
// ---------------------------------------------------------------------------

/// The index of a whitelist mint mode in its encoding.
pub open spec fn whitelist_mint_mode_index(value: WhitelistMintMode) -> u8 {
    match value {
        WhitelistMintMode::BurnEveryTime => 0,
        WhitelistMintMode::NeverBurn => 1,
    }
}

/// The whitelist mint mode that an index names.
pub open spec fn whitelist_mint_mode_of(index: u8) -> WhitelistMintMode {
    if index == 0 {
        WhitelistMintMode::BurnEveryTime
    } else {
        WhitelistMintMode::NeverBurn
    }
}

/// The encoding of a whitelist mint mode: the index of the variant.
pub open spec fn whitelist_mint_mode_bytes(value: WhitelistMintMode) -> Seq<u8> {
    variant_bytes(whitelist_mint_mode_index(value))
}

/// The whitelist mint mode at an offset.
pub open spec fn whitelist_mint_mode_at(s: Seq<u8>, at: int) -> (WhitelistMintMode, int) {
    (whitelist_mint_mode_of(variant_at(s, at, 2).0), variant_at(s, at, 2).1)
}

/// Reads a whitelist mint mode.
pub fn read_whitelist_mint_mode(data: &[u8], at: usize) -> (got: Option<(WhitelistMintMode, usize)>)
    ensures
        reads(got, whitelist_mint_mode_at(data@, at as int)),
{
    let (index, next) = read_variant(data, at, 2)?;
    let value = if index == 0 {
        WhitelistMintMode::BurnEveryTime
    } else {
        WhitelistMintMode::NeverBurn
    };
    Some((value, next))
}

/// A whitelist mint mode is read back from where its encoding lies.
pub proof fn lemma_whitelist_mint_mode_round_trip(
    s: Seq<u8>,
    at: int,
    next: int,
    value: WhitelistMintMode,
)
    requires
        holds(s, at, next, whitelist_mint_mode_bytes(value)),
    ensures
        whitelist_mint_mode_at(s, at) == (value, next),
{
    lemma_variant_round_trip(s, at, next, whitelist_mint_mode_index(value), 2);
}

/// Where a whitelist mint mode is read, its encoding lies.
pub proof fn lemma_whitelist_mint_mode_canonical(s: Seq<u8>, at: int)
    requires
        whitelist_mint_mode_at(s, at).1 >= 0,
    ensures
        holds(
            s,
            at,
            whitelist_mint_mode_at(s, at).1,
            whitelist_mint_mode_bytes(whitelist_mint_mode_at(s, at).0),
        ),
{
    lemma_variant_canonical(s, at, 2);
}

/// The encoding of a whitelist settings record: its fields in order.
#[verifier::opaque]
pub open spec fn whitelist_mint_settings_bytes(value: WhitelistMintSettings) -> Seq<u8> {
    whitelist_mint_mode_bytes(value.mode)
        + pubkey_bytes(value.mint)
        + bool_bytes(value.presale)
        + option_u64_bytes(value.discount_price)
}

/// The whitelist settings record at an offset.
#[verifier::opaque]
pub open spec fn whitelist_mint_settings_at(s: Seq<u8>, at: int) -> (WhitelistMintSettings, int) {
    let (mode, at1) = step(at, whitelist_mint_mode_at(s, at));
    let (mint, at2) = step(at1, pubkey_at(s, at1));
    let (presale, at3) = step(at2, bool_at(s, at2));
    let (discount_price, at4) = step(at3, option_u64_at(s, at3));
    (WhitelistMintSettings { mode, mint, presale, discount_price }, at4)
}

/// Reads a whitelist settings record.
pub fn read_whitelist_mint_settings(
    data: &[u8],
    at: usize,
) -> (got: Option<(WhitelistMintSettings, usize)>)
    ensures
        reads(got, whitelist_mint_settings_at(data@, at as int)),
{
    proof {
        reveal(whitelist_mint_settings_at);
    }
    let (mode, at1) = read_whitelist_mint_mode(data, at)?;
    let (mint, at2) = read_pubkey(data, at1)?;
    let (presale, at3) = read_bool(data, at2)?;
    let (discount_price, at4) = read_option_u64(data, at3)?;
    Some((WhitelistMintSettings { mode, mint, presale, discount_price }, at4))
}

/// A whitelist settings record is read back from where its encoding lies.
pub proof fn lemma_whitelist_mint_settings_round_trip(
    s: Seq<u8>,
    at: int,
    next: int,
    value: WhitelistMintSettings,
)
    requires
        holds(s, at, next, whitelist_mint_settings_bytes(value)),
    ensures
        whitelist_mint_settings_at(s, at) == (value, next),
{
    reveal(whitelist_mint_settings_at);
    reveal(whitelist_mint_settings_bytes);
    let b1 = whitelist_mint_mode_bytes(value.mode);
    let b2 = pubkey_bytes(value.mint);
    let b3 = bool_bytes(value.presale);
    let b4 = option_u64_bytes(value.discount_price);
    let h2 = b1 + b2;
    let h3 = h2 + b3;
    let q1 = at + b1.len();
    let q2 = q1 + b2.len();
    let q3 = q2 + b3.len();
    lemma_holds_split(s, at, next, h3, b4);
    lemma_holds_split(s, at, q3, h2, b3);
    lemma_holds_split(s, at, q2, b1, b2);
    lemma_whitelist_mint_mode_round_trip(s, at, q1, value.mode);
    lemma_pubkey_round_trip(s, q1, q2, value.mint);
    lemma_bool_round_trip(s, q2, q3, value.presale);
    lemma_option_u64_round_trip(s, q3, next, value.discount_price);
}

/// Where a whitelist settings record is read, its encoding lies.
pub proof fn lemma_whitelist_mint_settings_canonical(s: Seq<u8>, at: int)
    requires
        whitelist_mint_settings_at(s, at).1 >= 0,
    ensures
        holds(
            s,
            at,
            whitelist_mint_settings_at(s, at).1,
            whitelist_mint_settings_bytes(whitelist_mint_settings_at(s, at).0),
        ),
{
    reveal(whitelist_mint_settings_at);
    reveal(whitelist_mint_settings_bytes);
    let (mode, at1) = step(at, whitelist_mint_mode_at(s, at));
    let (mint, at2) = step(at1, pubkey_at(s, at1));
    let (presale, at3) = step(at2, bool_at(s, at2));
    let (discount_price, at4) = step(at3, option_u64_at(s, at3));
    assert(at3 >= 0);
    assert(at2 >= 0);
    assert(at1 >= 0);
    lemma_whitelist_mint_mode_canonical(s, at);
    lemma_pubkey_canonical(s, at1);
    lemma_bool_canonical(s, at2);
    lemma_option_u64_canonical(s, at3);
    let b1 = whitelist_mint_mode_bytes(mode);
    let b2 = pubkey_bytes(mint);
    let b3 = bool_bytes(presale);
    let b4 = option_u64_bytes(discount_price);
    let h2 = b1 + b2;
    let h3 = h2 + b3;
    lemma_holds_join(s, at, at1, at2, b1, b2);
    lemma_holds_join(s, at, at2, at3, h2, b3);
    lemma_holds_join(s, at, at3, at4, h3, b4);
}

/// The encoding of an optional whitelist settings record.
pub open spec fn option_whitelist_mint_settings_bytes(value: Option<WhitelistMintSettings>) -> Seq<u8> {
    match value {
        Some(inner) => option_bytes(true, whitelist_mint_settings_bytes(inner)),
        None => option_bytes(false, Seq::empty()),
    }
}

/// The optional whitelist settings record at an offset.
#[verifier::opaque]
pub open spec fn option_whitelist_mint_settings_at(s: Seq<u8>, at: int) -> (Option<WhitelistMintSettings>, int) {
    optional(bool_at(s, at), whitelist_mint_settings_at(s, bool_at(s, at).1))
}

/// Reads an optional whitelist settings record.
pub fn read_option_whitelist_mint_settings(
    data: &[u8],
    at: usize,
) -> (got: Option<(Option<WhitelistMintSettings>, usize)>)
    ensures
        reads(got, option_whitelist_mint_settings_at(data@, at as int)),
{
    proof {
        reveal(option_whitelist_mint_settings_at);
    }
    let (present, start) = read_bool(data, at)?;
    if present {
        let (inner, next) = read_whitelist_mint_settings(data, start)?;
        Some((Some(inner), next))
    } else {
        Some((None, start))
    }
}

/// An optional whitelist settings record is read back from where its encoding lies.
pub proof fn lemma_option_whitelist_mint_settings_round_trip(
    s: Seq<u8>,
    at: int,
    next: int,
    value: Option<WhitelistMintSettings>,
)
    requires
        holds(s, at, next, option_whitelist_mint_settings_bytes(value)),
    ensures
        option_whitelist_mint_settings_at(s, at) == (value, next),
{
    reveal(option_whitelist_mint_settings_at);
    match value {
        Some(inner) => {
            lemma_option_round_trip(s, at, next, true, whitelist_mint_settings_bytes(inner));
            lemma_whitelist_mint_settings_round_trip(s, at + 1, next, inner);
        },
        None => {
            lemma_option_round_trip(s, at, next, false, Seq::empty());
        },
    }
}

/// Where an optional whitelist settings record is read, its encoding lies.
pub proof fn lemma_option_whitelist_mint_settings_canonical(s: Seq<u8>, at: int)
    requires
        option_whitelist_mint_settings_at(s, at).1 >= 0,
    ensures
        holds(
            s,
            at,
            option_whitelist_mint_settings_at(s, at).1,
            option_whitelist_mint_settings_bytes(option_whitelist_mint_settings_at(s, at).0),
        ),
{
    reveal(option_whitelist_mint_settings_at);
    let next = option_whitelist_mint_settings_at(s, at).1;
    if bool_at(s, at).0 {
        let inner = whitelist_mint_settings_at(s, at + 1).0;
        lemma_whitelist_mint_settings_canonical(s, at + 1);
        lemma_option_canonical(s, at, next, whitelist_mint_settings_bytes(inner));
    } else {
        lemma_option_canonical(s, at, next, Seq::empty());
    }
}

// ---------------------------------------------------------------------------
// GatekeeperConfig
// ---------------------------------------------------------------------------

/// The encoding of a gatekeeper record: its fields in order.
#[verifier::opaque]
pub open spec fn gatekeeper_config_bytes(value: GatekeeperConfig) -> Seq<u8> {
    pubkey_bytes(value.gatekeeper_network)
        + bool_bytes(value.expire_on_use)
}

/// The gatekeeper record at an offset.
#[verifier::opaque]
pub open spec fn gatekeeper_config_at(s: Seq<u8>, at: int) -> (GatekeeperConfig, int) {
    let (gatekeeper_network, at1) = step(at, pubkey_at(s, at));
    let (expire_on_use, at2) = step(at1, bool_at(s, at1));
    (GatekeeperConfig { gatekeeper_network, expire_on_use }, at2)
}

/// Reads a gatekeeper record.
pub fn read_gatekeeper_config(data: &[u8], at: usize) -> (got: Option<(GatekeeperConfig, usize)>)
    ensures
        reads(got, gatekeeper_config_at(data@, at as int)),
{
    proof {
        reveal(gatekeeper_config_at);
    }
    let (gatekeeper_network, at1) = read_pubkey(data, at)?;
    let (expire_on_use, at2) = read_bool(data, at1)?;
    Some((GatekeeperConfig { gatekeeper_network, expire_on_use }, at2))
}

/// A gatekeeper record is read back from where its encoding lies.
pub proof fn lemma_gatekeeper_config_round_trip(
    s: Seq<u8>,
    at: int,
    next: int,
    value: GatekeeperConfig,
)
    requires
        holds(s, at, next, gatekeeper_config_bytes(value)),
    ensures
        gatekeeper_config_at(s, at) == (value, next),
{
    reveal(gatekeeper_config_at);
    reveal(gatekeeper_config_bytes);
    let b1 = pubkey_bytes(value.gatekeeper_network);
    let b2 = bool_bytes(value.expire_on_use);
    let q1 = at + b1.len();
    lemma_holds_split(s, at, next, b1, b2);
    lemma_pubkey_round_trip(s, at, q1, value.gatekeeper_network);
    lemma_bool_round_trip(s, q1, next, value.expire_on_use);
}

/// Where a gatekeeper record is read, its encoding lies.
pub proof fn lemma_gatekeeper_config_canonical(s: Seq<u8>, at: int)
    requires
        gatekeeper_config_at(s, at).1 >= 0,
    ensures
        holds(
            s,
            at,
            gatekeeper_config_at(s, at).1,
            gatekeeper_config_bytes(gatekeeper_config_at(s, at).0),
        ),
{
    reveal(gatekeeper_config_at);
    reveal(gatekeeper_config_bytes);
    let (gatekeeper_network, at1) = step(at, pubkey_at(s, at));
    let (expire_on_use, at2) = step(at1, bool_at(s, at1));
    assert(at1 >= 0);
    lemma_pubkey_canonical(s, at);
    lemma_bool_canonical(s, at1);
    let b1 = pubkey_bytes(gatekeeper_network);
    let b2 = bool_bytes(expire_on_use);
    lemma_holds_join(s, at, at1, at2, b1, b2);
}

/// The encoding of an optional gatekeeper record.
pub open spec fn option_gatekeeper_config_bytes(value: Option<GatekeeperConfig>) -> Seq<u8> {
    match value {
        Some(inner) => option_bytes(true, gatekeeper_config_bytes(inner)),
        None => option_bytes(false, Seq::empty()),
    }
}

/// The optional gatekeeper record at an offset.
#[verifier::opaque]
pub open spec fn option_gatekeeper_config_at(s: Seq<u8>, at: int) -> (Option<GatekeeperConfig>, int) {
    optional(bool_at(s, at), gatekeeper_config_at(s, bool_at(s, at).1))
}

/// Reads an optional gatekeeper record.
pub fn read_option_gatekeeper_config(
    data: &[u8],
    at: usize,
) -> (got: Option<(Option<GatekeeperConfig>, usize)>)
    ensures
        reads(got, option_gatekeeper_config_at(data@, at as int)),
{
    proof {
        reveal(option_gatekeeper_config_at);
    }
    let (present, start) = read_bool(data, at)?;
    if present {
        let (inner, next) = read_gatekeeper_config(data, start)?;
        Some((Some(inner), next))
    } else {
        Some((None, start))
    }
}

/// An optional gatekeeper record is read back from where its encoding lies.
pub proof fn lemma_option_gatekeeper_config_round_trip(
    s: Seq<u8>,
    at: int,
    next: int,
    value: Option<GatekeeperConfig>,
)
    requires
        holds(s, at, next, option_gatekeeper_config_bytes(value)),
    ensures
        option_gatekeeper_config_at(s, at) == (value, next),
{
    reveal(option_gatekeeper_config_at);
    match value {
        Some(inner) => {
            lemma_option_round_trip(s, at, next, true, gatekeeper_config_bytes(inner));
            lemma_gatekeeper_config_round_trip(s, at + 1, next, inner);
        },
        None => {
            lemma_option_round_trip(s, at, next, false, Seq::empty());
        },
    }
}

/// Where an optional gatekeeper record is read, its encoding lies.
pub proof fn lemma_option_gatekeeper_config_canonical(s: Seq<u8>, at: int)
    requires
        option_gatekeeper_config_at(s, at).1 >= 0,
    ensures
        holds(
            s,
            at,
            option_gatekeeper_config_at(s, at).1,
            option_gatekeeper_config_bytes(option_gatekeeper_config_at(s, at).0),
        ),
{
    reveal(option_gatekeeper_config_at);
    let next = option_gatekeeper_config_at(s, at).1;
    if bool_at(s, at).0 {
        let inner = gatekeeper_config_at(s, at + 1).0;
        lemma_gatekeeper_config_canonical(s, at + 1);
        lemma_option_canonical(s, at, next, gatekeeper_config_bytes(inner));
    } else {
        lemma_option_canonical(s, at, next, Seq::empty());
    }
}

// ---------------------------------------------------------------------------
// CandyMachineData
// ---------------------------------------------------------------------------

/// The settings of a candy machine as contracts speak of it: strings as their characters, lists as sequences.
pub struct CandyMachineDataView {
    pub uuid: Seq<char>,
    pub price: u64,
    pub symbol: Seq<char>,
    pub seller_fee_basis_points: u16,
    pub max_supply: u64,
    pub is_mutable: bool,
    pub retain_authority: bool,
    pub go_live_date: Option<i64>,
    pub end_settings: Option<EndSettings>,
    pub creators: Seq<Creator>,
    pub hidden_settings: Option<HiddenSettingsView>,
    pub whitelist_mint_settings: Option<WhitelistMintSettings>,
    pub items_available: u64,
    pub gatekeeper: Option<GatekeeperConfig>,
}

impl View for CandyMachineData {
    type V = CandyMachineDataView;

    open spec fn view(&self) -> CandyMachineDataView {
        CandyMachineDataView {
            uuid: self.uuid@,
            price: self.price,
            symbol: self.symbol@,
            seller_fee_basis_points: self.seller_fee_basis_points,
            max_supply: self.max_supply,
            is_mutable: self.is_mutable,
            retain_authority: self.retain_authority,
            go_live_date: self.go_live_date,
            end_settings: self.end_settings,
            creators: self.creators@,
            hidden_settings: hidden_settings_view(self.hidden_settings),
            whitelist_mint_settings: self.whitelist_mint_settings,
            items_available: self.items_available,
            gatekeeper: self.gatekeeper,
        }
    }
}

/// A settings record can be encoded when each of its fields can be.
pub open spec fn candy_machine_data_encodable(value: CandyMachineDataView) -> bool {
    &&& string_encodable(value.uuid)
    &&& string_encodable(value.symbol)
    &&& creator_list_encodable(value.creators)
    &&& option_hidden_settings_encodable(value.hidden_settings)
}

/// The encoding of a settings record: its fields in order.
#[verifier::opaque]
pub open spec fn candy_machine_data_bytes(value: CandyMachineDataView) -> Seq<u8> {
    string_bytes(value.uuid)
        + u64_bytes(value.price)
        + string_bytes(value.symbol)
        + u16_bytes(value.seller_fee_basis_points)
        + u64_bytes(value.max_supply)
        + bool_bytes(value.is_mutable)
        + bool_bytes(value.retain_authority)
        + option_i64_bytes(value.go_live_date)
        + option_end_settings_bytes(value.end_settings)
        + creator_list_bytes(value.creators)
        + option_hidden_settings_bytes(value.hidden_settings)
        + option_whitelist_mint_settings_bytes(value.whitelist_mint_settings)
        + u64_bytes(value.items_available)
        + option_gatekeeper_config_bytes(value.gatekeeper)
}

/// The settings record at an offset.
#[verifier::opaque]
pub open spec fn candy_machine_data_at(s: Seq<u8>, at: int) -> (CandyMachineDataView, int) {
    let (uuid, at1) = step(at, string_at(s, at));
    let (price, at2) = step(at1, u64_at(s, at1));
    let (symbol, at3) = step(at2, string_at(s, at2));
    let (seller_fee_basis_points, at4) = step(at3, u16_at(s, at3));
    let (max_supply, at5) = step(at4, u64_at(s, at4));
    let (is_mutable, at6) = step(at5, bool_at(s, at5));
    let (retain_authority, at7) = step(at6, bool_at(s, at6));
    let (go_live_date, at8) = step(at7, option_i64_at(s, at7));
    let (end_settings, at9) = step(at8, option_end_settings_at(s, at8));
    let (creators, at10) = step(at9, creator_list_at(s, at9));
    let (hidden_settings, at11) = step(at10, option_hidden_settings_at(s, at10));
    let (whitelist_mint_settings, at12) = step(at11, option_whitelist_mint_settings_at(s, at11));
    let (items_available, at13) = step(at12, u64_at(s, at12));
    let (gatekeeper, at14) = step(at13, option_gatekeeper_config_at(s, at13));
    (
        CandyMachineDataView {
            uuid,
            price,
            symbol,
            seller_fee_basis_points,
            max_supply,
            is_mutable,
            retain_authority,
            go_live_date,
            end_settings,
            creators,
            hidden_settings,
            whitelist_mint_settings,
            items_available,
            gatekeeper,
        },
        at14,
    )
}

/// Reads a settings record.
pub fn read_candy_machine_data(data: &[u8], at: usize) -> (got: Option<(CandyMachineData, usize)>)
    ensures
        reads_view(got, candy_machine_data_at(data@, at as int)),
{
    proof {
        reveal(candy_machine_data_at);
    }
    let (uuid, at1) = read_string(data, at)?;
    let (price, at2) = read_u64(data, at1)?;
    let (symbol, at3) = read_string(data, at2)?;
    let (seller_fee_basis_points, at4) = read_u16(data, at3)?;
    let (max_supply, at5) = read_u64(data, at4)?;
    let (is_mutable, at6) = read_bool(data, at5)?;
    let (retain_authority, at7) = read_bool(data, at6)?;
    let (go_live_date, at8) = read_option_i64(data, at7)?;
    let (end_settings, at9) = read_option_end_settings(data, at8)?;
    let (creators, at10) = read_creator_list(data, at9)?;
    let (hidden_settings, at11) = read_option_hidden_settings(data, at10)?;
    let (whitelist_mint_settings, at12) = read_option_whitelist_mint_settings(data, at11)?;
    let (items_available, at13) = read_u64(data, at12)?;
    let (gatekeeper, at14) = read_option_gatekeeper_config(data, at13)?;
    Some((
        CandyMachineData {
            uuid,
            price,
            symbol,
            seller_fee_basis_points,
            max_supply,
            is_mutable,
            retain_authority,
            go_live_date,
            end_settings,
            creators,
            hidden_settings,
            whitelist_mint_settings,
            items_available,
            gatekeeper,
        },
        at14,
    ))
}

/// A settings record is read back from where its encoding lies.
pub proof fn lemma_candy_machine_data_round_trip(
    s: Seq<u8>,
    at: int,
    next: int,
    value: CandyMachineDataView,
)
    requires
        candy_machine_data_encodable(value),
        holds(s, at, next, candy_machine_data_bytes(value)),
    ensures
        candy_machine_data_at(s, at) == (value, next),
{
    reveal(candy_machine_data_at);
    reveal(candy_machine_data_bytes);
    let b1 = string_bytes(value.uuid);
    let b2 = u64_bytes(value.price);
    let b3 = string_bytes(value.symbol);
    let b4 = u16_bytes(value.seller_fee_basis_points);
    let b5 = u64_bytes(value.max_supply);
    let b6 = bool_bytes(value.is_mutable);
    let b7 = bool_bytes(value.retain_authority);
    let b8 = option_i64_bytes(value.go_live_date);
    let b9 = option_end_settings_bytes(value.end_settings);
    let b10 = creator_list_bytes(value.creators);
    let b11 = option_hidden_settings_bytes(value.hidden_settings);
    let b12 = option_whitelist_mint_settings_bytes(value.whitelist_mint_settings);
    let b13 = u64_bytes(value.items_available);
    let b14 = option_gatekeeper_config_bytes(value.gatekeeper);
    let h2 = b1 + b2;
    let h3 = h2 + b3;
    let h4 = h3 + b4;
    let h5 = h4 + b5;
    let h6 = h5 + b6;
    let h7 = h6 + b7;
    let h8 = h7 + b8;
    let h9 = h8 + b9;
    let h10 = h9 + b10;
    let h11 = h10 + b11;
    let h12 = h11 + b12;
    let h13 = h12 + b13;
    let q1 = at + b1.len();
    let q2 = q1 + b2.len();
    let q3 = q2 + b3.len();
    let q4 = q3 + b4.len();
    let q5 = q4 + b5.len();
    let q6 = q5 + b6.len();
    let q7 = q6 + b7.len();
    let q8 = q7 + b8.len();
    let q9 = q8 + b9.len();
    let q10 = q9 + b10.len();
    let q11 = q10 + b11.len();
    let q12 = q11 + b12.len();
    let q13 = q12 + b13.len();
    lemma_holds_split(s, at, next, h13, b14);
    lemma_holds_split(s, at, q13, h12, b13);
    lemma_holds_split(s, at, q12, h11, b12);
    lemma_holds_split(s, at, q11, h10, b11);
    lemma_holds_split(s, at, q10, h9, b10);
    lemma_holds_split(s, at, q9, h8, b9);
    lemma_holds_split(s, at, q8, h7, b8);
    lemma_holds_split(s, at, q7, h6, b7);
    lemma_holds_split(s, at, q6, h5, b6);
    lemma_holds_split(s, at, q5, h4, b5);
    lemma_holds_split(s, at, q4, h3, b4);
    lemma_holds_split(s, at, q3, h2, b3);
    lemma_holds_split(s, at, q2, b1, b2);
    lemma_string_round_trip(s, at, q1, value.uuid);
    lemma_u64_round_trip(s, q1, q2, value.price);
    lemma_string_round_trip(s, q2, q3, value.symbol);
    lemma_u16_round_trip(s, q3, q4, value.seller_fee_basis_points);
    lemma_u64_round_trip(s, q4, q5, value.max_supply);
    lemma_bool_round_trip(s, q5, q6, value.is_mutable);
    lemma_bool_round_trip(s, q6, q7, value.retain_authority);
    lemma_option_i64_round_trip(s, q7, q8, value.go_live_date);
    lemma_option_end_settings_round_trip(s, q8, q9, value.end_settings);
    lemma_creator_list_round_trip(s, q9, q10, value.creators);
    lemma_option_hidden_settings_round_trip(s, q10, q11, value.hidden_settings);
    lemma_option_whitelist_mint_settings_round_trip(s, q11, q12, value.whitelist_mint_settings);
    lemma_u64_round_trip(s, q12, q13, value.items_available);
    lemma_option_gatekeeper_config_round_trip(s, q13, next, value.gatekeeper);
}

/// Where a settings record is read, its encoding lies.
pub proof fn lemma_candy_machine_data_canonical(s: Seq<u8>, at: int)
    requires
        candy_machine_data_at(s, at).1 >= 0,
    ensures
        candy_machine_data_encodable(candy_machine_data_at(s, at).0),
        holds(
            s,
            at,
            candy_machine_data_at(s, at).1,
            candy_machine_data_bytes(candy_machine_data_at(s, at).0),
        ),
{
    reveal(candy_machine_data_at);
    reveal(candy_machine_data_bytes);
    let (uuid, at1) = step(at, string_at(s, at));
    let (price, at2) = step(at1, u64_at(s, at1));
    let (symbol, at3) = step(at2, string_at(s, at2));
    let (seller_fee_basis_points, at4) = step(at3, u16_at(s, at3));
    let (max_supply, at5) = step(at4, u64_at(s, at4));
    let (is_mutable, at6) = step(at5, bool_at(s, at5));
    let (retain_authority, at7) = step(at6, bool_at(s, at6));
    let (go_live_date, at8) = step(at7, option_i64_at(s, at7));
    let (end_settings, at9) = step(at8, option_end_settings_at(s, at8));
    let (creators, at10) = step(at9, creator_list_at(s, at9));
    let (hidden_settings, at11) = step(at10, option_hidden_settings_at(s, at10));
    let (whitelist_mint_settings, at12) = step(at11, option_whitelist_mint_settings_at(s, at11));
    let (items_available, at13) = step(at12, u64_at(s, at12));
    let (gatekeeper, at14) = step(at13, option_gatekeeper_config_at(s, at13));
    assert(at13 >= 0);
    assert(at12 >= 0);
    assert(at11 >= 0);
    assert(at10 >= 0);
    assert(at9 >= 0);
    assert(at8 >= 0);
    assert(at7 >= 0);
    assert(at6 >= 0);
    assert(at5 >= 0);
    assert(at4 >= 0);
    assert(at3 >= 0);
    assert(at2 >= 0);
    assert(at1 >= 0);
    lemma_string_canonical(s, at);
    lemma_u64_canonical(s, at1);
    lemma_string_canonical(s, at2);
    lemma_u16_canonical(s, at3);
    lemma_u64_canonical(s, at4);
    lemma_bool_canonical(s, at5);
    lemma_bool_canonical(s, at6);
    lemma_option_i64_canonical(s, at7);
    lemma_option_end_settings_canonical(s, at8);
    lemma_creator_list_canonical(s, at9);
    lemma_option_hidden_settings_canonical(s, at10);
    lemma_option_whitelist_mint_settings_canonical(s, at11);
    lemma_u64_canonical(s, at12);
    lemma_option_gatekeeper_config_canonical(s, at13);
    let b1 = string_bytes(uuid);
    let b2 = u64_bytes(price);
    let b3 = string_bytes(symbol);
    let b4 = u16_bytes(seller_fee_basis_points);
    let b5 = u64_bytes(max_supply);
    let b6 = bool_bytes(is_mutable);
    let b7 = bool_bytes(retain_authority);
    let b8 = option_i64_bytes(go_live_date);
    let b9 = option_end_settings_bytes(end_settings);
    let b10 = creator_list_bytes(creators);
    let b11 = option_hidden_settings_bytes(hidden_settings);
    let b12 = option_whitelist_mint_settings_bytes(whitelist_mint_settings);
    let b13 = u64_bytes(items_available);
    let b14 = option_gatekeeper_config_bytes(gatekeeper);
    let h2 = b1 + b2;
    let h3 = h2 + b3;
    let h4 = h3 + b4;
    let h5 = h4 + b5;
    let h6 = h5 + b6;
    let h7 = h6 + b7;
    let h8 = h7 + b8;
    let h9 = h8 + b9;
    let h10 = h9 + b10;
    let h11 = h10 + b11;
    let h12 = h11 + b12;
    let h13 = h12 + b13;
    lemma_holds_join(s, at, at1, at2, b1, b2);
    lemma_holds_join(s, at, at2, at3, h2, b3);
    lemma_holds_join(s, at, at3, at4, h3, b4);
    lemma_holds_join(s, at, at4, at5, h4, b5);
    lemma_holds_join(s, at, at5, at6, h5, b6);
    lemma_holds_join(s, at, at6, at7, h6, b7);
    lemma_holds_join(s, at, at7, at8, h7, b8);
    lemma_holds_join(s, at, at8, at9, h8, b9);
    lemma_holds_join(s, at, at9, at10, h9, b10);
    lemma_holds_join(s, at, at10, at11, h10, b11);
    lemma_holds_join(s, at, at11, at12, h11, b12);
    lemma_holds_join(s, at, at12, at13, h12, b13);
    lemma_holds_join(s, at, at13, at14, h13, b14);
}

// ---------------------------------------------------------------------------
// CandyMachine
// ---------------------------------------------------------------------------

/// A candy machine as contracts speak of it: strings as their characters, lists as sequences.
pub struct CandyMachineView {
    pub authority: Pubkey,
    pub wallet: Pubkey,
    pub token_mint: Option<Pubkey>,
    pub items_redeemed: u64,
    pub data: CandyMachineDataView,
}

impl View for CandyMachine {
    type V = CandyMachineView;

    open spec fn view(&self) -> CandyMachineView {
        CandyMachineView {
            authority: self.authority,
            wallet: self.wallet,
            token_mint: self.token_mint,
            items_redeemed: self.items_redeemed,
            data: self.data@,
        }
    }
}

/// A candy machine can be encoded when each of its fields can be.
pub open spec fn candy_machine_encodable(value: CandyMachineView) -> bool {
    &&& candy_machine_data_encodable(value.data)
}

/// The encoding of a candy machine: its fields in order.
#[verifier::opaque]
pub open spec fn candy_machine_bytes(value: CandyMachineView) -> Seq<u8> {
    pubkey_bytes(value.authority)
        + pubkey_bytes(value.wallet)
        + option_pubkey_bytes(value.token_mint)
        + u64_bytes(value.items_redeemed)
        + candy_machine_data_bytes(value.data)
}

/// The candy machine at an offset.
#[verifier::opaque]
pub open spec fn candy_machine_at(s: Seq<u8>, at: int) -> (CandyMachineView, int) {
    let (authority, at1) = step(at, pubkey_at(s, at));
    let (wallet, at2) = step(at1, pubkey_at(s, at1));
    let (token_mint, at3) = step(at2, option_pubkey_at(s, at2));
    let (items_redeemed, at4) = step(at3, u64_at(s, at3));
    let (data, at5) = step(at4, candy_machine_data_at(s, at4));
    (CandyMachineView { authority, wallet, token_mint, items_redeemed, data }, at5)
}

/// Reads a candy machine.
pub fn read_candy_machine(data: &[u8], at: usize) -> (got: Option<(CandyMachine, usize)>)
    ensures
        reads_view(got, candy_machine_at(data@, at as int)),
{
    proof {
        reveal(candy_machine_at);
    }
    let (authority, at1) = read_pubkey(data, at)?;
    let (wallet, at2) = read_pubkey(data, at1)?;
    let (token_mint, at3) = read_option_pubkey(data, at2)?;
    let (items_redeemed, at4) = read_u64(data, at3)?;
    let (data, at5) = read_candy_machine_data(data, at4)?;
    Some((CandyMachine { authority, wallet, token_mint, items_redeemed, data }, at5))
}

/// A candy machine is read back from where its encoding lies.
pub proof fn lemma_candy_machine_round_trip(s: Seq<u8>, at: int, next: int, value: CandyMachineView)
    requires
        candy_machine_encodable(value),
        holds(s, at, next, candy_machine_bytes(value)),
    ensures
        candy_machine_at(s, at) == (value, next),
{
    reveal(candy_machine_at);
    reveal(candy_machine_bytes);
    let b1 = pubkey_bytes(value.authority);
    let b2 = pubkey_bytes(value.wallet);
    let b3 = option_pubkey_bytes(value.token_mint);
    let b4 = u64_bytes(value.items_redeemed);
    let b5 = candy_machine_data_bytes(value.data);
    let h2 = b1 + b2;
    let h3 = h2 + b3;
    let h4 = h3 + b4;
    let q1 = at + b1.len();
    let q2 = q1 + b2.len();
    let q3 = q2 + b3.len();
    let q4 = q3 + b4.len();
    lemma_holds_split(s, at, next, h4, b5);
    lemma_holds_split(s, at, q4, h3, b4);
    lemma_holds_split(s, at, q3, h2, b3);
    lemma_holds_split(s, at, q2, b1, b2);
    lemma_pubkey_round_trip(s, at, q1, value.authority);
    lemma_pubkey_round_trip(s, q1, q2, value.wallet);
    lemma_option_pubkey_round_trip(s, q2, q3, value.token_mint);
    lemma_u64_round_trip(s, q3, q4, value.items_redeemed);
    lemma_candy_machine_data_round_trip(s, q4, next, value.data);
}

/// Where a candy machine is read, its encoding lies.
pub proof fn lemma_candy_machine_canonical(s: Seq<u8>, at: int)
    requires
        candy_machine_at(s, at).1 >= 0,
    ensures
        candy_machine_encodable(candy_machine_at(s, at).0),
        holds(s, at, candy_machine_at(s, at).1, candy_machine_bytes(candy_machine_at(s, at).0)),
{
    reveal(candy_machine_at);
    reveal(candy_machine_bytes);
    let (authority, at1) = step(at, pubkey_at(s, at));
    let (wallet, at2) = step(at1, pubkey_at(s, at1));
    let (token_mint, at3) = step(at2, option_pubkey_at(s, at2));
    let (items_redeemed, at4) = step(at3, u64_at(s, at3));
    let (data, at5) = step(at4, candy_machine_data_at(s, at4));
    assert(at4 >= 0);
    assert(at3 >= 0);
    assert(at2 >= 0);
    assert(at1 >= 0);
    lemma_pubkey_canonical(s, at);
    lemma_pubkey_canonical(s, at1);
    lemma_option_pubkey_canonical(s, at2);
    lemma_u64_canonical(s, at3);
    lemma_candy_machine_data_canonical(s, at4);
    let b1 = pubkey_bytes(authority);
    let b2 = pubkey_bytes(wallet);
    let b3 = option_pubkey_bytes(token_mint);
    let b4 = u64_bytes(items_redeemed);
    let b5 = candy_machine_data_bytes(data);
    let h2 = b1 + b2;
    let h3 = h2 + b3;
    let h4 = h3 + b4;
    lemma_holds_join(s, at, at1, at2, b1, b2);
    lemma_holds_join(s, at, at2, at3, h2, b3);
    lemma_holds_join(s, at, at3, at4, h3, b4);
    lemma_holds_join(s, at, at4, at5, h4, b5);
}

// ---------------------------------------------------------------------------
// CollectionPDA
// ---------------------------------------------------------------------------

/// The encoding of a collection record: its fields in order.
#[verifier::opaque]
pub open spec fn collection_pda_bytes(value: CollectionPDA) -> Seq<u8> {
    pubkey_bytes(value.mint)
        + pubkey_bytes(value.candy_machine)
}

/// The collection record at an offset.
#[verifier::opaque]
pub open spec fn collection_pda_at(s: Seq<u8>, at: int) -> (CollectionPDA, int) {
    let (mint, at1) = step(at, pubkey_at(s, at));
    let (candy_machine, at2) = step(at1, pubkey_at(s, at1));
    (CollectionPDA { mint, candy_machine }, at2)
}

/// Reads a collection record.
pub fn read_collection_pda(data: &[u8], at: usize) -> (got: Option<(CollectionPDA, usize)>)
    ensures
        reads(got, collection_pda_at(data@, at as int)),
{
    proof {
        reveal(collection_pda_at);
    }
    let (mint, at1) = read_pubkey(data, at)?;
    let (candy_machine, at2) = read_pubkey(data, at1)?;
    Some((CollectionPDA { mint, candy_machine }, at2))
}

/// A collection record is read back from where its encoding lies.
pub proof fn lemma_collection_pda_round_trip(s: Seq<u8>, at: int, next: int, value: CollectionPDA)
    requires
        holds(s, at, next, collection_pda_bytes(value)),
    ensures
        collection_pda_at(s, at) == (value, next),
{
    reveal(collection_pda_at);
    reveal(collection_pda_bytes);
    let b1 = pubkey_bytes(value.mint);
    let b2 = pubkey_bytes(value.candy_machine);
    let q1 = at + b1.len();
    lemma_holds_split(s, at, next, b1, b2);
    lemma_pubkey_round_trip(s, at, q1, value.mint);
    lemma_pubkey_round_trip(s, q1, next, value.candy_machine);
}

/// Where a collection record is read, its encoding lies.
pub proof fn lemma_collection_pda_canonical(s: Seq<u8>, at: int)
    requires
        collection_pda_at(s, at).1 >= 0,
    ensures
        holds(s, at, collection_pda_at(s, at).1, collection_pda_bytes(collection_pda_at(s, at).0)),
{
    reveal(collection_pda_at);
    reveal(collection_pda_bytes);
    let (mint, at1) = step(at, pubkey_at(s, at));
    let (candy_machine, at2) = step(at1, pubkey_at(s, at1));
    assert(at1 >= 0);
    lemma_pubkey_canonical(s, at);
    lemma_pubkey_canonical(s, at1);
    let b1 = pubkey_bytes(mint);
    let b2 = pubkey_bytes(candy_machine);
    lemma_holds_join(s, at, at1, at2, b1, b2);
}

// ---------------------------------------------------------------------------
// FreezePDA
// ---------------------------------------------------------------------------

/// The encoding of a freeze record: its fields in order.
#[verifier::opaque]
pub open spec fn freeze_pda_bytes(value: FreezePDA) -> Seq<u8> {
    pubkey_bytes(value.candy_machine)
        + bool_bytes(value.allow_thaw)
        + u64_bytes(value.frozen_count)
        + option_i64_bytes(value.mint_start)
        + i64_bytes(value.freeze_time)
        + u64_bytes(value.freeze_fee)
}

/// The freeze record at an offset.
#[verifier::opaque]
pub open spec fn freeze_pda_at(s: Seq<u8>, at: int) -> (FreezePDA, int) {
    let (candy_machine, at1) = step(at, pubkey_at(s, at));
    let (allow_thaw, at2) = step(at1, bool_at(s, at1));
    let (frozen_count, at3) = step(at2, u64_at(s, at2));
    let (mint_start, at4) = step(at3, option_i64_at(s, at3));
    let (freeze_time, at5) = step(at4, i64_at(s, at4));
    let (freeze_fee, at6) = step(at5, u64_at(s, at5));
    (
        FreezePDA {
            candy_machine,
            allow_thaw,
            frozen_count,
            mint_start,
            freeze_time,
            freeze_fee,
        },
        at6,
    )
}

/// Reads a freeze record.
pub fn read_freeze_pda(data: &[u8], at: usize) -> (got: Option<(FreezePDA, usize)>)
    ensures
        reads(got, freeze_pda_at(data@, at as int)),
{
    proof {
        reveal(freeze_pda_at);
    }
    let (candy_machine, at1) = read_pubkey(data, at)?;
    let (allow_thaw, at2) = read_bool(data, at1)?;
    let (frozen_count, at3) = read_u64(data, at2)?;
    let (mint_start, at4) = read_option_i64(data, at3)?;
    let (freeze_time, at5) = read_i64(data, at4)?;
    let (freeze_fee, at6) = read_u64(data, at5)?;
    Some((
        FreezePDA {
            candy_machine,
            allow_thaw,
            frozen_count,
            mint_start,
            freeze_time,
            freeze_fee,
        },
        at6,
    ))
}

/// A freeze record is read back from where its encoding lies.
pub proof fn lemma_freeze_pda_round_trip(s: Seq<u8>, at: int, next: int, value: FreezePDA)
    requires
        holds(s, at, next, freeze_pda_bytes(value)),
    ensures
        freeze_pda_at(s, at) == (value, next),
{
    reveal(freeze_pda_at);
    reveal(freeze_pda_bytes);
    let b1 = pubkey_bytes(value.candy_machine);
    let b2 = bool_bytes(value.allow_thaw);
    let b3 = u64_bytes(value.frozen_count);
    let b4 = option_i64_bytes(value.mint_start);
    let b5 = i64_bytes(value.freeze_time);
    let b6 = u64_bytes(value.freeze_fee);
    let h2 = b1 + b2;
    let h3 = h2 + b3;
    let h4 = h3 + b4;
    let h5 = h4 + b5;
    let q1 = at + b1.len();
    let q2 = q1 + b2.len();
    let q3 = q2 + b3.len();
    let q4 = q3 + b4.len();
    let q5 = q4 + b5.len();
    lemma_holds_split(s, at, next, h5, b6);
    lemma_holds_split(s, at, q5, h4, b5);
    lemma_holds_split(s, at, q4, h3, b4);
    lemma_holds_split(s, at, q3, h2, b3);
    lemma_holds_split(s, at, q2, b1, b2);
    lemma_pubkey_round_trip(s, at, q1, value.candy_machine);
    lemma_bool_round_trip(s, q1, q2, value.allow_thaw);
    lemma_u64_round_trip(s, q2, q3, value.frozen_count);
    lemma_option_i64_round_trip(s, q3, q4, value.mint_start);
    lemma_i64_round_trip(s, q4, q5, value.freeze_time);
    lemma_u64_round_trip(s, q5, next, value.freeze_fee);
}

/// Where a freeze record is read, its encoding lies.
pub proof fn lemma_freeze_pda_canonical(s: Seq<u8>, at: int)
    requires
        freeze_pda_at(s, at).1 >= 0,
    ensures
        holds(s, at, freeze_pda_at(s, at).1, freeze_pda_bytes(freeze_pda_at(s, at).0)),
{
    reveal(freeze_pda_at);
    reveal(freeze_pda_bytes);
    let (candy_machine, at1) = step(at, pubkey_at(s, at));
    let (allow_thaw, at2) = step(at1, bool_at(s, at1));
    let (frozen_count, at3) = step(at2, u64_at(s, at2));
    let (mint_start, at4) = step(at3, option_i64_at(s, at3));
    let (freeze_time, at5) = step(at4, i64_at(s, at4));
    let (freeze_fee, at6) = step(at5, u64_at(s, at5));
    assert(at5 >= 0);
    assert(at4 >= 0);
    assert(at3 >= 0);
    assert(at2 >= 0);
    assert(at1 >= 0);
    lemma_pubkey_canonical(s, at);
    lemma_bool_canonical(s, at1);
    lemma_u64_canonical(s, at2);
    lemma_option_i64_canonical(s, at3);
    lemma_i64_canonical(s, at4);
    lemma_u64_canonical(s, at5);
    let b1 = pubkey_bytes(candy_machine);
    let b2 = bool_bytes(allow_thaw);
    let b3 = u64_bytes(frozen_count);
    let b4 = option_i64_bytes(mint_start);
    let b5 = i64_bytes(freeze_time);
    let b6 = u64_bytes(freeze_fee);
    let h2 = b1 + b2;
    let h3 = h2 + b3;
    let h4 = h3 + b4;
    let h5 = h4 + b5;
    lemma_holds_join(s, at, at1, at2, b1, b2);
    lemma_holds_join(s, at, at2, at3, h2, b3);
    lemma_holds_join(s, at, at3, at4, h3, b4);
    lemma_holds_join(s, at, at4, at5, h4, b5);
    lemma_holds_join(s, at, at5, at6, h5, b6);
}

} // verus!
