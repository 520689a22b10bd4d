//! Writers of the records of the candy machine program.
//!
//! Each writer appends to a buffer exactly the bytes that the record's
//! `*_bytes` names, so what a reader of the same record reads from them is
//! the record again. A record with a string or a list too long for its 32-bit
//! count has no encoding: `can_encode_*` tells, and the writers ask for it.
use vstd::prelude::*;
use crate::codec::{
    bool_bytes, bytes32_bytes, can_encode_string, i64_bytes, lemma_written, option_i64_bytes,
    option_pubkey_bytes, option_u64_bytes, pubkey_bytes, string_bytes, u16_bytes, u64_bytes,
    u8_bytes, write_bool, write_bytes32, write_i64, write_option_i64, write_option_pubkey,
    write_option_u64, write_pubkey, write_string, write_u16, write_u32, write_u64, write_u8,
    write_variant,
};
use crate::programs::candy_machine::state::{
    candy_machine_bytes, candy_machine_data_bytes, candy_machine_data_encodable,
    candy_machine_encodable, collection_pda_bytes, creator_bytes, creator_list_bytes,
    creator_list_encodable, creators_bytes, end_setting_type_bytes, end_settings_bytes,
    freeze_pda_bytes, gatekeeper_config_bytes, hidden_settings_bytes, hidden_settings_encodable,
    hidden_settings_view, option_end_settings_bytes, option_gatekeeper_config_bytes,
    option_hidden_settings_bytes, option_hidden_settings_encodable,
    option_whitelist_mint_settings_bytes, whitelist_mint_mode_bytes,
    whitelist_mint_settings_bytes, CandyMachine, CandyMachineData, CollectionPDA, Creator,
    EndSettingType, EndSettings, FreezePDA, GatekeeperConfig, HiddenSettings, WhitelistMintMode,
    WhitelistMintSettings,
};

verus! {

// ---------------------------------------------------------------------------
// EndSettings
// ---------------------------------------------------------------------------

/// Writes an end setting type.
pub fn write_end_setting_type(value: &EndSettingType, out: &mut Vec<u8>)
    ensures
        final(out)@ == old(out)@ + end_setting_type_bytes(*value),
{
    let index: u8 = match value {
        EndSettingType::Date => 0,
        EndSettingType::Amount => 1,
    };
    write_variant(index, out);
}

/// Writes an end settings record.
pub fn write_end_settings(value: &EndSettings, out: &mut Vec<u8>)
    ensures
        final(out)@ == old(out)@ + end_settings_bytes(*value),
{
    proof {
        reveal(end_settings_bytes);
    }
    let ghost before = out@;
    let ghost b1 = end_setting_type_bytes(value.end_setting_type);
    let ghost b2 = u64_bytes(value.number);
    write_end_setting_type(&value.end_setting_type, out);
    write_u64(value.number, out);
    proof {
        lemma_written(before, b1, b2);
    }
}

/// Writes an optional end settings record.
pub fn write_option_end_settings(value: &Option<EndSettings>, out: &mut Vec<u8>)
    ensures
        final(out)@ == old(out)@ + option_end_settings_bytes(*value),
{
    let ghost before = out@;
    match value {
        Some(inner) => {
            write_bool(true, out);
            write_end_settings(inner, out);
            proof {
                lemma_written(before, bool_bytes(true), end_settings_bytes(*inner));
            }
        },
        None => {
            write_bool(false, out);
        },
    }
}

// ---------------------------------------------------------------------------
// Creator and the list of creators
// ---------------------------------------------------------------------------

/// Writes a creator.
pub fn write_creator(value: &Creator, out: &mut Vec<u8>)
    ensures
        final(out)@ == old(out)@ + creator_bytes(*value),
{
    proof {
        reveal(creator_bytes);
    }
    let ghost before = out@;
    let ghost b1 = pubkey_bytes(value.address);
    let ghost b2 = bool_bytes(value.verified);
    let ghost b3 = u8_bytes(value.share);
    let ghost h2 = b1 + b2;
    write_pubkey(&value.address, out);
    write_bool(value.verified, out);
    proof {
        lemma_written(before, b1, b2);
    }
    write_u8(value.share, out);
    proof {
        lemma_written(before, h2, b3);
    }
}

/// Tells whether a list of creators can be encoded.
pub fn can_encode_creator_list(value: &Vec<Creator>) -> (can: bool)
    ensures
        can == creator_list_encodable(value@),
{
    value.len() <= 0xffff_ffff
}

/// Writes a list of creators.
pub fn write_creator_list(value: &Vec<Creator>, out: &mut Vec<u8>)
    requires
        creator_list_encodable(value@),
    ensures
        final(out)@ == old(out)@ + creator_list_bytes(value@),
{
    write_u32(value.len() as u32, out);
    let ghost start = out@;
    let mut i: usize = 0;
    while i < value.len()
        invariant
            i <= value.len(),
            out@ == start + creators_bytes(value@.take(i as int)),
        decreases value.len() - i,
    {
        write_creator(&value[i], out);
        proof {
            let longer = value@.take(i + 1);
            assert(longer.drop_last() =~= value@.take(i as int));
            assert(longer.last() == value@[i as int]);
            assert(out@ =~= start + creators_bytes(longer));
        }
        i = i + 1;
    }
    assert(value@.take(i as int) =~= value@);
    assert(out@ =~= old(out)@ + creator_list_bytes(value@));
}

// ---------------------------------------------------------------------------
// HiddenSettings
// ---------------------------------------------------------------------------

/// Tells whether a hidden settings record can be encoded.
pub fn can_encode_hidden_settings(value: &HiddenSettings) -> (can: bool)
    ensures
        can == hidden_settings_encodable(value@),
{
    can_encode_string(&value.name)
        && can_encode_string(&value.uri)
}

/// Writes a hidden settings record.
pub fn write_hidden_settings(value: &HiddenSettings, out: &mut Vec<u8>)
    requires
        hidden_settings_encodable(value@),
    ensures
        final(out)@ == old(out)@ + hidden_settings_bytes(value@),
{
    proof {
        reveal(hidden_settings_bytes);
    }
    let ghost before = out@;
    let ghost b1 = string_bytes(value@.name);
    let ghost b2 = string_bytes(value@.uri);
    let ghost b3 = bytes32_bytes(value@.hash);
    let ghost h2 = b1 + b2;
    write_string(&value.name, out);
    write_string(&value.uri, out);
    proof {
        lemma_written(before, b1, b2);
    }
    write_bytes32(&value.hash, out);
    proof {
        lemma_written(before, h2, b3);
    }
}

/// Tells whether an optional hidden settings record can be encoded.
pub fn can_encode_option_hidden_settings(value: &Option<HiddenSettings>) -> (can: bool)
    ensures
        can == option_hidden_settings_encodable(hidden_settings_view(*value)),
{
    match value {
        Some(inner) => can_encode_hidden_settings(inner),
        None => true,
    }
}

/// Writes an optional hidden settings record.
pub fn write_option_hidden_settings(value: &Option<HiddenSettings>, out: &mut Vec<u8>)
    requires
        option_hidden_settings_encodable(hidden_settings_view(*value)),
    ensures
        final(out)@ == old(out)@ + option_hidden_settings_bytes(hidden_settings_view(*value)),
{
    let ghost before = out@;
    match value {
        Some(inner) => {
            write_bool(true, out);
            write_hidden_settings(inner, out);
            proof {
                lemma_written(before, bool_bytes(true), hidden_settings_bytes(inner@));
            }
        },
        None => {
            write_bool(false, out);
        },
    }
}

// ---------------------------------------------------------------------------
// WhitelistMintSettings
// ---------------------------------------------------------------------------

/// Writes a whitelist mint mode.
pub fn write_whitelist_mint_mode(value: &WhitelistMintMode, out: &mut Vec<u8>)
    ensures
        final(out)@ == old(out)@ + whitelist_mint_mode_bytes(*value),
{
    let index: u8 = match value {
        WhitelistMintMode::BurnEveryTime => 0,
        WhitelistMintMode::NeverBurn => 1,
    };
    write_variant(index, out);
}

/// Writes a whitelist settings record.
pub fn write_whitelist_mint_settings(value: &WhitelistMintSettings, out: &mut Vec<u8>)
    ensures
        final(out)@ == old(out)@ + whitelist_mint_settings_bytes(*value),
{
    proof {
        reveal(whitelist_mint_settings_bytes);
    }
    let ghost before = out@;
    let ghost b1 = whitelist_mint_mode_bytes(value.mode);
    let ghost b2 = pubkey_bytes(value.mint);
    let ghost b3 = bool_bytes(value.presale);
    let ghost b4 = option_u64_bytes(value.discount_price);
    let ghost h2 = b1 + b2;
    let ghost h3 = h2 + b3;
    write_whitelist_mint_mode(&value.mode, out);
    write_pubkey(&value.mint, out);
    proof {
        lemma_written(before, b1, b2);
    }
    write_bool(value.presale, out);
    proof {
        lemma_written(before, h2, b3);
    }
    write_option_u64(&value.discount_price, out);
    proof {
        lemma_written(before, h3, b4);
    }
}

/// Writes an optional whitelist settings record.
pub fn write_option_whitelist_mint_settings(value: &Option<WhitelistMintSettings>, out: &mut Vec<u8>)
    ensures
        final(out)@ == old(out)@ + option_whitelist_mint_settings_bytes(*value),
{
    let ghost before = out@;
    match value {
        Some(inner) => {
            write_bool(true, out);
            write_whitelist_mint_settings(inner, out);
            proof {
                lemma_written(before, bool_bytes(true), whitelist_mint_settings_bytes(*inner));
            }
        },
        None => {
            write_bool(false, out);
        },
    }
}

// ---------------------------------------------------------------------------
// GatekeeperConfig
// ---------------------------------------------------------------------------

/// Writes a gatekeeper record.
pub fn write_gatekeeper_config(value: &GatekeeperConfig, out: &mut Vec<u8>)
    ensures
        final(out)@ == old(out)@ + gatekeeper_config_bytes(*value),
{
    proof {
        reveal(gatekeeper_config_bytes);
    }
    let ghost before = out@;
    let ghost b1 = pubkey_bytes(value.gatekeeper_network);
    let ghost b2 = bool_bytes(value.expire_on_use);
    write_pubkey(&value.gatekeeper_network, out);
    write_bool(value.expire_on_use, out);
    proof {
        lemma_written(before, b1, b2);
    }
}

/// Writes an optional gatekeeper record.
pub fn write_option_gatekeeper_config(value: &Option<GatekeeperConfig>, out: &mut Vec<u8>)
    ensures
        final(out)@ == old(out)@ + option_gatekeeper_config_bytes(*value),
{
    let ghost before = out@;
    match value {
        Some(inner) => {
            write_bool(true, out);
            write_gatekeeper_config(inner, out);
            proof {
                lemma_written(before, bool_bytes(true), gatekeeper_config_bytes(*inner));
            }
        },
        None => {
            write_bool(false, out);
        },
    }
}

// ---------------------------------------------------------------------------
// CandyMachineData
// ---------------------------------------------------------------------------

/// Tells whether a settings record can be encoded.
pub fn can_encode_candy_machine_data(value: &CandyMachineData) -> (can: bool)
    ensures
        can == candy_machine_data_encodable(value@),
{
    can_encode_string(&value.uuid)
        && can_encode_string(&value.symbol)
        && can_encode_creator_list(&value.creators)
        && can_encode_option_hidden_settings(&value.hidden_settings)
}

/// Writes a settings record.
pub fn write_candy_machine_data(value: &CandyMachineData, out: &mut Vec<u8>)
    requires
        candy_machine_data_encodable(value@),
    ensures
        final(out)@ == old(out)@ + candy_machine_data_bytes(value@),
{
    proof {
        reveal(candy_machine_data_bytes);
    }
    let ghost before = out@;
    let ghost b1 = string_bytes(value@.uuid);
    let ghost b2 = u64_bytes(value@.price);
    let ghost b3 = string_bytes(value@.symbol);
    let ghost b4 = u16_bytes(value@.seller_fee_basis_points);
    let ghost b5 = u64_bytes(value@.max_supply);
    let ghost b6 = bool_bytes(value@.is_mutable);
    let ghost b7 = bool_bytes(value@.retain_authority);
    let ghost b8 = option_i64_bytes(value@.go_live_date);
    let ghost b9 = option_end_settings_bytes(value@.end_settings);
    let ghost b10 = creator_list_bytes(value@.creators);
    let ghost b11 = option_hidden_settings_bytes(value@.hidden_settings);
    let ghost b12 = option_whitelist_mint_settings_bytes(value@.whitelist_mint_settings);
    let ghost b13 = u64_bytes(value@.items_available);
    let ghost b14 = option_gatekeeper_config_bytes(value@.gatekeeper);
    let ghost h2 = b1 + b2;
    let ghost h3 = h2 + b3;
    let ghost h4 = h3 + b4;
    let ghost h5 = h4 + b5;
    let ghost h6 = h5 + b6;
    let ghost h7 = h6 + b7;
    let ghost h8 = h7 + b8;
    let ghost h9 = h8 + b9;
    let ghost h10 = h9 + b10;
    let ghost h11 = h10 + b11;
    let ghost h12 = h11 + b12;
    let ghost h13 = h12 + b13;
    write_string(&value.uuid, out);
    write_u64(value.price, out);
    proof {
        lemma_written(before, b1, b2);
    }
    write_string(&value.symbol, out);
    proof {
        lemma_written(before, h2, b3);
    }
    write_u16(value.seller_fee_basis_points, out);
    proof {
        lemma_written(before, h3, b4);
    }
    write_u64(value.max_supply, out);
    proof {
        lemma_written(before, h4, b5);
    }
    write_bool(value.is_mutable, out);
    proof {
        lemma_written(before, h5, b6);
    }
    write_bool(value.retain_authority, out);
    proof {
        lemma_written(before, h6, b7);
    }
    write_option_i64(&value.go_live_date, out);
    proof {
        lemma_written(before, h7, b8);
    }
    write_option_end_settings(&value.end_settings, out);
    proof {
        lemma_written(before, h8, b9);
    }
    write_creator_list(&value.creators, out);
    proof {
        lemma_written(before, h9, b10);
    }
    write_option_hidden_settings(&value.hidden_settings, out);
    proof {
        lemma_written(before, h10, b11);
    }
    write_option_whitelist_mint_settings(&value.whitelist_mint_settings, out);
    proof {
        lemma_written(before, h11, b12);
    }
    write_u64(value.items_available, out);
    proof {
        lemma_written(before, h12, b13);
    }
    write_option_gatekeeper_config(&value.gatekeeper, out);
    proof {
        lemma_written(before, h13, b14);
    }
}

// ---------------------------------------------------------------------------
// CandyMachine
// ---------------------------------------------------------------------------

/// Tells whether a candy machine can be encoded.
pub fn can_encode_candy_machine(value: &CandyMachine) -> (can: bool)
    ensures
        can == candy_machine_encodable(value@),
{
    can_encode_candy_machine_data(&value.data)
}

/// Writes a candy machine.
pub fn write_candy_machine(value: &CandyMachine, out: &mut Vec<u8>)
    requires
        candy_machine_encodable(value@),
    ensures
        final(out)@ == old(out)@ + candy_machine_bytes(value@),
{
    proof {
        reveal(candy_machine_bytes);
    }
    let ghost before = out@;
    let ghost b1 = pubkey_bytes(value@.authority);
    let ghost b2 = pubkey_bytes(value@.wallet);
    let ghost b3 = option_pubkey_bytes(value@.token_mint);
    let ghost b4 = u64_bytes(value@.items_redeemed);
    let ghost b5 = candy_machine_data_bytes(value@.data);
    let ghost h2 = b1 + b2;
    let ghost h3 = h2 + b3;
    let ghost h4 = h3 + b4;
    write_pubkey(&value.authority, out);
    write_pubkey(&value.wallet, out);
    proof {
        lemma_written(before, b1, b2);
    }
    write_option_pubkey(&value.token_mint, out);
    proof {
        lemma_written(before, h2, b3);
    }
    write_u64(value.items_redeemed, out);
    proof {
        lemma_written(before, h3, b4);
    }
    write_candy_machine_data(&value.data, out);
    proof {
        lemma_written(before, h4, b5);
    }
}

// ---------------------------------------------------------------------------
// CollectionPDA
// ---------------------------------------------------------------------------

/// Writes a collection record.
pub fn write_collection_pda(value: &CollectionPDA, out: &mut Vec<u8>)
    ensures
        final(out)@ == old(out)@ + collection_pda_bytes(*value),
{
    proof {
        reveal(collection_pda_bytes);
    }
    let ghost before = out@;
    let ghost b1 = pubkey_bytes(value.mint);
    let ghost b2 = pubkey_bytes(value.candy_machine);
    write_pubkey(&value.mint, out);
    write_pubkey(&value.candy_machine, out);
    proof {
        lemma_written(before, b1, b2);
    }
}

// ---------------------------------------------------------------------------
// FreezePDA
// ---------------------------------------------------------------------------

/// Writes a freeze record.
pub fn write_freeze_pda(value: &FreezePDA, out: &mut Vec<u8>)
    ensures
        final(out)@ == old(out)@ + freeze_pda_bytes(*value),
{
    proof {
        reveal(freeze_pda_bytes);
    }
    let ghost before = out@;
    let ghost b1 = pubkey_bytes(value.candy_machine);
    let ghost b2 = bool_bytes(value.allow_thaw);
    let ghost b3 = u64_bytes(value.frozen_count);
    let ghost b4 = option_i64_bytes(value.mint_start);
    let ghost b5 = i64_bytes(value.freeze_time);
    let ghost b6 = u64_bytes(value.freeze_fee);
    let ghost h2 = b1 + b2;
    let ghost h3 = h2 + b3;
    let ghost h4 = h3 + b4;
    let ghost h5 = h4 + b5;
    write_pubkey(&value.candy_machine, out);
    write_bool(value.allow_thaw, out);
    proof {
        lemma_written(before, b1, b2);
    }
    write_u64(value.frozen_count, out);
    proof {
        lemma_written(before, h2, b3);
    }
    write_option_i64(&value.mint_start, out);
    proof {
        lemma_written(before, h3, b4);
    }
    write_i64(value.freeze_time, out);
    proof {
        lemma_written(before, h4, b5);
    }
    write_u64(value.freeze_fee, out);
    proof {
        lemma_written(before, h5, b6);
    }
}

} // verus!
