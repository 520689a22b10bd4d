//! The sequential field encoding of record bodies.
//!
//! Fields follow each other in declaration order with no padding. Integers are
//! little-endian and of fixed width, a vector or a string starts with its
//! 32-bit element count, an optional field with a presence byte, an enum with
//! the 8-bit index of its variant.
//!
//! For each kind of field this module has four things: `*_bytes`, the
//! encoding of a value; `*_at`, the value that a byte sequence holds at an
//! offset, paired with the offset just behind it; `read_*`, the reader; and
//! `write_*`, the writer. A reading that fails has a negative offset behind
//! it, and every reading from a negative offset fails, so the fields of a
//! record can be read one after another and the last offset tells whether all
//! of them were there.
//!
//! Two facts tie the readings to the encodings, for every kind of field:
//! `lemma_*_round_trip`, a value is read back from where its encoding lies,
//! and `lemma_*_canonical`, where a value is read, its encoding lies. So no
//! two values share an encoding, and no bytes but the encoding hold a value.
//!
//! The `*_at` of everything wider than a byte are opaque, so that a proof
//! about a record does not unfold the layout of each of its fields. Write
//! `reveal(u64_at)` to compute with one.
use vstd::prelude::*;
use vstd::slice::slice_subrange;
use vstd::slice::slice_to_vec;
use vstd::utf8::decode_utf8;
use vstd::utf8::encode_utf8;
use vstd::utf8::valid_utf8;
use crate::pubkey::Pubkey;

verus! {

/// The offset behind a reading that failed.
pub open spec fn stop() -> int {
    -1
}

/// A field of `width` bytes lies inside `s` at offset `at`.
pub open spec fn fits(s: Seq<u8>, at: int, width: int) -> bool {
    0 <= at && at + width <= s.len()
}

/// The bytes of `s` from `at` on begin with `field`.
#[verifier::opaque]
pub open spec fn lies_at(s: Seq<u8>, at: int, field: Seq<u8>) -> bool {
    s.subrange(at, at + field.len()) == field
}

/// The bytes of `s` from `at` up to `next` are exactly `field`.
pub open spec fn holds(s: Seq<u8>, at: int, next: int, field: Seq<u8>) -> bool {
    &&& 0 <= at
    &&& next == at + field.len()
    &&& next <= s.len()
    &&& lies_at(s, at, field)
}

/// A reading that was made at `at`. Behind a reading that failed, it fails too.
pub open spec fn step<T>(at: int, held: (T, int)) -> (T, int) {
    (
        held.0,
        if at < 0 {
            stop()
        } else {
            held.1
        },
    )
}

/// An executable reading agrees with the value and offset that the bytes hold.
pub open spec fn reads<T>(got: Option<(T, usize)>, held: (T, int)) -> bool {
    match got {
        Some((value, next)) => held == (value, next as int),
        None => held.1 < 0,
    }
}

/// As `reads`, for a value that contracts speak of by its view.
pub open spec fn reads_view<T: View>(got: Option<(T, usize)>, held: (T::V, int)) -> bool {
    match got {
        Some((value, next)) => held == (value@, next as int),
        None => held.1 < 0,
    }
}

/// Where two fields lie one behind the other, each lies at its own place.
pub proof fn lemma_holds_split(s: Seq<u8>, at: int, next: int, first: Seq<u8>, second: Seq<u8>)
    requires
        holds(s, at, next, first + second),
    ensures
        holds(s, at, at + first.len(), first),
        holds(s, at + first.len(), next, second),
{
    reveal(lies_at);
    let mid = at + first.len();
    let whole = first + second;
    assert(s.subrange(at, mid) =~= first) by {
        assert forall|i: int| 0 <= i < first.len() implies s.subrange(at, mid)[i] == first[i] by {
            assert(s.subrange(at, next)[i] == whole[i]);
        }
    }
    assert(s.subrange(mid, next) =~= second) by {
        assert forall|i: int| 0 <= i < second.len() implies s.subrange(mid, next)[i]
            == second[i] by {
            assert(s.subrange(at, next)[i + first.len()] == whole[i + first.len()]);
        }
    }
}

/// Two fields that lie one behind the other lie there as one.
pub proof fn lemma_holds_join(
    s: Seq<u8>,
    at: int,
    mid: int,
    next: int,
    first: Seq<u8>,
    second: Seq<u8>,
)
    requires
        holds(s, at, mid, first),
        holds(s, mid, next, second),
    ensures
        holds(s, at, next, first + second),
{
    reveal(lies_at);
    let whole = first + second;
    assert(s.subrange(at, next) =~= whole) by {
        assert forall|i: int| 0 <= i < whole.len() implies s.subrange(at, next)[i] == whole[i] by {
            if i < first.len() {
                assert(s.subrange(at, mid)[i] == first[i]);
            } else {
                assert(s.subrange(mid, next)[i - first.len()] == second[i - first.len()]);
            }
        }
    }
}

/// A byte sequence holds itself from its start to its end.
pub proof fn lemma_holds_whole(field: Seq<u8>)
    ensures
        holds(field, 0, field.len() as int, field),
{
    reveal(lies_at);
    assert(field.subrange(0, field.len() as int) =~= field);
}

/// A stretch of a sequence holds its own bytes.
pub proof fn lemma_holds_stretch(s: Seq<u8>, at: int, next: int)
    requires
        0 <= at <= next <= s.len(),
    ensures
        holds(s, at, next, s.subrange(at, next)),
{
    reveal(lies_at);
}

/// What a sequence holds from its start to its end is the sequence.
pub proof fn lemma_holds_all(s: Seq<u8>, field: Seq<u8>)
    requires
        holds(s, 0, s.len() as int, field),
    ensures
        s == field,
{
    reveal(lies_at);
    assert(s.subrange(0, s.len() as int) =~= s);
}

/// Nothing lies at every offset inside the bytes.
pub proof fn lemma_holds_nothing(s: Seq<u8>, at: int)
    requires
        0 <= at <= s.len(),
    ensures
        holds(s, at, at, Seq::empty()),
{
    reveal(lies_at);
    assert(s.subrange(at, at) =~= Seq::<u8>::empty());
}

/// What lies in a sequence lies at the same distance behind a prefix put before it.
pub proof fn lemma_holds_behind(prefix: Seq<u8>, s: Seq<u8>, at: int, next: int, field: Seq<u8>)
    requires
        holds(s, at, next, field),
    ensures
        holds(prefix + s, prefix.len() + at, prefix.len() + next, field),
{
    reveal(lies_at);
    let whole = prefix + s;
    let shift = prefix.len() as int;
    assert(whole.subrange(shift + at, shift + next) =~= field) by {
        assert forall|i: int| 0 <= i < field.len() implies whole.subrange(shift + at, shift + next)[i]
            == field[i] by {
            assert(s.subrange(at, next)[i] == field[i]);
        }
    }
}

// ---------------------------------------------------------------------------
// Unsigned and signed integers
// ---------------------------------------------------------------------------
/// The encoding of an 8-bit integer.
pub open spec fn u8_bytes(value: u8) -> Seq<u8> {
    seq![value]
}

/// The 8-bit integer at an offset.
pub open spec fn u8_at(s: Seq<u8>, at: int) -> (u8, int) {
    (
        s[at],
        if fits(s, at, 1) {
            at + 1
        } else {
            stop()
        },
    )
}

/// The encoding of a 16-bit integer: low byte first.
pub open spec fn u16_bytes(value: u16) -> Seq<u8> {
    seq![(value % 0x100) as u8, (value / 0x100) as u8]
}

/// The number that two bytes make, low byte first.
pub open spec fn le16(s: Seq<u8>, at: int) -> int {
    s[at] + 0x100 * s[at + 1]
}

/// The 16-bit integer at an offset.
#[verifier::opaque]
pub open spec fn u16_at(s: Seq<u8>, at: int) -> (u16, int) {
    (
        le16(s, at) as u16,
        if fits(s, at, 2) {
            at + 2
        } else {
            stop()
        },
    )
}

/// The encoding of a 32-bit integer: low half first.
pub open spec fn u32_bytes(value: u32) -> Seq<u8> {
    u16_bytes((value % 0x1_0000) as u16) + u16_bytes((value / 0x1_0000) as u16)
}

/// The number that four bytes make, low byte first.
pub open spec fn le32(s: Seq<u8>, at: int) -> int {
    le16(s, at) + 0x1_0000 * le16(s, at + 2)
}

/// The 32-bit integer at an offset.
#[verifier::opaque]
pub open spec fn u32_at(s: Seq<u8>, at: int) -> (u32, int) {
    (
        le32(s, at) as u32,
        if fits(s, at, 4) {
            at + 4
        } else {
            stop()
        },
    )
}

/// The encoding of a 64-bit integer: low half first.
pub open spec fn u64_bytes(value: u64) -> Seq<u8> {
    u32_bytes((value % 0x1_0000_0000) as u32) + u32_bytes((value / 0x1_0000_0000) as u32)
}

/// The number that eight bytes make, low byte first.
pub open spec fn le64(s: Seq<u8>, at: int) -> int {
    le32(s, at) + 0x1_0000_0000 * le32(s, at + 4)
}

/// The 64-bit integer at an offset.
#[verifier::opaque]
pub open spec fn u64_at(s: Seq<u8>, at: int) -> (u64, int) {
    (
        le64(s, at) as u64,
        if fits(s, at, 8) {
            at + 8
        } else {
            stop()
        },
    )
}

/// The unsigned number with the same 64 bits as a signed one.
pub open spec fn bits_of(value: i64) -> u64 {
    if value >= 0 {
        value as u64
    } else {
        (value + 0x1_0000_0000_0000_0000) as u64
    }
}

/// The signed number with the same 64 bits as an unsigned one.
pub open spec fn signed(bits: u64) -> i64 {
    if bits < 0x8000_0000_0000_0000 {
        bits as i64
    } else {
        (bits - 0x1_0000_0000_0000_0000) as i64
    }
}

/// The encoding of a signed 64-bit integer: two's complement, low byte first.
pub open spec fn i64_bytes(value: i64) -> Seq<u8> {
    u64_bytes(bits_of(value))
}

/// The signed 64-bit integer at an offset.
#[verifier::opaque]
pub open spec fn i64_at(s: Seq<u8>, at: int) -> (i64, int) {
    (signed(u64_at(s, at).0), u64_at(s, at).1)
}

/// The encoding of a truth value: one byte, 0 or 1.
pub open spec fn bool_bytes(value: bool) -> Seq<u8> {
    seq![if value { 1u8 } else { 0u8 }]
}

/// The truth value at an offset. A byte other than 0 and 1 is none.
pub open spec fn bool_at(s: Seq<u8>, at: int) -> (bool, int) {
    (
        s[at] == 1,
        if fits(s, at, 1) && s[at] <= 1 {
            at + 1
        } else {
            stop()
        },
    )
}

/// Reads an 8-bit integer.
pub fn read_u8(data: &[u8], at: usize) -> (got: Option<(u8, usize)>)
    ensures
        reads(got, u8_at(data@, at as int)),
{
    if at >= data.len() {
        return None;
    }
    Some((data[at], at + 1))
}

/// Reads a 16-bit integer.
pub fn read_u16(data: &[u8], at: usize) -> (got: Option<(u16, usize)>)
    ensures
        reads(got, u16_at(data@, at as int)),
        got is Some <==> at + 2 <= data@.len(),
        got matches Some((value, next)) ==> next == at + 2 && value == le16(data@, at as int),
{
    proof {
        reveal(u16_at);
    }
    if data.len() < 2 || at > data.len() - 2 {
        return None;
    }
    let low: u16 = data[at] as u16;
    let high: u16 = data[at + 1] as u16;
    Some((low + 0x100 * high, at + 2))
}

/// Reads a 32-bit integer.
pub fn read_u32(data: &[u8], at: usize) -> (got: Option<(u32, usize)>)
    ensures
        reads(got, u32_at(data@, at as int)),
        got is Some <==> at + 4 <= data@.len(),
        got matches Some((value, next)) ==> next == at + 4 && value == le32(data@, at as int),
{
    proof {
        reveal(u32_at);
    }
    if data.len() < 4 || at > data.len() - 4 {
        return None;
    }
    let b0: u32 = data[at] as u32;
    let b1: u32 = data[at + 1] as u32;
    let b2: u32 = data[at + 2] as u32;
    let b3: u32 = data[at + 3] as u32;
    Some((b0 + 0x100 * b1 + 0x1_0000 * (b2 + 0x100 * b3), at + 4))
}

/// Reads a 64-bit integer.
pub fn read_u64(data: &[u8], at: usize) -> (got: Option<(u64, usize)>)
    ensures
        reads(got, u64_at(data@, at as int)),
        got is Some <==> at + 8 <= data@.len(),
        got matches Some((value, next)) ==> next == at + 8 && value == le64(data@, at as int),
{
    proof {
        reveal(u64_at);
    }
    if data.len() < 8 || at > data.len() - 8 {
        return None;
    }
    let b0: u64 = data[at] as u64;
    let b1: u64 = data[at + 1] as u64;
    let b2: u64 = data[at + 2] as u64;
    let b3: u64 = data[at + 3] as u64;
    let b4: u64 = data[at + 4] as u64;
    let b5: u64 = data[at + 5] as u64;
    let b6: u64 = data[at + 6] as u64;
    let b7: u64 = data[at + 7] as u64;
    let low: u64 = b0 + 0x100 * b1 + 0x1_0000 * (b2 + 0x100 * b3);
    let high: u64 = b4 + 0x100 * b5 + 0x1_0000 * (b6 + 0x100 * b7);
    Some((low + 0x1_0000_0000 * high, at + 8))
}

/// Gives the signed number with the same 64 bits.
pub fn to_signed(bits: u64) -> (value: i64)
    ensures
        value == signed(bits),
{
    if bits < 0x8000_0000_0000_0000 {
        bits as i64
    } else {
        let rest: u64 = bits - 0x8000_0000_0000_0000;
        (rest as i64) + i64::MIN
    }
}

/// Reads a signed 64-bit integer.
pub fn read_i64(data: &[u8], at: usize) -> (got: Option<(i64, usize)>)
    ensures
        reads(got, i64_at(data@, at as int)),
        got is Some <==> at + 8 <= data@.len(),
        got matches Some((value, next)) ==> next == at + 8 && bits_of(value) == le64(
            data@,
            at as int,
        ),
{
    proof {
        reveal(i64_at);
    }
    match read_u64(data, at) {
        Some((bits, next)) => Some((to_signed(bits), next)),
        None => None,
    }
}

/// Reads a truth value.
pub fn read_bool(data: &[u8], at: usize) -> (got: Option<(bool, usize)>)
    ensures
        reads(got, bool_at(data@, at as int)),
{
    if at >= data.len() {
        return None;
    }
    let byte = data[at];
    if byte > 1 {
        return None;
    }
    Some((byte == 1, at + 1))
}

/// A number is had back from its remainder and its quotient by a base.
proof fn lemma_digits_of(value: int, base: int)
    requires
        base > 0,
    ensures
        value == value % base + base * (value / base),
{
    vstd::arithmetic::div_mod::lemma_fundamental_div_mod(value, base);
}

/// A digit and what stands above it are had back from the number that they make.
proof fn lemma_number_of(low: int, high: int, base: int)
    requires
        0 <= low < base,
    ensures
        (low + base * high) % base == low,
        (low + base * high) / base == high,
{
    assert(low + base * high == high * base + low) by (nonlinear_arith);
    vstd::arithmetic::div_mod::lemma_fundamental_div_mod_converse(
        low + base * high,
        base,
        high,
        low,
    );
}

/// A 16-bit integer is read back from where its encoding lies.
pub proof fn lemma_u16_round_trip(s: Seq<u8>, at: int, next: int, value: u16)
    requires
        holds(s, at, next, u16_bytes(value)),
    ensures
        u16_at(s, at) == (value, next),
{
    reveal(u16_at);
    reveal(lies_at);
    let field = u16_bytes(value);
    assert(s.subrange(at, next)[0] == field[0]);
    assert(s.subrange(at, next)[1] == field[1]);
    lemma_digits_of(value as int, 0x100);
}

/// Where a 16-bit integer is read, its encoding lies.
pub proof fn lemma_u16_canonical(s: Seq<u8>, at: int)
    requires
        u16_at(s, at).1 >= 0,
    ensures
        holds(s, at, u16_at(s, at).1, u16_bytes(u16_at(s, at).0)),
{
    reveal(u16_at);
    reveal(lies_at);
    lemma_number_of(s[at] as int, s[at + 1] as int, 0x100);
    assert(s.subrange(at, at + 2) =~= u16_bytes(u16_at(s, at).0));
}

/// A 32-bit integer is read back from where its encoding lies.
pub proof fn lemma_u32_round_trip(s: Seq<u8>, at: int, next: int, value: u32)
    requires
        holds(s, at, next, u32_bytes(value)),
    ensures
        u32_at(s, at) == (value, next),
{
    reveal(u16_at);
    reveal(u32_at);
    let low = (value % 0x1_0000) as u16;
    let high = (value / 0x1_0000) as u16;
    lemma_holds_split(s, at, next, u16_bytes(low), u16_bytes(high));
    lemma_u16_round_trip(s, at, at + 2, low);
    lemma_u16_round_trip(s, at + 2, next, high);
    lemma_digits_of(value as int, 0x1_0000);
}

/// Where a 32-bit integer is read, its encoding lies.
pub proof fn lemma_u32_canonical(s: Seq<u8>, at: int)
    requires
        u32_at(s, at).1 >= 0,
    ensures
        holds(s, at, u32_at(s, at).1, u32_bytes(u32_at(s, at).0)),
{
    reveal(u16_at);
    reveal(u32_at);
    let low = u16_at(s, at).0;
    let high = u16_at(s, at + 2).0;
    lemma_u16_canonical(s, at);
    lemma_u16_canonical(s, at + 2);
    lemma_number_of(low as int, high as int, 0x1_0000);
    lemma_holds_join(s, at, at + 2, at + 4, u16_bytes(low), u16_bytes(high));
}

/// A 64-bit integer is read back from where its encoding lies.
pub proof fn lemma_u64_round_trip(s: Seq<u8>, at: int, next: int, value: u64)
    requires
        holds(s, at, next, u64_bytes(value)),
    ensures
        u64_at(s, at) == (value, next),
{
    reveal(u32_at);
    reveal(u64_at);
    let low = (value % 0x1_0000_0000) as u32;
    let high = (value / 0x1_0000_0000) as u32;
    lemma_holds_split(s, at, next, u32_bytes(low), u32_bytes(high));
    lemma_u32_round_trip(s, at, at + 4, low);
    lemma_u32_round_trip(s, at + 4, next, high);
    lemma_digits_of(value as int, 0x1_0000_0000);
}

/// Where a 64-bit integer is read, its encoding lies.
pub proof fn lemma_u64_canonical(s: Seq<u8>, at: int)
    requires
        u64_at(s, at).1 >= 0,
    ensures
        holds(s, at, u64_at(s, at).1, u64_bytes(u64_at(s, at).0)),
{
    reveal(u32_at);
    reveal(u64_at);
    let low = u32_at(s, at).0;
    let high = u32_at(s, at + 4).0;
    lemma_u32_canonical(s, at);
    lemma_u32_canonical(s, at + 4);
    lemma_number_of(low as int, high as int, 0x1_0000_0000);
    lemma_holds_join(s, at, at + 4, at + 8, u32_bytes(low), u32_bytes(high));
}

/// A signed 64-bit integer is read back from where its encoding lies.
pub proof fn lemma_i64_round_trip(s: Seq<u8>, at: int, next: int, value: i64)
    requires
        holds(s, at, next, i64_bytes(value)),
    ensures
        i64_at(s, at) == (value, next),
{
    reveal(i64_at);
    lemma_u64_round_trip(s, at, next, bits_of(value));
}

/// Where a signed 64-bit integer is read, its encoding lies.
pub proof fn lemma_i64_canonical(s: Seq<u8>, at: int)
    requires
        i64_at(s, at).1 >= 0,
    ensures
        holds(s, at, i64_at(s, at).1, i64_bytes(i64_at(s, at).0)),
{
    reveal(i64_at);
    lemma_u64_canonical(s, at);
    assert(bits_of(signed(u64_at(s, at).0)) == u64_at(s, at).0);
}

/// An 8-bit integer is read back from where its encoding lies.
pub proof fn lemma_u8_round_trip(s: Seq<u8>, at: int, next: int, value: u8)
    requires
        holds(s, at, next, u8_bytes(value)),
    ensures
        u8_at(s, at) == (value, next),
{
    reveal(lies_at);
    assert(s.subrange(at, next)[0] == u8_bytes(value)[0]);
}

/// Where an 8-bit integer is read, its encoding lies.
pub proof fn lemma_u8_canonical(s: Seq<u8>, at: int)
    requires
        u8_at(s, at).1 >= 0,
    ensures
        holds(s, at, u8_at(s, at).1, u8_bytes(u8_at(s, at).0)),
{
    reveal(lies_at);
    assert(s.subrange(at, at + 1) =~= u8_bytes(u8_at(s, at).0));
}

/// A truth value is read back from where its encoding lies.
pub proof fn lemma_bool_round_trip(s: Seq<u8>, at: int, next: int, value: bool)
    requires
        holds(s, at, next, bool_bytes(value)),
    ensures
        bool_at(s, at) == (value, next),
{
    reveal(lies_at);
    assert(s.subrange(at, next)[0] == bool_bytes(value)[0]);
}

/// Where a truth value is read, its encoding lies.
pub proof fn lemma_bool_canonical(s: Seq<u8>, at: int)
    requires
        bool_at(s, at).1 >= 0,
    ensures
        holds(s, at, bool_at(s, at).1, bool_bytes(bool_at(s, at).0)),
{
    reveal(lies_at);
    assert(s.subrange(at, at + 1) =~= bool_bytes(bool_at(s, at).0));
}

// ---------------------------------------------------------------------------
// Identities and other runs of 32 bytes
// ---------------------------------------------------------------------------
/// The 32 bytes at an offset.
#[verifier::opaque]
pub open spec fn bytes32_at(s: Seq<u8>, at: int) -> ([u8; 32], int) {
    (
        [
            s[at], s[at + 1], s[at + 2], s[at + 3],
            s[at + 4], s[at + 5], s[at + 6], s[at + 7],
            s[at + 8], s[at + 9], s[at + 10], s[at + 11],
            s[at + 12], s[at + 13], s[at + 14], s[at + 15],
            s[at + 16], s[at + 17], s[at + 18], s[at + 19],
            s[at + 20], s[at + 21], s[at + 22], s[at + 23],
            s[at + 24], s[at + 25], s[at + 26], s[at + 27],
            s[at + 28], s[at + 29], s[at + 30], s[at + 31],
        ],
        if fits(s, at, 32) {
            at + 32
        } else {
            stop()
        },
    )
}

/// The encoding of a run of 32 bytes: the bytes themselves.
pub open spec fn bytes32_bytes(value: [u8; 32]) -> Seq<u8> {
    value@
}

/// The encoding of an identity: its 32 bytes.
pub open spec fn pubkey_bytes(key: Pubkey) -> Seq<u8> {
    key@
}

/// The identity at an offset.
#[verifier::opaque]
pub open spec fn pubkey_at(s: Seq<u8>, at: int) -> (Pubkey, int) {
    (Pubkey(bytes32_at(s, at).0), bytes32_at(s, at).1)
}

/// Reads 32 bytes.
pub fn read_bytes32(data: &[u8], at: usize) -> (got: Option<([u8; 32], usize)>)
    ensures
        reads(got, bytes32_at(data@, at as int)),
        got is Some <==> at + 32 <= data@.len(),
        got matches Some((bytes, next)) ==> next == at + 32 && bytes@ == data@.subrange(
            at as int,
            at + 32,
        ),
{
    proof {
        reveal(bytes32_at);
    }
    if data.len() < 32 || at > data.len() - 32 {
        return None;
    }
    let mut bytes = [0u8; 32];
    let mut i: usize = 0;
    while i < 32
        invariant
            i <= 32,
            at + 32 <= data.len(),
            forall|j: int| 0 <= j < i ==> bytes[j] == data@[at + j],
        decreases 32 - i,
    {
        bytes[i] = data[at + i];
        i = i + 1;
    }
    assert(bytes =~= bytes32_at(data@, at as int).0);
    Some((bytes, at + 32))
}

/// Reads an identity.
pub fn read_pubkey(data: &[u8], at: usize) -> (got: Option<(Pubkey, usize)>)
    ensures
        reads(got, pubkey_at(data@, at as int)),
        got is Some <==> at + 32 <= data@.len(),
        got matches Some((key, next)) ==> next == at + 32 && key@ == data@.subrange(
            at as int,
            at + 32,
        ),
{
    proof {
        reveal(pubkey_at);
    }
    match read_bytes32(data, at) {
        Some((bytes, next)) => Some((Pubkey(bytes), next)),
        None => None,
    }
}

/// A run of 32 bytes is read back from where it lies.
pub proof fn lemma_bytes32_round_trip(s: Seq<u8>, at: int, next: int, value: [u8; 32])
    requires
        holds(s, at, next, bytes32_bytes(value)),
    ensures
        bytes32_at(s, at) == (value, next),
{
    reveal(bytes32_at);
    reveal(lies_at);
    let read = bytes32_at(s, at).0;
    assert forall|i: int| 0 <= i < 32 implies read[i] == value[i] by {
        assert(s.subrange(at, next)[i] == value@[i]);
    }
    assert(read =~= value);
}

/// Where a run of 32 bytes is read, it lies.
pub proof fn lemma_bytes32_canonical(s: Seq<u8>, at: int)
    requires
        bytes32_at(s, at).1 >= 0,
    ensures
        holds(s, at, bytes32_at(s, at).1, bytes32_bytes(bytes32_at(s, at).0)),
{
    reveal(bytes32_at);
    reveal(lies_at);
    assert(s.subrange(at, at + 32) =~= bytes32_at(s, at).0@);
}

/// An identity is read back from where its encoding lies.
pub proof fn lemma_pubkey_round_trip(s: Seq<u8>, at: int, next: int, value: Pubkey)
    requires
        holds(s, at, next, pubkey_bytes(value)),
    ensures
        pubkey_at(s, at) == (value, next),
{
    reveal(pubkey_at);
    lemma_bytes32_round_trip(s, at, next, value.0);
}

/// Where an identity is read, its encoding lies.
pub proof fn lemma_pubkey_canonical(s: Seq<u8>, at: int)
    requires
        pubkey_at(s, at).1 >= 0,
    ensures
        holds(s, at, pubkey_at(s, at).1, pubkey_bytes(pubkey_at(s, at).0)),
{
    reveal(pubkey_at);
    lemma_bytes32_canonical(s, at);
}

// ---------------------------------------------------------------------------
// Strings
// ---------------------------------------------------------------------------
/// A string can be encoded when the count of its UTF-8 bytes fits in 32 bits.
pub open spec fn string_encodable(chars: Seq<char>) -> bool {
    encode_utf8(chars).len() <= u32::MAX
}

/// The encoding of a string: the count of its UTF-8 bytes, then the bytes.
pub open spec fn string_bytes(chars: Seq<char>) -> Seq<u8> {
    u32_bytes(encode_utf8(chars).len() as u32) + encode_utf8(chars)
}

/// The string at an offset. Bytes that are not UTF-8 are none.
#[verifier::opaque]
pub open spec fn string_at(s: Seq<u8>, at: int) -> (Seq<char>, int) {
    let (count, start) = u32_at(s, at);
    let end = start + count;
    if start >= 0 && end <= s.len() && valid_utf8(s.subrange(start, end)) {
        (decode_utf8(s.subrange(start, end)), end)
    } else {
        (Seq::empty(), stop())
    }
}

/// Calls `String::from_utf8`, which hands back a string that owns exactly the given
/// bytes where they are UTF-8, and an error where they are not.
#[verifier::external_body]
fn string_from_utf8(bytes: Vec<u8>) -> (text: Option<String>)
    ensures
        text is Some <==> valid_utf8(bytes@),
        text matches Some(string) ==> encode_utf8(string@) == bytes@,
{
    String::from_utf8(bytes).ok()
}

/// Reads a string.
pub fn read_string(data: &[u8], at: usize) -> (got: Option<(String, usize)>)
    ensures
        reads_view(got, string_at(data@, at as int)),
        got is Some <==> {
            &&& at + 4 <= data@.len()
            &&& at + 4 + le32(data@, at as int) <= data@.len()
            &&& valid_utf8(data@.subrange(at + 4, at + 4 + le32(data@, at as int)))
        },
        got matches Some((text, next)) ==> {
            &&& next == at + 4 + le32(data@, at as int)
            &&& encode_utf8(text@) == data@.subrange(at + 4, next as int)
        },
{
    proof {
        reveal(string_at);
        reveal(u32_at);
    }
    let (count, start) = match read_u32(data, at) {
        Some(step) => step,
        None => { return None; },
    };
    if count as usize > data.len() - start {
        return None;
    }
    let end: usize = start + count as usize;
    let bytes = slice_to_vec(slice_subrange(data, start, end));
    match string_from_utf8(bytes) {
        Some(text) => {
            proof {
                vstd::utf8::encode_utf8_decode_utf8(text@);
            }
            Some((text, end))
        },
        None => None,
    }
}

/// A string is read back from where its encoding lies.
pub proof fn lemma_string_round_trip(s: Seq<u8>, at: int, next: int, chars: Seq<char>)
    requires
        string_encodable(chars),
        holds(s, at, next, string_bytes(chars)),
    ensures
        string_at(s, at) == (chars, next),
{
    reveal(string_at);
    reveal(lies_at);
    let bytes = encode_utf8(chars);
    lemma_holds_split(s, at, next, u32_bytes(bytes.len() as u32), bytes);
    lemma_u32_round_trip(s, at, at + 4, bytes.len() as u32);
    vstd::utf8::encode_utf8_valid_utf8(chars);
    vstd::utf8::encode_utf8_decode_utf8(chars);
}

/// Where a string is read, its encoding lies, and the string can be encoded.
pub proof fn lemma_string_canonical(s: Seq<u8>, at: int)
    requires
        string_at(s, at).1 >= 0,
    ensures
        string_encodable(string_at(s, at).0),
        holds(s, at, string_at(s, at).1, string_bytes(string_at(s, at).0)),
{
    reveal(string_at);
    reveal(lies_at);
    let (count, start) = u32_at(s, at);
    let end = start + count;
    let bytes = s.subrange(start, end);
    lemma_u32_canonical(s, at);
    vstd::utf8::decode_utf8_encode_utf8(bytes);
    lemma_holds_join(s, at, start, end, u32_bytes(count), bytes);
}

// ---------------------------------------------------------------------------
// Optional fields and enum variants
// ---------------------------------------------------------------------------
/// The encoding of an optional field: the presence byte, then the field where it is present.
pub open spec fn option_bytes(present: bool, field: Seq<u8>) -> Seq<u8> {
    if present {
        bool_bytes(true) + field
    } else {
        bool_bytes(false)
    }
}

/// The optional field that a presence byte and the field read behind it make.
pub open spec fn optional<T>(presence: (bool, int), field: (T, int)) -> (Option<T>, int) {
    if presence.1 < 0 {
        (None, stop())
    } else if presence.0 {
        (Some(field.0), field.1)
    } else {
        (None, presence.1)
    }
}

/// The encoding of an enum variant without fields: its index.
pub open spec fn variant_bytes(index: u8) -> Seq<u8> {
    u8_bytes(index)
}

/// The index of an enum variant at an offset, for an enum of `count` variants.
/// An index that names no variant is none.
#[verifier::opaque]
pub open spec fn variant_at(s: Seq<u8>, at: int, count: int) -> (u8, int) {
    (
        s[at],
        if fits(s, at, 1) && s[at] < count {
            at + 1
        } else {
            stop()
        },
    )
}

/// Reads the index of an enum variant, for an enum of `count` variants.
pub fn read_variant(data: &[u8], at: usize, count: u8) -> (got: Option<(u8, usize)>)
    ensures
        reads(got, variant_at(data@, at as int, count as int)),
        got is Some <==> at < data@.len() && data@[at as int] < count,
        got matches Some((index, next)) ==> next == at + 1 && index == data@[at as int],
{
    proof {
        reveal(variant_at);
    }
    if at >= data.len() {
        return None;
    }
    let index = data[at];
    if index >= count {
        return None;
    }
    Some((index, at + 1))
}

/// Where the encoding of an optional field lies, its presence byte is read, and the
/// field lies behind that byte where it is present.
pub proof fn lemma_option_round_trip(
    s: Seq<u8>,
    at: int,
    next: int,
    present: bool,
    field: Seq<u8>,
)
    requires
        holds(s, at, next, option_bytes(present, field)),
    ensures
        bool_at(s, at) == (present, at + 1),
        present ==> holds(s, at + 1, next, field),
        !present ==> next == at + 1,
{
    if present {
        lemma_holds_split(s, at, next, bool_bytes(true), field);
        lemma_bool_round_trip(s, at, at + 1, true);
    } else {
        lemma_bool_round_trip(s, at, next, false);
    }
}

/// Where a presence byte is read, and the field lies behind it where the byte says
/// so, the encoding of the optional field lies.
pub proof fn lemma_option_canonical(s: Seq<u8>, at: int, next: int, field: Seq<u8>)
    requires
        bool_at(s, at).1 >= 0,
        bool_at(s, at).0 ==> holds(s, at + 1, next, field),
        !bool_at(s, at).0 ==> next == at + 1,
    ensures
        holds(s, at, next, option_bytes(bool_at(s, at).0, field)),
{
    lemma_bool_canonical(s, at);
    if bool_at(s, at).0 {
        lemma_holds_join(s, at, at + 1, next, bool_bytes(true), field);
    }
}

/// The index of a variant is read back from where its encoding lies.
pub proof fn lemma_variant_round_trip(s: Seq<u8>, at: int, next: int, index: u8, count: int)
    requires
        index < count,
        holds(s, at, next, variant_bytes(index)),
    ensures
        variant_at(s, at, count) == (index, next),
{
    reveal(variant_at);
    reveal(lies_at);
    assert(s.subrange(at, next)[0] == variant_bytes(index)[0]);
}

/// Where the index of a variant is read, its encoding lies, and the index names a variant.
pub proof fn lemma_variant_canonical(s: Seq<u8>, at: int, count: int)
    requires
        variant_at(s, at, count).1 >= 0,
    ensures
        variant_at(s, at, count).0 < count,
        holds(s, at, variant_at(s, at, count).1, variant_bytes(variant_at(s, at, count).0)),
{
    reveal(variant_at);
    reveal(lies_at);
    assert(s.subrange(at, at + 1) =~= variant_bytes(variant_at(s, at, count).0));
}

// ---------------------------------------------------------------------------
// Writers
// ---------------------------------------------------------------------------
/// What is written behind what was written before stands behind the bytes that were
/// there at the start as one run.
pub proof fn lemma_written(before: Seq<u8>, written: Seq<u8>, field: Seq<u8>)
    ensures
        (before + written) + field == before + (written + field),
{
    assert((before + written) + field =~= before + (written + field));
}

/// Appends bytes as they are.
pub fn write_bytes(bytes: &[u8], out: &mut Vec<u8>)
    ensures
        final(out)@ == old(out)@ + bytes@,
{
    let mut i: usize = 0;
    while i < bytes.len()
        invariant
            i <= bytes.len(),
            out@ == old(out)@ + bytes@.take(i as int),
        decreases bytes.len() - i,
    {
        out.push(bytes[i]);
        assert(bytes@.take(i + 1) =~= bytes@.take(i as int).push(bytes@[i as int]));
        i = i + 1;
    }
    assert(bytes@.take(i as int) =~= bytes@);
}

/// Writes an 8-bit integer.
pub fn write_u8(value: u8, out: &mut Vec<u8>)
    ensures
        final(out)@ == old(out)@ + u8_bytes(value),
{
    out.push(value);
    assert(out@ =~= old(out)@ + u8_bytes(value));
}

/// Writes a 16-bit integer.
pub fn write_u16(value: u16, out: &mut Vec<u8>)
    ensures
        final(out)@ == old(out)@ + u16_bytes(value),
{
    out.push((value % 0x100) as u8);
    out.push((value / 0x100) as u8);
    assert(out@ =~= old(out)@ + u16_bytes(value));
}

/// Writes a 32-bit integer.
pub fn write_u32(value: u32, out: &mut Vec<u8>)
    ensures
        final(out)@ == old(out)@ + u32_bytes(value),
{
    write_u16((value % 0x1_0000) as u16, out);
    write_u16((value / 0x1_0000) as u16, out);
    assert(out@ =~= old(out)@ + u32_bytes(value));
}

/// Writes a 64-bit integer.
pub fn write_u64(value: u64, out: &mut Vec<u8>)
    ensures
        final(out)@ == old(out)@ + u64_bytes(value),
{
    write_u32((value % 0x1_0000_0000) as u32, out);
    write_u32((value / 0x1_0000_0000) as u32, out);
    assert(out@ =~= old(out)@ + u64_bytes(value));
}

/// Gives the unsigned number with the same 64 bits.
pub fn to_bits(value: i64) -> (bits: u64)
    ensures
        bits == bits_of(value),
{
    if value >= 0 {
        value as u64
    } else {
        let below: i64 = -(value + 1);
        u64::MAX - (below as u64)
    }
}

/// Writes a signed 64-bit integer.
pub fn write_i64(value: i64, out: &mut Vec<u8>)
    ensures
        final(out)@ == old(out)@ + i64_bytes(value),
{
    write_u64(to_bits(value), out);
}

/// Writes a truth value.
pub fn write_bool(value: bool, out: &mut Vec<u8>)
    ensures
        final(out)@ == old(out)@ + bool_bytes(value),
{
    out.push(if value { 1 } else { 0 });
    assert(out@ =~= old(out)@ + bool_bytes(value));
}

/// Writes the index of an enum variant.
pub fn write_variant(index: u8, out: &mut Vec<u8>)
    ensures
        final(out)@ == old(out)@ + variant_bytes(index),
{
    write_u8(index, out);
}

/// Writes a run of 32 bytes.
pub fn write_bytes32(value: &[u8; 32], out: &mut Vec<u8>)
    ensures
        final(out)@ == old(out)@ + bytes32_bytes(*value),
{
    write_bytes(value.as_slice(), out);
}

/// Writes an identity.
pub fn write_pubkey(value: &Pubkey, out: &mut Vec<u8>)
    ensures
        final(out)@ == old(out)@ + pubkey_bytes(*value),
{
    write_bytes32(&value.0, out);
}

/// Tells whether a string can be encoded.
pub fn can_encode_string(value: &String) -> (can: bool)
    ensures
        can == string_encodable(value@),
{
    value.as_str().as_bytes().len() <= 0xffff_ffff
}

/// Writes a string.
pub fn write_string(value: &String, out: &mut Vec<u8>)
    requires
        string_encodable(value@),
    ensures
        final(out)@ == old(out)@ + string_bytes(value@),
{
    let bytes = value.as_str().as_bytes();
    write_u32(bytes.len() as u32, out);
    write_bytes(bytes, out);
    assert(out@ =~= old(out)@ + string_bytes(value@));
}

// ---------------------------------------------------------------------------
// Optional integers and identities
// ---------------------------------------------------------------------------
/// The encoding of an optional 64-bit integer.
pub open spec fn option_u64_bytes(value: Option<u64>) -> Seq<u8> {
    match value {
        Some(inner) => option_bytes(true, u64_bytes(inner)),
        None => option_bytes(false, Seq::empty()),
    }
}

/// The optional 64-bit integer at an offset.
#[verifier::opaque]
pub open spec fn option_u64_at(s: Seq<u8>, at: int) -> (Option<u64>, int) {
    optional(bool_at(s, at), u64_at(s, bool_at(s, at).1))
}

/// Reads an optional 64-bit integer.
pub fn read_option_u64(data: &[u8], at: usize) -> (got: Option<(Option<u64>, usize)>)
    ensures
        reads(got, option_u64_at(data@, at as int)),
{
    proof {
        reveal(option_u64_at);
    }
    let (present, start) = read_bool(data, at)?;
    if present {
        let (inner, next) = read_u64(data, start)?;
        Some((Some(inner), next))
    } else {
        Some((None, start))
    }
}

/// An optional 64-bit integer is read back from where its encoding lies.
pub proof fn lemma_option_u64_round_trip(s: Seq<u8>, at: int, next: int, value: Option<u64>)
    requires
        holds(s, at, next, option_u64_bytes(value)),
    ensures
        option_u64_at(s, at) == (value, next),
{
    reveal(option_u64_at);
    match value {
        Some(inner) => {
            lemma_option_round_trip(s, at, next, true, u64_bytes(inner));
            lemma_u64_round_trip(s, at + 1, next, inner);
        },
        None => {
            lemma_option_round_trip(s, at, next, false, Seq::empty());
        },
    }
}

/// Where an optional 64-bit integer is read, its encoding lies.
pub proof fn lemma_option_u64_canonical(s: Seq<u8>, at: int)
    requires
        option_u64_at(s, at).1 >= 0,
    ensures
        holds(s, at, option_u64_at(s, at).1, option_u64_bytes(option_u64_at(s, at).0)),
{
    reveal(option_u64_at);
    let next = option_u64_at(s, at).1;
    if bool_at(s, at).0 {
        let inner = u64_at(s, at + 1).0;
        lemma_u64_canonical(s, at + 1);
        lemma_option_canonical(s, at, next, u64_bytes(inner));
    } else {
        lemma_option_canonical(s, at, next, Seq::empty());
    }
}

/// The encoding of an optional signed 64-bit integer.
pub open spec fn option_i64_bytes(value: Option<i64>) -> Seq<u8> {
    match value {
        Some(inner) => option_bytes(true, i64_bytes(inner)),
        None => option_bytes(false, Seq::empty()),
    }
}

/// The optional signed 64-bit integer at an offset.
#[verifier::opaque]
pub open spec fn option_i64_at(s: Seq<u8>, at: int) -> (Option<i64>, int) {
    optional(bool_at(s, at), i64_at(s, bool_at(s, at).1))
}

/// Reads an optional signed 64-bit integer.
pub fn read_option_i64(data: &[u8], at: usize) -> (got: Option<(Option<i64>, usize)>)
    ensures
        reads(got, option_i64_at(data@, at as int)),
{
    proof {
        reveal(option_i64_at);
    }
    let (present, start) = read_bool(data, at)?;
    if present {
        let (inner, next) = read_i64(data, start)?;
        Some((Some(inner), next))
    } else {
        Some((None, start))
    }
}

/// An optional signed 64-bit integer is read back from where its encoding lies.
pub proof fn lemma_option_i64_round_trip(s: Seq<u8>, at: int, next: int, value: Option<i64>)
    requires
        holds(s, at, next, option_i64_bytes(value)),
    ensures
        option_i64_at(s, at) == (value, next),
{
    reveal(option_i64_at);
    match value {
        Some(inner) => {
            lemma_option_round_trip(s, at, next, true, i64_bytes(inner));
            lemma_i64_round_trip(s, at + 1, next, inner);
        },
        None => {
            lemma_option_round_trip(s, at, next, false, Seq::empty());
        },
    }
}

/// Where an optional signed 64-bit integer is read, its encoding lies.
pub proof fn lemma_option_i64_canonical(s: Seq<u8>, at: int)
    requires
        option_i64_at(s, at).1 >= 0,
    ensures
        holds(s, at, option_i64_at(s, at).1, option_i64_bytes(option_i64_at(s, at).0)),
{
    reveal(option_i64_at);
    let next = option_i64_at(s, at).1;
    if bool_at(s, at).0 {
        let inner = i64_at(s, at + 1).0;
        lemma_i64_canonical(s, at + 1);
        lemma_option_canonical(s, at, next, i64_bytes(inner));
    } else {
        lemma_option_canonical(s, at, next, Seq::empty());
    }
}

/// The encoding of an optional identity.
pub open spec fn option_pubkey_bytes(value: Option<Pubkey>) -> Seq<u8> {
    match value {
        Some(inner) => option_bytes(true, pubkey_bytes(inner)),
        None => option_bytes(false, Seq::empty()),
    }
}

/// The optional identity at an offset.
#[verifier::opaque]
pub open spec fn option_pubkey_at(s: Seq<u8>, at: int) -> (Option<Pubkey>, int) {
    optional(bool_at(s, at), pubkey_at(s, bool_at(s, at).1))
}

/// Reads an optional identity.
pub fn read_option_pubkey(data: &[u8], at: usize) -> (got: Option<(Option<Pubkey>, usize)>)
    ensures
        reads(got, option_pubkey_at(data@, at as int)),
{
    proof {
        reveal(option_pubkey_at);
    }
    let (present, start) = read_bool(data, at)?;
    if present {
        let (inner, next) = read_pubkey(data, start)?;
        Some((Some(inner), next))
    } else {
        Some((None, start))
    }
}

/// An optional identity is read back from where its encoding lies.
pub proof fn lemma_option_pubkey_round_trip(s: Seq<u8>, at: int, next: int, value: Option<Pubkey>)
    requires
        holds(s, at, next, option_pubkey_bytes(value)),
    ensures
        option_pubkey_at(s, at) == (value, next),
{
    reveal(option_pubkey_at);
    match value {
        Some(inner) => {
            lemma_option_round_trip(s, at, next, true, pubkey_bytes(inner));
            lemma_pubkey_round_trip(s, at + 1, next, inner);
        },
        None => {
            lemma_option_round_trip(s, at, next, false, Seq::empty());
        },
    }
}

/// Where an optional identity is read, its encoding lies.
pub proof fn lemma_option_pubkey_canonical(s: Seq<u8>, at: int)
    requires
        option_pubkey_at(s, at).1 >= 0,
    ensures
        holds(s, at, option_pubkey_at(s, at).1, option_pubkey_bytes(option_pubkey_at(s, at).0)),
{
    reveal(option_pubkey_at);
    let next = option_pubkey_at(s, at).1;
    if bool_at(s, at).0 {
        let inner = pubkey_at(s, at + 1).0;
        lemma_pubkey_canonical(s, at + 1);
        lemma_option_canonical(s, at, next, pubkey_bytes(inner));
    } else {
        lemma_option_canonical(s, at, next, Seq::empty());
    }
}

/// Writes an optional 64-bit integer.
pub fn write_option_u64(value: &Option<u64>, out: &mut Vec<u8>)
    ensures
        final(out)@ == old(out)@ + option_u64_bytes(*value),
{
    let ghost before = out@;
    match value {
        Some(inner) => {
            write_bool(true, out);
            write_u64(*inner, out);
            proof {
                lemma_written(before, bool_bytes(true), u64_bytes(*inner));
            }
        },
        None => {
            write_bool(false, out);
        },
    }
}

/// Writes an optional signed 64-bit integer.
pub fn write_option_i64(value: &Option<i64>, out: &mut Vec<u8>)
    ensures
        final(out)@ == old(out)@ + option_i64_bytes(*value),
{
    let ghost before = out@;
    match value {
        Some(inner) => {
            write_bool(true, out);
            write_i64(*inner, out);
            proof {
                lemma_written(before, bool_bytes(true), i64_bytes(*inner));
            }
        },
        None => {
            write_bool(false, out);
        },
    }
}

/// Writes an optional identity.
pub fn write_option_pubkey(value: &Option<Pubkey>, out: &mut Vec<u8>)
    ensures
        final(out)@ == old(out)@ + option_pubkey_bytes(*value),
{
    let ghost before = out@;
    match value {
        Some(inner) => {
            write_bool(true, out);
            write_pubkey(inner, out);
            proof {
                lemma_written(before, bool_bytes(true), pubkey_bytes(*inner));
            }
        },
        None => {
            write_bool(false, out);
        },
    }
}

} // verus!
