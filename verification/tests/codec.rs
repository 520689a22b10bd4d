use blockbuster::codec::read_bool;
use blockbuster::codec::read_bytes32;
use blockbuster::codec::read_i64;
use blockbuster::codec::read_option_i64;
use blockbuster::codec::read_option_pubkey;
use blockbuster::codec::read_option_u64;
use blockbuster::codec::read_pubkey;
use blockbuster::codec::read_string;
use blockbuster::codec::read_u16;
use blockbuster::codec::read_u32;
use blockbuster::codec::read_u64;
use blockbuster::codec::read_u8;
use blockbuster::codec::read_variant;
use blockbuster::codec::to_signed;
use blockbuster::pubkey::Pubkey;
use borsh::BorshSerialize;

#[test]
fn read_u8_reads_one_byte() {
    assert_eq!(read_u8(&[7, 8], 0), Some((7, 1)));
    assert_eq!(read_u8(&[7, 8], 1), Some((8, 2)));
    assert_eq!(read_u8(&[7, 8], 2), None);
    assert_eq!(read_u8(&[], 0), None);
    assert_eq!(read_u8(&[1], usize::MAX), None);
}

#[test]
fn read_u16_is_little_endian() {
    assert_eq!(read_u16(&[0x34, 0x12], 0), Some((0x1234, 2)));
    assert_eq!(read_u16(&[0, 0xff, 0xff], 1), Some((0xffff, 3)));
    assert_eq!(read_u16(&[1], 0), None);
    assert_eq!(read_u16(&[1, 2], 1), None);
    assert_eq!(read_u16(&[1, 2], usize::MAX), None);
}

#[test]
fn read_u32_is_little_endian() {
    assert_eq!(read_u32(&[0x78, 0x56, 0x34, 0x12], 0), Some((0x1234_5678, 4)));
    assert_eq!(read_u32(&[0xff; 4], 0), Some((u32::MAX, 4)));
    assert_eq!(read_u32(&[9, 1, 0, 0, 0], 1), Some((1, 5)));
    assert_eq!(read_u32(&[1, 2, 3], 0), None);
    assert_eq!(read_u32(&[1, 2, 3, 4], 1), None);
}

#[test]
fn read_u64_is_little_endian() {
    assert_eq!(
        read_u64(&[8, 7, 6, 5, 4, 3, 2, 1], 0),
        Some((0x0102_0304_0506_0708, 8))
    );
    assert_eq!(read_u64(&[0xff; 8], 0), Some((u64::MAX, 8)));
    assert_eq!(read_u64(&[0, 0, 0, 0, 0, 0, 0, 0x80], 0), Some((1 << 63, 8)));
    assert_eq!(read_u64(&[0; 7], 0), None);
    assert_eq!(read_u64(&[0; 9], 2), None);
    for value in [0u64, 1, 255, 256, 65_535, 65_536, u32::MAX as u64, 1 << 32, u64::MAX - 1] {
        assert_eq!(read_u64(&value.to_le_bytes(), 0), Some((value, 8)));
        assert_eq!(read_u64(&value.try_to_vec().unwrap(), 0), Some((value, 8)));
    }
}

#[test]
fn read_i64_is_twos_complement() {
    assert_eq!(read_i64(&[0xff; 8], 0), Some((-1, 8)));
    assert_eq!(read_i64(&[0, 0, 0, 0, 0, 0, 0, 0x80], 0), Some((i64::MIN, 8)));
    assert_eq!(read_i64(&[0xff, 0xff, 0xff, 0xff, 0xff, 0xff, 0xff, 0x7f], 0), Some((i64::MAX, 8)));
    assert_eq!(read_i64(&[0xfe, 0xff, 0xff, 0xff, 0xff, 0xff, 0xff, 0xff], 0), Some((-2, 8)));
    assert_eq!(read_i64(&[0; 7], 0), None);
    for value in [0i64, 1, -1, 1_700_000_000, -1_700_000_000, i64::MAX, i64::MIN] {
        assert_eq!(read_i64(&value.try_to_vec().unwrap(), 0), Some((value, 8)));
        assert_eq!(to_signed(value as u64), value);
    }
    assert_eq!(to_signed(0x8000_0000_0000_0000), i64::MIN);
    assert_eq!(to_signed(0x7fff_ffff_ffff_ffff), i64::MAX);
    assert_eq!(to_signed(u64::MAX), -1);
}

#[test]
fn read_bool_takes_zero_and_one_only() {
    assert_eq!(read_bool(&[0], 0), Some((false, 1)));
    assert_eq!(read_bool(&[1], 0), Some((true, 1)));
    for byte in 2u8..=255 {
        assert_eq!(read_bool(&[byte], 0), None);
    }
    assert_eq!(read_bool(&[], 0), None);
    assert_eq!(read_bool(&[1], 1), None);
}

#[test]
fn read_variant_takes_the_indexes_of_the_variants_only() {
    assert_eq!(read_variant(&[0], 0, 2), Some((0, 1)));
    assert_eq!(read_variant(&[1], 0, 2), Some((1, 1)));
    assert_eq!(read_variant(&[2], 0, 2), None);
    assert_eq!(read_variant(&[2], 0, 3), Some((2, 1)));
    assert_eq!(read_variant(&[0], 0, 0), None);
    assert_eq!(read_variant(&[], 0, 2), None);
}

#[test]
fn read_bytes32_copies_the_bytes() {
    let data: Vec<u8> = (0u8..40).collect();
    let mut expected = [0u8; 32];
    for (i, byte) in expected.iter_mut().enumerate() {
        *byte = i as u8 + 3;
    }
    assert_eq!(read_bytes32(&data, 3), Some((expected, 35)));
    assert_eq!(read_bytes32(&data, 8), Some((core::array::from_fn(|i| i as u8 + 8), 40)));
    assert_eq!(read_bytes32(&data, 9), None);
    assert_eq!(read_bytes32(&data[..31], 0), None);
    assert_eq!(read_pubkey(&data, 3), Some((Pubkey(expected), 35)));
    assert_eq!(read_pubkey(&data, 9), None);
}

#[test]
fn read_string_reads_the_count_and_the_bytes() {
    let bytes = "héllo".to_string().try_to_vec().unwrap();
    assert_eq!(bytes.len(), 4 + 6);
    assert_eq!(read_string(&bytes, 0), Some(("héllo".to_string(), 10)));
    let mut shifted = vec![9u8, 9];
    shifted.extend(&bytes);
    shifted.push(1);
    assert_eq!(read_string(&shifted, 2), Some(("héllo".to_string(), 12)));
    assert_eq!(read_string(&[0, 0, 0, 0], 0), Some((String::new(), 4)));
    assert_eq!(read_string(&bytes[..9], 0), None);
    assert_eq!(read_string(&[1, 0, 0], 0), None);
    assert_eq!(read_string(&[1, 0, 0, 0, 0xff], 0), None);
    assert_eq!(read_string(&[2, 0, 0, 0, 0xc3], 0), None);
    assert_eq!(read_string(&[0xff, 0xff, 0xff, 0xff, b'a'], 0), None);
}

#[test]
fn read_option_reads_the_presence_byte_first() {
    assert_eq!(read_option_u64(&[0], 0), Some((None, 1)));
    assert_eq!(read_option_u64(&[1, 5, 0, 0, 0, 0, 0, 0, 0], 0), Some((Some(5), 9)));
    assert_eq!(read_option_u64(&[1, 5, 0, 0], 0), None);
    assert_eq!(read_option_u64(&[2, 5, 0, 0, 0, 0, 0, 0, 0], 0), None);
    assert_eq!(read_option_u64(&[], 0), None);
    assert_eq!(read_option_i64(&Some(-9i64).try_to_vec().unwrap(), 0), Some((Some(-9), 9)));
    assert_eq!(read_option_i64(&None::<i64>.try_to_vec().unwrap(), 0), Some((None, 1)));
    let key = Some([4u8; 32]).try_to_vec().unwrap();
    assert_eq!(read_option_pubkey(&key, 0), Some((Some(Pubkey([4; 32])), 33)));
    assert_eq!(read_option_pubkey(&key[..32], 0), None);
    assert_eq!(read_option_pubkey(&[0], 0), Some((None, 1)));
}
