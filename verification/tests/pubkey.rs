use blockbuster::error::BlockbusterError;
use blockbuster::pubkey::Pubkey;
use blockbuster::pubkey::PUBKEY_BYTES;

#[test]
fn identities_are_compared_byte_by_byte() {
    let a = Pubkey([7; 32]);
    assert_eq!(a, Pubkey([7; 32]));
    for i in 0..PUBKEY_BYTES {
        let mut bytes = [7u8; 32];
        bytes[i] = 8;
        assert_ne!(a, Pubkey(bytes), "byte {}", i);
    }
    assert_eq!(Pubkey([0; 32]), Pubkey::new_from_array([0; 32]));
}

#[test]
fn identity_gives_back_its_bytes() {
    let bytes: [u8; 32] = core::array::from_fn(|i| (i * 7) as u8);
    let key = Pubkey::new_from_array(bytes);
    assert_eq!(key.to_bytes(), bytes);
    assert_eq!(key.0, bytes);
    let sdk = solana_sdk::pubkey::Pubkey::new_from_array(bytes);
    assert_eq!(Pubkey(sdk.to_bytes()), key);
}

#[test]
fn only_an_uninitialized_account_is_skippable() {
    assert!(BlockbusterError::UninitializedAccount.is_skippable());
    assert!(!BlockbusterError::UnknownProgram.is_skippable());
    assert!(!BlockbusterError::MalformedAccountData.is_skippable());
    assert!(!BlockbusterError::UnknownAccountDiscriminator.is_skippable());
    assert!(!BlockbusterError::DeserializationError.is_skippable());
}
