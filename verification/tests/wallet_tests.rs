use alloy::network::{Ethereum, NetworkWallet};
use dipsniper::wallet::keys_from_secret_bytes;
use dipsniper::wallet::{
    convertToAddress, create_wallet, create_wallet_pk, parse_address, secret_key_hex,
    wallet_from_pk, Address,
};

const ONE_KEY: &str = "0000000000000000000000000000000000000000000000000000000000000001";
const ONE_ADDRESS: &str = "0x7E5F4552091A69125d5DfCb7b8C2659029395Bdf";

#[test]
fn checksummed_address_round_trips() {
    let a = convertToAddress("0x5aAeb6053F3E94C9b9A09f33669435E7Ef1BeAed");
    assert_eq!(a.bytes[0], 0x5a);
    assert_eq!(a.bytes[19], 0xed);
    assert_eq!(a.to_string(), "0x5aAeb6053F3E94C9b9A09f33669435E7Ef1BeAed");
}

#[test]
fn parse_address_rejects_bad_checksums() {
    assert!(parse_address("0x5aaeb6053f3e94c9b9a09f33669435e7ef1beaed").is_none());
    assert!(parse_address("0x5aAeb6053F3E94C9b9A09f33669435E7Ef1BeAe").is_none());
    assert!(parse_address("not an address").is_none());
    let a = parse_address(ONE_ADDRESS).unwrap();
    assert_eq!(a.to_string(), ONE_ADDRESS);
}

#[test]
fn addresses_compare_by_bytes() {
    let a = convertToAddress(ONE_ADDRESS);
    let b = convertToAddress(ONE_ADDRESS);
    let c = convertToAddress("0x5aAeb6053F3E94C9b9A09f33669435E7Ef1BeAed");
    assert!(a.same(&b));
    assert!(!a.same(&c));
}

#[test]
fn secret_key_hex_checks_the_range() {
    assert_eq!(secret_key_hex([0u8; 32]), None);
    assert_eq!(secret_key_hex([0xffu8; 32]), None);
    let mut one = [0u8; 32];
    one[31] = 1;
    assert_eq!(secret_key_hex(one).as_deref(), Some(ONE_KEY));
    let mut k = [0u8; 32];
    k[0] = 0xab;
    k[31] = 0x0c;
    let hex = secret_key_hex(k).unwrap();
    assert!(hex.starts_with("ab00"));
    assert!(hex.ends_with("0c"));
}

#[test]
fn key_one_has_the_known_address() {
    let (_w, a) = wallet_from_pk(ONE_KEY);
    assert_eq!(a.to_string(), ONE_ADDRESS);
    let (_w2, a2) = wallet_from_pk(&format!("0x{}", ONE_KEY));
    assert_eq!(a2, a);
}

#[test]
fn fresh_keys_are_hex_and_give_their_address() {
    let pk = create_wallet_pk().unwrap();
    assert_eq!(pk.len(), 64);
    assert!(pk.chars().all(|c| c.is_ascii_hexdigit() && !c.is_ascii_uppercase()));
    let (pk2, a) = create_wallet().unwrap();
    let (_w, a2) = wallet_from_pk(&pk2);
    assert_eq!(a, a2);
    let text = a.to_string();
    assert_eq!(text.len(), 42);
    assert!(text.starts_with("0x"));
    let back: Address = convertToAddress(&text);
    assert_eq!(back, a);
}

#[test]
fn try_wallet_from_pk_rejects_non_keys() {
    assert!(dipsniper::wallet::try_wallet_from_pk("xyz").is_none());
    assert!(dipsniper::wallet::try_wallet_from_pk(&"0".repeat(64)).is_none());
    let (_w, a) = dipsniper::wallet::try_wallet_from_pk(ONE_KEY).unwrap();
    assert_eq!(a.to_string(), ONE_ADDRESS);
}

#[test]
fn keys_from_secret_bytes_gives_key_text_and_address() {
    assert!(keys_from_secret_bytes([0u8; 32]).is_none());
    assert!(keys_from_secret_bytes([0xffu8; 32]).is_none());
    let mut one = [0u8; 32];
    one[31] = 1;
    let (pk, a) = keys_from_secret_bytes(one).unwrap();
    assert_eq!(pk, ONE_KEY);
    assert_eq!(a.to_string(), ONE_ADDRESS);
}

#[test]
fn wallet_signs_with_its_key() {
    let (w, a) = wallet_from_pk(ONE_KEY);
    let signer = NetworkWallet::<Ethereum>::default_signer_address(&w);
    assert_eq!(signer.into_array(), a.bytes);
    let all: Vec<_> = NetworkWallet::<Ethereum>::signer_addresses(&w).collect();
    assert_eq!(all.len(), 1);
    assert_eq!(all[0].into_array(), a.bytes);
    let (w2, a2) = dipsniper::wallet::try_wallet_from_pk(ONE_KEY).unwrap();
    assert_eq!(NetworkWallet::<Ethereum>::default_signer_address(&w2).into_array(), a2.bytes);
}
