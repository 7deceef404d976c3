//! Account keys and addresses: checksummed address parsing, fresh private
//! keys, and the address that belongs to a private key.
use rand::RngCore;
use std::str::FromStr;
use vstd::prelude::*;

verus! {

/// A 20-byte account address.
#[derive(Clone, Copy, PartialEq, Eq, Debug, Hash)]
pub struct Address {
    pub bytes: [u8; 20],
}

/// The order of the secp256k1 group; secret keys lie strictly between 0 and it.
pub open spec fn secp256k1_order() -> int {
    0xFFFFFFFFFFFFFFFFFFFFFFFFFFFFFFFEBAAEDCE6AF48A03BBFD25E8CD0364141int
}

/// The big-endian value of a byte string.
pub open spec fn be_value(b: Seq<u8>) -> int
    decreases b.len(),
{
    if b.len() == 0 {
        0
    } else {
        be_value(b.drop_last()) * 256 + b.last()
    }
}

/// 32 bytes that secp256k1 accepts as a secret key: big-endian, non-zero,
/// below the group order.
pub open spec fn valid_secret_key(b: Seq<u8>) -> bool {
    b.len() == 32 && 0 < be_value(b) < secp256k1_order()
}

/// The lower-case hex digit of a value below 16.
pub open spec fn hex_digit_lower(n: int) -> char {
    if n < 10 {
        (n + 48) as char
    } else {
        (n - 10 + 97) as char
    }
}

/// Lower-case hex text of a byte string, two digits per byte, high nibble first.
pub open spec fn hex_lower(b: Seq<u8>) -> Seq<char> {
    Seq::new(
        (2 * b.len()) as nat,
        |i: int|
            if i % 2 == 0 {
                hex_digit_lower(b[i / 2] as int / 16)
            } else {
                hex_digit_lower(b[i / 2] as int % 16)
            },
    )
}

/// A hex digit in either case.
pub open spec fn is_hex_char(c: char) -> bool {
    ('0' <= c && c <= '9') || ('a' <= c && c <= 'f') || ('A' <= c && c <= 'F')
}

/// The value of a hex digit.
pub open spec fn hex_value(c: char) -> int {
    if '0' <= c && c <= '9' {
        c as int - 48
    } else if 'a' <= c && c <= 'f' {
        c as int - 97 + 10
    } else {
        c as int - 65 + 10
    }
}

/// `s` without a leading `0x` or `0X`.
pub open spec fn strip_hex_prefix(s: Seq<char>) -> Seq<char> {
    if s.len() >= 2 && s[0] == '0' && (s[1] == 'x' || s[1] == 'X') {
        s.skip(2)
    } else {
        s
    }
}

/// The bytes that an even-length hex text decodes to.
pub open spec fn hex_decode(t: Seq<char>) -> Seq<u8> {
    Seq::new(
        t.len() / 2,
        |i: int| (hex_value(t[2 * i]) * 16 + hex_value(t[2 * i + 1])) as u8,
    )
}

/// The secret key that a private-key text names: an optional `0x`/`0X`
/// prefix, then 64 hex digits in either case encoding a valid secret key.
pub open spec fn private_key_bytes(s: Seq<char>) -> Option<Seq<u8>> {
    let t = strip_hex_prefix(s);
    if t.len() == 64 && (forall|i: int| 0 <= i < t.len() ==> is_hex_char(#[trigger] t[i]))
        && valid_secret_key(hex_decode(t)) {
        Some(hex_decode(t))
    } else {
        None
    }
}

/// The account address of a secret key (the last 20 bytes of the Keccak-256
/// hash of its public key), as `alloy_signer::utils::secret_key_to_address` computes it.
pub uninterp spec fn secret_key_address(key: Seq<u8>) -> Seq<u8>;

/// The EIP-55 checksummed text of an address, as `Address::to_checksum(None)` writes it.
pub uninterp spec fn checksum_text(address: Seq<u8>) -> Seq<char>;

/// `c` in lower case, for ASCII letters.
pub open spec fn ascii_lower(c: char) -> char {
    if 'A' <= c && c <= 'Z' {
        (c as int + 32) as char
    } else {
        c
    }
}

/// `s` is the checksummed text of some address.
pub open spec fn is_checksummed_address(s: Seq<char>) -> bool {
    exists|a: Seq<u8>| a.len() == 20 && s == checksum_text(a)
}

/// Fills 32 bytes from the operating system's random source
/// (`OsRng::try_fill_bytes`); `None` when the source fails. Which bytes come
/// out is not stated.
#[verifier::external_body]
pub(crate) fn os_random_bytes() -> (b: Option<[u8; 32]>) {
    let mut bytes = [0u8; 32];
    match rand::rngs::OsRng.try_fill_bytes(&mut bytes) {
        Ok(()) => Some(bytes),
        Err(_) => None,
    }
}

/// `secp256k1::SecretKey::from_slice`, read back with `secret_bytes`: accepts
/// exactly the 32-byte strings whose big-endian value is non-zero and below the
/// group order, and keeps the bytes as they are.
#[verifier::external_body]
fn secp256k1_secret_key(bytes: &[u8; 32]) -> (r: Option<[u8; 32]>)
    ensures
        r is Some <==> valid_secret_key(bytes@),
        r matches Some(k) ==> k@ == bytes@,
{
    match secp256k1::SecretKey::from_slice(&bytes[..]) {
        Ok(k) => Some(k.secret_bytes()),
        Err(_) => None,
    }
}

/// `hex::encode`: two lower-case hex digits per byte.
#[verifier::external_body]
fn hex_encode(bytes: &[u8; 32]) -> (s: String)
    ensures
        s@ == hex_lower(bytes@),
{
    hex::encode(bytes)
}

/// `PrivateKeySigner::from_str`, read back with `address`: succeeds exactly on
/// the texts that `private_key_bytes` accepts, and the signer's address is the
/// address of that key.
#[verifier::external_body]
fn private_key_signer_address(pk: &str) -> (r: Option<[u8; 20]>)
    ensures
        r is Some <==> private_key_bytes(pk@) is Some,
        r matches Some(a) ==> a@ == secret_key_address(private_key_bytes(pk@)->0),
{
    match alloy::signers::local::PrivateKeySigner::from_str(pk) {
        Ok(signer) => Some(signer.address().into_array()),
        Err(_) => None,
    }
}

#[verifier::external_type_specification]
#[verifier::external_body]
pub struct ExEthereumWallet(alloy::network::EthereumWallet);

/// The address of a wallet's default signer, the one it signs with when a
/// transaction names no sender (`NetworkWallet::default_signer_address`).
pub uninterp spec fn wallet_default_signer(w: alloy::network::EthereumWallet) -> Seq<u8>;

/// The addresses of the signers that a wallet holds; a transaction from one of
/// them is signed by that signer.
pub uninterp spec fn wallet_signers(w: alloy::network::EthereumWallet) -> Set<Seq<u8>>;

/// `PrivateKeySigner::from_str` turned into an `EthereumWallet` (which holds
/// that one signer and makes it the default), with the wallet's
/// `default_signer_address`: succeeds exactly on the texts that
/// `private_key_bytes` accepts, and the wallet's only signer, its default, is
/// the address of that key.
#[verifier::external_body]
fn private_key_wallet(pk: &str) -> (r: Option<(alloy::network::EthereumWallet, [u8; 20])>)
    ensures
        r is Some <==> private_key_bytes(pk@) is Some,
        r matches Some((w, a)) ==> a@ == secret_key_address(private_key_bytes(pk@)->0)
            && wallet_default_signer(w) == a@ && wallet_signers(w) == set![a@],
{
    match alloy::signers::local::PrivateKeySigner::from_str(pk) {
        Ok(signer) => {
            let w = alloy::network::EthereumWallet::from(signer);
            let a = alloy::network::NetworkWallet::<alloy::network::Ethereum>::default_signer_address(&w);
            Some((w, a.into_array()))
        },
        Err(_) => None,
    }
}

/// `Address::parse_checksummed(s, None)`: accepts exactly the checksummed
/// texts of addresses, and gives the address whose checksummed text is `s`.
#[verifier::external_body]
fn parse_checksummed(s: &str) -> (r: Option<[u8; 20]>)
    ensures
        r is Some <==> is_checksummed_address(s@),
        r matches Some(a) ==> s@ == checksum_text(a@),
{
    match alloy::primitives::Address::parse_checksummed(s, None) {
        Ok(a) => Some(a.into_array()),
        Err(_) => None,
    }
}

/// `Address::to_checksum(None)`, which is also how an address displays: `0x`
/// and 40 hex digits that read, ignoring case, as the lower-case hex of the
/// address.
#[verifier::external_body]
fn to_checksum(a: &[u8; 20]) -> (s: String)
    ensures
        s@ == checksum_text(a@),
        s@.len() == 42,
        s@[0] == '0',
        s@[1] == 'x',
        forall|i: int| 0 <= i < 40 ==> ascii_lower(#[trigger] s@[i + 2]) == hex_lower(a@)[i],
{
    alloy::primitives::Address::from(*a).to_checksum(None)
}

impl Address {
    /// Whether two addresses are the same bytes.
    pub fn same(&self, other: &Address) -> (r: bool)
        ensures
            r == (self.bytes@ == other.bytes@),
    {
        let mut i: usize = 0;
        while i < 20
            invariant
                i <= 20,
                forall|j: int| 0 <= j < i ==> self.bytes@[j] == other.bytes@[j],
            decreases 20 - i,
        {
            if self.bytes[i] != other.bytes[i] {
                return false;
            }
            i = i + 1;
        }
        assert(self.bytes@ =~= other.bytes@);
        true
    }

    /// The checksummed text of the address (how the address displays).
    pub fn to_string(&self) -> (s: String)
        ensures
            s@ == checksum_text(self.bytes@),
            s@.len() == 42,
            s@[0] == '0',
            s@[1] == 'x',
            forall|i: int| 0 <= i < 40 ==> ascii_lower(#[trigger] s@[i + 2]) == hex_lower(self.bytes@)[i],
    {
        to_checksum(&self.bytes)
    }
}

/// The address whose checksummed text is `address`.
pub fn convertToAddress(address: &str) -> (a: Address)
    requires
        is_checksummed_address(address@),
    ensures
        address@ == checksum_text(a.bytes@),
{
    match parse_checksummed(address) {
        Some(bytes) => Address { bytes },
        None => vstd::pervasive::unreached(),
    }
}

/// The address whose checksummed text is `address`, or `None` when `address`
/// is not the checksummed text of any address.
pub fn parse_address(address: &str) -> (r: Option<Address>)
    ensures
        r is Some <==> is_checksummed_address(address@),
        r matches Some(a) ==> address@ == checksum_text(a.bytes@),
{
    match parse_checksummed(address) {
        Some(_) => Some(convertToAddress(address)),
        None => None,
    }
}

/// The lower-case hex text of 32 bytes when they are a valid secret key.
pub fn secret_key_hex(bytes: [u8; 32]) -> (r: Option<String>)
    ensures
        r is Some <==> valid_secret_key(bytes@),
        r matches Some(pk) ==> pk@ == hex_lower(bytes@),
{
    match secp256k1_secret_key(&bytes) {
        Some(k) => Some(hex_encode(&k)),
        None => None,
    }
}

/// A fresh private key as 64 lower-case hex digits, drawn from the operating
/// system's random source (see `secret_key_hex`); `None` when the source fails
/// or the drawn bytes are not a valid secret key.
pub fn create_wallet_pk() -> (r: Option<String>)
    ensures
        r matches Some(pk) ==> exists|k: Seq<u8>| valid_secret_key(k) && pk@ == hex_lower(k),
{
    match os_random_bytes() {
        Some(bytes) => secret_key_hex(bytes),
        None => None,
    }
}

/// The text of a valid key decodes back to the key.
pub proof fn lemma_private_key_of_hex(k: Seq<u8>)
    requires
        valid_secret_key(k),
    ensures
        private_key_bytes(hex_lower(k)) == Some(k),
{
    let t = hex_lower(k);
    assert(t.len() == 64);
    assert(t[1] != 'x' && t[1] != 'X') by {
        assert(k[0] as int % 16 < 16);
    }
    assert(strip_hex_prefix(t) == t);
    assert forall|i: int| 0 <= i < t.len() implies is_hex_char(#[trigger] t[i]) by {
        assert(k[i / 2] as int / 16 < 16);
    }
    assert forall|i: int| 0 <= i < 32 implies #[trigger] hex_decode(t)[i] == k[i] by {
        let b = k[i] as int;
        assert(t[2 * i] == hex_digit_lower(b / 16));
        assert(t[2 * i + 1] == hex_digit_lower(b % 16));
        assert(hex_value(hex_digit_lower(b / 16)) == b / 16);
        assert(hex_value(hex_digit_lower(b % 16)) == b % 16);
    }
    assert(hex_decode(t) =~= k);
}

/// The private-key text and the address of 32 secret-key bytes: the lower-case
/// hex of the bytes and the address of that key; `None` exactly when the
/// bytes are not a valid secret key.
pub fn keys_from_secret_bytes(bytes: [u8; 32]) -> (r: Option<(String, Address)>)
    ensures
        r is Some <==> valid_secret_key(bytes@),
        r matches Some((pk, a)) ==> pk@ == hex_lower(bytes@) && a.bytes@ == secret_key_address(
            bytes@,
        ),
{
    match secret_key_hex(bytes) {
        Some(pk) => {
            proof {
                lemma_private_key_of_hex(bytes@);
            }
            match private_key_signer_address(pk.as_str()) {
                Some(a) => Some((pk, Address { bytes: a })),
                None => vstd::pervasive::unreached(),
            }
        },
        None => None,
    }
}

/// A fresh private key together with its address, from one draw of the
/// operating system's random source (see `keys_from_secret_bytes`); `None`
/// when the source fails or the drawn bytes are not a valid secret key.
pub fn create_wallet() -> (r: Option<(String, Address)>)
    ensures
        r matches Some((pk, a)) ==> exists|k: Seq<u8>|
            valid_secret_key(k) && pk@ == hex_lower(k) && a.bytes@ == secret_key_address(k),
{
    match os_random_bytes() {
        Some(bytes) => keys_from_secret_bytes(bytes),
        None => None,
    }
}

/// The signing wallet of the private key written in `pk`, and its address:
/// the wallet holds that key's signer alone, as its default.
pub fn wallet_from_pk(pk: &str) -> (r: (alloy::network::EthereumWallet, Address))
    requires
        private_key_bytes(pk@) is Some,
    ensures
        r.1.bytes@ == secret_key_address(private_key_bytes(pk@)->0),
        wallet_default_signer(r.0) == r.1.bytes@,
        wallet_signers(r.0) == set![r.1.bytes@],
{
    match private_key_wallet(pk) {
        Some((wallet, bytes)) => (wallet, Address { bytes }),
        None => vstd::pervasive::unreached(),
    }
}

/// Like `wallet_from_pk`, but `None` when `pk` does not name a valid secret key.
pub fn try_wallet_from_pk(pk: &str) -> (r: Option<(alloy::network::EthereumWallet, Address)>)
    ensures
        r is Some <==> private_key_bytes(pk@) is Some,
        r matches Some(p) ==> p.1.bytes@ == secret_key_address(private_key_bytes(pk@)->0)
            && wallet_default_signer(p.0) == p.1.bytes@ && wallet_signers(p.0) == set![p.1.bytes@],
{
    match private_key_wallet(pk) {
        Some(_) => Some(wallet_from_pk(pk)),
        None => None,
    }
}

} // verus!
