use dipsniper::helper::{
    generate_uuid, get_eth_addresses, uuid_from_random_bytes, openchain_lookup_url, pair_version,
    pairs_from_dexscreener, signature_names, DexScreenerPair, DexToken,
};

const OPENCHAIN: &str =
    "https://api.openchain.xyz/signature-database/v1/lookup?filter=false&function=";

fn dex_pair(created: Option<i64>, labels: Option<Vec<&str>>) -> DexScreenerPair {
    DexScreenerPair {
        chainId: "ethereum".to_string(),
        dexId: "uniswap".to_string(),
        pairAddress: "0xpair".to_string(),
        baseToken: DexToken { address: "0xbase".to_string() },
        quoteToken: DexToken { address: "0xquote".to_string() },
        pairCreatedAt: created,
        labels: labels.map(|l| l.into_iter().map(|s| s.to_string()).collect()),
    }
}

#[test]
fn pool_version_from_labels() {
    assert_eq!(pair_version(&None), 4);
    assert_eq!(pair_version(&Some(vec![])), 4);
    assert_eq!(pair_version(&Some(vec!["v2".to_string()])), 4);
    assert_eq!(pair_version(&Some(vec!["v2".to_string(), "v3".to_string()])), 3);
    assert_eq!(pair_version(&Some(vec!["V3".to_string()])), 4);
}

#[test]
fn pairs_keep_order_and_fill_creation_time() {
    let out = pairs_from_dexscreener(
        vec![
            dex_pair(Some(1_700_000_000), Some(vec!["v3"])),
            dex_pair(None, None),
        ],
        1_234,
    );
    assert_eq!(out.len(), 2);
    assert_eq!(out[0].created_at, 1_700_000_000);
    assert_eq!(out[0].version, 3);
    assert_eq!(out[0].chain, "ethereum");
    assert_eq!(out[0].exchange, "uniswap");
    assert_eq!(out[0].pair, "0xpair");
    assert_eq!(out[0].base, "0xbase");
    assert_eq!(out[0].quote, "0xquote");
    assert_eq!(out[1].created_at, 1_234);
    assert_eq!(out[1].version, 4);
    assert!(pairs_from_dexscreener(vec![], 0).is_empty());
}

#[test]
fn lookup_url_keeps_four_byte_selectors() {
    let hashes = vec![
        "0xa9059cbb".to_string(),
        "095ea7b3".to_string(),
        "0x1234".to_string(),
        "0xdeadbeefcafe".to_string(),
    ];
    assert_eq!(
        openchain_lookup_url(OPENCHAIN, &hashes),
        format!("{}0xa9059cbb,095ea7b3", OPENCHAIN)
    );
}

#[test]
fn lookup_url_without_selectors_keeps_base() {
    assert_eq!(openchain_lookup_url(OPENCHAIN, &vec![]), OPENCHAIN);
    assert_eq!(openchain_lookup_url(OPENCHAIN, &vec!["0x12".to_string()]), OPENCHAIN);
    assert_eq!(openchain_lookup_url("", &vec![]), "");
    assert_eq!(openchain_lookup_url("q=", &vec!["a9059cbb".to_string()]), "q=a9059cbb");
}

#[test]
fn lookup_url_counts_bytes() {
    // "éééé" is four characters but eight bytes.
    let hashes = vec!["éééé".to_string(), "0xabcdefgh".to_string()];
    assert_eq!(openchain_lookup_url("q=", &hashes), "q=éééé,0xabcdefgh");
}

#[test]
fn signature_names_take_first_named_signature() {
    let names = signature_names(vec![
        (
            "0xa9059cbb".to_string(),
            Some(vec![Some("transfer(address,uint256)".to_string()), Some("other()".to_string())]),
        ),
        ("0x095ea7b3".to_string(), Some(vec![])),
        ("0x23b872dd".to_string(), Some(vec![None])),
        ("0x70a08231".to_string(), None),
        ("0xa9059cbb".to_string(), Some(vec![Some("replaced()".to_string())])),
    ]);
    assert_eq!(names.len(), 1);
    assert_eq!(names.get("0xa9059cbb").map(|s| s.as_str()), Some("replaced()"));
    assert!(names.get("0x095ea7b3").is_none());
    assert!(!names.contains_key("0x23b872dd"));
}

#[test]
fn eth_addresses_match_whole_text() {
    assert_eq!(
        get_eth_addresses("0x5aAeb6053F3E94C9b9A09f33669435E7Ef1BeAed"),
        vec!["0x5aAeb6053F3E94C9b9A09f33669435E7Ef1BeAed".to_string()]
    );
    assert!(get_eth_addresses("send to 0x5aAeb6053F3E94C9b9A09f33669435E7Ef1BeAed").is_empty());
    assert!(get_eth_addresses("0x123").is_empty());
    assert!(get_eth_addresses("0x5aAeb6053F3E94C9b9A09f33669435E7Ef1BeAed\n").is_empty());
    assert!(get_eth_addresses("0X5aAeb6053F3E94C9b9A09f33669435E7Ef1BeAed").is_empty());
    assert!(get_eth_addresses("").is_empty());
}

#[test]
fn uuids_are_fresh_v4_text() {
    let a = generate_uuid().unwrap();
    let b = generate_uuid().unwrap();
    assert_ne!(a, b);
    assert_eq!(a.len(), 36);
    for (i, c) in a.chars().enumerate() {
        if i == 8 || i == 13 || i == 18 || i == 23 {
            assert_eq!(c, '-');
        } else {
            assert!(c.is_ascii_hexdigit() && !c.is_ascii_uppercase());
        }
    }
    assert_eq!(a.chars().nth(14), Some('4'));
    assert!(matches!(a.chars().nth(19), Some('8' | '9' | 'a' | 'b')));
}

#[test]
fn uuid_from_bytes_sets_version_and_variant() {
    assert_eq!(uuid_from_random_bytes([0u8; 16]), "00000000-0000-4000-8000-000000000000");
    assert_eq!(uuid_from_random_bytes([0xffu8; 16]), "ffffffff-ffff-4fff-bfff-ffffffffffff");
    let bytes: [u8; 16] = [
        0x12, 0x34, 0x56, 0x78, 0x9a, 0xbc, 0xde, 0xf0, 0x12, 0x34, 0x56, 0x78, 0x9a, 0xbc, 0xde, 0xf0,
    ];
    assert_eq!(uuid_from_random_bytes(bytes), "12345678-9abc-4ef0-9234-56789abcdef0");
}
