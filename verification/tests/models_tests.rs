use dipsniper::menu::ReplyField;
use dipsniper::wallet::convertToAddress;
use dipsniper::document::{Bson, Document, ObjectId, ValueAccessError};
use dipsniper::models::{Pair, Token, User, Wallet};
use dipsniper::wallet::wallet_from_pk;

fn oid() -> ObjectId {
    ObjectId { bytes: [7u8; 12] }
}

#[test]
fn document_insert_and_typed_reads() {
    let mut d = Document::new();
    d.insert("a".to_string(), Bson::Int64(5));
    d.insert("b".to_string(), Bson::String("x".to_string()));
    d.insert("a".to_string(), Bson::Int32(6));
    assert_eq!(d.len(), 2);
    assert_eq!(d.entry(0).0, "a");
    assert_eq!(d.get_i32("a"), Ok(6));
    assert_eq!(d.get_i64("a"), Err(ValueAccessError::UnexpectedType));
    assert_eq!(d.get_str("b").map(|s| s.as_str()), Ok("x"));
    assert_eq!(d.get_bool("c"), Err(ValueAccessError::NotPresent));
    assert!(d.get("c").is_none());
}

#[test]
fn users() {
    let u = User::new(1248191458);
    assert!(u._id.is_none());
    assert_eq!(u.userid, 1248191458);
    assert_eq!(User::default(3).userid, 3);
    let d = User { _id: Some(oid()), userid: -12 }.to_document();
    assert_eq!(d.len(), 2);
    assert_eq!(d.get_str("userid").map(|s| s.as_str()), Ok("-12"));
    assert_eq!(d.get_object_id("_id").map(|o| o.bytes), Ok([7u8; 12]));
}

#[test]
fn user_document_does_not_read_back() {
    let d = User { _id: Some(oid()), userid: 9 }.to_document();
    assert_eq!(d.get_i64("userid"), Err(ValueAccessError::UnexpectedType));
    let mut ok = Document::new();
    ok.insert("_id".to_string(), Bson::ObjectId(oid()));
    ok.insert("userid".to_string(), Bson::Int64(9));
    let u = User::from_document(&ok);
    assert_eq!(u.userid, 9);
    assert_eq!(u._id.map(|o| o.bytes), Some([7u8; 12]));
}

#[test]
fn wallet_default_name_uses_first_eight_bytes() {
    let w = Wallet::default(
        1,
        "0x7E5F4552091A69125d5DfCb7b8C2659029395Bdf".to_string(),
        vec![1, 56],
        "k".to_string(),
    );
    assert_eq!(w.name, "Wallet 0x7E5F45");
    assert_eq!(w.chainIDs, vec![1, 56]);
    let w2 = Wallet::default(1, "ééééé".to_string(), vec![], "k".to_string());
    assert_eq!(w2.name, "Wallet éééé");
}

#[test]
fn new_wallet_has_a_working_key() {
    let w = Wallet::new(77).unwrap();
    assert_eq!(w.userid, 77);
    assert!(w.chainIDs.is_empty());
    assert_eq!(w.name, format!("Wallet {}", &w.address[..8]));
    let (_signer, a) = wallet_from_pk(&w.privateKey);
    assert_eq!(a.to_string(), w.address);
}

#[test]
fn wallet_document() {
    let w = Wallet {
        _id: None,
        address: "0xabc".to_string(),
        chainIDs: vec![1],
        privateKey: "pk".to_string(),
        userid: 5,
        name: "main".to_string(),
    };
    let d = w.to_document();
    assert_eq!(d.len(), 6);
    assert!(matches!(d.get("_id"), Some(Bson::Null)));
    assert_eq!(d.get_str("userid").map(|s| s.as_str()), Ok("5"));
    assert_eq!(d.get_str("address").map(|s| s.as_str()), Ok("0xabc"));
    assert_eq!(d.get_array("chainIDs").map(|a| a.len()), Ok(1));
    assert_eq!(d.get_str("name").map(|s| s.as_str()), Ok("main"));
}

#[test]
fn token_round_trip() {
    let t = Token {
        _id: Some(oid()),
        name: "Pepe".to_string(),
        supply: "420690000000000".to_string(),
        owner: "0xowner".to_string(),
        decimals: 18,
        chain: 1,
        pairs: vec!["0xp1".to_string(), "0xp2".to_string()],
        created_at: Some(1_700_000_000),
    };
    let d = t.to_document();
    assert_eq!(d.len(), 8);
    let back = Token::from_document(&d);
    assert_eq!(back._id.map(|o| o.bytes), Some([7u8; 12]));
    assert_eq!(back.name, "Pepe");
    assert_eq!(back.supply, "420690000000000");
    assert_eq!(back.owner, "0xowner");
    assert_eq!(back.decimals, 18);
    assert_eq!(back.chain, 1);
    assert_eq!(back.pairs, vec!["0xp1".to_string(), "0xp2".to_string()]);
    assert_eq!(back.created_at, Some(1_700_000_000));
}

#[test]
fn pair_round_trip() {
    let p = Pair {
        _id: None,
        token1: "0xa".to_string(),
        token2: "0xb".to_string(),
        pool_version: "v3".to_string(),
        dex: "uniswap".to_string(),
        created_at: None,
    };
    let back = Pair::from_document(&p.to_document());
    assert!(back._id.is_none());
    assert_eq!(back.token1, "0xa");
    assert_eq!(back.token2, "0xb");
    assert_eq!(back.pool_version, "v3");
    assert_eq!(back.dex, "uniswap");
    assert!(back.created_at.is_none());
}

use dipsniper::models::{StoredTrail, TradeSettings, Trades};

#[test]
fn trade_document_fields() {
    let t = Trades::new(
        5,
        "0xtoken".to_string(),
        true,
        56,
        "1000".to_string(),
        true,
        1.5f64.to_bits(),
        20,
        80,
        Some(StoredTrail {
            trailing_stop_loss: (2.5f32 as f64).to_bits(),
            trailing_stop_loss_percentage: 50.0f64.to_bits(),
            trailing_take_profit: 0,
            trailing_take_profit_percentage: 0,
        }),
    );
    assert!(t._id.is_none());
    let d = t.to_document();
    assert_eq!(d.len(), 10);
    assert!(d.get("userid").is_none());
    assert_eq!(d.get_str("chainID").map(|s| s.as_str()), Ok("56"));
    assert_eq!(d.get_str("stoploss").map(|s| s.as_str()), Ok("20"));
    assert_eq!(d.get_str("takeprofit").map(|s| s.as_str()), Ok("80"));
    assert_eq!(d.get_f64("priceBought").map(f64::from_bits), Ok(1.5));
    assert_eq!(d.get_bool("isEVM"), Ok(true));
    let trail = d.get_document("trail").unwrap();
    assert_eq!(trail.len(), 4);
    assert_eq!(trail.get_f64("trailing_stop_loss").map(f64::from_bits), Ok(2.5));
}

#[test]
fn trade_without_trail_stores_empty_document() {
    let t = Trades::new(1, "a".to_string(), false, -1, "0".to_string(), false, 0, 0, 0, None);
    let d = t.to_document();
    assert_eq!(d.get_document("trail").map(|x| x.len()), Ok(0));
    assert_eq!(d.get_str("chainID").map(|s| s.as_str()), Ok("-1"));
}

#[test]
fn trade_reads_from_a_complete_document() {
    let mut d = Document::new();
    d.insert("_id".to_string(), Bson::ObjectId(oid()));
    d.insert("userid".to_string(), Bson::Int64(9));
    d.insert("address".to_string(), Bson::String("0xt".to_string()));
    d.insert("isEVM".to_string(), Bson::Boolean(true));
    d.insert("chainID".to_string(), Bson::Int64(1));
    d.insert("amount".to_string(), Bson::String("5".to_string()));
    d.insert("active".to_string(), Bson::Boolean(false));
    d.insert("priceBought".to_string(), Bson::Double(3.0f64.to_bits()));
    d.insert("stoploss".to_string(), Bson::Int64(-1));
    d.insert("takeprofit".to_string(), Bson::Int64(7));
    d.insert("trail".to_string(), Bson::Int32(0));
    let t = Trades::from_document(&d);
    assert_eq!(t.userid, 9);
    assert_eq!(t.chainID, 1);
    assert_eq!(t.stoploss, u64::MAX);
    assert_eq!(t.takeprofit, 7);
    assert_eq!(f64::from_bits(t.priceBought), 3.0);
    assert!(t.trail.is_none());
}

#[test]
fn trade_settings_defaults_and_document() {
    let s = TradeSettings::new(42);
    assert_eq!(s.userid, 42);
    assert!(!s.multiwallet && !s.trailing);
    assert_eq!(f64::from_bits(s.stoploss), 0.0);
    assert!(s.mev_enabled_chains.is_empty());
    let mut s2 = TradeSettings::new(7);
    s2.mev_enabled_chains = vec![1, 8453];
    s2.takeprofit = 25.0f64.to_bits();
    let d = s2.to_document();
    assert_eq!(d.len(), 10);
    assert_eq!(d.get_str("userid").map(|s| s.as_str()), Ok("7"));
    assert_eq!(d.get_i64("userid"), Err(ValueAccessError::UnexpectedType));
    assert_eq!(d.get_f64("takeprofit").map(f64::from_bits), Ok(25.0));
    assert_eq!(d.get_array("mev_enabled_chains").map(|a| a.len()), Ok(2));
}

#[test]
fn trade_settings_read_back_from_integer_user_id() {
    let mut d = TradeSettings::new(7).to_document();
    d.insert("userid".to_string(), Bson::Int64(7));
    let s = TradeSettings::from_document(&d);
    assert_eq!(s.userid, 7);
    assert_eq!(s.trailing_take_profit_percentage, 0);
}

#[test]
fn wallet_from_keys_names_after_address() {
    let a = convertToAddress("0x7E5F4552091A69125d5DfCb7b8C2659029395Bdf");
    let w = Wallet::from_keys(3, "pk".to_string(), a);
    assert!(w._id.is_none());
    assert_eq!(w.userid, 3);
    assert!(w.chainIDs.is_empty());
    assert_eq!(w.privateKey, "pk");
    assert_eq!(w.address, "0x7E5F4552091A69125d5DfCb7b8C2659029395Bdf");
    assert_eq!(w.name, "Wallet 0x7E5F45");
}

#[test]
fn trade_settings_steps() {
    let mut s = TradeSettings::new(1);
    s.mev_enabled_chains = vec![56];
    s.toggle_trailing();
    assert!(s.trailing && !s.multiwallet);
    s.toggle_multiwallet();
    assert!(s.trailing && s.multiwallet);
    s.toggle_trailing();
    assert!(!s.trailing);
    s.set_percentage(ReplyField::StopLoss, 12.5f64.to_bits());
    assert_eq!(f64::from_bits(s.stoploss), 12.5);
    assert_eq!(s.takeprofit, 0);
    s.set_percentage(ReplyField::TrailingTakeProfit, 3.0f64.to_bits());
    assert_eq!(f64::from_bits(s.trailing_take_profit), 3.0);
    assert_eq!(s.trailing_take_profit_percentage, 0);
    s.set_percentage(ReplyField::Other, 9.0f64.to_bits());
    assert_eq!(f64::from_bits(s.stoploss), 12.5);
    assert_eq!(s.userid, 1);
    assert_eq!(s.mev_enabled_chains, vec![56]);
}
