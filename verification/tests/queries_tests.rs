use dipsniper::document::{Bson, Document};
use dipsniper::queries::{
    add_pair_update, address_filter, chain_filter, pair_filter, pairs_by_token_filter,
    userid_filter, wallet_name_update, DBError,
};

fn text<'a>(d: &'a Document, k: &str) -> &'a str {
    d.get_str(k).unwrap().as_str()
}

fn inner(b: &Bson) -> &Document {
    match b {
        Bson::Document(d) => d,
        _ => panic!("expected a document"),
    }
}

#[test]
fn error_text() {
    assert_eq!(DBError("timeout".to_string()).to_string(), "Database error: timeout");
}

#[test]
fn simple_filters() {
    let u = userid_filter(1248191458);
    assert_eq!(u.len(), 1);
    assert_eq!(u.get_i64("userid"), Ok(1248191458));
    let a = address_filter("0xabc");
    assert_eq!(a.len(), 1);
    assert_eq!(text(&a, "address"), "0xabc");
    let c = chain_filter(56);
    assert_eq!(c.get_i64("chain"), Ok(56));
}

#[test]
fn updates() {
    let r = wallet_name_update("savings");
    assert_eq!(r.len(), 1);
    assert_eq!(r.entry(0).0, "$set");
    assert_eq!(text(inner(&r.entry(0).1), "name"), "savings");
    let p = add_pair_update("0xpair");
    assert_eq!(p.entry(0).0, "$addToSet");
    assert_eq!(text(inner(&p.entry(0).1), "pairs"), "0xpair");
}

#[test]
fn pair_filter_matches_either_order() {
    let f = pair_filter("0xa", "0xb", "uniswap");
    assert_eq!(f.len(), 2);
    assert_eq!(f.entry(0).0, "$or");
    let alts = f.get_array("$or").unwrap();
    assert_eq!(alts.len(), 2);
    assert_eq!(text(inner(&alts[0]), "token1"), "0xa");
    assert_eq!(text(inner(&alts[0]), "token2"), "0xb");
    assert_eq!(text(inner(&alts[1]), "token1"), "0xb");
    assert_eq!(text(inner(&alts[1]), "token2"), "0xa");
    assert_eq!(text(&f, "dex"), "uniswap");
}

#[test]
fn pairs_by_token() {
    let f = pairs_by_token_filter("0xt");
    assert_eq!(f.len(), 1);
    let alts = f.get_array("$or").unwrap();
    assert_eq!(text(inner(&alts[0]), "token1"), "0xt");
    assert_eq!(text(inner(&alts[1]), "token2"), "0xt");
    assert!(inner(&alts[0]).get("token2").is_none());
}
