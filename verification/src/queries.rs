//! The filters and updates that the store's queries send, and the error that
//! a failed query reports.
use crate::document::{Bson, Document};
use crate::models::{field_is, field_text, push_field};
use crate::strmap::keys_unique;
use crate::text::push_str;
use vstd::prelude::*;
use vstd::string::*;

verus! {

/// A failed database operation, with the store's own message.
pub struct DBError(pub String);

impl DBError {
    /// The text of the error: the message behind "Database error: ".
    pub fn to_string(&self) -> (s: String)
        ensures
            s@ == "Database error: "@ + self.0@,
    {
        let mut s = String::new();
        push_str(&mut s, "Database error: ");
        push_str(&mut s, self.0.as_str());
        s
    }
}

/// `d` is a document of the one field `k`, holding the number `x`.
pub open spec fn int_doc(d: Seq<(String, Bson)>, k: Seq<char>, x: i64) -> bool {
    d.len() == 1 && field_is(d, 0, k, Bson::Int64(x))
}

/// `d` is a document of the one field `k`, holding the text `t`.
pub open spec fn text_doc(d: Seq<(String, Bson)>, k: Seq<char>, t: Seq<char>) -> bool {
    d.len() == 1 && field_text(d, 0, k, t)
}

/// `d` is a document of the two text fields `k1` and `k2`, in that order.
pub open spec fn text_pair_doc(
    d: Seq<(String, Bson)>,
    k1: Seq<char>,
    t1: Seq<char>,
    k2: Seq<char>,
    t2: Seq<char>,
) -> bool {
    d.len() == 2 && field_text(d, 0, k1, t1) && field_text(d, 1, k2, t2)
}

/// `d` is a document of the one field `op`, holding a document of the one
/// text field `k`.
pub open spec fn operator_doc(d: Seq<(String, Bson)>, op: Seq<char>, k: Seq<char>, t: Seq<char>) -> bool {
    &&& d.len() == 1
    &&& d[0].0@ == op
    &&& d[0].1 matches Bson::Document(inner) && text_doc(inner@, k, t)
}

fn text_field(k: &str, t: &str) -> (d: Document)
    ensures
        text_doc(d@, k@, t@),
        keys_unique(d@),
{
    let mut d = Document::new();
    push_field(&mut d, k, Bson::String(t.to_owned()));
    d
}

fn int_field(k: &str, x: i64) -> (d: Document)
    ensures
        int_doc(d@, k@, x),
        keys_unique(d@),
{
    let mut d = Document::new();
    push_field(&mut d, k, Bson::Int64(x));
    d
}

fn text_fields(k1: &str, t1: &str, k2: &str, t2: &str) -> (d: Document)
    requires
        k1@ != k2@,
    ensures
        text_pair_doc(d@, k1@, t1@, k2@, t2@),
        keys_unique(d@),
{
    let mut d = Document::new();
    push_field(&mut d, k1, Bson::String(t1.to_owned()));
    push_field(&mut d, k2, Bson::String(t2.to_owned()));
    d
}

fn operator_field(op: &str, k: &str, t: &str) -> (d: Document)
    ensures
        operator_doc(d@, op@, k@, t@),
        keys_unique(d@),
{
    let mut d = Document::new();
    push_field(&mut d, op, Bson::Document(text_field(k, t)));
    d
}

/// The filter that selects a user's records by user id.
pub fn userid_filter(userid: i64) -> (d: Document)
    ensures
        int_doc(d@, "userid"@, userid),
{
    int_field("userid", userid)
}

/// The filter that selects a record by its address.
pub fn address_filter(address: &str) -> (d: Document)
    ensures
        text_doc(d@, "address"@, address@),
{
    text_field("address", address)
}

/// The filter that selects the tokens of a chain.
pub fn chain_filter(chain_id: i64) -> (d: Document)
    ensures
        int_doc(d@, "chain"@, chain_id),
{
    int_field("chain", chain_id)
}

/// The update that renames a wallet.
pub fn wallet_name_update(new_name: &str) -> (d: Document)
    ensures
        operator_doc(d@, "$set"@, "name"@, new_name@),
{
    operator_field("$set", "name", new_name)
}

/// The update that adds a pair to a token's pairs, unless it is there already.
pub fn add_pair_update(pair_address: &str) -> (d: Document)
    ensures
        operator_doc(d@, "$addToSet"@, "pairs"@, pair_address@),
{
    operator_field("$addToSet", "pairs", pair_address)
}

/// The filter that selects the pair of two tokens on a dex, in either order:
/// `{"$or": [{token1, token2}, {token2 as token1, token1 as token2}], "dex": dex}`.
pub open spec fn pair_filter_of(
    d: Seq<(String, Bson)>,
    token1: Seq<char>,
    token2: Seq<char>,
    dex: Seq<char>,
) -> bool {
    &&& d.len() == 2
    &&& d[0].0@ == "$or"@
    &&& d[0].1 matches Bson::Array(alts) && {
        &&& alts@.len() == 2
        &&& alts@[0] matches Bson::Document(a) && text_pair_doc(
            a@,
            "token1"@,
            token1,
            "token2"@,
            token2,
        )
        &&& alts@[1] matches Bson::Document(b) && text_pair_doc(
            b@,
            "token1"@,
            token2,
            "token2"@,
            token1,
        )
    }
    &&& field_text(d, 1, "dex"@, dex)
}

/// The filter that selects the pair of `token1` and `token2` on `dex`.
pub fn pair_filter(token1: &str, token2: &str, dex: &str) -> (d: Document)
    ensures
        pair_filter_of(d@, token1@, token2@, dex@),
{
    proof {
        reveal_strlit("token1");
        reveal_strlit("token2");
        reveal_strlit("$or");
        reveal_strlit("dex");
        assert("$or"@ =~= seq!['$', 'o', 'r']);
        assert("dex"@ =~= seq!['d', 'e', 'x']);
        assert("token1"@[5] != "token2"@[5]);
    }
    let a = text_fields("token1", token1, "token2", token2);
    let b = text_fields("token1", token2, "token2", token1);
    let mut alts: Vec<Bson> = Vec::new();
    alts.push(Bson::Document(a));
    alts.push(Bson::Document(b));
    let mut d = Document::new();
    push_field(&mut d, "$or", Bson::Array(alts));
    push_field(&mut d, "dex", Bson::String(dex.to_owned()));
    d
}

/// The filter that selects the pairs in which a token takes part:
/// `{"$or": [{"token1": token}, {"token2": token}]}`.
pub open spec fn pairs_by_token_filter_of(d: Seq<(String, Bson)>, token: Seq<char>) -> bool {
    &&& d.len() == 1
    &&& d[0].0@ == "$or"@
    &&& d[0].1 matches Bson::Array(alts) && {
        &&& alts@.len() == 2
        &&& alts@[0] matches Bson::Document(a) && text_doc(a@, "token1"@, token)
        &&& alts@[1] matches Bson::Document(b) && text_doc(b@, "token2"@, token)
    }
}

/// The filter that selects the pairs in which `token_address` takes part.
pub fn pairs_by_token_filter(token_address: &str) -> (d: Document)
    ensures
        pairs_by_token_filter_of(d@, token_address@),
{
    let a = text_field("token1", token_address);
    let b = text_field("token2", token_address);
    let mut alts: Vec<Bson> = Vec::new();
    alts.push(Bson::Document(a));
    alts.push(Bson::Document(b));
    let mut d = Document::new();
    push_field(&mut d, "$or", Bson::Array(alts));
    d
}

} // verus!
