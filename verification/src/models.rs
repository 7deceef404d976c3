//! The records the bot stores: users, wallets, tokens, pairs, and how each is
//! written to and read from a stored document.
use crate::document::{
    get_array_spec, get_bool_spec, get_document_spec, get_f64_spec, get_i32_spec, get_i64_spec,
    get_object_id_spec, get_str_spec, Bson, Document, ObjectId, ValueAccessError,
};
use crate::menu::ReplyField;
use crate::strmap::{has_key, keys_unique, lemma_lookup_unique_at, lookup};
use crate::text::{
    decimal, i64_to_string, lemma_parse_format_roundtrip, parse_u128_spec, push_char, push_str,
    u64_to_string, IntErrorKind,
};
use crate::wallet::{ascii_lower, create_wallet, hex_lower, secret_key_address, valid_secret_key, Address};
use vstd::prelude::*;
use vstd::string::*;

verus! {

/// A bot user.
pub struct User {
    pub _id: Option<ObjectId>,
    pub userid: i64,
}

/// A wallet held for a user.
pub struct Wallet {
    pub _id: Option<ObjectId>,
    pub address: String,
    /// Chains the wallet trades on; empty means every chain.
    pub chainIDs: Vec<i64>,
    pub privateKey: String,
    pub userid: i64,
    pub name: String,
}

/// A trade to copy from another account (not used yet).
pub struct CopyTrade {
    userid: i64,
    active: bool,
    address: String,
    chains: Vec<i64>,
}

/// A token the bot knows of.
pub struct Token {
    pub _id: Option<ObjectId>,
    pub name: String,
    /// Total supply, as text.
    pub supply: String,
    pub owner: String,
    pub decimals: u8,
    /// Chain id.
    pub chain: i64,
    /// Addresses of the token's pairs.
    pub pairs: Vec<String>,
    /// Unix time of creation.
    pub created_at: Option<i64>,
}

/// A liquidity pair.
pub struct Pair {
    pub _id: Option<ObjectId>,
    pub token1: String,
    pub token2: String,
    /// Pool version, e.g. "v2" or "v3".
    pub pool_version: String,
    /// Name of the exchange.
    pub dex: String,
    /// Unix time of creation.
    pub created_at: Option<i64>,
}

// ---------------------------------------------------------------------------
// Constructors
// ---------------------------------------------------------------------------

impl User {
    pub fn default(userid: i64) -> (u: User)
        ensures
            u._id is None,
            u.userid == userid,
    {
        User { _id: None, userid }
    }

    pub fn new(userid: i64) -> (u: User)
        ensures
            u._id is None,
            u.userid == userid,
    {
        User { _id: None, userid }
    }
}

/// The number of bytes that UTF-8 uses for `c`.
pub open spec fn utf8_len(c: char) -> int {
    if (c as u32) < 0x80 {
        1
    } else if (c as u32) < 0x800 {
        2
    } else if (c as u32) < 0x10000 {
        3
    } else {
        4
    }
}

/// The number of UTF-8 bytes in the first `k` characters of `s`.
pub open spec fn utf8_prefix_len(s: Seq<char>, k: int) -> int
    decreases k,
{
    if k <= 0 {
        0
    } else {
        utf8_prefix_len(s, k - 1) + utf8_len(s[k - 1])
    }
}

/// Byte 8 of `s` falls between two characters, after the first `k` of them.
pub open spec fn boundary_at_8(s: Seq<char>, k: int) -> bool {
    0 <= k <= s.len() && utf8_prefix_len(s, k) == 8
}

/// The default wallet name: "Wallet " followed by the first 8 bytes of the address.
pub open spec fn wallet_name_spec(address: Seq<char>, k: int) -> Seq<char> {
    "Wallet "@ + address.take(k)
}

proof fn lemma_prefix_len_mono(s: Seq<char>, a: int, b: int)
    requires
        0 <= a <= b,
    ensures
        utf8_prefix_len(s, a) + (b - a) <= utf8_prefix_len(s, b),
    decreases b - a,
{
    if a < b {
        lemma_prefix_len_mono(s, a, b - 1);
    }
}

/// "Wallet " and the first 8 bytes of `address`.
fn wallet_name(address: &str) -> (name: String)
    requires
        exists|k: int| boundary_at_8(address@, k),
    ensures
        exists|k: int| boundary_at_8(address@, k) && name@ == wallet_name_spec(address@, k),
{
    let chars = crate::text::chars_of(address);
    let mut name = String::new();
    push_str(&mut name, "Wallet ");
    let ghost start = name@;
    let mut i: usize = 0;
    let mut used: usize = 0;
    while used < 8
        invariant
            chars@ == address@,
            exists|k: int| boundary_at_8(address@, k),
            i <= chars.len(),
            used == utf8_prefix_len(address@, i as int),
            used <= 8,
            name@ == start + address@.take(i as int),
        decreases 8 - used,
    {
        proof {
            let k = choose|k: int| boundary_at_8(address@, k);
            if k <= i {
                lemma_prefix_len_mono(address@, k, i as int);
            }
            if i as int == chars.len() as int {
                lemma_prefix_len_mono(address@, i as int, k);
            }
        }
        let c = chars[i];
        let w: usize = if (c as u32) < 0x80 {
            1
        } else if (c as u32) < 0x800 {
            2
        } else if (c as u32) < 0x10000 {
            3
        } else {
            4
        };
        proof {
            let k = choose|k: int| boundary_at_8(address@, k);
            if k <= i {
                lemma_prefix_len_mono(address@, k, i as int);
            } else {
                lemma_prefix_len_mono(address@, i + 1, k);
            }
        }
        push_char(&mut name, c);
        assert(address@.take(i + 1) =~= address@.take(i as int).push(c));
        used = used + w;
        i = i + 1;
    }
    proof {
        let k = i as int;
        assert(boundary_at_8(address@, k));
        assert(name@ =~= wallet_name_spec(address@, k));
    }
    name
}

impl Wallet {
    /// A wallet record for an existing key, named after the first 8 bytes of its address.
    pub fn default(userid: i64, address: String, chainIDs: Vec<i64>, privateKey: String) -> (w: Wallet)
        requires
            exists|k: int| boundary_at_8(address@, k),
        ensures
            w._id is None,
            w.userid == userid,
            w.address == address,
            w.chainIDs == chainIDs,
            w.privateKey == privateKey,
            exists|k: int| boundary_at_8(address@, k) && w.name@ == wallet_name_spec(address@, k),
    {
        let name = wallet_name(address.as_str());
        Wallet { _id: None, userid, address, chainIDs, privateKey, name }
    }

    /// The wallet record of a key: the key's text, the checksummed text of its
    /// address, no chains, and the name "Wallet " followed by the first 8
    /// characters of the address.
    pub fn from_keys(userid: i64, privateKey: String, a: Address) -> (w: Wallet)
        ensures
            w._id is None,
            w.userid == userid,
            w.chainIDs@.len() == 0,
            w.privateKey == privateKey,
            w.address@ == crate::wallet::checksum_text(a.bytes@),
            w.name@ == "Wallet "@ + w.address@.take(8),
    {
        let address = a.to_string();
        proof {
            assert forall|j: int| 0 <= j < 8 implies utf8_len(#[trigger] address@[j]) == 1 by {
                if j >= 2 {
                    assert(ascii_lower(address@[(j - 2) + 2]) == hex_lower(a.bytes@)[j - 2]);
                }
            }
            assert(utf8_prefix_len(address@, 0) == 0);
            assert(utf8_prefix_len(address@, 1) == 1);
            assert(utf8_prefix_len(address@, 2) == 2);
            assert(utf8_prefix_len(address@, 3) == 3);
            assert(utf8_prefix_len(address@, 4) == 4);
            assert(utf8_prefix_len(address@, 5) == 5);
            assert(utf8_prefix_len(address@, 6) == 6);
            assert(utf8_prefix_len(address@, 7) == 7);
            assert(utf8_prefix_len(address@, 8) == 8);
            assert(boundary_at_8(address@, 8));
        }
        let name = wallet_name(address.as_str());
        proof {
            let k = choose|k: int|
                boundary_at_8(address@, k) && name@ == wallet_name_spec(address@, k);
            if k < 8 {
                lemma_prefix_len_mono(address@, k, 8);
            } else if k > 8 {
                lemma_prefix_len_mono(address@, 8, k);
            }
        }
        Wallet { _id: None, userid, address, chainIDs: Vec::new(), privateKey, name }
    }

    /// A wallet with a freshly drawn private key (see `create_wallet` and
    /// `from_keys`); `None` when the random source fails or the drawn bytes are
    /// not a valid secret key.
    pub fn new(userid: i64) -> (r: Option<Wallet>)
        ensures
            r matches Some(w) ==> {
                &&& w._id is None
                &&& w.userid == userid
                &&& w.chainIDs@.len() == 0
                &&& w.name@ == "Wallet "@ + w.address@.take(8)
                &&& exists|k: Seq<u8>, a: Address|
                    valid_secret_key(k) && w.privateKey@ == hex_lower(k) && a.bytes@
                        == secret_key_address(k) && w.address@ == crate::wallet::checksum_text(
                        a.bytes@,
                    )
            },
    {
        match create_wallet() {
            Some((privateKey, a)) => Some(Wallet::from_keys(userid, privateKey, a)),
            None => None,
        }
    }
}

// ---------------------------------------------------------------------------
// Documents
// ---------------------------------------------------------------------------

/// How an optional object id is stored: the id, or null.
pub open spec fn object_id_bson(id: Option<ObjectId>) -> Bson {
    match id {
        Some(x) => Bson::ObjectId(x),
        None => Bson::Null,
    }
}

/// How an optional 64-bit integer is stored: the number, or null.
pub open spec fn opt_i64_bson(x: Option<i64>) -> Bson {
    match x {
        Some(v) => Bson::Int64(v),
        None => Bson::Null,
    }
}

/// Field `i` of `d` is named `k` and holds `v`.
pub open spec fn field_is(d: Seq<(String, Bson)>, i: int, k: Seq<char>, v: Bson) -> bool {
    d[i].0@ == k && d[i].1 == v
}

/// Field `i` of `d` is named `k` and holds a string whose text is `t`.
pub open spec fn field_text(d: Seq<(String, Bson)>, i: int, k: Seq<char>, t: Seq<char>) -> bool {
    &&& d[i].0@ == k
    &&& d[i].1 matches Bson::String(s) && s@ == t
}

fn object_id_value(id: Option<ObjectId>) -> (b: Bson)
    ensures
        b == object_id_bson(id),
{
    match id {
        Some(x) => Bson::ObjectId(x),
        None => Bson::Null,
    }
}

fn opt_i64_value(x: Option<i64>) -> (b: Bson)
    ensures
        b == opt_i64_bson(x),
{
    match x {
        Some(v) => Bson::Int64(v),
        None => Bson::Null,
    }
}

/// Appends a field whose name is not yet in the document.
pub(crate) fn push_field(d: &mut Document, k: &str, v: Bson)
    requires
        forall|i: int| 0 <= i < old(d)@.len() ==> #[trigger] old(d)@[i].0@ != k@,
        keys_unique(old(d)@),
    ensures
        final(d)@.len() == old(d)@.len() + 1,
        forall|i: int| 0 <= i < old(d)@.len() ==> final(d)@[i] == old(d)@[i],
        final(d)@.last().0@ == k@,
        final(d)@.last().1 == v,
        keys_unique(final(d)@),
{
    let key = k.to_owned();
    assert(!has_key(d@, k@));
    d.insert(key, v);
}

/// The document a user is stored as.
pub open spec fn user_document_of(d: Seq<(String, Bson)>, u: User) -> bool {
    &&& d.len() == 2
    &&& field_is(d, 0, "_id"@, object_id_bson(u._id))
    &&& field_text(d, 1, "userid"@, decimal(u.userid as int))
}

/// A document from which a user can be read.
pub open spec fn user_document_ok(d: Seq<(String, Bson)>) -> bool {
    &&& get_object_id_spec(d, "_id"@) is Ok
    &&& get_i64_spec(d, "userid"@) is Ok
}

impl User {
    /// The stored form of the user; the user id is written as decimal text.
    pub fn to_document(self) -> (d: Document)
        ensures
            user_document_of(d@, self),
            keys_unique(d@),
    {
        let mut d = Document::new();
        push_field(&mut d, "_id", object_id_value(self._id));
        proof {
            reveal_strlit("_id");
            assert("_id"@ =~= seq!['_', 'i', 'd']);
            reveal_strlit("userid");
            assert("userid"@ =~= seq!['u', 's', 'e', 'r', 'i', 'd']);
        }
        push_field(&mut d, "userid", Bson::String(i64_to_string(self.userid)));
        d
    }

    /// Reads a user back from its stored form.
    pub fn from_document(doc: &Document) -> (u: User)
        requires
            user_document_ok(doc@),
        ensures
            u._id == Some(get_object_id_spec(doc@, "_id"@)->Ok_0),
            u.userid == get_i64_spec(doc@, "userid"@)->Ok_0,
    {
        let id = match doc.get_object_id("_id") {
            Ok(x) => x,
            Err(_) => vstd::pervasive::unreached(),
        };
        let userid = match doc.get_i64("userid") {
            Ok(x) => x,
            Err(_) => vstd::pervasive::unreached(),
        };
        User { _id: Some(id), userid }
    }
}

/// A user's stored form cannot be read back as a user: its user id is
/// stored as text, while reading expects a 64-bit integer.
pub proof fn lemma_user_document_not_readable(d: Seq<(String, Bson)>, u: User)
    requires
        user_document_of(d, u),
        keys_unique(d),
    ensures
        !user_document_ok(d),
{
    lemma_lookup_unique_at(d, 1);
}

fn i64_array(xs: &Vec<i64>) -> (b: Bson)
    ensures
        b matches Bson::Array(a) && a@.len() == xs@.len() && forall|i: int|
            0 <= i < xs@.len() ==> #[trigger] a@[i] == Bson::Int64(xs@[i]),
{
    let mut a: Vec<Bson> = Vec::new();
    let mut i: usize = 0;
    while i < xs.len()
        invariant
            i <= xs.len(),
            a@.len() == i,
            forall|j: int| 0 <= j < i ==> #[trigger] a@[j] == Bson::Int64(xs@[j]),
        decreases xs.len() - i,
    {
        a.push(Bson::Int64(xs[i]));
        i = i + 1;
    }
    Bson::Array(a)
}

/// The document a wallet is stored as.
pub open spec fn wallet_document_of(d: Seq<(String, Bson)>, w: Wallet) -> bool {
    &&& d.len() == 6
    &&& field_is(d, 0, "_id"@, object_id_bson(w._id))
    &&& field_text(d, 1, "userid"@, decimal(w.userid as int))
    &&& field_is(d, 2, "address"@, Bson::String(w.address))
    &&& d[3].0@ == "chainIDs"@
    &&& d[3].1 matches Bson::Array(a) && a@.len() == w.chainIDs@.len() && forall|i: int|
        0 <= i < a@.len() ==> #[trigger] a@[i] == Bson::Int64(w.chainIDs@[i])
    &&& field_is(d, 4, "privateKey"@, Bson::String(w.privateKey))
    &&& field_is(d, 5, "name"@, Bson::String(w.name))
}

/// Every element of `a` is a 64-bit integer.
pub open spec fn all_int64(a: Seq<Bson>) -> bool {
    forall|i: int| 0 <= i < a.len() ==> #[trigger] a[i] is Int64
}

/// A document from which a wallet can be read.
pub open spec fn wallet_document_ok(d: Seq<(String, Bson)>) -> bool {
    &&& get_object_id_spec(d, "_id"@) is Ok
    &&& get_i64_spec(d, "userid"@) is Ok
    &&& get_str_spec(d, "address"@) is Ok
    &&& get_array_spec(d, "chainIDs"@) is Ok
    &&& all_int64(get_array_spec(d, "chainIDs"@)->Ok_0@)
    &&& get_str_spec(d, "privateKey"@) is Ok
    &&& get_str_spec(d, "name"@) is Ok
}

fn read_i64_array(a: &Vec<Bson>) -> (xs: Vec<i64>)
    requires
        all_int64(a@),
    ensures
        xs@.len() == a@.len(),
        forall|i: int| 0 <= i < a@.len() ==> a@[i] == Bson::Int64(#[trigger] xs@[i]),
{
    let mut xs: Vec<i64> = Vec::new();
    let mut i: usize = 0;
    while i < a.len()
        invariant
            all_int64(a@),
            i <= a.len(),
            xs@.len() == i,
            forall|j: int| 0 <= j < i ==> a@[j] == Bson::Int64(#[trigger] xs@[j]),
        decreases a.len() - i,
    {
        let x = match &a[i] {
            Bson::Int64(x) => *x,
            _ => vstd::pervasive::unreached(),
        };
        xs.push(x);
        i = i + 1;
    }
    xs
}

impl Wallet {
    /// The stored form of the wallet; the user id is written as decimal text.
    pub fn to_document(self) -> (d: Document)
        ensures
            wallet_document_of(d@, self),
            keys_unique(d@),
            get_str_spec(d@, "privateKey"@) == Ok::<String, ValueAccessError>(self.privateKey),
            get_str_spec(d@, "address"@) == Ok::<String, ValueAccessError>(self.address),
            get_str_spec(d@, "name"@) == Ok::<String, ValueAccessError>(self.name),
    {
        let ghost orig = self;
        proof {
            reveal_strlit("_id");
            assert("_id"@ =~= seq!['_', 'i', 'd']);
            reveal_strlit("userid");
            assert("userid"@ =~= seq!['u', 's', 'e', 'r', 'i', 'd']);
            reveal_strlit("address");
            assert("address"@ =~= seq!['a', 'd', 'd', 'r', 'e', 's', 's']);
            reveal_strlit("chainIDs");
            assert("chainIDs"@ =~= seq!['c', 'h', 'a', 'i', 'n', 'I', 'D', 's']);
            reveal_strlit("privateKey");
            assert("privateKey"@ =~= seq!['p', 'r', 'i', 'v', 'a', 't', 'e', 'K', 'e', 'y']);
            reveal_strlit("name");
            assert("name"@ =~= seq!['n', 'a', 'm', 'e']);
        }
        let mut d = Document::new();
        push_field(&mut d, "_id", object_id_value(self._id));
        push_field(&mut d, "userid", Bson::String(i64_to_string(self.userid)));
        push_field(&mut d, "address", Bson::String(self.address));
        push_field(&mut d, "chainIDs", i64_array(&self.chainIDs));
        push_field(&mut d, "privateKey", Bson::String(self.privateKey));
        push_field(&mut d, "name", Bson::String(self.name));
        proof {
            lemma_wallet_document_reads(d@, orig);
        }
        d
    }

    /// Reads a wallet back from its stored form.
    pub fn from_document(doc: &Document) -> (w: Wallet)
        requires
            wallet_document_ok(doc@),
        ensures
            w._id == Some(get_object_id_spec(doc@, "_id"@)->Ok_0),
            w.userid == get_i64_spec(doc@, "userid"@)->Ok_0,
            w.address == get_str_spec(doc@, "address"@)->Ok_0,
            w.chainIDs@.len() == get_array_spec(doc@, "chainIDs"@)->Ok_0@.len(),
            forall|i: int|
                0 <= i < w.chainIDs@.len() ==> get_array_spec(doc@, "chainIDs"@)->Ok_0@[i]
                    == Bson::Int64(#[trigger] w.chainIDs@[i]),
            w.privateKey == get_str_spec(doc@, "privateKey"@)->Ok_0,
            w.name == get_str_spec(doc@, "name"@)->Ok_0,
    {
        let id = match doc.get_object_id("_id") {
            Ok(x) => x,
            Err(_) => vstd::pervasive::unreached(),
        };
        let userid = match doc.get_i64("userid") {
            Ok(x) => x,
            Err(_) => vstd::pervasive::unreached(),
        };
        let address = match doc.get_str("address") {
            Ok(s) => s.clone(),
            Err(_) => vstd::pervasive::unreached(),
        };
        let chainIDs = match doc.get_array("chainIDs") {
            Ok(a) => read_i64_array(a),
            Err(_) => vstd::pervasive::unreached(),
        };
        let privateKey = match doc.get_str("privateKey") {
            Ok(s) => s.clone(),
            Err(_) => vstd::pervasive::unreached(),
        };
        let name = match doc.get_str("name") {
            Ok(s) => s.clone(),
            Err(_) => vstd::pervasive::unreached(),
        };
        Wallet { _id: Some(id), address, chainIDs, privateKey, userid, name }
    }
}

/// A wallet's stored form cannot be read back as a wallet: its user id is
/// stored as text, while reading expects a 64-bit integer.
pub proof fn lemma_wallet_document_not_readable(d: Seq<(String, Bson)>, w: Wallet)
    requires
        wallet_document_of(d, w),
        keys_unique(d),
    ensures
        !wallet_document_ok(d),
{
    lemma_lookup_unique_at(d, 1);
}

fn string_array(xs: Vec<String>) -> (b: Bson)
    ensures
        b matches Bson::Array(a) && a@.len() == xs@.len() && forall|i: int|
            0 <= i < xs@.len() ==> #[trigger] a@[i] == Bson::String(xs@[i]),
{
    let mut a: Vec<Bson> = Vec::new();
    let mut rest = xs;
    let ghost all = rest@;
    let ghost mut done: int = 0;
    while rest.len() > 0
        invariant
            0 <= done <= all.len(),
            rest@ == all.subrange(done, all.len() as int),
            a@.len() == done,
            forall|j: int| 0 <= j < done ==> #[trigger] a@[j] == Bson::String(all[j]),
        decreases rest.len(),
    {
        let s = rest.remove(0);
        a.push(Bson::String(s));
        proof {
            done = done + 1;
            assert(rest@ =~= all.subrange(done, all.len() as int));
        }
    }
    Bson::Array(a)
}

/// Every element of `a` is a string.
pub open spec fn all_strings(a: Seq<Bson>) -> bool {
    forall|i: int| 0 <= i < a.len() ==> #[trigger] a[i] is String
}

fn read_string_array(a: &Vec<Bson>) -> (xs: Vec<String>)
    requires
        all_strings(a@),
    ensures
        xs@.len() == a@.len(),
        forall|i: int| 0 <= i < a@.len() ==> a@[i] == Bson::String(#[trigger] xs@[i]),
{
    let mut xs: Vec<String> = Vec::new();
    let mut i: usize = 0;
    while i < a.len()
        invariant
            all_strings(a@),
            i <= a.len(),
            xs@.len() == i,
            forall|j: int| 0 <= j < i ==> a@[j] == Bson::String(#[trigger] xs@[j]),
        decreases a.len() - i,
    {
        let x = match &a[i] {
            Bson::String(s) => s.clone(),
            _ => vstd::pervasive::unreached(),
        };
        xs.push(x);
        i = i + 1;
    }
    xs
}

/// The document a token is stored as.
pub open spec fn token_document_of(d: Seq<(String, Bson)>, t: Token) -> bool {
    &&& d.len() == 8
    &&& field_is(d, 0, "_id"@, object_id_bson(t._id))
    &&& field_is(d, 1, "name"@, Bson::String(t.name))
    &&& field_is(d, 2, "supply"@, Bson::String(t.supply))
    &&& field_is(d, 3, "owner"@, Bson::String(t.owner))
    &&& field_is(d, 4, "decimals"@, Bson::Int32(t.decimals as i32))
    &&& field_is(d, 5, "chain"@, Bson::Int64(t.chain))
    &&& d[6].0@ == "pairs"@
    &&& d[6].1 matches Bson::Array(a) && a@.len() == t.pairs@.len() && forall|i: int|
        0 <= i < a@.len() ==> #[trigger] a@[i] == Bson::String(t.pairs@[i])
    &&& field_is(d, 7, "created_at"@, opt_i64_bson(t.created_at))
}

/// A document from which a token can be read.
pub open spec fn token_document_ok(d: Seq<(String, Bson)>) -> bool {
    &&& get_str_spec(d, "name"@) is Ok
    &&& get_str_spec(d, "supply"@) is Ok
    &&& get_str_spec(d, "owner"@) is Ok
    &&& get_i32_spec(d, "decimals"@) is Ok
    &&& get_i64_spec(d, "chain"@) is Ok
    &&& get_array_spec(d, "pairs"@) is Ok
    &&& all_strings(get_array_spec(d, "pairs"@)->Ok_0@)
}

/// `Ok(x)` as `Some(x)`, an error as `None`.
pub open spec fn ok_of<T>(r: Result<T, ValueAccessError>) -> Option<T> {
    match r {
        Ok(x) => Some(x),
        Err(_) => None,
    }
}

impl Token {
    /// The stored form of the token.
    pub fn to_document(self) -> (d: Document)
        ensures
            token_document_of(d@, self),
            keys_unique(d@),
    {
        proof {
            reveal_strlit("_id");
            assert("_id"@ =~= seq!['_', 'i', 'd']);
            reveal_strlit("name");
            assert("name"@ =~= seq!['n', 'a', 'm', 'e']);
            reveal_strlit("supply");
            assert("supply"@ =~= seq!['s', 'u', 'p', 'p', 'l', 'y']);
            reveal_strlit("owner");
            assert("owner"@ =~= seq!['o', 'w', 'n', 'e', 'r']);
            reveal_strlit("decimals");
            assert("decimals"@ =~= seq!['d', 'e', 'c', 'i', 'm', 'a', 'l', 's']);
            reveal_strlit("chain");
            assert("chain"@ =~= seq!['c', 'h', 'a', 'i', 'n']);
            reveal_strlit("pairs");
            assert("pairs"@ =~= seq!['p', 'a', 'i', 'r', 's']);
            reveal_strlit("created_at");
            assert("created_at"@ =~= seq!['c', 'r', 'e', 'a', 't', 'e', 'd', '_', 'a', 't']);
        }
        let mut d = Document::new();
        push_field(&mut d, "_id", object_id_value(self._id));
        push_field(&mut d, "name", Bson::String(self.name));
        push_field(&mut d, "supply", Bson::String(self.supply));
        push_field(&mut d, "owner", Bson::String(self.owner));
        push_field(&mut d, "decimals", Bson::Int32(self.decimals as i32));
        push_field(&mut d, "chain", Bson::Int64(self.chain));
        push_field(&mut d, "pairs", string_array(self.pairs));
        push_field(&mut d, "created_at", opt_i64_value(self.created_at));
        d
    }

    /// Reads a token back from its stored form; a missing id or creation time
    /// reads as `None`, and the decimals keep the low 8 bits of the stored number.
    pub fn from_document(doc: &Document) -> (t: Token)
        requires
            token_document_ok(doc@),
        ensures
            t._id == ok_of(get_object_id_spec(doc@, "_id"@)),
            t.name == get_str_spec(doc@, "name"@)->Ok_0,
            t.supply == get_str_spec(doc@, "supply"@)->Ok_0,
            t.owner == get_str_spec(doc@, "owner"@)->Ok_0,
            t.decimals == get_i32_spec(doc@, "decimals"@)->Ok_0 as u8,
            t.chain == get_i64_spec(doc@, "chain"@)->Ok_0,
            t.pairs@.len() == get_array_spec(doc@, "pairs"@)->Ok_0@.len(),
            forall|i: int|
                0 <= i < t.pairs@.len() ==> get_array_spec(doc@, "pairs"@)->Ok_0@[i] == Bson::String(
                    #[trigger] t.pairs@[i],
                ),
            t.created_at == ok_of(get_i64_spec(doc@, "created_at"@)),
    {
        let id = match doc.get_object_id("_id") {
            Ok(x) => Some(x),
            Err(_) => None,
        };
        let name = match doc.get_str("name") {
            Ok(s) => s.clone(),
            Err(_) => vstd::pervasive::unreached(),
        };
        let supply = match doc.get_str("supply") {
            Ok(s) => s.clone(),
            Err(_) => vstd::pervasive::unreached(),
        };
        let owner = match doc.get_str("owner") {
            Ok(s) => s.clone(),
            Err(_) => vstd::pervasive::unreached(),
        };
        let decimals = match doc.get_i32("decimals") {
            Ok(x) => x as u8,
            Err(_) => vstd::pervasive::unreached(),
        };
        let chain = match doc.get_i64("chain") {
            Ok(x) => x,
            Err(_) => vstd::pervasive::unreached(),
        };
        let pairs = match doc.get_array("pairs") {
            Ok(a) => read_string_array(a),
            Err(_) => vstd::pervasive::unreached(),
        };
        let created_at = match doc.get_i64("created_at") {
            Ok(x) => Some(x),
            Err(_) => None,
        };
        Token { _id: id, name, supply, owner, decimals, chain, pairs, created_at }
    }
}

/// The document a pair is stored as.
pub open spec fn pair_document_of(d: Seq<(String, Bson)>, p: Pair) -> bool {
    &&& d.len() == 6
    &&& field_is(d, 0, "_id"@, object_id_bson(p._id))
    &&& field_is(d, 1, "token1"@, Bson::String(p.token1))
    &&& field_is(d, 2, "token2"@, Bson::String(p.token2))
    &&& field_is(d, 3, "pool_version"@, Bson::String(p.pool_version))
    &&& field_is(d, 4, "dex"@, Bson::String(p.dex))
    &&& field_is(d, 5, "created_at"@, opt_i64_bson(p.created_at))
}

/// A document from which a pair can be read.
pub open spec fn pair_document_ok(d: Seq<(String, Bson)>) -> bool {
    &&& get_str_spec(d, "token1"@) is Ok
    &&& get_str_spec(d, "token2"@) is Ok
    &&& get_str_spec(d, "pool_version"@) is Ok
    &&& get_str_spec(d, "dex"@) is Ok
}

impl Pair {
    /// The stored form of the pair.
    pub fn to_document(self) -> (d: Document)
        ensures
            pair_document_of(d@, self),
            keys_unique(d@),
    {
        proof {
            reveal_strlit("_id");
            assert("_id"@ =~= seq!['_', 'i', 'd']);
            reveal_strlit("token1");
            assert("token1"@ =~= seq!['t', 'o', 'k', 'e', 'n', '1']);
            reveal_strlit("token2");
            assert("token2"@ =~= seq!['t', 'o', 'k', 'e', 'n', '2']);
            reveal_strlit("pool_version");
            assert("pool_version"@ =~= seq!['p', 'o', 'o', 'l', '_', 'v', 'e', 'r', 's', 'i', 'o', 'n']);
            reveal_strlit("dex");
            assert("dex"@ =~= seq!['d', 'e', 'x']);
            reveal_strlit("created_at");
            assert("created_at"@ =~= seq!['c', 'r', 'e', 'a', 't', 'e', 'd', '_', 'a', 't']);
        }
        let mut d = Document::new();
        push_field(&mut d, "_id", object_id_value(self._id));
        push_field(&mut d, "token1", Bson::String(self.token1));
        push_field(&mut d, "token2", Bson::String(self.token2));
        push_field(&mut d, "pool_version", Bson::String(self.pool_version));
        push_field(&mut d, "dex", Bson::String(self.dex));
        push_field(&mut d, "created_at", opt_i64_value(self.created_at));
        d
    }

    /// Reads a pair back from its stored form; a missing id or creation time reads as `None`.
    pub fn from_document(doc: &Document) -> (p: Pair)
        requires
            pair_document_ok(doc@),
        ensures
            p._id == ok_of(get_object_id_spec(doc@, "_id"@)),
            p.token1 == get_str_spec(doc@, "token1"@)->Ok_0,
            p.token2 == get_str_spec(doc@, "token2"@)->Ok_0,
            p.pool_version == get_str_spec(doc@, "pool_version"@)->Ok_0,
            p.dex == get_str_spec(doc@, "dex"@)->Ok_0,
            p.created_at == ok_of(get_i64_spec(doc@, "created_at"@)),
    {
        let id = match doc.get_object_id("_id") {
            Ok(x) => Some(x),
            Err(_) => None,
        };
        let token1 = match doc.get_str("token1") {
            Ok(s) => s.clone(),
            Err(_) => vstd::pervasive::unreached(),
        };
        let token2 = match doc.get_str("token2") {
            Ok(s) => s.clone(),
            Err(_) => vstd::pervasive::unreached(),
        };
        let pool_version = match doc.get_str("pool_version") {
            Ok(s) => s.clone(),
            Err(_) => vstd::pervasive::unreached(),
        };
        let dex = match doc.get_str("dex") {
            Ok(s) => s.clone(),
            Err(_) => vstd::pervasive::unreached(),
        };
        let created_at = match doc.get_i64("created_at") {
            Ok(x) => Some(x),
            Err(_) => None,
        };
        Pair { _id: id, token1, token2, pool_version, dex, created_at }
    }
}

/// Reading a pair's stored form gives back every field of the pair.
pub proof fn lemma_pair_document_roundtrip(d: Seq<(String, Bson)>, p: Pair)
    requires
        pair_document_of(d, p),
        keys_unique(d),
    ensures
        pair_document_ok(d),
        ok_of(get_object_id_spec(d, "_id"@)) == p._id,
        get_str_spec(d, "token1"@)->Ok_0 == p.token1,
        get_str_spec(d, "token2"@)->Ok_0 == p.token2,
        get_str_spec(d, "pool_version"@)->Ok_0 == p.pool_version,
        get_str_spec(d, "dex"@)->Ok_0 == p.dex,
        ok_of(get_i64_spec(d, "created_at"@)) == p.created_at,
{
    lemma_lookup_unique_at(d, 0);
    lemma_lookup_unique_at(d, 1);
    lemma_lookup_unique_at(d, 2);
    lemma_lookup_unique_at(d, 3);
    lemma_lookup_unique_at(d, 4);
    lemma_lookup_unique_at(d, 5);
}

/// Reading a token's stored form gives back every field of the token.
pub proof fn lemma_token_document_roundtrip(d: Seq<(String, Bson)>, t: Token)
    requires
        token_document_of(d, t),
        keys_unique(d),
    ensures
        token_document_ok(d),
        ok_of(get_object_id_spec(d, "_id"@)) == t._id,
        get_str_spec(d, "name"@)->Ok_0 == t.name,
        get_str_spec(d, "supply"@)->Ok_0 == t.supply,
        get_str_spec(d, "owner"@)->Ok_0 == t.owner,
        get_i32_spec(d, "decimals"@)->Ok_0 as u8 == t.decimals,
        get_i64_spec(d, "chain"@)->Ok_0 == t.chain,
        get_array_spec(d, "pairs"@)->Ok_0@.len() == t.pairs@.len(),
        forall|i: int|
            0 <= i < t.pairs@.len() ==> get_array_spec(d, "pairs"@)->Ok_0@[i] == Bson::String(
                #[trigger] t.pairs@[i],
            ),
        ok_of(get_i64_spec(d, "created_at"@)) == t.created_at,
{
    lemma_lookup_unique_at(d, 0);
    lemma_lookup_unique_at(d, 1);
    lemma_lookup_unique_at(d, 2);
    lemma_lookup_unique_at(d, 3);
    lemma_lookup_unique_at(d, 4);
    lemma_lookup_unique_at(d, 5);
    lemma_lookup_unique_at(d, 6);
    lemma_lookup_unique_at(d, 7);
    let x: u8 = t.decimals;
    assert((x as i32) as u8 == x) by (bit_vector);
}

// ---------------------------------------------------------------------------
// Trades and trade settings
// ---------------------------------------------------------------------------

/// Trailing settings of a trade as stored: each value is a double, held by
/// its bit pattern.
#[derive(Clone, Copy, Debug)]
pub struct StoredTrail {
    pub trailing_stop_loss: u64,
    pub trailing_stop_loss_percentage: u64,
    pub trailing_take_profit: u64,
    pub trailing_take_profit_percentage: u64,
}

/// A trade record. The buy price is a double held by its bit pattern.
pub struct Trades {
    pub _id: Option<ObjectId>,
    pub userid: i64,
    pub address: String,
    pub isEVM: bool,
    pub chainID: i64,
    /// Amount bought, as text.
    pub amount: String,
    pub active: bool,
    pub priceBought: u64,
    /// Stop loss percentage; 0 is off.
    pub stoploss: u64,
    /// Take profit percentage; 0 is off.
    pub takeprofit: u64,
    pub trail: Option<StoredTrail>,
}

/// A user's default trade settings. Each percentage is a double held by its
/// bit pattern.
pub struct TradeSettings {
    pub userid: i64,
    pub multiwallet: bool,
    pub stoploss: u64,
    pub takeprofit: u64,
    /// Whether the trailing settings are used.
    pub trailing: bool,
    pub trailing_stop_loss: u64,
    pub trailing_stop_loss_percentage: u64,
    pub trailing_take_profit: u64,
    pub trailing_take_profit_percentage: u64,
    /// Chains on which bundles are used; empty means none.
    pub mev_enabled_chains: Vec<i64>,
}

impl Trades {
    #[allow(clippy::too_many_arguments)]
    pub fn new(
        userid: i64,
        address: String,
        isEVM: bool,
        chainID: i64,
        amount: String,
        active: bool,
        priceBought: u64,
        stoploss: u64,
        takeprofit: u64,
        trail: Option<StoredTrail>,
    ) -> (t: Trades)
        ensures
            t._id is None,
            t.userid == userid,
            t.address == address,
            t.isEVM == isEVM,
            t.chainID == chainID,
            t.amount == amount,
            t.active == active,
            t.priceBought == priceBought,
            t.stoploss == stoploss,
            t.takeprofit == takeprofit,
            t.trail == trail,
    {
        Trades {
            _id: None,
            userid,
            address,
            isEVM,
            chainID,
            amount,
            active,
            priceBought,
            stoploss,
            takeprofit,
            trail,
        }
    }
}

impl TradeSettings {
    /// Everything off: zero percentages (the bit pattern of 0.0 is zero), no
    /// trailing, one wallet, and bundles on no chain.
    pub fn new(userid: i64) -> (s: TradeSettings)
        ensures
            s.userid == userid,
            !s.multiwallet,
            s.stoploss == 0,
            s.takeprofit == 0,
            !s.trailing,
            s.trailing_stop_loss == 0,
            s.trailing_stop_loss_percentage == 0,
            s.trailing_take_profit == 0,
            s.trailing_take_profit_percentage == 0,
            s.mev_enabled_chains@.len() == 0,
    {
        TradeSettings {
            userid,
            multiwallet: false,
            stoploss: 0,
            takeprofit: 0,
            trailing: false,
            trailing_stop_loss: 0,
            trailing_stop_loss_percentage: 0,
            trailing_take_profit: 0,
            trailing_take_profit_percentage: 0,
            mev_enabled_chains: Vec::new(),
        }
    }
}

/// `a` and `b` belong to the same user and use bundles on the same chains.
pub open spec fn same_owner_and_chains(a: TradeSettings, b: TradeSettings) -> bool {
    a.userid == b.userid && a.mev_enabled_chains@ == b.mev_enabled_chains@
}

/// `a` and `b` hold the same percentages.
pub open spec fn same_percentages(a: TradeSettings, b: TradeSettings) -> bool {
    &&& a.stoploss == b.stoploss
    &&& a.takeprofit == b.takeprofit
    &&& a.trailing_stop_loss == b.trailing_stop_loss
    &&& a.trailing_stop_loss_percentage == b.trailing_stop_loss_percentage
    &&& a.trailing_take_profit == b.trailing_take_profit
    &&& a.trailing_take_profit_percentage == b.trailing_take_profit_percentage
}

impl TradeSettings {
    /// Switches trailing on or off; nothing else changes.
    pub fn toggle_trailing(&mut self)
        ensures
            final(self).trailing == !old(self).trailing,
            final(self).multiwallet == old(self).multiwallet,
            same_percentages(*final(self), *old(self)),
            same_owner_and_chains(*final(self), *old(self)),
    {
        self.trailing = !self.trailing;
    }

    /// Switches multi-wallet buying on or off; nothing else changes.
    pub fn toggle_multiwallet(&mut self)
        ensures
            final(self).multiwallet == !old(self).multiwallet,
            final(self).trailing == old(self).trailing,
            same_percentages(*final(self), *old(self)),
            same_owner_and_chains(*final(self), *old(self)),
    {
        self.multiwallet = !self.multiwallet;
    }

    /// Sets the percentage that a reply sets to the double with bit pattern
    /// `bits`; a reply that sets nothing changes nothing.
    pub fn set_percentage(&mut self, field: ReplyField, bits: u64)
        ensures
            final(self).trailing == old(self).trailing,
            final(self).multiwallet == old(self).multiwallet,
            same_owner_and_chains(*final(self), *old(self)),
            final(self).stoploss == (if field == ReplyField::StopLoss {
                bits
            } else {
                old(self).stoploss
            }),
            final(self).takeprofit == (if field == ReplyField::TakeProfit {
                bits
            } else {
                old(self).takeprofit
            }),
            final(self).trailing_stop_loss == (if field == ReplyField::TrailingStopLoss {
                bits
            } else {
                old(self).trailing_stop_loss
            }),
            final(self).trailing_take_profit == (if field == ReplyField::TrailingTakeProfit {
                bits
            } else {
                old(self).trailing_take_profit
            }),
            final(self).trailing_stop_loss_percentage == old(self).trailing_stop_loss_percentage,
            final(self).trailing_take_profit_percentage == old(self).trailing_take_profit_percentage,
    {
        match field {
            ReplyField::StopLoss => self.stoploss = bits,
            ReplyField::TakeProfit => self.takeprofit = bits,
            ReplyField::TrailingStopLoss => self.trailing_stop_loss = bits,
            ReplyField::TrailingTakeProfit => self.trailing_take_profit = bits,
            ReplyField::Other => {},
        }
    }
}

/// The document trailing settings are stored as; none is an empty document.
pub open spec fn trail_document_of(d: Seq<(String, Bson)>, t: Option<StoredTrail>) -> bool {
    match t {
        Some(t) => {
            &&& d.len() == 4
            &&& field_is(d, 0, "trailing_stop_loss"@, Bson::Double(t.trailing_stop_loss))
            &&& field_is(d, 1, "trailing_stop_loss_percentage"@, Bson::Double(t.trailing_stop_loss_percentage))
            &&& field_is(d, 2, "trailing_take_profit"@, Bson::Double(t.trailing_take_profit))
            &&& field_is(d, 3, "trailing_take_profit_percentage"@, Bson::Double(t.trailing_take_profit_percentage))
        },
        None => d.len() == 0,
    }
}

fn trail_document(t: Option<StoredTrail>) -> (d: Document)
    ensures
        trail_document_of(d@, t),
        keys_unique(d@),
{
    let mut d = Document::new();
    match t {
        Some(t) => {
            proof {
                reveal_strlit("trailing_stop_loss");
                assert("trailing_stop_loss"@ =~= seq!['t', 'r', 'a', 'i', 'l', 'i', 'n', 'g', '_', 's', 't', 'o', 'p', '_', 'l', 'o', 's', 's']);
                reveal_strlit("trailing_stop_loss_percentage");
                assert("trailing_stop_loss_percentage"@ =~= seq!['t', 'r', 'a', 'i', 'l', 'i', 'n', 'g', '_', 's', 't', 'o', 'p', '_', 'l', 'o', 's', 's', '_', 'p', 'e', 'r', 'c', 'e', 'n', 't', 'a', 'g', 'e']);
                reveal_strlit("trailing_take_profit");
                assert("trailing_take_profit"@ =~= seq!['t', 'r', 'a', 'i', 'l', 'i', 'n', 'g', '_', 't', 'a', 'k', 'e', '_', 'p', 'r', 'o', 'f', 'i', 't']);
                reveal_strlit("trailing_take_profit_percentage");
                assert("trailing_take_profit_percentage"@ =~= seq!['t', 'r', 'a', 'i', 'l', 'i', 'n', 'g', '_', 't', 'a', 'k', 'e', '_', 'p', 'r', 'o', 'f', 'i', 't', '_', 'p', 'e', 'r', 'c', 'e', 'n', 't', 'a', 'g', 'e']);
            }
            push_field(&mut d, "trailing_stop_loss", Bson::Double(t.trailing_stop_loss));
            push_field(&mut d, "trailing_stop_loss_percentage", Bson::Double(t.trailing_stop_loss_percentage));
            push_field(&mut d, "trailing_take_profit", Bson::Double(t.trailing_take_profit));
            push_field(&mut d, "trailing_take_profit_percentage", Bson::Double(t.trailing_take_profit_percentage));
        },
        None => {},
    }
    d
}

/// The document a trade is stored as. The user id is not stored, and the
/// chain id, stop loss and take profit are written as decimal text.
pub open spec fn trades_document_of(d: Seq<(String, Bson)>, t: Trades) -> bool {
    &&& d.len() == 10
    &&& field_is(d, 0, "_id"@, object_id_bson(t._id))
    &&& field_is(d, 1, "address"@, Bson::String(t.address))
    &&& field_is(d, 2, "isEVM"@, Bson::Boolean(t.isEVM))
    &&& field_text(d, 3, "chainID"@, decimal(t.chainID as int))
    &&& field_is(d, 4, "amount"@, Bson::String(t.amount))
    &&& field_is(d, 5, "active"@, Bson::Boolean(t.active))
    &&& field_is(d, 6, "priceBought"@, Bson::Double(t.priceBought))
    &&& field_text(d, 7, "stoploss"@, decimal(t.stoploss as int))
    &&& field_text(d, 8, "takeprofit"@, decimal(t.takeprofit as int))
    &&& d[9].0@ == "trail"@
    &&& d[9].1 matches Bson::Document(td) && trail_document_of(td@, t.trail)
}

/// A stored trail from which trailing settings can be read.
pub open spec fn trail_document_ok(d: Seq<(String, Bson)>) -> bool {
    &&& get_f64_spec(d, "trailing_stop_loss"@) is Ok
    &&& get_f64_spec(d, "trailing_stop_loss_percentage"@) is Ok
    &&& get_f64_spec(d, "trailing_take_profit"@) is Ok
    &&& get_f64_spec(d, "trailing_take_profit_percentage"@) is Ok
}

/// A document from which a trade can be read.
pub open spec fn trades_document_ok(d: Seq<(String, Bson)>) -> bool {
    &&& get_object_id_spec(d, "_id"@) is Ok
    &&& get_i64_spec(d, "userid"@) is Ok
    &&& get_str_spec(d, "address"@) is Ok
    &&& get_bool_spec(d, "isEVM"@) is Ok
    &&& get_i64_spec(d, "chainID"@) is Ok
    &&& get_str_spec(d, "amount"@) is Ok
    &&& get_bool_spec(d, "active"@) is Ok
    &&& get_f64_spec(d, "priceBought"@) is Ok
    &&& get_i64_spec(d, "stoploss"@) is Ok
    &&& get_i64_spec(d, "takeprofit"@) is Ok
    &&& (get_document_spec(d, "trail"@) matches Ok(t) ==> trail_document_ok(t@))
}

/// The trailing settings read from a stored trail.
pub open spec fn trail_read(d: Seq<(String, Bson)>) -> StoredTrail {
    StoredTrail {
        trailing_stop_loss: get_f64_spec(d, "trailing_stop_loss"@)->Ok_0,
        trailing_stop_loss_percentage: get_f64_spec(d, "trailing_stop_loss_percentage"@)->Ok_0,
        trailing_take_profit: get_f64_spec(d, "trailing_take_profit"@)->Ok_0,
        trailing_take_profit_percentage: get_f64_spec(d, "trailing_take_profit_percentage"@)->Ok_0,
    }
}

fn read_trail(d: &Document) -> (t: StoredTrail)
    requires
        trail_document_ok(d@),
    ensures
        t == trail_read(d@),
{
    let a = match d.get_f64("trailing_stop_loss") {
        Ok(x) => x,
        Err(_) => vstd::pervasive::unreached(),
    };
    let b = match d.get_f64("trailing_stop_loss_percentage") {
        Ok(x) => x,
        Err(_) => vstd::pervasive::unreached(),
    };
    let c = match d.get_f64("trailing_take_profit") {
        Ok(x) => x,
        Err(_) => vstd::pervasive::unreached(),
    };
    let e = match d.get_f64("trailing_take_profit_percentage") {
        Ok(x) => x,
        Err(_) => vstd::pervasive::unreached(),
    };
    StoredTrail {
        trailing_stop_loss: a,
        trailing_stop_loss_percentage: b,
        trailing_take_profit: c,
        trailing_take_profit_percentage: e,
    }
}

impl Trades {
    /// The stored form of the trade.
    pub fn to_document(self) -> (d: Document)
        ensures
            trades_document_of(d@, self),
            keys_unique(d@),
            get_bool_spec(d@, "isEVM"@) == Ok::<bool, ValueAccessError>(self.isEVM),
            get_bool_spec(d@, "active"@) == Ok::<bool, ValueAccessError>(self.active),
            get_str_spec(d@, "address"@) == Ok::<String, ValueAccessError>(self.address),
            get_str_spec(d@, "amount"@) == Ok::<String, ValueAccessError>(self.amount),
            get_f64_spec(d@, "priceBought"@) == Ok::<u64, ValueAccessError>(self.priceBought),
    {
        let ghost orig = self;
        proof {
            reveal_strlit("_id");
            assert("_id"@ =~= seq!['_', 'i', 'd']);
            reveal_strlit("address");
            assert("address"@ =~= seq!['a', 'd', 'd', 'r', 'e', 's', 's']);
            reveal_strlit("isEVM");
            assert("isEVM"@ =~= seq!['i', 's', 'E', 'V', 'M']);
            reveal_strlit("chainID");
            assert("chainID"@ =~= seq!['c', 'h', 'a', 'i', 'n', 'I', 'D']);
            reveal_strlit("amount");
            assert("amount"@ =~= seq!['a', 'm', 'o', 'u', 'n', 't']);
            reveal_strlit("active");
            assert("active"@ =~= seq!['a', 'c', 't', 'i', 'v', 'e']);
            reveal_strlit("priceBought");
            assert("priceBought"@ =~= seq!['p', 'r', 'i', 'c', 'e', 'B', 'o', 'u', 'g', 'h', 't']);
            reveal_strlit("stoploss");
            assert("stoploss"@ =~= seq!['s', 't', 'o', 'p', 'l', 'o', 's', 's']);
            reveal_strlit("takeprofit");
            assert("takeprofit"@ =~= seq!['t', 'a', 'k', 'e', 'p', 'r', 'o', 'f', 'i', 't']);
            reveal_strlit("trail");
            assert("trail"@ =~= seq!['t', 'r', 'a', 'i', 'l']);
        }
        let mut d = Document::new();
        push_field(&mut d, "_id", object_id_value(self._id));
        push_field(&mut d, "address", Bson::String(self.address));
        push_field(&mut d, "isEVM", Bson::Boolean(self.isEVM));
        push_field(&mut d, "chainID", Bson::String(i64_to_string(self.chainID)));
        push_field(&mut d, "amount", Bson::String(self.amount));
        push_field(&mut d, "active", Bson::Boolean(self.active));
        push_field(&mut d, "priceBought", Bson::Double(self.priceBought));
        push_field(&mut d, "stoploss", Bson::String(u64_to_string(self.stoploss)));
        push_field(&mut d, "takeprofit", Bson::String(u64_to_string(self.takeprofit)));
        push_field(&mut d, "trail", Bson::Document(trail_document(self.trail)));
        proof {
            lemma_trades_document_reads(d@, orig);
        }
        d
    }

    /// Reads a trade back; a `trail` field that is not a document reads as no
    /// trailing settings, and the stop loss and take profit keep the bits of
    /// the stored numbers.
    pub fn from_document(doc: &Document) -> (t: Trades)
        requires
            trades_document_ok(doc@),
        ensures
            t._id == Some(get_object_id_spec(doc@, "_id"@)->Ok_0),
            t.userid == get_i64_spec(doc@, "userid"@)->Ok_0,
            t.address == get_str_spec(doc@, "address"@)->Ok_0,
            t.isEVM == get_bool_spec(doc@, "isEVM"@)->Ok_0,
            t.chainID == get_i64_spec(doc@, "chainID"@)->Ok_0,
            t.amount == get_str_spec(doc@, "amount"@)->Ok_0,
            t.active == get_bool_spec(doc@, "active"@)->Ok_0,
            t.priceBought == get_f64_spec(doc@, "priceBought"@)->Ok_0,
            t.stoploss == get_i64_spec(doc@, "stoploss"@)->Ok_0 as u64,
            t.takeprofit == get_i64_spec(doc@, "takeprofit"@)->Ok_0 as u64,
            t.trail == match get_document_spec(doc@, "trail"@) {
                Ok(td) => Some(trail_read(td@)),
                Err(_) => None,
            },
    {
        let id = match doc.get_object_id("_id") {
            Ok(x) => x,
            Err(_) => vstd::pervasive::unreached(),
        };
        let userid = match doc.get_i64("userid") {
            Ok(x) => x,
            Err(_) => vstd::pervasive::unreached(),
        };
        let address = match doc.get_str("address") {
            Ok(s) => s.clone(),
            Err(_) => vstd::pervasive::unreached(),
        };
        let isEVM = match doc.get_bool("isEVM") {
            Ok(x) => x,
            Err(_) => vstd::pervasive::unreached(),
        };
        let chainID = match doc.get_i64("chainID") {
            Ok(x) => x,
            Err(_) => vstd::pervasive::unreached(),
        };
        let amount = match doc.get_str("amount") {
            Ok(s) => s.clone(),
            Err(_) => vstd::pervasive::unreached(),
        };
        let active = match doc.get_bool("active") {
            Ok(x) => x,
            Err(_) => vstd::pervasive::unreached(),
        };
        let priceBought = match doc.get_f64("priceBought") {
            Ok(x) => x,
            Err(_) => vstd::pervasive::unreached(),
        };
        let stoploss = match doc.get_i64("stoploss") {
            Ok(x) => x as u64,
            Err(_) => vstd::pervasive::unreached(),
        };
        let takeprofit = match doc.get_i64("takeprofit") {
            Ok(x) => x as u64,
            Err(_) => vstd::pervasive::unreached(),
        };
        let trail = match doc.get_document("trail") {
            Ok(td) => Some(read_trail(td)),
            Err(_) => None,
        };
        Trades {
            _id: Some(id),
            userid,
            address,
            isEVM,
            chainID,
            amount,
            active,
            priceBought,
            stoploss,
            takeprofit,
            trail,
        }
    }
}

/// A trade's stored form cannot be read back as a trade: it has no user id.
pub proof fn lemma_trades_document_not_readable(d: Seq<(String, Bson)>, t: Trades)
    requires
        trades_document_of(d, t),
    ensures
        !trades_document_ok(d),
{
    reveal_strlit("userid");
    reveal_strlit("_id");
    reveal_strlit("address");
    reveal_strlit("isEVM");
    reveal_strlit("chainID");
    reveal_strlit("amount");
    reveal_strlit("active");
    reveal_strlit("priceBought");
    reveal_strlit("stoploss");
    reveal_strlit("takeprofit");
    reveal_strlit("trail");
    assert(d[4].0@[0] != "userid"@[0]);
    assert(d[5].0@[0] != "userid"@[0]);
    assert forall|i: int| 0 <= i < d.len() implies d[i].0@ != "userid"@ by {
        if i == 4 || i == 5 {
        } else {
            assert(d[i].0@.len() != 6);
        }
    }
}

/// The document trade settings are stored as; the user id is written as
/// decimal text.
pub open spec fn trade_settings_document_of(d: Seq<(String, Bson)>, s: TradeSettings) -> bool {
    &&& d.len() == 10
    &&& field_text(d, 0, "userid"@, decimal(s.userid as int))
    &&& field_is(d, 1, "multiwallet"@, Bson::Boolean(s.multiwallet))
    &&& field_is(d, 2, "stoploss"@, Bson::Double(s.stoploss))
    &&& field_is(d, 3, "takeprofit"@, Bson::Double(s.takeprofit))
    &&& field_is(d, 4, "trailing"@, Bson::Boolean(s.trailing))
    &&& field_is(d, 5, "trailing_stop_loss"@, Bson::Double(s.trailing_stop_loss))
    &&& field_is(d, 6, "trailing_stop_loss_percentage"@, Bson::Double(s.trailing_stop_loss_percentage))
    &&& field_is(d, 7, "trailing_take_profit"@, Bson::Double(s.trailing_take_profit))
    &&& field_is(d, 8, "trailing_take_profit_percentage"@, Bson::Double(s.trailing_take_profit_percentage))
    &&& d[9].0@ == "mev_enabled_chains"@
    &&& d[9].1 matches Bson::Array(a) && a@.len() == s.mev_enabled_chains@.len() && forall|i: int|
        0 <= i < a@.len() ==> #[trigger] a@[i] == Bson::Int64(s.mev_enabled_chains@[i])
}

/// A document from which trade settings can be read.
pub open spec fn trade_settings_document_ok(d: Seq<(String, Bson)>) -> bool {
    &&& get_i64_spec(d, "userid"@) is Ok
    &&& get_bool_spec(d, "multiwallet"@) is Ok
    &&& get_f64_spec(d, "stoploss"@) is Ok
    &&& get_f64_spec(d, "takeprofit"@) is Ok
    &&& get_bool_spec(d, "trailing"@) is Ok
    &&& trail_document_ok(d)
    &&& get_array_spec(d, "mev_enabled_chains"@) is Ok
    &&& all_int64(get_array_spec(d, "mev_enabled_chains"@)->Ok_0@)
}

impl TradeSettings {
    /// The stored form of the settings.
    pub fn to_document(self) -> (d: Document)
        ensures
            trade_settings_document_of(d@, self),
            keys_unique(d@),
            get_bool_spec(d@, "multiwallet"@) == Ok::<bool, ValueAccessError>(self.multiwallet),
            get_bool_spec(d@, "trailing"@) == Ok::<bool, ValueAccessError>(self.trailing),
            get_f64_spec(d@, "stoploss"@) == Ok::<u64, ValueAccessError>(self.stoploss),
            get_f64_spec(d@, "takeprofit"@) == Ok::<u64, ValueAccessError>(self.takeprofit),
    {
        let ghost orig = self;
        proof {
            reveal_strlit("userid");
            assert("userid"@ =~= seq!['u', 's', 'e', 'r', 'i', 'd']);
            reveal_strlit("multiwallet");
            assert("multiwallet"@ =~= seq!['m', 'u', 'l', 't', 'i', 'w', 'a', 'l', 'l', 'e', 't']);
            reveal_strlit("stoploss");
            assert("stoploss"@ =~= seq!['s', 't', 'o', 'p', 'l', 'o', 's', 's']);
            reveal_strlit("takeprofit");
            assert("takeprofit"@ =~= seq!['t', 'a', 'k', 'e', 'p', 'r', 'o', 'f', 'i', 't']);
            reveal_strlit("trailing");
            assert("trailing"@ =~= seq!['t', 'r', 'a', 'i', 'l', 'i', 'n', 'g']);
            reveal_strlit("trailing_stop_loss");
            assert("trailing_stop_loss"@ =~= seq!['t', 'r', 'a', 'i', 'l', 'i', 'n', 'g', '_', 's', 't', 'o', 'p', '_', 'l', 'o', 's', 's']);
            reveal_strlit("trailing_stop_loss_percentage");
            assert("trailing_stop_loss_percentage"@ =~= seq!['t', 'r', 'a', 'i', 'l', 'i', 'n', 'g', '_', 's', 't', 'o', 'p', '_', 'l', 'o', 's', 's', '_', 'p', 'e', 'r', 'c', 'e', 'n', 't', 'a', 'g', 'e']);
            reveal_strlit("trailing_take_profit");
            assert("trailing_take_profit"@ =~= seq!['t', 'r', 'a', 'i', 'l', 'i', 'n', 'g', '_', 't', 'a', 'k', 'e', '_', 'p', 'r', 'o', 'f', 'i', 't']);
            reveal_strlit("trailing_take_profit_percentage");
            assert("trailing_take_profit_percentage"@ =~= seq!['t', 'r', 'a', 'i', 'l', 'i', 'n', 'g', '_', 't', 'a', 'k', 'e', '_', 'p', 'r', 'o', 'f', 'i', 't', '_', 'p', 'e', 'r', 'c', 'e', 'n', 't', 'a', 'g', 'e']);
            reveal_strlit("mev_enabled_chains");
            assert("mev_enabled_chains"@ =~= seq!['m', 'e', 'v', '_', 'e', 'n', 'a', 'b', 'l', 'e', 'd', '_', 'c', 'h', 'a', 'i', 'n', 's']);
        }
        let mut d = Document::new();
        push_field(&mut d, "userid", Bson::String(i64_to_string(self.userid)));
        push_field(&mut d, "multiwallet", Bson::Boolean(self.multiwallet));
        push_field(&mut d, "stoploss", Bson::Double(self.stoploss));
        push_field(&mut d, "takeprofit", Bson::Double(self.takeprofit));
        push_field(&mut d, "trailing", Bson::Boolean(self.trailing));
        push_field(&mut d, "trailing_stop_loss", Bson::Double(self.trailing_stop_loss));
        push_field(&mut d, "trailing_stop_loss_percentage", Bson::Double(self.trailing_stop_loss_percentage));
        push_field(&mut d, "trailing_take_profit", Bson::Double(self.trailing_take_profit));
        push_field(&mut d, "trailing_take_profit_percentage", Bson::Double(self.trailing_take_profit_percentage));
        push_field(&mut d, "mev_enabled_chains", i64_array(&self.mev_enabled_chains));
        proof {
            lemma_trade_settings_document_reads(d@, orig);
        }
        d
    }

    /// Reads trade settings back from their stored form.
    pub fn from_document(doc: &Document) -> (s: TradeSettings)
        requires
            trade_settings_document_ok(doc@),
        ensures
            s.userid == get_i64_spec(doc@, "userid"@)->Ok_0,
            s.multiwallet == get_bool_spec(doc@, "multiwallet"@)->Ok_0,
            s.stoploss == get_f64_spec(doc@, "stoploss"@)->Ok_0,
            s.takeprofit == get_f64_spec(doc@, "takeprofit"@)->Ok_0,
            s.trailing == get_bool_spec(doc@, "trailing"@)->Ok_0,
            s.trailing_stop_loss == trail_read(doc@).trailing_stop_loss,
            s.trailing_stop_loss_percentage == trail_read(doc@).trailing_stop_loss_percentage,
            s.trailing_take_profit == trail_read(doc@).trailing_take_profit,
            s.trailing_take_profit_percentage == trail_read(doc@).trailing_take_profit_percentage,
            s.mev_enabled_chains@.len() == get_array_spec(doc@, "mev_enabled_chains"@)->Ok_0@.len(),
            forall|i: int|
                0 <= i < s.mev_enabled_chains@.len() ==> get_array_spec(doc@, "mev_enabled_chains"@)->Ok_0@[i]
                    == Bson::Int64(#[trigger] s.mev_enabled_chains@[i]),
    {
        let userid = match doc.get_i64("userid") {
            Ok(x) => x,
            Err(_) => vstd::pervasive::unreached(),
        };
        let multiwallet = match doc.get_bool("multiwallet") {
            Ok(x) => x,
            Err(_) => vstd::pervasive::unreached(),
        };
        let stoploss = match doc.get_f64("stoploss") {
            Ok(x) => x,
            Err(_) => vstd::pervasive::unreached(),
        };
        let takeprofit = match doc.get_f64("takeprofit") {
            Ok(x) => x,
            Err(_) => vstd::pervasive::unreached(),
        };
        let trailing = match doc.get_bool("trailing") {
            Ok(x) => x,
            Err(_) => vstd::pervasive::unreached(),
        };
        let t = read_trail(doc);
        let mev_enabled_chains = match doc.get_array("mev_enabled_chains") {
            Ok(a) => read_i64_array(a),
            Err(_) => vstd::pervasive::unreached(),
        };
        TradeSettings {
            userid,
            multiwallet,
            stoploss,
            takeprofit,
            trailing,
            trailing_stop_loss: t.trailing_stop_loss,
            trailing_stop_loss_percentage: t.trailing_stop_loss_percentage,
            trailing_take_profit: t.trailing_take_profit,
            trailing_take_profit_percentage: t.trailing_take_profit_percentage,
            mev_enabled_chains,
        }
    }
}

/// Stored trade settings cannot be read back: the user id is stored as
/// text, while reading expects a 64-bit integer.
pub proof fn lemma_trade_settings_document_not_readable(d: Seq<(String, Bson)>, s: TradeSettings)
    requires
        trade_settings_document_of(d, s),
        keys_unique(d),
    ensures
        !trade_settings_document_ok(d),
{
    lemma_lookup_unique_at(d, 0);
}

// ---------------------------------------------------------------------------
// What a stored form reads back as
// ---------------------------------------------------------------------------

/// Reading a wallet's stored form gives back the wallet's key, address, name,
/// chains and id, each under its own field name; the user id is the decimal
/// text of the wallet's user id.
pub proof fn lemma_wallet_document_reads(d: Seq<(String, Bson)>, w: Wallet)
    requires
        wallet_document_of(d, w),
        keys_unique(d),
    ensures
        get_str_spec(d, "privateKey"@) == Ok::<String, ValueAccessError>(w.privateKey),
        get_str_spec(d, "address"@) == Ok::<String, ValueAccessError>(w.address),
        get_str_spec(d, "name"@) == Ok::<String, ValueAccessError>(w.name),
        get_str_spec(d, "userid"@) matches Ok(u) && u@ == decimal(w.userid as int) && (w.userid >= 0
            ==> parse_u128_spec(u@) == Ok::<int, IntErrorKind>(w.userid as int)),
        w._id matches Some(x) ==> get_object_id_spec(d, "_id"@) == Ok::<ObjectId, ValueAccessError>(x),
        get_array_spec(d, "chainIDs"@) matches Ok(a) && a@.len() == w.chainIDs@.len() && forall|i: int|
            0 <= i < a@.len() ==> #[trigger] a@[i] == Bson::Int64(w.chainIDs@[i]),
{
    lemma_lookup_unique_at(d, 0);
    lemma_lookup_unique_at(d, 1);
    lemma_lookup_unique_at(d, 2);
    lemma_lookup_unique_at(d, 3);
    lemma_lookup_unique_at(d, 4);
    lemma_lookup_unique_at(d, 5);
    if w.userid >= 0 {
        lemma_parse_format_roundtrip(w.userid as u128);
    }
}

/// The four trail field names are different texts.
proof fn lemma_trail_keys_unique(d: Seq<(String, Bson)>, t: Option<StoredTrail>)
    requires
        trail_document_of(d, t),
    ensures
        keys_unique(d),
{
    reveal_strlit("trailing_stop_loss");
    reveal_strlit("trailing_stop_loss_percentage");
    reveal_strlit("trailing_take_profit");
    reveal_strlit("trailing_take_profit_percentage");
    if t is Some {
        assert forall|i: int, j: int| 0 <= i < j < d.len() implies d[i].0@ != d[j].0@ by {
            assert(d[i].0@.len() != d[j].0@.len());
        }
    }
}

/// Reading a trade's stored form gives back its flags, address, amount, buy
/// price and id, each under its own field name; the stop loss and take
/// profit read back as numbers from their text, and so does a chain id that
/// is not negative; the stored trail reads back the trade's trailing values,
/// and is empty when the trade has none.
pub proof fn lemma_trades_document_reads(d: Seq<(String, Bson)>, t: Trades)
    requires
        trades_document_of(d, t),
        keys_unique(d),
    ensures
        get_bool_spec(d, "isEVM"@) == Ok::<bool, ValueAccessError>(t.isEVM),
        get_bool_spec(d, "active"@) == Ok::<bool, ValueAccessError>(t.active),
        get_str_spec(d, "address"@) == Ok::<String, ValueAccessError>(t.address),
        get_str_spec(d, "amount"@) == Ok::<String, ValueAccessError>(t.amount),
        get_f64_spec(d, "priceBought"@) == Ok::<u64, ValueAccessError>(t.priceBought),
        t._id matches Some(x) ==> get_object_id_spec(d, "_id"@) == Ok::<ObjectId, ValueAccessError>(x),
        get_str_spec(d, "stoploss"@) matches Ok(s) && parse_u128_spec(s@) == Ok::<int, IntErrorKind>(
            t.stoploss as int,
        ),
        get_str_spec(d, "takeprofit"@) matches Ok(s) && parse_u128_spec(s@) == Ok::<int, IntErrorKind>(
            t.takeprofit as int,
        ),
        get_str_spec(d, "chainID"@) matches Ok(s) && (t.chainID >= 0 ==> parse_u128_spec(s@)
            == Ok::<int, IntErrorKind>(t.chainID as int)),
        get_document_spec(d, "trail"@) matches Ok(td) && match t.trail {
            Some(x) => {
                &&& get_f64_spec(td@, "trailing_stop_loss"@) == Ok::<u64, ValueAccessError>(
                    x.trailing_stop_loss,
                )
                &&& get_f64_spec(td@, "trailing_stop_loss_percentage"@) == Ok::<
                    u64,
                    ValueAccessError,
                >(x.trailing_stop_loss_percentage)
                &&& get_f64_spec(td@, "trailing_take_profit"@) == Ok::<u64, ValueAccessError>(
                    x.trailing_take_profit,
                )
                &&& get_f64_spec(td@, "trailing_take_profit_percentage"@) == Ok::<
                    u64,
                    ValueAccessError,
                >(x.trailing_take_profit_percentage)
            },
            None => td@.len() == 0,
        },
{
    lemma_lookup_unique_at(d, 0);
    lemma_lookup_unique_at(d, 1);
    lemma_lookup_unique_at(d, 2);
    lemma_lookup_unique_at(d, 3);
    lemma_lookup_unique_at(d, 4);
    lemma_lookup_unique_at(d, 5);
    lemma_lookup_unique_at(d, 6);
    lemma_lookup_unique_at(d, 7);
    lemma_lookup_unique_at(d, 8);
    lemma_lookup_unique_at(d, 9);
    lemma_parse_format_roundtrip(t.stoploss as u128);
    lemma_parse_format_roundtrip(t.takeprofit as u128);
    if t.chainID >= 0 {
        lemma_parse_format_roundtrip(t.chainID as u128);
    }
    let td = get_document_spec(d, "trail"@)->Ok_0;
    lemma_trail_keys_unique(td@, t.trail);
    if t.trail is Some {
        lemma_lookup_unique_at(td@, 0);
        lemma_lookup_unique_at(td@, 1);
        lemma_lookup_unique_at(td@, 2);
        lemma_lookup_unique_at(td@, 3);
    }
}

/// Reading stored trade settings gives back their switches, percentages and
/// chains, each under its own field name; the user id is the decimal text of
/// the settings' user id.
pub proof fn lemma_trade_settings_document_reads(d: Seq<(String, Bson)>, s: TradeSettings)
    requires
        trade_settings_document_of(d, s),
        keys_unique(d),
    ensures
        get_bool_spec(d, "multiwallet"@) == Ok::<bool, ValueAccessError>(s.multiwallet),
        get_bool_spec(d, "trailing"@) == Ok::<bool, ValueAccessError>(s.trailing),
        get_f64_spec(d, "stoploss"@) == Ok::<u64, ValueAccessError>(s.stoploss),
        get_f64_spec(d, "takeprofit"@) == Ok::<u64, ValueAccessError>(s.takeprofit),
        get_f64_spec(d, "trailing_stop_loss"@) == Ok::<u64, ValueAccessError>(s.trailing_stop_loss),
        get_f64_spec(d, "trailing_stop_loss_percentage"@) == Ok::<u64, ValueAccessError>(
            s.trailing_stop_loss_percentage,
        ),
        get_f64_spec(d, "trailing_take_profit"@) == Ok::<u64, ValueAccessError>(s.trailing_take_profit),
        get_f64_spec(d, "trailing_take_profit_percentage"@) == Ok::<u64, ValueAccessError>(
            s.trailing_take_profit_percentage,
        ),
        get_str_spec(d, "userid"@) matches Ok(u) && u@ == decimal(s.userid as int) && (s.userid >= 0
            ==> parse_u128_spec(u@) == Ok::<int, IntErrorKind>(s.userid as int)),
        get_array_spec(d, "mev_enabled_chains"@) matches Ok(a) && a@.len() == s.mev_enabled_chains@.len()
            && forall|i: int| 0 <= i < a@.len() ==> #[trigger] a@[i] == Bson::Int64(s.mev_enabled_chains@[i]),
{
    lemma_lookup_unique_at(d, 0);
    lemma_lookup_unique_at(d, 1);
    lemma_lookup_unique_at(d, 2);
    lemma_lookup_unique_at(d, 3);
    lemma_lookup_unique_at(d, 4);
    lemma_lookup_unique_at(d, 5);
    lemma_lookup_unique_at(d, 6);
    lemma_lookup_unique_at(d, 7);
    lemma_lookup_unique_at(d, 8);
    lemma_lookup_unique_at(d, 9);
    if s.userid >= 0 {
        lemma_parse_format_roundtrip(s.userid as u128);
    }
}

/// Reading a user's stored form gives back the user's id, when it has one,
/// and the user id as decimal text, which reads back as the number when it
/// is not negative.
pub proof fn lemma_user_document_reads(d: Seq<(String, Bson)>, u: User)
    requires
        user_document_of(d, u),
        keys_unique(d),
    ensures
        u._id matches Some(x) ==> get_object_id_spec(d, "_id"@) == Ok::<ObjectId, ValueAccessError>(x),
        get_str_spec(d, "userid"@) matches Ok(t) && t@ == decimal(u.userid as int) && (u.userid >= 0
            ==> parse_u128_spec(t@) == Ok::<int, IntErrorKind>(u.userid as int)),
{
    lemma_lookup_unique_at(d, 0);
    lemma_lookup_unique_at(d, 1);
    if u.userid >= 0 {
        lemma_parse_format_roundtrip(u.userid as u128);
    }
}

} // verus!
