//! Helpers of the bot: explorer links, pair listings from a pair search,
//! function-signature lookups, address extraction and request ids.
use crate::config::SConfig;
use crate::wallet::{hex_digit_lower, hex_lower, is_hex_char, os_random_bytes};
use crate::models::utf8_len;
use crate::strmap::{
    has_key, insert_entry, lemma_lookup_insert_other, lemma_lookup_insert_same, lookup, StrMap,
};
use crate::text::{chars_of, push_str, str_eq};
use vstd::prelude::*;
use vstd::string::*;

verus! {

/// The explorer link of a token: the network's explorer, `/token/`, the token.
pub fn get_token_url(config: &SConfig, token: &str, network: &str) -> (url: String)
    requires
        has_key(config.networks@, network@),
    ensures
        url@ == lookup(config.networks@, network@)->0.explorer@ + "/token/"@ + token@,
{
    let net = config.getNetwork(network);
    let mut url = net.explorer.clone();
    push_str(&mut url, "/token/");
    push_str(&mut url, token);
    url
}

/// A pair found by a pair search.
pub struct PairData {
    pub chain: String,
    pub exchange: String,
    pub pair: String,
    pub base: String,
    pub quote: String,
    /// Unix time of creation.
    pub created_at: i64,
    /// Pool version: 3 or 4.
    pub version: u8,
}

/// A token as a pair search names it.
pub struct DexToken {
    pub address: String,
}

/// One pair of a pair search's answer.
pub struct DexScreenerPair {
    pub chainId: String,
    pub dexId: String,
    pub pairAddress: String,
    pub baseToken: DexToken,
    pub quoteToken: DexToken,
    pub pairCreatedAt: Option<i64>,
    pub labels: Option<Vec<String>>,
}

/// Some label is "v3".
pub open spec fn has_v3_label(l: Seq<String>) -> bool {
    exists|i: int| 0 <= i < l.len() && #[trigger] l[i]@ == "v3"@
}

/// A pool is version 3 when its labels include "v3", and version 4 otherwise.
pub open spec fn pair_version_spec(labels: Option<Vec<String>>) -> u8 {
    match labels {
        Some(l) => if has_v3_label(l@) {
            3
        } else {
            4
        },
        None => 4,
    }
}

/// The pool version that a pair's labels give.
pub fn pair_version(labels: &Option<Vec<String>>) -> (v: u8)
    ensures
        v == pair_version_spec(*labels),
{
    match labels {
        Some(l) => {
            let mut i: usize = 0;
            while i < l.len()
                invariant
                    *labels == Some(*l),
                    i <= l@.len(),
                    forall|j: int| 0 <= j < i ==> l@[j]@ != "v3"@,
                decreases l.len() - i,
            {
                if str_eq(l[i].as_str(), "v3") {
                    assert(l@[i as int]@ == "v3"@);
                    assert(has_v3_label(l@));
                    return 3;
                }
                i = i + 1;
            }
            4
        },
        None => 4,
    }
}

/// The pair listing of one search result; a pair without a creation time
/// takes `now`.
pub open spec fn pair_data_spec(p: DexScreenerPair, now: i64) -> PairData {
    PairData {
        chain: p.chainId,
        exchange: p.dexId,
        pair: p.pairAddress,
        base: p.baseToken.address,
        quote: p.quoteToken.address,
        created_at: match p.pairCreatedAt {
            Some(t) => t,
            None => now,
        },
        version: pair_version_spec(p.labels),
    }
}

/// The pair listings of a search answer, in the answer's order; pairs
/// without a creation time take `now`, the current Unix time in seconds.
pub fn pairs_from_dexscreener(pairs: Vec<DexScreenerPair>, now: i64) -> (r: Vec<PairData>)
    ensures
        r@.len() == pairs@.len(),
        forall|i: int| 0 <= i < pairs@.len() ==> #[trigger] r@[i] == pair_data_spec(pairs@[i], now),
        forall|i: int|
            0 <= i < pairs@.len() ==> {
                &&& (#[trigger] r@[i]).chain == pairs@[i].chainId
                &&& r@[i].exchange == pairs@[i].dexId
                &&& r@[i].pair == pairs@[i].pairAddress
                &&& r@[i].base == pairs@[i].baseToken.address
                &&& r@[i].quote == pairs@[i].quoteToken.address
                &&& (pairs@[i].pairCreatedAt is Some ==> r@[i].created_at
                    == pairs@[i].pairCreatedAt->0)
                &&& (pairs@[i].pairCreatedAt is None ==> r@[i].created_at == now)
                &&& (r@[i].version == 3 || r@[i].version == 4)
                &&& (r@[i].version == 3 <==> (pairs@[i].labels is Some && exists|j: int|
                    0 <= j < pairs@[i].labels->0@.len() && pairs@[i].labels->0@[j]@ == "v3"@))
            },
{
    let mut out: Vec<PairData> = Vec::new();
    let mut rest = pairs;
    let ghost all = rest@;
    let ghost mut done: int = 0;
    while rest.len() > 0
        invariant
            0 <= done <= all.len(),
            rest@ == all.subrange(done, all.len() as int),
            out@.len() == done,
            forall|j: int| 0 <= j < done ==> #[trigger] out@[j] == pair_data_spec(all[j], now),
        decreases rest.len(),
    {
        let p = rest.remove(0);
        let version = pair_version(&p.labels);
        let created_at = match p.pairCreatedAt {
            Some(t) => t,
            None => now,
        };
        out.push(
            PairData {
                chain: p.chainId,
                exchange: p.dexId,
                pair: p.pairAddress,
                base: p.baseToken.address,
                quote: p.quoteToken.address,
                created_at,
                version,
            },
        );
        proof {
            done = done + 1;
            assert(rest@ =~= all.subrange(done, all.len() as int));
        }
    }
    proof {
        assert(all.subrange(0, all.len() as int) =~= all);
        assert forall|i: int| 0 <= i < all.len() implies (#[trigger] out@[i]).version == 3
            <==> (all[i].labels is Some && exists|j: int|
            0 <= j < all[i].labels->0@.len() && all[i].labels->0@[j]@ == "v3"@) by {
            if all[i].labels is Some && exists|j: int|
                0 <= j < all[i].labels->0@.len() && all[i].labels->0@[j]@ == "v3"@ {
                let j = choose|j: int| 0 <= j < all[i].labels->0@.len() && all[i].labels->0@[j]@ == "v3"@;
                assert(all[i].labels->0@[j]@ == "v3"@);
            }
        }
    }
    out
}

/// A result's creation time does not depend on the current time when the
/// result carries one: two listings of it made at different times agree.
pub proof fn lemma_creation_time_kept(p: DexScreenerPair, now1: i64, now2: i64)
    requires
        p.pairCreatedAt is Some,
    ensures
        pair_data_spec(p, now1).created_at == p.pairCreatedAt->0,
        pair_data_spec(p, now1).created_at == pair_data_spec(p, now2).created_at,
{
}

/// `s` with every `0x` removed, matching from the left.
pub open spec fn without_0x(s: Seq<char>) -> Seq<char>
    decreases s.len(),
{
    if s.len() == 0 {
        s
    } else if s.len() >= 2 && s[0] == '0' && s[1] == 'x' {
        without_0x(s.skip(2))
    } else {
        seq![s[0]] + without_0x(s.skip(1))
    }
}

/// The number of UTF-8 bytes of `s`.
pub open spec fn utf8_size(s: Seq<char>) -> int
    decreases s.len(),
{
    if s.len() == 0 {
        0
    } else {
        utf8_len(s[0]) + utf8_size(s.drop_first())
    }
}

proof fn lemma_utf8_size_nonneg(s: Seq<char>)
    ensures
        utf8_size(s) >= 0,
    decreases s.len(),
{
    if s.len() > 0 {
        lemma_utf8_size_nonneg(s.drop_first());
    }
}

/// The hashes that go into a lookup: those that are 8 bytes long once
/// every `0x` is removed, in their order.
pub open spec fn selector_hashes(hs: Seq<String>) -> Seq<Seq<char>>
    decreases hs.len(),
{
    if hs.len() == 0 {
        Seq::empty()
    } else {
        let h = hs.last()@;
        if utf8_size(without_0x(h)) == 8 {
            selector_hashes(hs.drop_last()).push(h)
        } else {
            selector_hashes(hs.drop_last())
        }
    }
}

/// Texts joined by commas.
pub open spec fn join_commas(xs: Seq<Seq<char>>) -> Seq<char>
    decreases xs.len(),
{
    if xs.len() == 0 {
        Seq::empty()
    } else if xs.len() == 1 {
        xs[0]
    } else {
        join_commas(xs.drop_last()) + ","@ + xs.last()
    }
}

/// Adding a hash to the lookup: one that is not 8 bytes long once every `0x`
/// is removed leaves the query as it was; one that is goes last, after a
/// comma when the query already holds a hash.
pub proof fn lemma_lookup_query_push(hs: Seq<String>, h: String)
    ensures
        utf8_size(without_0x(h@)) != 8 ==> join_commas(selector_hashes(hs.push(h))) == join_commas(
            selector_hashes(hs),
        ),
        utf8_size(without_0x(h@)) == 8 ==> join_commas(selector_hashes(hs.push(h))) == if selector_hashes(
            hs,
        ).len() == 0 {
            h@
        } else {
            join_commas(selector_hashes(hs)) + ","@ + h@
        },
{
    assert(hs.push(h).drop_last() =~= hs);
    let sel = selector_hashes(hs);
    if utf8_size(without_0x(h@)) == 8 {
        assert(sel.push(h@).drop_last() =~= sel);
        if sel.len() == 0 {
            assert(sel.push(h@)[0] == h@);
        }
    }
}

/// Whether `s` is 8 bytes long once every `0x` is removed.
fn is_selector_length(s: &str) -> (r: bool)
    ensures
        r == (utf8_size(without_0x(s@)) == 8),
{
    let v = chars_of(s);
    let mut i: usize = 0;
    let mut n: usize = 0;
    assert(s@.skip(0) =~= s@);
    while i < v.len()
        invariant
            v@ == s@,
            i <= v.len(),
            n <= 8,
            utf8_size(without_0x(s@)) == n + utf8_size(without_0x(s@.skip(i as int))),
        decreases v.len() - i,
    {
        let ghost t = s@.skip(i as int);
        if i + 1 < v.len() && v[i] == '0' && v[i + 1] == 'x' {
            assert(t.skip(2) =~= s@.skip(i + 2));
            i = i + 2;
        } else {
            let c = v[i];
            let w: usize = if (c as u32) < 0x80 {
                1
            } else if (c as u32) < 0x800 {
                2
            } else if (c as u32) < 0x10000 {
                3
            } else {
                4
            };
            assert(t.skip(1) =~= s@.skip(i + 1));
            assert((seq![t[0]] + without_0x(t.skip(1))).drop_first() =~= without_0x(t.skip(1)));
            i = i + 1;
            if n + w > 8 {
                proof {
                    lemma_utf8_size_nonneg(without_0x(s@.skip(i as int)));
                }
                return false;
            }
            n = n + w;
        }
    }
    assert(s@.skip(i as int) =~= Seq::<char>::empty());
    n == 8
}

/// The signature lookup URL: `base`, then the hashes that are 8 bytes long
/// once every `0x` is removed, joined by commas.
pub fn openchain_lookup_url(base: &str, hashes: &Vec<String>) -> (url: String)
    ensures
        url@ == base@ + join_commas(selector_hashes(hashes@)),
{
    let mut s = String::new();
    push_str(&mut s, base);
    let mut added: usize = 0;
    let mut i: usize = 0;
    while i < hashes.len()
        invariant
            i <= hashes@.len(),
            added <= i,
            added == selector_hashes(hashes@.subrange(0, i as int)).len(),
            s@ == base@ + join_commas(selector_hashes(hashes@.subrange(0, i as int))),
        decreases hashes.len() - i,
    {
        let h = hashes[i].as_str();
        let ghost prev = selector_hashes(hashes@.subrange(0, i as int));
        assert(hashes@.subrange(0, i + 1).drop_last() =~= hashes@.subrange(0, i as int));
        if is_selector_length(h) {
            if added > 0 {
                push_str(&mut s, ",");
            }
            push_str(&mut s, h);
            added = added + 1;
            proof {
                let next = prev.push(h@);
                assert(next.drop_last() =~= prev);
                assert(s@ =~= base@ + join_commas(next));
            }
        }
        i = i + 1;
    }
    assert(hashes@.subrange(0, hashes@.len() as int) =~= hashes@);
    s
}

/// The names found for each function hash: the first signature's name, when
/// the hash has a non-empty list of signatures whose first one has a name.
pub open spec fn signature_entries(fs: Seq<(String, Option<Vec<Option<String>>>)>) -> Seq<(String, String)>
    decreases fs.len(),
{
    if fs.len() == 0 {
        Seq::empty()
    } else {
        let prev = signature_entries(fs.drop_last());
        let h = fs.last().0;
        match fs.last().1 {
            Some(a) => if a@.len() > 0 && a@[0] is Some {
                insert_entry(prev, h, a@[0]->0)
            } else {
                prev
            },
            None => prev,
        }
    }
}

/// A hash whose signature list is non-empty and whose first signature has a
/// name maps to that first name, unless a later entry has the same hash; the
/// signatures after the first play no part.
pub proof fn lemma_signature_first_name(fs: Seq<(String, Option<Vec<Option<String>>>)>, i: int)
    requires
        0 <= i < fs.len(),
        fs[i].1 matches Some(a) && a@.len() > 0 && a@[0] is Some,
        forall|j: int| i < j < fs.len() ==> fs[j].0@ != fs[i].0@,
    ensures
        lookup(signature_entries(fs), fs[i].0@) == Some(fs[i].1->0@[0]->0),
    decreases fs.len(),
{
    let prev = signature_entries(fs.drop_last());
    let h = fs.last().0;
    if i == fs.len() - 1 {
        lemma_lookup_insert_same(prev, h, fs[i].1->0@[0]->0);
    } else {
        assert(fs.drop_last()[i] == fs[i]);
        lemma_signature_first_name(fs.drop_last(), i);
        match fs.last().1 {
            Some(a) => {
                if a@.len() > 0 && a@[0] is Some {
                    lemma_lookup_insert_other(prev, h, a@[0]->0, fs[i].0@);
                }
            },
            None => {},
        }
    }
}

/// A hash that no entry gives a named first signature is not in the map.
pub proof fn lemma_signature_unnamed_absent(fs: Seq<(String, Option<Vec<Option<String>>>)>, k: Seq<char>)
    requires
        forall|j: int|
            0 <= j < fs.len() && #[trigger] fs[j].0@ == k ==> !(fs[j].1 matches Some(a) && a@.len() > 0
                && a@[0] is Some),
    ensures
        lookup(signature_entries(fs), k) is None,
    decreases fs.len(),
{
    if fs.len() > 0 {
        let prev = signature_entries(fs.drop_last());
        let h = fs.last().0;
        assert forall|j: int|
            0 <= j < fs.drop_last().len() && #[trigger] fs.drop_last()[j].0@ == k implies !(
            fs.drop_last()[j].1 matches Some(a) && a@.len() > 0 && a@[0] is Some) by {
            assert(fs.drop_last()[j] == fs[j]);
        }
        lemma_signature_unnamed_absent(fs.drop_last(), k);
        match fs.last().1 {
            Some(a) => {
                if a@.len() > 0 && a@[0] is Some {
                    assert(fs[fs.len() - 1].0@ == h@);
                    lemma_lookup_insert_other(prev, h, a@[0]->0, k);
                }
            },
            None => {},
        }
    }
}

/// Maps each function hash to the name of its first known signature.
/// `functions` holds, per hash, the signatures' names when the lookup gave a
/// list of signatures (a signature without a name is `None`).
pub fn signature_names(functions: Vec<(String, Option<Vec<Option<String>>>)>) -> (names: StrMap<String>)
    ensures
        names@ == signature_entries(functions@),
        forall|i: int|
            0 <= i < functions@.len() && (#[trigger] functions@[i]).1 is Some
                && functions@[i].1->0@.len() > 0 && functions@[i].1->0@[0] is Some && (forall|j: int| i < j < functions@.len() ==> functions@[j].0@
                != functions@[i].0@) ==> lookup(names@, functions@[i].0@) == Some(
                functions@[i].1->0@[0]->0,
            ),
{
    let mut names: StrMap<String> = StrMap::new();
    let mut rest = functions;
    let ghost all = rest@;
    let ghost mut done: int = 0;
    assert(all.subrange(0, 0) =~= Seq::<(String, Option<Vec<Option<String>>>)>::empty());
    while rest.len() > 0
        invariant
            0 <= done <= all.len(),
            rest@ == all.subrange(done, all.len() as int),
            names@ == signature_entries(all.subrange(0, done)),
        decreases rest.len(),
    {
        let (hash, sigs) = rest.remove(0);
        proof {
            assert(all.subrange(0, done + 1).drop_last() =~= all.subrange(0, done));
        }
        match sigs {
            Some(mut a) => {
                if a.len() > 0 {
                    let first = a.remove(0);
                    match first {
                        Some(name) => {
                            names.insert(hash, name);
                        },
                        None => {},
                    }
                }
            },
            None => {},
        }
        proof {
            done = done + 1;
            assert(rest@ =~= all.subrange(done, all.len() as int));
        }
    }
    assert(all.subrange(0, all.len() as int) =~= all);
    proof {
        assert forall|i: int|
            0 <= i < all.len() && (#[trigger] all[i]).1 is Some && all[i].1->0@.len() > 0
                && all[i].1->0@[0] is Some && (forall|j: int| i < j < all.len() ==> all[j].0@ != all[i].0@) implies lookup(
            names@,
            all[i].0@,
        ) == Some(all[i].1->0@[0]->0) by {
            lemma_signature_first_name(all, i);
        }
    }
    names
}

/// A whole text that is an address: `0x` and 40 hex digits, nothing else.
pub open spec fn is_eth_address_text(s: Seq<char>) -> bool {
    &&& s.len() == 42
    &&& s[0] == '0'
    &&& s[1] == 'x'
    &&& forall|i: int| 2 <= i < 42 ==> is_hex_char(#[trigger] s[i])
}

/// The pattern of a whole text that is an address: `0x` and 40 hex digits.
pub open spec fn eth_address_pattern() -> Seq<char> {
    "^0x[a-fA-F0-9]{40}$"@
}

/// `Regex::new(pattern)` then `find_iter(text)`, each match taken as text;
/// `None` when the pattern does not compile. For the address pattern, which
/// compiles and is anchored at both ends (`^` and `$` match only at the start
/// and end of the text), there is one match, the whole text, when the text is
/// an address, and none otherwise. Nothing is stated for other patterns.
#[verifier::external_body]
fn regex_find_all(pattern: &str, text: &str) -> (r: Option<Vec<String>>)
    ensures
        pattern@ == eth_address_pattern() ==> r is Some,
        pattern@ == eth_address_pattern() && is_eth_address_text(text@) ==> r->0@.len() == 1
            && r->0@[0]@ == text@,
        pattern@ == eth_address_pattern() && !is_eth_address_text(text@) ==> r->0@.len() == 0,
{
    match regex::Regex::new(pattern) {
        Ok(re) => Some(re.find_iter(text).map(|m| m.as_str().to_string()).collect()),
        Err(_) => None,
    }
}

/// The matches of the address pattern in `text`: the whole text when it is an
/// address, nothing otherwise.
pub fn get_eth_addresses(text: &str) -> (r: Vec<String>)
    ensures
        if is_eth_address_text(text@) {
            r@.len() == 1 && r@[0]@ == text@
        } else {
            r@.len() == 0
        },
{
    match regex_find_all("^0x[a-fA-F0-9]{40}$", text) {
        Some(v) => v,
        None => vstd::pervasive::unreached(),
    }
}

/// A lower-case hex digit.
pub open spec fn is_lower_hex(c: char) -> bool {
    ('0' <= c && c <= '9') || ('a' <= c && c <= 'f')
}

/// The 16 bytes of a version-4 id made from random bytes: the high half of
/// byte 6 becomes the version, 4, and the two high bits of byte 8 become the
/// variant, `10`.
pub open spec fn uuid_v4_bytes(b: Seq<u8>) -> Seq<u8> {
    b.update(6, (b[6] & 0x0f) | 0x40).update(8, (b[8] & 0x3f) | 0x80)
}

/// The text of an id: its bytes in lower-case hex, in groups of 4, 2, 2, 2
/// and 6 bytes joined by hyphens.
pub open spec fn uuid_text(u: Seq<u8>) -> Seq<char> {
    hex_lower(u.subrange(0, 4)) + seq!['-'] + hex_lower(u.subrange(4, 6)) + seq!['-'] + hex_lower(
        u.subrange(6, 8),
    ) + seq!['-'] + hex_lower(u.subrange(8, 10)) + seq!['-'] + hex_lower(u.subrange(10, 16))
}

/// `s` has the form of a version-4 id: 36 characters, hyphens at 8, 13, 18
/// and 23, lower-case hex digits elsewhere, the version digit `4` at 14, and
/// one of `8`, `9`, `a`, `b` at 19.
pub open spec fn is_uuid_v4_text(s: Seq<char>) -> bool {
    &&& s.len() == 36
    &&& s[8] == '-' && s[13] == '-' && s[18] == '-' && s[23] == '-'
    &&& s[14] == '4'
    &&& (s[19] == '8' || s[19] == '9' || s[19] == 'a' || s[19] == 'b')
    &&& forall|i: int|
        0 <= i < 36 && i != 8 && i != 13 && i != 18 && i != 23 ==> is_lower_hex(#[trigger] s[i])
}

proof fn lemma_hex_lower_digits(u: Seq<u8>)
    ensures
        hex_lower(u).len() == 2 * u.len(),
        forall|i: int| 0 <= i < 2 * u.len() ==> is_lower_hex(#[trigger] hex_lower(u)[i]),
        u.len() > 0 ==> hex_lower(u)[0] == hex_digit_lower(u[0] as int / 16),
{
    assert forall|i: int| 0 <= i < 2 * u.len() implies is_lower_hex(#[trigger] hex_lower(u)[i]) by {
        let b = u[i / 2] as int;
        assert(0 <= b / 16 < 16 && 0 <= b % 16 < 16);
    }
}

/// Every id made from random bytes has the form of a version-4 id.
pub proof fn lemma_uuid_v4_form(b: Seq<u8>)
    requires
        b.len() == 16,
    ensures
        is_uuid_v4_text(uuid_text(uuid_v4_bytes(b))),
{
    let v = uuid_v4_bytes(b);
    let x6: u8 = b[6];
    let x8: u8 = b[8];
    assert(((x6 & 0x0f) | 0x40) / 16 == 4) by (bit_vector);
    assert(8 <= ((x8 & 0x3f) | 0x80) / 16 <= 11) by (bit_vector);
    let g0 = v.subrange(0, 4);
    let g1 = v.subrange(4, 6);
    let g2 = v.subrange(6, 8);
    let g3 = v.subrange(8, 10);
    let g4 = v.subrange(10, 16);
    lemma_hex_lower_digits(g0);
    lemma_hex_lower_digits(g1);
    lemma_hex_lower_digits(g2);
    lemma_hex_lower_digits(g3);
    lemma_hex_lower_digits(g4);
    let s = uuid_text(v);
    assert(g2[0] == v[6]);
    assert(g3[0] == v[8]);
    assert(s[14] == hex_lower(g2)[0]);
    assert(s[19] == hex_lower(g3)[0]);
    assert forall|i: int|
        0 <= i < 36 && i != 8 && i != 13 && i != 18 && i != 23 implies is_lower_hex(#[trigger] s[i]) by {
        if i < 8 {
            assert(s[i] == hex_lower(g0)[i]);
        } else if i < 13 {
            assert(s[i] == hex_lower(g1)[i - 9]);
        } else if i < 18 {
            assert(s[i] == hex_lower(g2)[i - 14]);
        } else if i < 23 {
            assert(s[i] == hex_lower(g3)[i - 19]);
        } else {
            assert(s[i] == hex_lower(g4)[i - 24]);
        }
    }
}

/// `Builder::from_random_bytes(bytes).into_uuid().to_string()`: sets the
/// version and variant bits of the bytes and writes the id in lower-case
/// hyphenated form.
#[verifier::external_body]
fn v4_uuid_string(bytes: [u8; 16]) -> (s: String)
    ensures
        s@ == uuid_text(uuid_v4_bytes(bytes@)),
{
    uuid::Builder::from_random_bytes(bytes).into_uuid().to_string()
}

/// The version-4 id made from 16 random bytes.
pub fn uuid_from_random_bytes(bytes: [u8; 16]) -> (s: String)
    ensures
        s@ == uuid_text(uuid_v4_bytes(bytes@)),
        is_uuid_v4_text(s@),
{
    proof {
        lemma_uuid_v4_form(bytes@);
    }
    v4_uuid_string(bytes)
}

/// A fresh random request id, from 16 bytes drawn from the operating system's
/// random source; `None` when the source fails.
pub fn generate_uuid() -> (r: Option<String>)
    ensures
        r matches Some(s) ==> is_uuid_v4_text(s@) && exists|b: Seq<u8>|
            b.len() == 16 && s@ == uuid_text(uuid_v4_bytes(b)),
{
    match os_random_bytes() {
        Some(b) => {
            let bytes: [u8; 16] = [
                b[0], b[1], b[2], b[3], b[4], b[5], b[6], b[7],
                b[8], b[9], b[10], b[11], b[12], b[13], b[14], b[15],
            ];
            Some(uuid_from_random_bytes(bytes))
        },
        None => None,
    }
}

} // verus!
