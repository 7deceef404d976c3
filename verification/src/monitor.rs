//! Open trades kept for price monitoring, indexed by the token bought and,
//! per chain, by the set of tokens with open trades; and the decisions of a
//! buy that do not depend on the chain's answers.
use crate::wallet::Address;
use std::collections::HashMap;
use vstd::prelude::*;

verus! {

broadcast use vstd::std_specs::hash::group_hash_axioms;

/// A 256-bit unsigned number as four 64-bit limbs, least significant first.
#[derive(Clone, Copy, Debug)]
pub struct U256 {
    pub limbs: [u64; 4],
}

/// The value of a 256-bit number.
pub open spec fn u256_value(x: U256) -> int {
    x.limbs@[0] as int + x.limbs@[1] as int * 0x1_0000_0000_0000_0000 + x.limbs@[2] as int
        * 0x1_0000_0000_0000_0000_0000_0000_0000_0000 + x.limbs@[3] as int
        * 0x1_0000_0000_0000_0000_0000_0000_0000_0000_0000_0000_0000_0000
}

impl U256 {
    /// The 256-bit number with the value of `x`.
    pub fn from_u128(x: u128) -> (r: U256)
        ensures
            u256_value(r) == x,
    {
        let lo = x as u64;
        let hi = (x >> 64u32) as u64;
        assert(lo as int + hi as int * 0x1_0000_0000_0000_0000 == x as int) by (bit_vector)
            requires
                lo == x as u64,
                hi == (x >> 64u32) as u64,
        ;
        U256 { limbs: [lo, hi, 0, 0] }
    }

    /// Zero.
    pub fn zero() -> (r: U256)
        ensures
            u256_value(r) == 0,
    {
        U256 { limbs: [0, 0, 0, 0] }
    }
}

/// Trailing stop settings carried with a trade, each an `f32` held by its bit pattern.
#[derive(Clone, Copy, Debug)]
pub struct TrailBits {
    pub trailing_stop_loss: u32,
    pub trailing_stop_loss_percentage: u32,
    pub trailing_take_profit: u32,
    pub trailing_take_profit_percentage: u32,
}

/// A bought position that the monitor watches.
pub struct ActiveTrade {
    pub pair: Address,
    pub token_in: Address,
    pub token_out: Address,
    pub amount: U256,
    pub entry_price: U256,
    pub stop_loss: u64,
    pub take_profit: u64,
    pub trail: Option<TrailBits>,
    pub walletPk: Vec<String>,
    pub chain_id: u64,
}

/// Whether `t` is among `v`.
fn contains_address(v: &Vec<Address>, t: &Address) -> (r: bool)
    ensures
        r == exists|j: int| 0 <= j < v@.len() && v@[j].bytes@ == t.bytes@,
{
    let mut i: usize = 0;
    while i < v.len()
        invariant
            i <= v.len(),
            forall|j: int| 0 <= j < i ==> v@[j].bytes@ != t.bytes@,
        decreases v.len() - i,
    {
        if v[i].same(t) {
            return true;
        }
        i = i + 1;
    }
    false
}

type TokenIndex = Seq<(Address, Vec<ActiveTrade>)>;

type ChainIndex = Map<u64, Vec<Address>>;

#[verifier::opaque]
spec fn tok_keys_unique(tr: TokenIndex) -> bool {
    forall|i: int, j: int| 0 <= i < j < tr.len() ==> #[trigger] tr[i].0.bytes@ != #[trigger] tr[j].0.bytes@
}

#[verifier::opaque]
spec fn lists_distinct(ac: ChainIndex) -> bool {
    forall|c: u64, a: int, b: int|
        ac.contains_key(c) && 0 <= a < b < ac[c]@.len() ==> #[trigger] ac[c]@[a].bytes@
            != #[trigger] ac[c]@[b].bytes@
}

#[verifier::opaque]
spec fn trades_under_token(tr: TokenIndex) -> bool {
    forall|i: int, k: int|
        0 <= i < tr.len() && 0 <= k < tr[i].1@.len() ==> #[trigger] tr[i].1@[k].token_out.bytes@
            == tr[i].0.bytes@
}

#[verifier::opaque]
spec fn trades_listed(tr: TokenIndex, ac: ChainIndex) -> bool {
    forall|i: int, k: int|
        #![trigger tr[i].1@[k]]
        0 <= i < tr.len() && 0 <= k < tr[i].1@.len() ==> ac.contains_key(tr[i].1@[k].chain_id)
            && exists|a: int|
            0 <= a < ac[tr[i].1@[k].chain_id]@.len() && #[trigger] ac[tr[i].1@[k].chain_id]@[a].bytes@
                == tr[i].0.bytes@
}

#[verifier::opaque]
spec fn listed_have_trades(tr: TokenIndex, ac: ChainIndex) -> bool {
    forall|c: u64, a: int|
        #![trigger ac[c]@[a]]
        ac.contains_key(c) && 0 <= a < ac[c]@.len() ==> exists|i: int, k: int|
            0 <= i < tr.len() && 0 <= k < tr[i].1@.len() && #[trigger] tr[i].0.bytes@
                == ac[c]@[a].bytes@ && #[trigger] tr[i].1@[k].chain_id == c
}

/// `tr` is `tr0` with `trade` appended under its token at position `ti`.
spec fn token_index_grew(tr: TokenIndex, tr0: TokenIndex, ti: int, trade: ActiveTrade) -> bool {
    &&& 0 <= ti < tr.len()
    &&& tr[ti].0.bytes@ == trade.token_out.bytes@
    &&& tr[ti].1@.len() > 0
    &&& tr[ti].1@.last() == trade
    &&& ti < tr0.len() ==> tr.len() == tr0.len() && tr[ti].1@ == tr0[ti].1@.push(trade)
    &&& ti >= tr0.len() ==> ti == tr0.len() && tr.len() == ti + 1 && tr[ti].1@.len() == 1
        && forall|j: int| 0 <= j < tr0.len() ==> tr0[j].0.bytes@ != trade.token_out.bytes@
    &&& forall|j: int| 0 <= j < tr0.len() ==> #[trigger] tr[j].0.bytes@ == tr0[j].0.bytes@
    &&& forall|j: int| 0 <= j < tr0.len() && j != ti ==> #[trigger] tr[j].1@ == tr0[j].1@
    &&& forall|j: int, k: int|
        0 <= j < tr0.len() && 0 <= k < tr0[j].1@.len() ==> #[trigger] tr[j].1@[k] == tr0[j].1@[k]
}

/// `ac` is `ac0` with `t` listed for chain `c`; a token already listed is
/// not listed again, and a new token goes last.
spec fn chain_index_grew(ac: ChainIndex, ac0: ChainIndex, c: u64, t: Address) -> bool {
    &&& ac.contains_key(c)
    &&& ac == ac0.insert(c, ac[c])
    &&& exists|a: int| 0 <= a < ac[c]@.len() && ac[c]@[a].bytes@ == t.bytes@
    &&& ac0.contains_key(c) ==> ((ac[c]@ == ac0[c]@ && exists|a: int|
        0 <= a < ac0[c]@.len() && ac0[c]@[a].bytes@ == t.bytes@) || (ac[c]@ == ac0[c]@.push(t)
        && forall|a: int| 0 <= a < ac0[c]@.len() ==> ac0[c]@[a].bytes@ != t.bytes@))
    &&& !ac0.contains_key(c) ==> ac[c]@ == seq![t]
}

proof fn lemma_grew_tok_keys(tr: TokenIndex, tr0: TokenIndex, ti: int, trade: ActiveTrade)
    requires
        tok_keys_unique(tr0),
        token_index_grew(tr, tr0, ti, trade),
    ensures
        tok_keys_unique(tr),
{
    reveal(tok_keys_unique);
    assert forall|i: int, j: int| 0 <= i < j < tr.len() implies #[trigger] tr[i].0.bytes@
        != #[trigger] tr[j].0.bytes@ by {
        if j == tr0.len() {
            assert(tr0[i].0.bytes@ != trade.token_out.bytes@);
        } else {
            assert(tr0[i].0.bytes@ != tr0[j].0.bytes@);
        }
    }
}

proof fn lemma_grew_lists(ac: ChainIndex, ac0: ChainIndex, c: u64, t: Address)
    requires
        lists_distinct(ac0),
        chain_index_grew(ac, ac0, c, t),
    ensures
        lists_distinct(ac),
{
    reveal(lists_distinct);
    assert forall|c2: u64, a: int, b: int|
        ac.contains_key(c2) && 0 <= a < b < ac[c2]@.len() implies #[trigger] ac[c2]@[a].bytes@
        != #[trigger] ac[c2]@[b].bytes@ by {
        if c2 == c {
            if ac0.contains_key(c) {
                if ac[c]@ == ac0[c]@ {
                    assert(ac0[c]@[a].bytes@ != ac0[c]@[b].bytes@);
                } else if b == ac0[c]@.len() {
                    assert(ac0[c]@[a].bytes@ != t.bytes@);
                } else {
                    assert(ac0[c]@[a].bytes@ != ac0[c]@[b].bytes@);
                }
            }
        } else {
            assert(ac[c2] == ac0[c2]);
            assert(ac0[c2]@[a].bytes@ != ac0[c2]@[b].bytes@);
        }
    }
}

proof fn lemma_grew_under_token(tr: TokenIndex, tr0: TokenIndex, ti: int, trade: ActiveTrade)
    requires
        trades_under_token(tr0),
        token_index_grew(tr, tr0, ti, trade),
    ensures
        trades_under_token(tr),
{
    reveal(trades_under_token);
    assert forall|i: int, k: int| 0 <= i < tr.len() && 0 <= k < tr[i].1@.len() implies #[trigger] tr[i].1@[k].token_out.bytes@
        == tr[i].0.bytes@ by {
        if i == ti && k == tr[i].1@.len() - 1 {
        } else {
            assert(tr[i].1@[k] == tr0[i].1@[k]);
        }
    }
}

proof fn lemma_grew_listed(
    tr: TokenIndex,
    tr0: TokenIndex,
    ac: ChainIndex,
    ac0: ChainIndex,
    ti: int,
    trade: ActiveTrade,
)
    requires
        trades_listed(tr0, ac0),
        token_index_grew(tr, tr0, ti, trade),
        chain_index_grew(ac, ac0, trade.chain_id, trade.token_out),
    ensures
        trades_listed(tr, ac),
{
    reveal(trades_listed);
    let c = trade.chain_id;
    assert forall|i: int, k: int|
        #![trigger tr[i].1@[k]]
        0 <= i < tr.len() && 0 <= k < tr[i].1@.len() implies ac.contains_key(tr[i].1@[k].chain_id)
        && exists|a: int|
        0 <= a < ac[tr[i].1@[k].chain_id]@.len() && #[trigger] ac[tr[i].1@[k].chain_id]@[a].bytes@
            == tr[i].0.bytes@ by {
        if i == ti && k == tr[i].1@.len() - 1 {
            let a = choose|a: int| 0 <= a < ac[c]@.len() && ac[c]@[a].bytes@ == trade.token_out.bytes@;
            assert(ac[c]@[a].bytes@ == tr[i].0.bytes@);
        } else {
            assert(tr[i].1@[k] == tr0[i].1@[k]);
            assert(tr0[i].1@[k] == tr0[i].1@[k]);
            let ch = tr0[i].1@[k].chain_id;
            let a = choose|a: int|
                0 <= a < ac0[ch]@.len() && #[trigger] ac0[ch]@[a].bytes@ == tr0[i].0.bytes@;
            if ch != c {
                assert(ac[ch] == ac0[ch]);
            }
            assert(ac[ch]@[a] == ac0[ch]@[a]);
            assert(ac[ch]@[a].bytes@ == tr[i].0.bytes@);
        }
    }
}

proof fn lemma_grew_have_trades(
    tr: TokenIndex,
    tr0: TokenIndex,
    ac: ChainIndex,
    ac0: ChainIndex,
    ti: int,
    trade: ActiveTrade,
)
    requires
        listed_have_trades(tr0, ac0),
        token_index_grew(tr, tr0, ti, trade),
        chain_index_grew(ac, ac0, trade.chain_id, trade.token_out),
    ensures
        listed_have_trades(tr, ac),
{
    reveal(listed_have_trades);
    let c = trade.chain_id;
    assert forall|c2: u64, a: int|
        #![trigger ac[c2]@[a]]
        ac.contains_key(c2) && 0 <= a < ac[c2]@.len() implies exists|i: int, k: int|
        0 <= i < tr.len() && 0 <= k < tr[i].1@.len() && #[trigger] tr[i].0.bytes@ == ac[c2]@[a].bytes@
            && #[trigger] tr[i].1@[k].chain_id == c2 by {
        if c2 == c && (!ac0.contains_key(c) || a >= ac0[c]@.len()) {
            let k = tr[ti].1@.len() - 1;
            if !ac0.contains_key(c) {
                assert(ac[c]@[a] == trade.token_out);
            } else {
                assert(ac[c]@ == ac0[c]@.push(trade.token_out));
            }
            assert(tr[ti].0.bytes@ == ac[c2]@[a].bytes@ && tr[ti].1@[k].chain_id == c2);
        } else {
            if c2 != c {
                assert(ac[c2] == ac0[c2]);
            }
            assert(ac[c2]@[a] == ac0[c2]@[a]);
            assert(ac0[c2]@[a] == ac0[c2]@[a]);
            let (i, k) = choose|i: int, k: int|
                0 <= i < tr0.len() && 0 <= k < tr0[i].1@.len() && #[trigger] tr0[i].0.bytes@
                    == ac0[c2]@[a].bytes@ && #[trigger] tr0[i].1@[k].chain_id == c2;
            assert(tr[i].1@[k] == tr0[i].1@[k]);
            assert(tr[i].0.bytes@ == ac[c2]@[a].bytes@ && tr[i].1@[k].chain_id == c2);
        }
    }
}

/// Appends `trade` under its token, adding the token when it is new.
fn add_to_token_index(index: &mut Vec<(Address, Vec<ActiveTrade>)>, trade: ActiveTrade) -> (ti: usize)
    ensures
        token_index_grew(final(index)@, old(index)@, ti as int, trade),
{
    let t = trade.token_out;
    assert(t == trade.token_out);
    let n = index.len();
    let mut i: usize = 0;
    while i < n
        invariant
            n == index@.len(),
            index@ == old(index)@,
            t == trade.token_out,
            i <= n,
            forall|j: int| 0 <= j < i ==> index@[j].0.bytes@ != t.bytes@,
        decreases n - i,
    {
        if index[i].0.same(&t) {
            let ghost before = index@;
            let mut entry: (Address, Vec<ActiveTrade>) = (t, Vec::new());
            index.set_and_swap(i, &mut entry);
            assert(entry.0.bytes@ == t.bytes@);
            let key = entry.0;
            let mut list = entry.1;
            list.push(trade);
            assert(key.bytes@ == trade.token_out.bytes@);
            index.set(i, (key, list));
            assert(index@[i as int].0 == key);
            assert(forall|j: int| 0 <= j < before.len() && j != i ==> index@[j] == before[j]);
            return i;
        }
        i = i + 1;
    }
    let mut v: Vec<ActiveTrade> = Vec::new();
    v.push(trade);
    index.push((t, v));
    n
}

/// Lists token `t` for chain `c`, adding the chain when it is new; a token
/// already listed is not listed twice.
fn add_to_chain_index(index: &mut HashMap<u64, Vec<Address>>, c: u64, t: Address)
    ensures
        chain_index_grew(final(index)@, old(index)@, c, t),
{
    let ghost before = index@;
    let mut list = match index.remove(&c) {
        Some(l) => l,
        None => Vec::new(),
    };
    let ghost old_list = list@;
    if !contains_address(&list, &t) {
        list.push(t);
        assert(list@[list@.len() - 1].bytes@ == t.bytes@);
    }
    let ghost new_list = list;
    index.insert(c, list);
    proof {
        assert(index@ =~= before.insert(c, new_list));
        if !before.contains_key(c) {
            assert(new_list@ =~= seq![t]);
        }
    }
}

/// Open trades by bought token, and per chain the tokens with open trades.
pub struct TradeMonitor {
    trades_by_token: Vec<(Address, Vec<ActiveTrade>)>,
    active_tokens: HashMap<u64, Vec<Address>>,
}

impl TradeMonitor {
    /// Some trade list is kept for token `t`.
    pub closed spec fn has_token(&self, t: Seq<u8>) -> bool {
        exists|i: int|
            0 <= i < self.trades_by_token@.len() && #[trigger] self.trades_by_token@[i].0.bytes@ == t
    }

    /// The open trades that bought token `t`, oldest first.
    pub closed spec fn trades_of(&self, t: Seq<u8>) -> Seq<ActiveTrade> {
        if self.has_token(t) {
            self.trades_by_token@[choose|i: int|
                0 <= i < self.trades_by_token@.len() && #[trigger] self.trades_by_token@[i].0.bytes@
                    == t].1@
        } else {
            Seq::empty()
        }
    }

    /// Some token list is kept for chain `c`.
    pub closed spec fn has_chain(&self, c: u64) -> bool {
        self.active_tokens@.contains_key(c)
    }

    /// The tokens with open trades on chain `c`, in the order they were first seen.
    pub closed spec fn active_list(&self, c: u64) -> Seq<Address> {
        if self.has_chain(c) {
            self.active_tokens@[c]@
        } else {
            Seq::empty()
        }
    }

    /// The set of tokens with open trades on chain `c`.
    pub open spec fn active_of(&self, c: u64) -> Set<Seq<u8>> {
        Set::new(
            |t: Seq<u8>|
                exists|j: int| 0 <= j < self.active_list(c).len() && #[trigger] self.active_list(c)[j].bytes@ == t,
        )
    }

    /// The two indexes agree: token keys are unique, a chain lists a token at most
    /// once, every trade sits under the token it bought and that token is
    /// listed for the trade's chain, and every listed token has a trade on that chain.
    pub closed spec fn wf(&self) -> bool {
        let tr = self.trades_by_token@;
        let ac = self.active_tokens@;
        &&& tok_keys_unique(tr)
        &&& lists_distinct(ac)
        &&& trades_under_token(tr)
        &&& trades_listed(tr, ac)
        &&& listed_have_trades(tr, ac)
    }

    proof fn lemma_trades_of_at(&self, i: int)
        requires
            tok_keys_unique(self.trades_by_token@),
            0 <= i < self.trades_by_token@.len(),
        ensures
            self.has_token(self.trades_by_token@[i].0.bytes@),
            self.trades_of(self.trades_by_token@[i].0.bytes@) == self.trades_by_token@[i].1@,
    {
        reveal(tok_keys_unique);
        let t = self.trades_by_token@[i].0.bytes@;
        assert(self.trades_by_token@[i].0.bytes@ == t);
        let j = choose|j: int|
            0 <= j < self.trades_by_token@.len() && #[trigger] self.trades_by_token@[j].0.bytes@ == t;
        if j < i {
            assert(self.trades_by_token@[j].0.bytes@ != self.trades_by_token@[i].0.bytes@);
        } else if i < j {
            assert(self.trades_by_token@[i].0.bytes@ != self.trades_by_token@[j].0.bytes@);
        }
    }

    /// An empty monitor.
    pub fn new() -> (m: TradeMonitor)
        ensures
            m.wf(),
            forall|t: Seq<u8>| !m.has_token(t) && m.trades_of(t) == Seq::<ActiveTrade>::empty(),
            forall|c: u64| !m.has_chain(c) && m.active_of(c) == Set::<Seq<u8>>::empty(),
    {
        reveal(tok_keys_unique);
        reveal(lists_distinct);
        reveal(trades_under_token);
        reveal(trades_listed);
        reveal(listed_have_trades);
        let m = TradeMonitor { trades_by_token: Vec::new(), active_tokens: HashMap::new() };
        assert forall|c: u64| !m.has_chain(c) && m.active_of(c) == Set::<Seq<u8>>::empty() by {
            assert(m.active_of(c) =~= Set::<Seq<u8>>::empty());
        }
        m
    }

    fn find_token(&self, t: &Address) -> (r: Option<usize>)
        ensures
            match r {
                Some(i) => i < self.trades_by_token@.len() && self.trades_by_token@[i as int].0.bytes@
                    == t.bytes@,
                None => !self.has_token(t.bytes@),
            },
    {
        let n = self.trades_by_token.len();
        let mut i: usize = 0;
        while i < n
            invariant
                n == self.trades_by_token@.len(),
                i <= n,
                forall|j: int| 0 <= j < i ==> self.trades_by_token@[j].0.bytes@ != t.bytes@,
            decreases n - i,
        {
            if self.trades_by_token[i].0.same(t) {
                return Some(i);
            }
            i = i + 1;
        }
        None
    }

    /// The open trades that bought `token`, if any were ever added.
    pub fn get_trades_for_token(&self, token: &Address) -> (r: Option<&Vec<ActiveTrade>>)
        requires
            self.wf(),
        ensures
            r is Some <==> self.has_token(token.bytes@),
            r matches Some(v) ==> v@ == self.trades_of(token.bytes@),
    {
        match self.find_token(token) {
            Some(i) => {
                proof {
                    self.lemma_trades_of_at(i as int);
                }
                Some(&self.trades_by_token[i].1)
            },
            None => None,
        }
    }

    /// The tokens with open trades on `chain_id`, if any trade on it was ever added.
    pub fn get_active_tokens_for_chain(&self, chain_id: u64) -> (r: Option<&Vec<Address>>)
        requires
            self.wf(),
        ensures
            r is Some <==> self.has_chain(chain_id),
            r matches Some(v) ==> v@ == self.active_list(chain_id),
    {
        self.active_tokens.get(&chain_id)
    }

    /// Adds an open trade: it joins the end of its token's list, and its token
    /// joins the tokens listed for its chain.
    pub fn add_trade(&mut self, trade: ActiveTrade)
        requires
            old(self).wf(),
        ensures
            final(self).wf(),
            final(self).has_token(trade.token_out.bytes@),
            final(self).trades_of(trade.token_out.bytes@) == old(self).trades_of(
                trade.token_out.bytes@,
            ).push(trade),
            forall|t: Seq<u8>|
                t != trade.token_out.bytes@ ==> final(self).has_token(t) == old(self).has_token(t)
                    && final(self).trades_of(t) == old(self).trades_of(t),
            final(self).has_chain(trade.chain_id),
            final(self).active_of(trade.chain_id) == old(self).active_of(trade.chain_id).insert(
                trade.token_out.bytes@,
            ),
            forall|c: u64|
                c != trade.chain_id ==> final(self).has_chain(c) == old(self).has_chain(c)
                    && final(self).active_list(c) == old(self).active_list(c),
    {
        let ghost m0 = *self;
        let t = trade.token_out;
        let c = trade.chain_id;
        let ti = add_to_token_index(&mut self.trades_by_token, trade);
        add_to_chain_index(&mut self.active_tokens, c, t);
        proof {
            let tr = self.trades_by_token@;
            let ac = self.active_tokens@;
            let tr0 = m0.trades_by_token@;
            let ac0 = m0.active_tokens@;
            lemma_grew_tok_keys(tr, tr0, ti as int, trade);
            lemma_grew_lists(ac, ac0, c, t);
            lemma_grew_under_token(tr, tr0, ti as int, trade);
            lemma_grew_listed(tr, tr0, ac, ac0, ti as int, trade);
            lemma_grew_have_trades(tr, tr0, ac, ac0, ti as int, trade);
            self.lemma_trades_after(m0, ti as int, trade);
            self.lemma_active_after(m0, c, t);
        }
    }

    proof fn lemma_trades_after(&self, m0: TradeMonitor, ti: int, trade: ActiveTrade)
        requires
            tok_keys_unique(m0.trades_by_token@),
            tok_keys_unique(self.trades_by_token@),
            token_index_grew(self.trades_by_token@, m0.trades_by_token@, ti, trade),
        ensures
            self.has_token(trade.token_out.bytes@),
            self.trades_of(trade.token_out.bytes@) == m0.trades_of(trade.token_out.bytes@).push(trade),
            forall|t: Seq<u8>|
                t != trade.token_out.bytes@ ==> self.has_token(t) == m0.has_token(t)
                    && self.trades_of(t) == m0.trades_of(t),
    {
        let tr = self.trades_by_token@;
        let tr0 = m0.trades_by_token@;
        let tb = trade.token_out.bytes@;
        self.lemma_trades_of_at(ti);
        if ti < tr0.len() {
            m0.lemma_trades_of_at(ti);
        } else {
            assert(!m0.has_token(tb));
            assert(tr[ti].1@ =~= Seq::<ActiveTrade>::empty().push(trade));
        }
        assert forall|t2: Seq<u8>| t2 != tb implies self.has_token(t2) == m0.has_token(t2)
            && self.trades_of(t2) == m0.trades_of(t2) by {
            if m0.has_token(t2) {
                let j = choose|j: int| 0 <= j < tr0.len() && #[trigger] tr0[j].0.bytes@ == t2;
                assert(tr[j].0.bytes@ == t2);
                m0.lemma_trades_of_at(j);
                self.lemma_trades_of_at(j);
            }
            if self.has_token(t2) {
                let j = choose|j: int| 0 <= j < tr.len() && #[trigger] tr[j].0.bytes@ == t2;
                if j < tr0.len() {
                    assert(tr0[j].0.bytes@ == t2);
                }
            }
        }
    }

    proof fn lemma_active_after(&self, m0: TradeMonitor, c: u64, t: Address)
        requires
            chain_index_grew(self.active_tokens@, m0.active_tokens@, c, t),
        ensures
            self.has_chain(c),
            self.active_of(c) == m0.active_of(c).insert(t.bytes@),
            forall|c2: u64|
                c2 != c ==> self.has_chain(c2) == m0.has_chain(c2) && self.active_list(c2)
                    == m0.active_list(c2),
    {
        let ac = self.active_tokens@;
        let ac0 = m0.active_tokens@;
        let tb = t.bytes@;
        assert forall|c2: u64| c2 != c implies self.has_chain(c2) == m0.has_chain(c2)
            && self.active_list(c2) == m0.active_list(c2) by {
            if m0.has_chain(c2) {
                assert(ac[c2] == ac0[c2]);
            }
        }
        let now = self.active_list(c);
        let before = m0.active_list(c);
        assert forall|x: Seq<u8>| self.active_of(c).contains(x) <==> m0.active_of(c).insert(tb).contains(x) by {
            if self.active_of(c).contains(x) {
                let a = choose|a: int| 0 <= a < now.len() && #[trigger] now[a].bytes@ == x;
                if x != tb && ac0.contains_key(c) {
                    if a < before.len() {
                        assert(before[a].bytes@ == x);
                    }
                }
            }
            if m0.active_of(c).contains(x) {
                let a = choose|a: int| 0 <= a < before.len() && #[trigger] before[a].bytes@ == x;
                assert(now[a].bytes@ == x);
            }
            if x == tb {
                let a = choose|a: int| 0 <= a < ac[c]@.len() && ac[c]@[a].bytes@ == tb;
                assert(now[a].bytes@ == x);
            }
        }
        assert(self.active_of(c) =~= m0.active_of(c).insert(tb));
    }

    /// Every open trade sits under the token it bought, and that token is
    /// listed as active on the trade's chain.
    pub proof fn lemma_trade_is_indexed(&self, t: Seq<u8>, k: int)
        requires
            self.wf(),
            0 <= k < self.trades_of(t).len(),
        ensures
            self.trades_of(t)[k].token_out.bytes@ == t,
            self.active_of(self.trades_of(t)[k].chain_id).contains(t),
    {
        reveal(trades_listed);
        reveal(trades_under_token);
        let tr = self.trades_by_token@;
        let ac = self.active_tokens@;
        let i = choose|i: int| 0 <= i < tr.len() && #[trigger] tr[i].0.bytes@ == t;
        self.lemma_trades_of_at(i);
        assert(tr[i].1@[k] == self.trades_of(t)[k]);
        let c = tr[i].1@[k].chain_id;
        let a = choose|a: int| 0 <= a < ac[c]@.len() && #[trigger] ac[c]@[a].bytes@ == tr[i].0.bytes@;
        assert(self.active_list(c)[a].bytes@ == t);
    }

    /// Every token listed as active on a chain has an open trade on that chain.
    pub proof fn lemma_active_token_has_trade(&self, c: u64, t: Seq<u8>)
        requires
            self.wf(),
            self.active_of(c).contains(t),
        ensures
            exists|k: int| 0 <= k < self.trades_of(t).len() && #[trigger] self.trades_of(t)[k].chain_id == c,
    {
        reveal(listed_have_trades);
        let tr = self.trades_by_token@;
        let ac = self.active_tokens@;
        let a = choose|a: int| 0 <= a < self.active_list(c).len() && #[trigger] self.active_list(c)[a].bytes@ == t;
        assert(self.has_chain(c));
        assert(ac[c]@[a] == self.active_list(c)[a]);
        let (i, k) = choose|i: int, k: int|
            0 <= i < tr.len() && 0 <= k < tr[i].1@.len() && #[trigger] tr[i].0.bytes@ == ac[c]@[a].bytes@
                && #[trigger] tr[i].1@[k].chain_id == c;
        self.lemma_trades_of_at(i);
        assert(self.trades_of(t)[k].chain_id == c);
    }
}

} // verus!
