//! Bot configuration: the bot token, the database location and the chains
//! the bot trades on, keyed by a network name.
use crate::strmap::{
    has_key, insert_entry, keys_unique, lemma_insert_keeps_unique, lemma_lookup_insert_other,
    lemma_lookup_insert_same, lookup, StrMap,
};
use vstd::prelude::*;

verus! {

/// One chain the bot can trade on.
pub struct Network {
    pub name: String,
    pub rpc: String,
    pub chain_id: u64,
    /// Address of the sniper swap contract on this chain.
    pub sniperca: String,
    pub ws_rpc: String,
    /// Bundle relay endpoint; empty when bundles are not used.
    pub flashbots_url: String,
    pub eip1599: bool,
    /// Base URL of the block explorer.
    pub explorer: String,
}

/// The configuration the bot runs with.
pub struct SConfig {
    pub bot_token: String,
    pub networks: StrMap<Network>,
    pub ipc_service_name: String,
    pub database: String,
    pub db_uri: String,
}

/// The networks after inserting each `(name, network)` pair in order; a later
/// pair with the same name replaces an earlier one.
pub open spec fn networks_from(entries: Seq<(String, Network)>) -> Seq<(String, Network)>
    decreases entries.len(),
{
    if entries.len() == 0 {
        Seq::empty()
    } else {
        insert_entry(
            networks_from(entries.drop_last()),
            entries.last().0,
            entries.last().1,
        )
    }
}

/// The first position of `s` whose network has chain id `chain_id`.
pub open spec fn is_first_chain(s: Seq<(String, Network)>, chain_id: u64, i: int) -> bool {
    &&& 0 <= i < s.len()
    &&& s[i].1.chain_id == chain_id
    &&& forall|j: int| 0 <= j < i ==> s[j].1.chain_id != chain_id
}

/// Some network of `s` has chain id `chain_id`.
pub open spec fn has_chain(s: Seq<(String, Network)>, chain_id: u64) -> bool {
    exists|i: int| 0 <= i < s.len() && s[i].1.chain_id == chain_id
}

impl SConfig {
    pub fn getBotToken(&self) -> (r: String)
        ensures
            r == self.bot_token,
    {
        self.bot_token.clone()
    }

    pub fn getDataBase(&self) -> (r: String)
        ensures
            r == self.database,
    {
        self.database.clone()
    }

    pub fn getDataURI(&self) -> (r: String)
        ensures
            r == self.db_uri,
    {
        self.db_uri.clone()
    }

    /// The network configured under `network`.
    pub fn getNetwork(&self, network: &str) -> (r: &Network)
        requires
            has_key(self.networks@, network@),
        ensures
            lookup(self.networks@, network@) == Some(*r),
    {
        match self.networks.get(network) {
            Some(n) => n,
            None => vstd::pervasive::unreached(),
        }
    }

    /// The first configured network (in the map's order) whose chain id is `chain_id`.
    pub fn getNetworkByChainId(&self, chain_id: u64) -> (r: &Network)
        requires
            has_chain(self.networks@, chain_id),
        ensures
            exists|i: int| is_first_chain(self.networks@, chain_id, i) && self.networks@[i].1 == *r,
            r.chain_id == chain_id,
    {
        let n = self.networks.len();
        let mut i: usize = 0;
        while i < n
            invariant
                n == self.networks@.len(),
                i <= n,
                has_chain(self.networks@, chain_id),
                forall|j: int| 0 <= j < i ==> self.networks@[j].1.chain_id != chain_id,
            decreases n - i,
        {
            let e = self.networks.entry(i);
            if e.1.chain_id == chain_id {
                assert(is_first_chain(self.networks@, chain_id, i as int));
                return &e.1;
            }
            i = i + 1;
        }
        vstd::pervasive::unreached()
    }
}

/// Builds the configuration from the values read out of the configuration
/// file; networks are entered in the given order, a later entry with the
/// same name replacing an earlier one.
pub fn getConfig(
    bot_token: String,
    networks: Vec<(String, Network)>,
    ipc_service_name: String,
    database: String,
    db_uri: String,
) -> (c: SConfig)
    ensures
        c.bot_token == bot_token,
        c.networks@ == networks_from(networks@),
        keys_unique(c.networks@),
        c.ipc_service_name == ipc_service_name,
        c.database == database,
        c.db_uri == db_uri,
{
    let mut map: StrMap<Network> = StrMap::new();
    let mut rest = networks;
    let ghost all = rest@;
    let ghost mut done: int = 0;
    assert(all.subrange(0, 0) =~= Seq::<(String, Network)>::empty());
    assert(all.subrange(0, all.len() as int) =~= all);
    while rest.len() > 0
        invariant
            0 <= done <= all.len(),
            rest@ == all.subrange(done, all.len() as int),
            map@ == networks_from(all.subrange(0, done)),
            keys_unique(map@),
        decreases rest.len(),
    {
        let (k, v) = rest.remove(0);
        proof {
            assert(all.subrange(0, done + 1).drop_last() =~= all.subrange(0, done));
            lemma_insert_keeps_unique(map@, k, v);
        }
        map.insert(k, v);
        proof {
            done = done + 1;
            assert(rest@ =~= all.subrange(done, all.len() as int));
        }
    }
    SConfig { bot_token, networks: map, ipc_service_name, database, db_uri }
}

/// The network of the last entry named `k`, if any.
pub open spec fn last_entry_for(entries: Seq<(String, Network)>, k: Seq<char>) -> Option<Network>
    decreases entries.len(),
{
    if entries.len() == 0 {
        None
    } else if entries.last().0@ == k {
        Some(entries.last().1)
    } else {
        last_entry_for(entries.drop_last(), k)
    }
}

/// The network that the configuration holds under a name is the one of the
/// last entry with that name, and there is none when no entry has it.
pub proof fn lemma_network_is_last_entry(entries: Seq<(String, Network)>, k: Seq<char>)
    ensures
        lookup(networks_from(entries), k) == last_entry_for(entries, k),
    decreases entries.len(),
{
    if entries.len() > 0 {
        let prev = networks_from(entries.drop_last());
        lemma_network_is_last_entry(entries.drop_last(), k);
        if entries.last().0@ == k {
            lemma_lookup_insert_same(prev, entries.last().0, entries.last().1);
        } else {
            lemma_lookup_insert_other(prev, entries.last().0, entries.last().1, k);
        }
    }
}

} // verus!
