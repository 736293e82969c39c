//! The chain registry: the read-only-after-boot table from chain name to
//! upstream URL and per-method handler table.
//!
//! Both tables are association lists kept in insertion order and read by a
//! last-match lookup, so a later registration for the same key silently
//! overwrites an earlier one, as the registry has always behaved.  Chain
//! lookup goes by the uppercased chain name.

use vstd::prelude::*;

use crate::handler::RpcCacheHandler;

verus! {

/// What `str::to_uppercase` returns; a function of the text alone.
pub uninterp spec fn upper_of(s: Seq<char>) -> Seq<char>;

/// Relies on `str::to_uppercase`: the result depends on the characters
/// alone.
#[verifier::external_body]
pub fn to_upper(s: &str) -> (r: String)
    ensures
        r@ == upper_of(s@),
{
    s.to_uppercase()
}

/// The index at which a last-match lookup over an association list finds
/// `key`, or `None` when no entry carries it.
pub open spec fn keyed_index<T>(entries: Seq<(String, T)>, key: Seq<char>) -> Option<int>
    decreases entries.len(),
{
    if entries.len() == 0 {
        None
    } else if entries.last().0@ == key {
        Some(entries.len() - 1)
    } else {
        keyed_index(entries.drop_last(), key)
    }
}

proof fn lemma_keyed_index_hit<T>(entries: Seq<(String, T)>, key: Seq<char>, i: int)
    requires
        0 <= i < entries.len(),
        entries[i].0@ == key,
        forall|j: int| i < j < entries.len() ==> entries[j].0@ != key,
    ensures
        keyed_index(entries, key) == Some(i),
    decreases entries.len(),
{
    if i == entries.len() - 1 {
    } else {
        assert(entries.drop_last()[i] == entries[i]);
        lemma_keyed_index_hit(entries.drop_last(), key, i);
    }
}

proof fn lemma_keyed_index_miss<T>(entries: Seq<(String, T)>, key: Seq<char>)
    requires
        forall|j: int| 0 <= j < entries.len() ==> entries[j].0@ != key,
    ensures
        keyed_index(entries, key) is None,
    decreases entries.len(),
{
    if entries.len() > 0 {
        lemma_keyed_index_miss(entries.drop_last(), key);
    }
}

/// One row of a chain's handler table.
pub struct CacheEntry<H> {
    pub handler: H,
}

impl<H> CacheEntry<H> {
    pub fn new(handler: H) -> (r: Self)
        ensures
            r == (CacheEntry { handler }),
    {
        Self { handler }
    }
}

/// One chain: its upstream URL and its method-to-handler table.
pub struct ChainState<H> {
    pub rpc_url: String,
    pub cache_entries: Vec<(String, CacheEntry<H>)>,
}

impl<H> ChainState<H> {
    pub fn new(rpc_url: String) -> (r: Self)
        ensures
            r.rpc_url == rpc_url,
            r.cache_entries@.len() == 0,
    {
        Self { rpc_url, cache_entries: Vec::new() }
    }

    /// Register `entry` as the handler for `method`; a later registration
    /// for the same method wins over an earlier one.
    pub fn insert_entry(&mut self, method: String, entry: CacheEntry<H>)
        ensures
            final(self).rpc_url == old(self).rpc_url,
            final(self).cache_entries@ == old(self).cache_entries@.push((method, entry)),
    {
        self.cache_entries.push((method, entry));
    }

    /// Register `handler` under the method name it declares for itself.
    pub fn register_handler(&mut self, handler: H)
        where H: RpcCacheHandler,
        ensures
            final(self).rpc_url == old(self).rpc_url,
            exists|m: String|
                final(self).cache_entries@ == old(self).cache_entries@.push(
                    (m, (CacheEntry { handler })),
                ),
    {
        let method = handler.method_name();
        self.insert_entry(method, CacheEntry::new(handler));
    }

    /// The handler registered for `method`, if any.
    pub fn lookup_handler(&self, method: &String) -> (r: Option<&CacheEntry<H>>)
        ensures
            match r {
                Some(e) => {
                    &&& keyed_index(self.cache_entries@, method@) matches Some(i)
                    &&& *e == self.cache_entries@[keyed_index(
                        self.cache_entries@,
                        method@,
                    )->Some_0].1
                },
                None => keyed_index(self.cache_entries@, method@) is None,
            },
    {
        let n: usize = self.cache_entries.len();
        let mut i: usize = n;
        while i > 0
            invariant
                i <= n,
                n == self.cache_entries@.len(),
                forall|j: int| i <= j < n ==> self.cache_entries@[j].0@ != method@,
            decreases i,
        {
            i = i - 1;
            if self.cache_entries[i].0 == *method {
                proof {
                    lemma_keyed_index_hit(self.cache_entries@, method@, i as int);
                }
                return Some(&self.cache_entries[i].1);
            }
        }
        proof {
            lemma_keyed_index_miss(self.cache_entries@, method@);
        }
        None
    }

    /// Whether some handler is registered for `method`.
    pub open spec fn has_handler(self, method: Seq<char>) -> bool {
        keyed_index(self.cache_entries@, method) is Some
    }
}

/// The whole registry: chain name to chain, built once at startup.
pub struct AppState<H> {
    pub chains: Vec<(String, ChainState<H>)>,
}

impl<H> AppState<H> {
    pub fn new() -> (r: Self)
        ensures
            r.chains@.len() == 0,
    {
        Self { chains: Vec::new() }
    }

    /// Register `chain` under `name`, exactly as given; lookups compare the
    /// stored name against the uppercased requested name.
    pub fn insert_chain(&mut self, name: String, chain: ChainState<H>)
        ensures
            final(self).chains@ == old(self).chains@.push((name, chain)),
    {
        self.chains.push((name, chain));
    }

    /// The chain registered under the uppercased form of `name`, if any;
    /// `None` is the client-facing "unknown chain" condition.
    pub fn lookup_chain(&self, name: &str) -> (r: Option<&ChainState<H>>)
        ensures
            match r {
                Some(c) => {
                    &&& keyed_index(self.chains@, upper_of(name@)) matches Some(i)
                    &&& *c == self.chains@[keyed_index(self.chains@, upper_of(name@))->Some_0].1
                },
                None => keyed_index(self.chains@, upper_of(name@)) is None,
            },
    {
        let upper: String = to_upper(name);
        let n: usize = self.chains.len();
        let mut i: usize = n;
        while i > 0
            invariant
                i <= n,
                n == self.chains@.len(),
                upper@ == upper_of(name@),
                forall|j: int| i <= j < n ==> self.chains@[j].0@ != upper@,
            decreases i,
        {
            i = i - 1;
            if self.chains[i].0 == upper {
                proof {
                    lemma_keyed_index_hit(self.chains@, upper@, i as int);
                }
                return Some(&self.chains[i].1);
            }
        }
        proof {
            lemma_keyed_index_miss(self.chains@, upper@);
        }
        None
    }
}

} // verus!
