use vstd::prelude::*;

use crate::address::{parse_ipv4, Ipv4, ipv4_text};

verus! {

/// What a request for the address needs next.
#[derive(Debug, Clone, Copy, PartialEq, Eq, Structural)]
pub enum IpLookup {
    /// The cached address answers the request; no resolver call.
    Cached(Ipv4),
    /// The resolver must be asked, outside any lock, and its answer stored.
    Resolve,
}

/// The decision for a request: answer from the cache unless a refresh is
/// forced or nothing is cached.
pub open spec fn lookup_of(cached: Option<Ipv4>, force: bool) -> IpLookup {
    match cached {
        Some(ip) if !force => IpLookup::Cached(ip),
        _ => IpLookup::Resolve,
    }
}

/// The one shared value of the relay: the last public address that was
/// resolved, if any. Callers keep it behind a reader/writer lock; every
/// change is one whole replacement.
#[derive(Debug, Clone, Copy, PartialEq, Eq, Structural)]
pub struct IpCache {
    pub value: Option<Ipv4>,
}

impl IpCache {
    /// The cache with nothing in it.
    pub open spec fn empty() -> IpCache {
        IpCache { value: None }
    }

    /// The cache after an answer is stored: the answer, whole.
    pub open spec fn stored(self, fresh: Option<Ipv4>) -> IpCache {
        IpCache { value: fresh }
    }

    /// An empty cache.
    pub fn new() -> (r: IpCache)
        ensures
            r == IpCache::empty(),
    {
        IpCache { value: None }
    }

    /// What a request with or without `force` does next.
    pub fn lookup(&self, force: bool) -> (r: IpLookup)
        ensures
            r == lookup_of(self.value, force),
    {
        match self.value {
            Some(ip) => {
                if force {
                    IpLookup::Resolve
                } else {
                    IpLookup::Cached(ip)
                }
            },
            None => IpLookup::Resolve,
        }
    }

    /// Replaces the cached value with a freshly resolved one, absent or not,
    /// and hands it back as the answer to the request.
    pub fn store(&mut self, fresh: Option<Ipv4>) -> (r: Option<Ipv4>)
        ensures
            *final(self) == old(self).stored(fresh),
            r == fresh,
    {
        self.value = fresh;
        fresh
    }
}

/// The address that one resolver run yields: its output parsed as a
/// dotted quad when the run succeeded, nothing otherwise.
pub fn resolve_output(succeeded: bool, output: &str) -> (r: Option<Ipv4>)
    ensures
        !succeeded ==> r is None,
        succeeded ==> (r matches Some(ip) ==> output@ == ipv4_text(ip)),
        succeeded ==> (r is None <==> forall|ip: Ipv4| output@ != #[trigger] ipv4_text(ip)),
{
    if succeeded {
        parse_ipv4(output)
    } else {
        None
    }
}

/// A request on an empty cache asks the resolver; once its answer is
/// stored, a request without `force` is answered from the cache, so the
/// resolver is asked only once.
pub proof fn lemma_resolved_once(fresh: Ipv4)
    ensures
        lookup_of(IpCache::empty().value, false) == IpLookup::Resolve,
        lookup_of(IpCache::empty().stored(Some(fresh)).value, false) == IpLookup::Cached(fresh),
{
}

/// A forced request always asks the resolver, and its answer replaces
/// whatever was cached, an absent answer included.
pub proof fn lemma_force_refreshes(cache: IpCache, fresh: Option<Ipv4>)
    ensures
        lookup_of(cache.value, true) == IpLookup::Resolve,
        cache.stored(fresh).value == fresh,
{
}

/// Two requests that both find the cache empty both ask the resolver; once
/// both answers are stored, the cache holds exactly the one stored last,
/// whatever was there before.
pub proof fn lemma_last_store_wins(cache: IpCache, first: Option<Ipv4>, second: Option<Ipv4>)
    ensures
        lookup_of(IpCache::empty().value, false) == IpLookup::Resolve,
        cache.stored(first).stored(second) == cache.stored(second),
        cache.stored(first).stored(second).value == second,
{
}

} // verus!
