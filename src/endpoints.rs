use std::collections::HashMap;
use vstd::prelude::*;

verus! {

broadcast use vstd::std_specs::hash::group_hash_axioms;

/// The number of distinct author ids: the stride of the packed cache key.
pub const AUTHOR_SPAN: u128 = 0x1_0000_0000_0000_0000;

/// The packed cache key of a (target channel, author) pair.
pub open spec fn endpoint_key(channel: u64, author: u64) -> u128 {
    (channel as int * AUTHOR_SPAN as int + author as int) as u128
}

proof fn lemma_key_in_range(channel: u64, author: u64)
    ensures
        0 <= channel as int * AUTHOR_SPAN as int + author as int <= u128::MAX,
{
    assert(0 <= channel as int * 0x1_0000_0000_0000_0000int + author as int <= u128::MAX)
        by (nonlinear_arith)
        requires
            0 <= channel <= u64::MAX,
            0 <= author <= u64::MAX,
    ;
}

proof fn lemma_key_injective(c1: u64, a1: u64, c2: u64, a2: u64)
    requires
        endpoint_key(c1, a1) == endpoint_key(c2, a2),
    ensures
        c1 == c2,
        a1 == a2,
{
    lemma_key_in_range(c1, a1);
    lemma_key_in_range(c2, a2);
    let m: int = 0x1_0000_0000_0000_0000int;
    assert((c1 - c2) * m == a2 - a1) by (nonlinear_arith)
        requires
            c1 * m + a1 == c2 * m + a2,
    ;
    assert(c1 == c2) by (nonlinear_arith)
        requires
            (c1 - c2) * m == a2 - a1,
            0 <= a1 < m,
            0 <= a2 < m,
            m > 0,
    ;
}

/// What to do next to obtain the proxy endpoint of a (target channel, author) pair.
#[derive(Debug, Clone, Copy, PartialEq, Eq, Structural)]
pub enum EndpointStep {
    /// Check that the cached endpoint with this id still exists.
    Probe(u64),
    /// Create a new endpoint carrying the author's name and avatar.
    Create,
    /// Use the endpoint with this id.
    Use(u64),
}

/// The first step of `get_or_create`: probe a cached endpoint, or create one.
pub open spec fn first_step_spec(cache: Map<(u64, u64), u64>, channel: u64, author: u64) -> EndpointStep {
    if cache.contains_key((channel, author)) {
        EndpointStep::Probe(cache[(channel, author)])
    } else {
        EndpointStep::Create
    }
}

/// The step after a probe: a live endpoint is used, a stale one replaced.
pub open spec fn after_probe_spec(id: u64, alive: bool) -> EndpointStep {
    if alive {
        EndpointStep::Use(id)
    } else {
        EndpointStep::Create
    }
}

/// Cache of proxy endpoints, keyed by (target channel, source author).
pub struct EndpointCache {
    by_key: HashMap<u128, u64>,
}

impl View for EndpointCache {
    type V = Map<(u64, u64), u64>;

    closed spec fn view(&self) -> Map<(u64, u64), u64> {
        Map::new(
            |k: (u64, u64)| self.by_key@.contains_key(endpoint_key(k.0, k.1)),
            |k: (u64, u64)| self.by_key@[endpoint_key(k.0, k.1)],
        )
    }
}

fn pack_key(channel: u64, author: u64) -> (r: u128)
    ensures
        r == endpoint_key(channel, author),
{
    proof {
        lemma_key_in_range(channel, author);
    }
    (channel as u128) * AUTHOR_SPAN + (author as u128)
}

impl EndpointCache {
    /// An empty cache.
    pub fn new() -> (r: EndpointCache)
        ensures
            r@ == Map::<(u64, u64), u64>::empty(),
    {
        let r = EndpointCache { by_key: HashMap::new() };
        assert(r@ =~= Map::<(u64, u64), u64>::empty());
        r
    }

    /// The cached endpoint of a pair, if any.
    pub fn lookup(&self, channel: u64, author: u64) -> (r: Option<u64>)
        ensures
            r == (if self@.contains_key((channel, author)) {
                Some(self@[(channel, author)])
            } else {
                None
            }),
    {
        match self.by_key.get(&pack_key(channel, author)) {
            Some(id) => Some(*id),
            None => None,
        }
    }

    /// The first step of obtaining the endpoint of a pair; reads the cache only.
    pub fn first_step(&self, channel: u64, author: u64) -> (r: EndpointStep)
        ensures
            r == first_step_spec(self@, channel, author),
    {
        match self.lookup(channel, author) {
            Some(id) => EndpointStep::Probe(id),
            None => EndpointStep::Create,
        }
    }

    /// Stores a newly created endpoint for a pair, replacing any stale one.
    pub fn record_created(&mut self, channel: u64, author: u64, endpoint: u64)
        ensures
            final(self)@ == old(self)@.insert((channel, author), endpoint),
    {
        let key = pack_key(channel, author);
        self.by_key.insert(key, endpoint);
        proof {
            assert forall|k: (u64, u64)| #[trigger] final(self)@.contains_key(k) == old(self)@.insert(
                (channel, author),
                endpoint,
            ).contains_key(k) by {
                if endpoint_key(k.0, k.1) == key {
                    lemma_key_injective(k.0, k.1, channel, author);
                }
            }
            assert forall|k: (u64, u64)| #[trigger] final(self)@.contains_key(k) implies final(self)@[k]
                == old(self)@.insert((channel, author), endpoint)[k] by {
                if endpoint_key(k.0, k.1) == key {
                    lemma_key_injective(k.0, k.1, channel, author);
                }
            }
            assert(final(self)@ =~= old(self)@.insert((channel, author), endpoint));
        }
    }
}

/// The step after probing a cached endpoint.
pub fn after_probe(id: u64, alive: bool) -> (r: EndpointStep)
    ensures
        r == after_probe_spec(id, alive),
{
    if alive {
        EndpointStep::Use(id)
    } else {
        EndpointStep::Create
    }
}

/// For a pair that is not cached, obtaining an endpoint creates one and adds
/// exactly one cache entry; obtaining it again while that endpoint is live
/// creates nothing and uses it.
pub proof fn lemma_get_or_create_creates_once(
    cache: Map<(u64, u64), u64>,
    channel: u64,
    author: u64,
    created: u64,
)
    requires
        !cache.contains_key((channel, author)),
    ensures
        first_step_spec(cache, channel, author) == EndpointStep::Create,
        cache.insert((channel, author), created).remove((channel, author)) == cache,
        cache.insert((channel, author), created).dom() == cache.dom().insert((channel, author)),
        first_step_spec(cache.insert((channel, author), created), channel, author)
            == EndpointStep::Probe(created),
        after_probe_spec(created, true) == EndpointStep::Use(created),
{
    assert(cache.insert((channel, author), created).remove((channel, author)) =~= cache);
    assert(cache.insert((channel, author), created).dom() =~= cache.dom().insert((channel, author)));
}

} // verus!
