use std::collections::HashMap;
use vstd::prelude::*;

verus! {

broadcast use vstd::std_specs::hash::group_hash_axioms;

/// What is remembered of relayed messages: for each source message, the
/// mirrored copies as (mirrored message, target channel), and its author.
pub struct RelayCache {
    mirrors: HashMap<u64, Vec<(u64, u64)>>,
    authors: HashMap<u64, u64>,
}

impl RelayCache {
    /// The mirrored copies of each relayed source message.
    pub closed spec fn records(&self) -> Map<u64, Seq<(u64, u64)>> {
        self.mirrors@.map_values(|v: Vec<(u64, u64)>| v@)
    }

    /// The author of each relayed source message.
    pub closed spec fn author_records(&self) -> Map<u64, u64> {
        self.authors@
    }

    /// Both records are written together, so they cover the same messages.
    pub open spec fn wf(&self) -> bool {
        self.records().dom() == self.author_records().dom()
    }

    /// An empty cache.
    pub fn new() -> (r: RelayCache)
        ensures
            r.wf(),
            r.records() == Map::<u64, Seq<(u64, u64)>>::empty(),
            r.author_records() == Map::<u64, u64>::empty(),
    {
        let r = RelayCache { mirrors: HashMap::new(), authors: HashMap::new() };
        assert(r.records() =~= Map::<u64, Seq<(u64, u64)>>::empty());
        r
    }

    /// Writes the outcome of relaying a source message: its mirrored copies and its author.
    pub fn record(&mut self, message: u64, author: u64, mirrors: Vec<(u64, u64)>)
        requires
            old(self).wf(),
        ensures
            final(self).wf(),
            final(self).records() == old(self).records().insert(message, mirrors@),
            final(self).author_records() == old(self).author_records().insert(message, author),
    {
        let ghost m = mirrors@;
        self.mirrors.insert(message, mirrors);
        self.authors.insert(message, author);
        assert(final(self).records() =~= old(self).records().insert(message, m));
        assert(final(self).records().dom() =~= final(self).author_records().dom());
    }

    /// A copy of the mirrored copies of a source message, if it was relayed.
    pub fn mirrors_of(&self, message: u64) -> (r: Option<Vec<(u64, u64)>>)
        ensures
            r is Some <==> self.records().contains_key(message),
            r matches Some(v) ==> v@ == self.records()[message],
    {
        match self.mirrors.get(&message) {
            Some(v) => {
                let mut copy: Vec<(u64, u64)> = Vec::new();
                let mut i: usize = 0;
                while i < v.len()
                    invariant
                        i <= v@.len(),
                        copy@ == v@.take(i as int),
                    decreases v.len() - i,
                {
                    copy.push(v[i]);
                    assert(v@.take(i + 1) =~= v@.take(i as int).push(v@[i as int]));
                    i = i + 1;
                }
                assert(v@.take(i as int) =~= v@);
                Some(copy)
            },
            None => None,
        }
    }

    /// The author of a source message, if it was relayed.
    pub fn author_of(&self, message: u64) -> (r: Option<u64>)
        ensures
            r is Some <==> self.author_records().contains_key(message),
            r matches Some(a) ==> a == self.author_records()[message],
    {
        match self.authors.get(&message) {
            Some(a) => Some(*a),
            None => None,
        }
    }
}

} // verus!
