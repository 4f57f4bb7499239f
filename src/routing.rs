use std::collections::HashMap;
use vstd::prelude::*;

verus! {

broadcast use vstd::std_specs::hash::group_hash_axioms;

/// The routing table described by a list of rows `[source, target, ...]`:
/// each row maps its first element to the rest, a later row replacing an
/// earlier one with the same source.
pub open spec fn routes_of(rows: Seq<Seq<u64>>) -> Map<u64, Seq<u64>>
    decreases rows.len(),
{
    if rows.len() == 0 {
        Map::empty()
    } else {
        let last = rows.last();
        routes_of(rows.drop_last()).insert(last[0], last.skip(1))
    }
}

/// Maps each source channel to the ordered channels its messages are mirrored into.
pub struct RoutingTable {
    routes: HashMap<u64, Vec<u64>>,
}

impl View for RoutingTable {
    type V = Map<u64, Seq<u64>>;

    closed spec fn view(&self) -> Map<u64, Seq<u64>> {
        self.routes@.map_values(|v: Vec<u64>| v@)
    }
}

impl RoutingTable {
    /// The targets of a source channel: empty for a channel that is not a source.
    pub open spec fn targets_spec(self, source: u64) -> Seq<u64> {
        if self@.contains_key(source) {
            self@[source]
        } else {
            Seq::empty()
        }
    }

    /// Builds the table from non-empty rows `[source, target, ...]`.
    pub fn from_rows(rows: &Vec<Vec<u64>>) -> (r: RoutingTable)
        requires
            forall|i: int| 0 <= i < rows@.len() ==> #[trigger] rows@[i]@.len() > 0,
        ensures
            r@ == routes_of(rows@.map_values(|v: Vec<u64>| v@)),
    {
        let ghost rs = rows@.map_values(|v: Vec<u64>| v@);
        let mut routes: HashMap<u64, Vec<u64>> = HashMap::new();
        let mut i: usize = 0;
        while i < rows.len()
            invariant
                i <= rows@.len(),
                rs == rows@.map_values(|v: Vec<u64>| v@),
                forall|j: int| 0 <= j < rows@.len() ==> #[trigger] rows@[j]@.len() > 0,
                routes@.map_values(|v: Vec<u64>| v@) == routes_of(rs.take(i as int)),
            decreases rows.len() - i,
        {
            let row = &rows[i];
            assert(row@.len() > 0);
            let mut targets: Vec<u64> = Vec::new();
            let mut k: usize = 1;
            while k < row.len()
                invariant
                    1 <= k <= row@.len(),
                    targets@ == row@.subrange(1, k as int),
                decreases row.len() - k,
            {
                targets.push(row[k]);
                k = k + 1;
            }
            let ghost before = routes@;
            routes.insert(row[0], targets);
            proof {
                assert(rs.take(i + 1).drop_last() =~= rs.take(i as int));
                assert(rs.take(i + 1).last() == row@);
                assert(row@.skip(1) =~= targets@);
                assert(routes@.map_values(|v: Vec<u64>| v@) =~= before.map_values(
                    |v: Vec<u64>| v@,
                ).insert(row@[0], targets@));
            }
            i = i + 1;
        }
        assert(rs.take(rows@.len() as int) =~= rs);
        RoutingTable { routes }
    }

    /// The ordered targets of `source`; empty when it is not a source channel.
    pub fn targets_for(&self, source: u64) -> (r: Vec<u64>)
        ensures
            r@ == self.targets_spec(source),
    {
        match self.routes.get(&source) {
            Some(v) => v.clone(),
            None => Vec::new(),
        }
    }

    /// Whether messages posted in `channel` are mirrored anywhere.
    pub fn is_source(&self, channel: u64) -> (r: bool)
        ensures
            r == self@.contains_key(channel),
    {
        self.routes.contains_key(&channel)
    }
}

} // verus!
