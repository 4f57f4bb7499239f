use crate::endpoints::EndpointCache;
use crate::relay::RelayCache;
use crate::routing::RoutingTable;
use vstd::prelude::*;

verus! {

/// A message is relayed unless the bot wrote it or a proxy endpoint posted it.
pub open spec fn relayable(author: u64, bot: u64, proxy_origin: Option<u64>) -> bool {
    author != bot && proxy_origin is None
}

/// Whether an inbound message may be relayed at all: not written by the bot
/// itself, and not posted through a proxy endpoint.
pub fn should_relay(author: u64, bot: u64, proxy_origin: Option<u64>) -> (r: bool)
    ensures
        r == relayable(author, bot, proxy_origin),
{
    author != bot && proxy_origin.is_none()
}

/// The canned answer to a message: "Pong!" to a message that is exactly "ping".
pub fn canned_reply(content: &str) -> (r: Option<String>)
    ensures
        r is Some <==> content@ == "ping"@,
        r matches Some(s) ==> s@ == "Pong!"@,
{
    let ping = "ping".to_owned();
    if content.to_owned() == ping {
        Some("Pong!".to_owned())
    } else {
        None
    }
}

/// The positions of the attachments that are images, in order.
pub open spec fn image_positions(is_image: Seq<bool>) -> Seq<usize>
    decreases is_image.len(),
{
    if is_image.len() == 0 {
        Seq::empty()
    } else {
        let before = image_positions(is_image.drop_last());
        if is_image.last() {
            before.push((is_image.len() - 1) as usize)
        } else {
            before
        }
    }
}

/// Which attachments of a message are forwarded with its copies: the images,
/// in order; other kinds of attachment are dropped.
pub fn images_to_forward(is_image: &Vec<bool>) -> (r: Vec<usize>)
    ensures
        r@ == image_positions(is_image@),
{
    let mut positions: Vec<usize> = Vec::new();
    let mut i: usize = 0;
    while i < is_image.len()
        invariant
            i <= is_image@.len(),
            positions@ == image_positions(is_image@.take(i as int)),
        decreases is_image.len() - i,
    {
        assert(is_image@.take(i + 1).drop_last() =~= is_image@.take(i as int));
        if is_image[i] {
            positions.push(i);
        }
        i = i + 1;
    }
    assert(is_image@.take(i as int) =~= is_image@);
    positions
}

/// The mirrored copies that a relay yields: for each attempted target in
/// order, (mirrored message, target channel) where the send succeeded.
pub open spec fn sent_copies(targets: Seq<u64>, outcomes: Seq<Option<u64>>) -> Seq<(u64, u64)>
    decreases outcomes.len(),
{
    if outcomes.len() == 0 {
        Seq::empty()
    } else {
        let n = (outcomes.len() - 1) as int;
        let before = sent_copies(targets, outcomes.drop_last());
        match outcomes[n] {
            Some(m) => before.push((m, targets[n])),
            None => before,
        }
    }
}

/// The relay of one inbound message to its targets, one target at a time in
/// configuration order.
pub struct RelayJob {
    message: u64,
    author: u64,
    targets: Vec<u64>,
    next: usize,
    sent: Vec<(u64, u64)>,
    outcomes: Ghost<Seq<Option<u64>>>,
}

impl RelayJob {
    /// The source message being relayed.
    pub closed spec fn message_spec(&self) -> u64 {
        self.message
    }

    /// Its author.
    pub closed spec fn author_spec(&self) -> u64 {
        self.author
    }

    /// The targets, in configuration order.
    pub closed spec fn targets_spec(&self) -> Seq<u64> {
        self.targets@
    }

    /// The outcome of each target attempted so far: the mirrored message, or
    /// `None` where relaying to it failed.
    pub closed spec fn outcomes_spec(&self) -> Seq<Option<u64>> {
        self.outcomes@
    }

    /// The copies sent so far.
    pub closed spec fn sent_spec(&self) -> Seq<(u64, u64)> {
        self.sent@
    }

    /// Each attempted target has one outcome, and the copies sent are those
    /// the outcomes give.
    pub closed spec fn wf(&self) -> bool {
        &&& self.next as int == self.outcomes@.len()
        &&& self.outcomes@.len() <= self.targets@.len()
        &&& self.sent@ == sent_copies(self.targets@, self.outcomes@)
    }

    /// Starts relaying a message posted in `channel`; `None` where the message
    /// is not relayed (see `should_relay`) or the channel has no targets.
    pub fn start(
        routes: &RoutingTable,
        message: u64,
        channel: u64,
        author: u64,
        bot: u64,
        proxy_origin: Option<u64>,
    ) -> (r: Option<RelayJob>)
        ensures
            r is Some <==> relayable(author, bot, proxy_origin) && routes.targets_spec(channel).len()
                > 0,
            r matches Some(job) ==> {
                &&& job.wf()
                &&& job.message_spec() == message
                &&& job.author_spec() == author
                &&& job.targets_spec() == routes.targets_spec(channel)
                &&& job.outcomes_spec() == Seq::<Option<u64>>::empty()
            },
    {
        if !should_relay(author, bot, proxy_origin) {
            return None;
        }
        let targets = routes.targets_for(channel);
        if targets.len() == 0 {
            return None;
        }
        let job = RelayJob {
            message,
            author,
            targets,
            next: 0,
            sent: Vec::new(),
            outcomes: Ghost(Seq::empty()),
        };
        assert(job.sent_spec() =~= sent_copies(job.targets_spec(), job.outcomes_spec()));
        Some(job)
    }

    /// The target to attempt next; `None` once every target was attempted.
    pub fn next_target(&self) -> (r: Option<u64>)
        requires
            self.wf(),
        ensures
            r is Some <==> self.outcomes_spec().len() < self.targets_spec().len(),
            r matches Some(t) ==> t == self.targets_spec()[self.outcomes_spec().len() as int],
    {
        if self.next < self.targets.len() {
            Some(self.targets[self.next])
        } else {
            None
        }
    }

    /// Reports the outcome of the attempt on the current target: the id of
    /// the mirrored message where it was sent, `None` where any step failed.
    pub fn report(&mut self, mirrored: Option<u64>)
        requires
            old(self).wf(),
            old(self).outcomes_spec().len() < old(self).targets_spec().len(),
        ensures
            final(self).wf(),
            final(self).message_spec() == old(self).message_spec(),
            final(self).author_spec() == old(self).author_spec(),
            final(self).targets_spec() == old(self).targets_spec(),
            final(self).outcomes_spec() == old(self).outcomes_spec().push(mirrored),
    {
        let ghost outs = self.outcomes@.push(mirrored);
        assert(self.next < self.targets.len());
        if let Some(m) = mirrored {
            self.sent.push((m, self.targets[self.next]));
        }
        self.next = self.next + 1;
        self.outcomes = Ghost(outs);
        assert(outs.drop_last() =~= old(self).outcomes@);
    }

    /// Ends the relay once every target was attempted: writes the copies that
    /// were sent, and the author, under the source message.
    pub fn finish(self, cache: &mut RelayCache)
        requires
            self.wf(),
            self.outcomes_spec().len() == self.targets_spec().len(),
            old(cache).wf(),
        ensures
            final(cache).wf(),
            final(cache).records() == old(cache).records().insert(
                self.message_spec(),
                sent_copies(self.targets_spec(), self.outcomes_spec()),
            ),
            final(cache).author_records() == old(cache).author_records().insert(
                self.message_spec(),
                self.author_spec(),
            ),
    {
        cache.record(self.message, self.author, self.sent);
    }
}

/// One edit or delete to re-issue: the mirrored copy, its channel, and the
/// cached proxy endpoint to issue it through (`None`: the copy is skipped).
#[derive(Debug, Clone, Copy, PartialEq, Eq)]
pub struct MirrorOp {
    pub mirrored: u64,
    pub channel: u64,
    pub endpoint: Option<u64>,
}

/// The cached endpoint of a pair, as an option.
pub open spec fn endpoint_of(endpoints: Map<(u64, u64), u64>, channel: u64, author: u64) -> Option<
    u64,
> {
    if endpoints.contains_key((channel, author)) {
        Some(endpoints[(channel, author)])
    } else {
        None
    }
}

/// The operation for one mirrored copy (mirrored message, target channel) of
/// a message by `author`: (mirrored message, channel, endpoint).
pub open spec fn op_spec(entry: (u64, u64), author: u64, endpoints: Map<(u64, u64), u64>) -> (
    u64,
    u64,
    Option<u64>,
) {
    (entry.0, entry.1, endpoint_of(endpoints, entry.1, author))
}

/// The edits or deletes to re-issue for a source message: one per mirrored
/// copy on record, none at all for a message that was never relayed.
pub open spec fn propagation_spec(
    records: Map<u64, Seq<(u64, u64)>>,
    authors: Map<u64, u64>,
    endpoints: Map<(u64, u64), u64>,
    message: u64,
) -> Option<Seq<(u64, u64, Option<u64>)>> {
    if records.contains_key(message) {
        Some(records[message].map_values(|e: (u64, u64)| op_spec(e, authors[message], endpoints)))
    } else {
        None
    }
}

/// The spec value of an operation.
pub open spec fn op_view(op: MirrorOp) -> (u64, u64, Option<u64>) {
    (op.mirrored, op.channel, op.endpoint)
}

/// Plans the propagation of an edit or a delete of a source message to its
/// mirrored copies; `None` (nothing to do) for a message that was never relayed.
/// Reads the caches only: records stay as they are after an edit or a delete.
pub fn plan_propagation(relays: &RelayCache, endpoints: &EndpointCache, message: u64) -> (r: Option<
    Vec<MirrorOp>,
>)
    requires
        relays.wf(),
    ensures
        r is Some <==> relays.records().contains_key(message),
        r matches Some(ops) ==> ops@.map_values(|op: MirrorOp| op_view(op)) == propagation_spec(
            relays.records(),
            relays.author_records(),
            endpoints@,
            message,
        )->0,
{
    let entries = match relays.mirrors_of(message) {
        Some(entries) => entries,
        None => {
            return None;
        },
    };
    let author = match relays.author_of(message) {
        Some(a) => a,
        None => {
            return None;
        },
    };
    let ghost spec_ops = propagation_spec(
        relays.records(),
        relays.author_records(),
        endpoints@,
        message,
    )->0;
    let mut ops: Vec<MirrorOp> = Vec::new();
    let mut i: usize = 0;
    while i < entries.len()
        invariant
            i <= entries@.len(),
            entries@ == relays.records()[message],
            author == relays.author_records()[message],
            spec_ops == entries@.map_values(|e: (u64, u64)| op_spec(e, author, endpoints@)),
            ops@.len() == i,
            forall|j: int| 0 <= j < i ==> op_view(#[trigger] ops@[j]) == spec_ops[j],
        decreases entries.len() - i,
    {
        let (mirrored, channel) = entries[i];
        ops.push(MirrorOp { mirrored, channel, endpoint: endpoints.lookup(channel, author) });
        i = i + 1;
    }
    assert(ops@.map_values(|op: MirrorOp| op_view(op)) =~= spec_ops);
    Some(ops)
}

/// A job never attempts more targets than its route has.
pub proof fn lemma_attempts_within_route(job: &RelayJob)
    requires
        job.wf(),
    ensures
        job.outcomes_spec().len() <= job.targets_spec().len(),
{
}

/// A message that the bot wrote, or that a proxy endpoint posted, starts no
/// relay: no send is attempted and no record written.
pub proof fn lemma_own_messages_ignored(author: u64, bot: u64, proxy_origin: Option<u64>)
    requires
        author == bot || proxy_origin is Some,
    ensures
        !relayable(author, bot, proxy_origin),
{
}

/// The copies recorded for a relay are exactly the sends that succeeded: each
/// record names a target whose attempt gave that mirrored message, and each
/// successful attempt is recorded.
pub proof fn lemma_sent_copies_exact(targets: Seq<u64>, outcomes: Seq<Option<u64>>)
    requires
        outcomes.len() <= targets.len(),
    ensures
        forall|j: int|
            0 <= j < sent_copies(targets, outcomes).len() ==> exists|i: int|
                0 <= i < outcomes.len() && outcomes[i] == Some(
                    (#[trigger] sent_copies(targets, outcomes)[j]).0,
                ) && targets[i] == sent_copies(targets, outcomes)[j].1,
        forall|i: int|
            0 <= i < outcomes.len() && (#[trigger] outcomes[i]) is Some ==> sent_copies(
                targets,
                outcomes,
            ).contains((outcomes[i]->0, targets[i])),
    decreases outcomes.len(),
{
    if outcomes.len() > 0 {
        let prev = outcomes.drop_last();
        let n = outcomes.len() - 1;
        lemma_sent_copies_exact(targets, prev);
        let s = sent_copies(targets, outcomes);
        let p = sent_copies(targets, prev);
        assert forall|j: int| 0 <= j < s.len() implies exists|i: int|
            0 <= i < outcomes.len() && outcomes[i] == Some((#[trigger] s[j]).0) && targets[i]
                == s[j].1 by {
            if j < p.len() {
                assert(s[j] == p[j]);
                let i = choose|i: int|
                    0 <= i < prev.len() && prev[i] == Some(p[j].0) && targets[i] == p[j].1;
                assert(outcomes[i] == prev[i]);
            } else {
                assert(outcomes[n] == Some(s[j].0) && targets[n] == s[j].1);
            }
        }
        assert forall|i: int| 0 <= i < outcomes.len() && (#[trigger] outcomes[i]) is Some implies s.contains(
            (outcomes[i]->0, targets[i]),
        ) by {
            if i < n {
                assert(prev[i] == outcomes[i]);
                let k = choose|k: int| 0 <= k < p.len() && p[k] == (prev[i]->0, targets[i]);
                assert(s[k] == p[k]);
            } else {
                assert(s[s.len() - 1] == (outcomes[i]->0, targets[i]));
            }
        }
    }
}

/// After a relay writes its copies, an edit or a delete of the source message
/// re-issues one operation per copy, each on that copy in its channel.
pub proof fn lemma_propagation_after_relay(
    records: Map<u64, Seq<(u64, u64)>>,
    authors: Map<u64, u64>,
    endpoints: Map<(u64, u64), u64>,
    message: u64,
    author: u64,
    copies: Seq<(u64, u64)>,
)
    ensures
        ({
            let ops = propagation_spec(
                records.insert(message, copies),
                authors.insert(message, author),
                endpoints,
                message,
            );
            &&& ops is Some
            &&& ops->0.len() == copies.len()
            &&& forall|i: int|
                0 <= i < copies.len() ==> (#[trigger] ops->0[i]).0 == copies[i].0 && ops->0[i].1
                    == copies[i].1 && ops->0[i].2 == endpoint_of(endpoints, copies[i].1, author)
        }),
{
}

/// Propagating an edit or a delete of a message that was never relayed does
/// nothing; of one that was, it yields one operation per recorded copy.
pub proof fn lemma_propagation_one_per_copy(
    records: Map<u64, Seq<(u64, u64)>>,
    authors: Map<u64, u64>,
    endpoints: Map<(u64, u64), u64>,
    message: u64,
)
    ensures
        !records.contains_key(message) ==> propagation_spec(records, authors, endpoints, message)
            is None,
        records.contains_key(message) ==> (propagation_spec(records, authors, endpoints, message)
            matches Some(ops) && ops.len() == records[message].len()),
{
}

} // verus!
