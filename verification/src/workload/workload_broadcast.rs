use std::collections::{HashMap, HashSet};
use vstd::prelude::*;
use vstd::std_specs::iter::IteratorSpec;
use rand::seq::IndexedRandom;

use crate::body::{Payload, ReadRPC};
use crate::transport::SendData;
use crate::workload::{contains_name, names, WorkloadError};

verus! {

broadcast use vstd::std_specs::hash::group_hash_axioms;

/// The integer square root: the largest `r` with `r * r <= n`.
pub fn isqrt(n: u128) -> (r: u128)
    requires
        n <= 2 * (u64::MAX as int),
    ensures
        r * r <= n,
        n < (r + 1) * (r + 1),
{
    let mut r: u128 = 0;
    let mut next_sq: u128 = 1;
    while next_sq <= n
        invariant
            n <= 2 * (u64::MAX as int),
            r * r <= n,
            next_sq == (r + 1) * (r + 1),
            r <= n,
            r < 0x2_0000_0000,
        decreases n - r,
    {
        assert((r + 2) * (r + 2) == (r + 1) * (r + 1) + 2 * r + 3) by (nonlinear_arith);
        assert(r + 1 <= n && r + 1 < 0x2_0000_0000) by (nonlinear_arith)
            requires
                (r + 1) * (r + 1) <= n,
                n <= 2 * (u64::MAX as int),
                r >= 0,
        ;
        r = r + 1;
        next_sq = next_sq + 2 * r + 1;
    }
    r
}

/// How many neighbours a node gossips to, in a cluster of `n` nodes: the integer square root of
/// `2 n`, but no more than `n`.
pub open spec fn spec_target_count(n: int, root: int) -> int {
    if root < n { root } else { n }
}

pub fn gossip_target_count(n: usize) -> (count: usize)
    ensures
        exists|root: int|
            #![trigger spec_target_count(n as int, root)]
            root * root <= 2 * n < (root + 1) * (root + 1) && count == spec_target_count(
                n as int,
                root,
            ),
{
    let doubled: u128 = 2 * (n as u128);
    let root = isqrt(doubled);
    let count = if root < n as u128 { root as usize } else { n };
    assert(count == spec_target_count(n as int, root as int));
    count
}


/// The elements of `set`, each once, in the order in which the set yields them.
pub fn set_to_vec(set: &HashSet<u32>) -> (v: Vec<u32>)
    ensures
        v@.to_set() == set@,
        v@.no_duplicates(),
{
    let ghost keys = vstd::std_specs::hash::spec_hash_keys_iter(set).remaining();
    let mut v: Vec<u32> = Vec::new();
    for x in it: set.iter()
        invariant
            it.seq() == keys,
            v@ == it.seq().take(it.index()).map_values(|r: &u32| *r),
    {
        v.push(*x);
    }
    assert(v@ =~= keys.unref());
    v
}


/// The node names that a topology lists, in order.
pub open spec fn topology_names(t: Seq<(String, Vec<String>)>) -> Seq<Seq<char>> {
    t.map_values(|e: (String, Vec<String>)| e.0@)
}

/// The names in `keys` other than `node`, in order, each once.
pub open spec fn spec_other_nodes(keys: Seq<Seq<char>>, node: Seq<char>) -> Seq<Seq<char>>
    decreases keys.len(),
{
    if keys.len() == 0 {
        Seq::empty()
    } else {
        let rest = spec_other_nodes(keys.drop_last(), node);
        if keys.last() != node && !rest.contains(keys.last()) {
            rest.push(keys.last())
        } else {
            rest
        }
    }
}

/// The nodes of the topology that a node may gossip to: all but itself, each once.
pub fn gossip_candidates(topology: &Vec<(String, Vec<String>)>, node: &String) -> (c: Vec<String>)
    ensures
        names(c@) == spec_other_nodes(topology_names(topology@), node@),
        names(c@).no_duplicates(),
{
    let mut c: Vec<String> = Vec::new();
    let mut i: usize = 0;
    while i < topology.len()
        invariant
            i <= topology.len(),
            names(c@) == spec_other_nodes(topology_names(topology@).take(i as int), node@),
            names(c@).no_duplicates(),
        decreases topology.len() - i,
    {
        let ghost keys = topology_names(topology@);
        assert(keys.take(i + 1).drop_last() =~= keys.take(i as int));
        assert(keys.take(i + 1).last() == topology@[i as int].0@);
        if !(topology[i].0 == *node) && !contains_name(&c, &topology[i].0) {
            let ghost before = names(c@);
            c.push(topology[i].0.clone());
            assert(names(c@) =~= before.push(c@.last()@));
            assert forall|a: int, b: int|
                0 <= a < b < names(c@).len() implies names(c@)[a] != names(c@)[b] by {
                if b == names(c@).len() - 1 {
                    assert(before[a] == names(c@)[a]);
                    assert(before.contains(before[a]));
                }
            }
        }
        i = i + 1;
    }
    assert(topology_names(topology@).take(topology.len() as int) =~= topology_names(topology@));
    c
}

/// The names in `keys`, in order, each once.
pub open spec fn spec_distinct(keys: Seq<Seq<char>>) -> Seq<Seq<char>>
    decreases keys.len(),
{
    if keys.len() == 0 {
        Seq::empty()
    } else {
        let rest = spec_distinct(keys.drop_last());
        if rest.contains(keys.last()) {
            rest
        } else {
            rest.push(keys.last())
        }
    }
}

/// Names that are each there once are kept as they are.
pub proof fn lemma_distinct_of_distinct(keys: Seq<Seq<char>>)
    requires
        keys.no_duplicates(),
    ensures
        spec_distinct(keys) == keys,
    decreases keys.len(),
{
    if keys.len() > 0 {
        let init = keys.drop_last();
        assert(init.no_duplicates()) by {
            assert forall|a: int, b: int| 0 <= a < init.len() && 0 <= b < init.len() && a != b implies init[a] != init[b] by {
                assert(init[a] == keys[a] && init[b] == keys[b]);
            }
        }
        lemma_distinct_of_distinct(init);
        assert(!init.contains(keys.last())) by {
            assert forall|a: int| 0 <= a < init.len() implies init[a] != keys.last() by {
                assert(init[a] == keys[a]);
            }
        }
        assert(init.push(keys.last()) =~= keys);
    }
}

/// The number of nodes that a topology names (a node listed twice counts once).
pub fn topology_size(topology: &Vec<(String, Vec<String>)>) -> (n: usize)
    ensures
        n == spec_distinct(topology_names(topology@)).len(),
{
    let mut seen: Vec<String> = Vec::new();
    let mut i: usize = 0;
    while i < topology.len()
        invariant
            i <= topology.len(),
            seen.len() <= i,
            names(seen@) == spec_distinct(topology_names(topology@).take(i as int)),
        decreases topology.len() - i,
    {
        let ghost keys = topology_names(topology@);
        assert(keys.take(i + 1).drop_last() =~= keys.take(i as int));
        assert(keys.take(i + 1).last() == topology@[i as int].0@);
        if !contains_name(&seen, &topology[i].0) {
            let ghost before = names(seen@);
            seen.push(topology[i].0.clone());
            assert(names(seen@) =~= before.push(seen@.last()@));
        }
        i = i + 1;
    }
    assert(topology_names(topology@).take(topology.len() as int) =~= topology_names(topology@));
    seen.len()
}

/// `idx` tells, for each picked name, the distinct position in `from` that it was taken from.
pub open spec fn picked_at(idx: Seq<int>, picked: Seq<Seq<char>>, from: Seq<Seq<char>>) -> bool {
    &&& idx.len() == picked.len()
    &&& forall|i: int| 0 <= i < idx.len() ==> 0 <= #[trigger] idx[i] < from.len() && picked[i] == from[idx[i]]
    &&& forall|i: int, j: int| 0 <= i < idx.len() && 0 <= j < idx.len() && i != j ==> idx[i] != idx[j]
}

/// A choice without repetition from names that are each there once holds each name once.
pub proof fn lemma_sample_of_distinct_is_distinct(
    picked: Seq<Seq<char>>,
    from: Seq<Seq<char>>,
    amount: int,
)
    requires
        is_sample(picked, from, amount),
        from.no_duplicates(),
    ensures
        picked.no_duplicates(),
{
    let idx = choose|idx: Seq<int>| picked_at(idx, picked, from);
    assert forall|i: int, j: int|
        0 <= i < picked.len() && 0 <= j < picked.len() && i != j implies picked[i] != picked[j] by {
        assert(0 <= idx[i] < from.len());
        assert(0 <= idx[j] < from.len());
        assert(idx[i] != idx[j]);
    }
}

/// `picked` is a choice, without repetition, of `amount` entries of `from` (of all of them,
/// where `from` has fewer).
pub open spec fn is_sample(picked: Seq<Seq<char>>, from: Seq<Seq<char>>, amount: int) -> bool {
    &&& picked.len() == (if amount < from.len() { amount } else { from.len() as int })
    &&& exists|idx: Seq<int>| picked_at(idx, picked, from)
}

/// Draws `amount` of the candidates at random, without repetition (all of them, where there are
/// fewer), with `rand`'s `IndexedRandom::sample` over the thread's generator. The contract
/// states what holds of every draw: how many are drawn, and that each is a distinct candidate.
/// Which ones, and in what order, is left to chance and is not stated. `rand::rng` panics only
/// where the operating system cannot seed the generator.
#[verifier::external_body]
fn sample_names(candidates: &Vec<String>, amount: usize) -> (picked: Vec<String>)
    ensures
        is_sample(names(picked@), names(candidates@), amount as int),
{
    let mut rng = rand::rng();
    candidates.sample(&mut rng, amount).cloned().collect()
}

/// The messages of `fresh` that were not seen before each take `src` as their origin; the
/// others keep theirs.
pub open spec fn spec_new_origins(
    origins: Map<u32, Seq<char>>,
    seen: Set<u32>,
    fresh: Set<u32>,
    src: Seq<char>,
) -> Map<u32, Seq<char>> {
    Map::new(
        |k: u32| origins.contains_key(k) || (fresh.contains(k) && !seen.contains(k)),
        |k: u32|
            if origins.contains_key(k) {
                origins[k]
            } else {
                src
            },
    )
}

/// The messages that a gossip round sends to `neighbor`: those pending whose origin is not
/// `neighbor` itself.
pub open spec fn spec_batch(origins: Map<u32, Seq<char>>, neighbor: Seq<char>) -> Set<u32> {
    Set::new(|k: u32| origins.contains_key(k) && origins[k] != neighbor)
}

/// The gossip targets that have something to be sent, in order.
pub open spec fn spec_targets_with_news(targets: Seq<Seq<char>>, origins: Map<u32, Seq<char>>) -> Seq<
    Seq<char>,
>
    decreases targets.len(),
{
    if targets.len() == 0 {
        Seq::empty()
    } else {
        let rest = spec_targets_with_news(targets.drop_last(), origins);
        if spec_batch(origins, targets.last()) != Set::<u32>::empty() {
            rest.push(targets.last())
        } else {
            rest
        }
    }
}

/// How many targets a cluster of `n` nodes gossips to: the integer square root of `2 n`, and no
/// more than `n`.
pub open spec fn is_target_count(n: int, count: int) -> bool {
    exists|root: int|
        #![trigger spec_target_count(n, root)]
        root * root <= 2 * n < (root + 1) * (root + 1) && count == spec_target_count(n, root)
}

/// A broadcast node: it keeps every message it has been given, answers reads with all of them,
/// and remembers, for each message it has not gossiped yet, the node it came from.
pub struct WorkloadBroadcast {
    node: String,
    topology: Vec<(String, Vec<String>)>,
    gossip_targets: Vec<String>,
    messages: HashSet<u32>,
    to_send: HashMap<u32, Vec<String>>,
}

impl WorkloadBroadcast {
    /// Each message still to gossip came from exactly one node, and is among the messages seen.
    pub closed spec fn wf(self) -> bool {
        forall|k: u32|
            #[trigger] self.to_send@.contains_key(k) ==> self.to_send@[k].len() == 1
                && self.messages@.contains(k)
    }

    pub closed spec fn node_name(self) -> Seq<char> {
        self.node@
    }

    pub closed spec fn topology(self) -> Seq<(String, Vec<String>)> {
        self.topology@
    }

    pub closed spec fn gossip_targets(self) -> Seq<Seq<char>> {
        names(self.gossip_targets@)
    }

    /// Every message this node has been given.
    pub closed spec fn messages(self) -> Set<u32> {
        self.messages@
    }

    /// The messages still to gossip, each with the node it came from.
    pub closed spec fn origins(self) -> Map<u32, Seq<char>> {
        Map::new(|k: u32| self.to_send@.contains_key(k), |k: u32| self.to_send@[k]@[0]@)
    }

    /// Every message still to gossip is one the node has seen.
    pub proof fn lemma_pending_were_seen(self)
        requires
            self.wf(),
        ensures
            forall|k: u32| #[trigger] self.origins().contains_key(k) ==> self.messages().contains(k),
    {
    }

    /// A node with no name, no topology and no messages yet.
    pub fn new() -> (w: Self)
        ensures
            w.wf(),
            w.node_name() == Seq::<char>::empty(),
            w.topology() == Seq::<(String, Vec<String>)>::empty(),
            w.gossip_targets() == Seq::<Seq<char>>::empty(),
            w.messages() == Set::<u32>::empty(),
            w.origins() == Map::<u32, Seq<char>>::empty(),
    {
        let w = WorkloadBroadcast {
            node: String::new(),
            topology: Vec::new(),
            gossip_targets: Vec::new(),
            messages: HashSet::new(),
            to_send: HashMap::new(),
        };
        assert(w.origins() =~= Map::<u32, Seq<char>>::empty());
        assert(w.gossip_targets() =~= Seq::<Seq<char>>::empty());
        w
    }

    /// Records the node's own name.
    pub fn init(&mut self, _node_id: u32, node: String)
        requires
            old(self).wf(),
        ensures
            final(self).wf(),
            final(self).node_name() == node@,
            final(self).topology() == old(self).topology(),
            final(self).gossip_targets() == old(self).gossip_targets(),
            final(self).messages() == old(self).messages(),
            final(self).origins() == old(self).origins(),
    {
        self.node = node;
    }

    /// Keeps `message`; a message not seen before is to be gossiped, with `source` as its
    /// origin. Returns whether the message was new.
    fn record(&mut self, message: u32, source: &String) -> (is_new: bool)
        requires
            old(self).wf(),
        ensures
            final(self).wf(),
            is_new == !old(self).messages().contains(message),
            final(self).messages() == old(self).messages().insert(message),
            final(self).origins() == spec_new_origins(
                old(self).origins(),
                old(self).messages(),
                set![message],
                source@,
            ),
            final(self).node_name() == old(self).node_name(),
            final(self).topology() == old(self).topology(),
            final(self).gossip_targets() == old(self).gossip_targets(),
    {
        let is_new = self.messages.insert(message);
        if is_new {
            let sources: Vec<String> = vec![source.clone()];
            self.to_send.insert(message, sources);
        }
        assert(self.origins() =~= spec_new_origins(
            old(self).origins(),
            old(self).messages(),
            set![message],
            source@,
        ));
        is_new
    }

    /// The reply to a request, and what it does to the node.
    pub fn handle(&mut self, payload: Payload, dest: String, msg_id: Option<u64>) -> (res: Result<
        Option<SendData>,
        WorkloadError,
    >)
        requires
            old(self).wf(),
        ensures
            final(self).wf(),
            final(self).node_name() == old(self).node_name(),
            match payload {
                Payload::Broadcast { message } => {
                    &&& final(self).messages() == old(self).messages().insert(message)
                    &&& final(self).origins() == spec_new_origins(
                        old(self).origins(),
                        old(self).messages(),
                        set![message],
                        dest@,
                    )
                    &&& final(self).topology() == old(self).topology()
                    &&& final(self).gossip_targets() == old(self).gossip_targets()
                    &&& res matches Ok(Some(reply))
                    &&& reply.payload is BroadcastOk
                    &&& reply.dest == dest
                    &&& reply.in_reply_to == msg_id
                },
                Payload::BroadcastBatch { messages } => {
                    &&& final(self).messages() == old(self).messages() + messages@.to_set()
                    &&& final(self).origins() == spec_new_origins(
                        old(self).origins(),
                        old(self).messages(),
                        messages@.to_set(),
                        dest@,
                    )
                    &&& final(self).topology() == old(self).topology()
                    &&& final(self).gossip_targets() == old(self).gossip_targets()
                    &&& res matches Ok(Some(reply))
                    &&& reply.payload is BroadcastBatchOk
                    &&& reply.dest == dest
                    &&& reply.in_reply_to == msg_id
                },
                Payload::BroadcastBatchOk => {
                    &&& res == Ok::<Option<SendData>, WorkloadError>(None)
                    &&& final(self).messages() == old(self).messages()
                    &&& final(self).origins() == old(self).origins()
                    &&& final(self).topology() == old(self).topology()
                    &&& final(self).gossip_targets() == old(self).gossip_targets()
                },
                Payload::Read { .. } => {
                    &&& final(self).messages() == old(self).messages()
                    &&& final(self).origins() == old(self).origins()
                    &&& final(self).topology() == old(self).topology()
                    &&& final(self).gossip_targets() == old(self).gossip_targets()
                    &&& res matches Ok(Some(reply))
                    &&& reply.payload matches Payload::ReadOk {
                        result: ReadRPC::Broadcast { messages: seen },
                    }
                    &&& seen@.to_set() == old(self).messages()
                    &&& seen@.no_duplicates()
                    &&& reply.dest == dest
                    &&& reply.in_reply_to == msg_id
                },
                Payload::Topology { topology } => {
                    &&& final(self).topology() == topology@
                    &&& exists|count: int|
                        #![trigger is_target_count(spec_distinct(topology_names(topology@)).len() as int, count)]
                        is_target_count(spec_distinct(topology_names(topology@)).len() as int, count) && is_sample(
                            final(self).gossip_targets(),
                            spec_other_nodes(topology_names(topology@), old(self).node_name()),
                            count,
                        )
                    &&& final(self).gossip_targets().no_duplicates()
                    &&& final(self).messages() == old(self).messages()
                    &&& final(self).origins() == old(self).origins()
                    &&& res matches Ok(Some(reply))
                    &&& reply.payload is TopologyOk
                    &&& reply.dest == dest
                    &&& reply.in_reply_to == msg_id
                },
                _ => {
                    &&& res == Err::<Option<SendData>, WorkloadError>(WorkloadError::Unsupported)
                    &&& final(self).messages() == old(self).messages()
                    &&& final(self).origins() == old(self).origins()
                    &&& final(self).topology() == old(self).topology()
                    &&& final(self).gossip_targets() == old(self).gossip_targets()
                },
            },
    {
        match payload {
            Payload::Broadcast { message } => {
                self.record(message, &dest);
                Ok(Some(SendData { payload: Payload::BroadcastOk, dest, in_reply_to: msg_id }))
            },
            Payload::BroadcastBatch { messages } => {
                self.record_all(&messages, &dest);
                Ok(Some(SendData { payload: Payload::BroadcastBatchOk, dest, in_reply_to: msg_id }))
            },
            Payload::BroadcastBatchOk => Ok(None),
            Payload::Read { .. } => {
                let seen = set_to_vec(&self.messages);
                Ok(
                    Some(
                        SendData {
                            payload: Payload::ReadOk { result: ReadRPC::Broadcast { messages: seen } },
                            dest,
                            in_reply_to: msg_id,
                        },
                    ),
                )
            },
            Payload::Topology { topology } => {
                let candidates = gossip_candidates(&topology, &self.node);
                let count = gossip_target_count(topology_size(&topology));
                let targets = sample_names(&candidates, count);
                assert(is_target_count(
                    spec_distinct(topology_names(topology@)).len() as int,
                    count as int,
                ));
                proof {
                    lemma_sample_of_distinct_is_distinct(
                        names(targets@),
                        names(candidates@),
                        count as int,
                    );
                }
                self.topology = topology;
                self.gossip_targets = targets;
                Ok(Some(SendData { payload: Payload::TopologyOk, dest, in_reply_to: msg_id }))
            },
            _ => Err(WorkloadError::Unsupported),
        }
    }

    /// Keeps each message of `messages`, as `record` does one.
    fn record_all(&mut self, messages: &Vec<u32>, source: &String)
        requires
            old(self).wf(),
        ensures
            final(self).wf(),
            final(self).messages() == old(self).messages() + messages@.to_set(),
            final(self).origins() == spec_new_origins(
                old(self).origins(),
                old(self).messages(),
                messages@.to_set(),
                source@,
            ),
            final(self).node_name() == old(self).node_name(),
            final(self).topology() == old(self).topology(),
            final(self).gossip_targets() == old(self).gossip_targets(),
    {
        let ghost seen0 = self.messages();
        let ghost origins0 = self.origins();
        let mut i: usize = 0;
        while i < messages.len()
            invariant
                i <= messages.len(),
                self.wf(),
                self.messages() == seen0 + messages@.take(i as int).to_set(),
                self.origins() == spec_new_origins(
                    origins0,
                    seen0,
                    messages@.take(i as int).to_set(),
                    source@,
                ),
                forall|k: u32| #[trigger] origins0.contains_key(k) ==> seen0.contains(k),
                self.node_name() == old(self).node_name(),
                self.topology() == old(self).topology(),
                self.gossip_targets() == old(self).gossip_targets(),
            decreases messages.len() - i,
        {
            self.record(messages[i], source);
            assert(messages@.take(i + 1).to_set() =~= messages@.take(i as int).to_set().insert(
                messages@[i as int],
            )) by {
                assert(messages@.take(i + 1) =~= messages@.take(i as int).push(messages@[i as int]));
                messages@.take(i as int).lemma_push_to_set_commute(messages@[i as int]);
            }
            assert(self.messages() =~= seen0 + messages@.take(i + 1).to_set());
            assert(self.origins() =~= spec_new_origins(
                origins0,
                seen0,
                messages@.take(i + 1).to_set(),
                source@,
            ));
            i = i + 1;
        }
        assert(messages@.take(messages.len() as int) =~= messages@);
    }

    /// One gossip round: for each gossip target (in order), the messages pending whose origin
    /// is not that target; a target with none gets no batch. Afterwards nothing is pending.
    pub fn gossip(&mut self) -> (batches: Vec<(String, Vec<u32>)>)
        requires
            old(self).wf(),
        ensures
            final(self).wf(),
            final(self).origins() == Map::<u32, Seq<char>>::empty(),
            final(self).messages() == old(self).messages(),
            final(self).node_name() == old(self).node_name(),
            final(self).topology() == old(self).topology(),
            final(self).gossip_targets() == old(self).gossip_targets(),
            batches@.map_values(|b: (String, Vec<u32>)| b.0@) == spec_targets_with_news(
                old(self).gossip_targets(),
                old(self).origins(),
            ),
            forall|i: int|
                0 <= i < batches.len() ==> (#[trigger] batches@[i]).1@.to_set() == spec_batch(
                    old(self).origins(),
                    batches@[i].0@,
                ) && batches@[i].1@.no_duplicates(),
    {
        let ghost origins0 = self.origins();
        let ghost targets0 = self.gossip_targets();
        let mut batches: Vec<(String, Vec<u32>)> = Vec::new();
        let mut i: usize = 0;
        while i < self.gossip_targets.len()
            invariant
                i <= self.gossip_targets.len(),
                self.wf(),
                self.origins() == origins0,
                self.gossip_targets() == targets0,
                self.messages() == old(self).messages(),
                self.node_name() == old(self).node_name(),
                self.topology() == old(self).topology(),
                batches@.map_values(|b: (String, Vec<u32>)| b.0@) == spec_targets_with_news(
                    targets0.take(i as int),
                    origins0,
                ),
                forall|j: int|
                    0 <= j < batches.len() ==> (#[trigger] batches@[j]).1@.to_set() == spec_batch(
                        origins0,
                        batches@[j].0@,
                    ) && batches@[j].1@.no_duplicates(),
            decreases self.gossip_targets.len() - i,
        {
            let batch = self.batch_for(&self.gossip_targets[i]);
            assert(targets0.take(i + 1).drop_last() =~= targets0.take(i as int));
            assert(targets0.take(i + 1).last() == self.gossip_targets@[i as int]@);
            if batch.len() > 0 {
                assert(batch@.to_set().contains(batch@[0]));
                let neighbor = self.gossip_targets[i].clone();
                let ghost before = batches@;
                batches.push((neighbor, batch));
                assert(batches@.map_values(|b: (String, Vec<u32>)| b.0@) =~= before.map_values(
                    |b: (String, Vec<u32>)| b.0@,
                ).push(self.gossip_targets@[i as int]@));
            } else {
                assert(batch@.to_set() =~= Set::<u32>::empty());
            }
            i = i + 1;
        }
        assert(targets0.take(self.gossip_targets.len() as int) =~= targets0);
        self.to_send.clear();
        assert(self.origins() =~= Map::<u32, Seq<char>>::empty());
        batches
    }

    /// The messages pending whose sources do not include `neighbor`.
    fn batch_for(&self, neighbor: &String) -> (batch: Vec<u32>)
        requires
            self.wf(),
        ensures
            batch@.to_set() == spec_batch(self.origins(), neighbor@),
            batch@.no_duplicates(),
    {
        let ghost kvs = vstd::std_specs::hash::spec_hash_map_iter(&self.to_send).remaining();
        let entries = self.to_send.iter();
        assert forall|a: int, b: int| 0 <= a < kvs.len() && 0 <= b < kvs.len() && a != b implies *kvs[a].0
            != *kvs[b].0 by {
            if *kvs[a].0 == *kvs[b].0 {
                assert(self.to_send@.contains_key(*kvs[a].0));
                assert(self.to_send@.contains_key(*kvs[b].0));
                assert(kvs[a] == kvs[b]);
            }
        }
        let mut batch: Vec<u32> = Vec::new();
        let ghost mut from: Seq<int> = Seq::empty();
        for (k, v) in it: entries
            invariant
                it.seq() == kvs,
                self.wf(),
                forall|a: int, b: int|
                    0 <= a < kvs.len() && 0 <= b < kvs.len() && a != b ==> *kvs[a].0 != *kvs[b].0,
                from.len() == batch.len(),
                forall|a: int|
                    0 <= a < batch.len() ==> 0 <= #[trigger] from[a] < it.index() && *kvs[from[a]].0
                        == batch@[a],
                forall|a: int, b: int|
                    0 <= a < batch.len() && 0 <= b < batch.len() && a != b ==> from[a] != from[b],
                forall|j: int|
                    0 <= j < it.index() ==> (#[trigger] batch@.contains(*kvs[j].0) <==> !names(
                        kvs[j].1@,
                    ).contains(neighbor@)),
        {
            let ghost idx = it.index();
            assert(*k == *kvs[idx].0 && *v == *kvs[idx].1);
            if !contains_name(v, neighbor) {
                let ghost before = batch@;
                batch.push(*k);
                proof {
                    from = from.push(idx);
                    assert forall|j: int| 0 <= j < idx implies #[trigger] batch@.contains(*kvs[j].0)
                        == before.contains(*kvs[j].0) by {
                        assert(batch@ == before.push(*kvs[idx].0));
                        if batch@.contains(*kvs[j].0) {
                            let a = choose|a: int| 0 <= a < batch.len() && batch@[a] == *kvs[j].0;
                            if a < before.len() {
                                assert(before[a] == *kvs[j].0);
                            } else {
                                assert(*kvs[idx].0 == *kvs[j].0);
                            }
                        }
                        if before.contains(*kvs[j].0) {
                            let a = choose|a: int| 0 <= a < before.len() && before[a] == *kvs[j].0;
                            assert(batch@[a] == *kvs[j].0);
                        }
                    }
                    assert(batch@.contains(*kvs[idx].0)) by {
                        assert(batch@.last() == *kvs[idx].0);
                    }
                }
            } else {
                assert(!batch@.contains(*kvs[idx].0)) by {
                    if batch@.contains(*kvs[idx].0) {
                        let a = choose|a: int| 0 <= a < batch.len() && batch@[a] == *kvs[idx].0;
                        assert(*kvs[from[a]].0 == *kvs[idx].0);
                    }
                }
            }
        }
        assert(batch@.no_duplicates()) by {
            assert forall|a: int, b: int| 0 <= a < batch.len() && 0 <= b < batch.len() && a != b implies batch@[a] != batch@[b] by {
                assert(*kvs[from[a]].0 == batch@[a]);
                assert(*kvs[from[b]].0 == batch@[b]);
            }
        }
        assert forall|key: u32| batch@.to_set().contains(key) <==> spec_batch(self.origins(), neighbor@).contains(key) by {
            if self.to_send@.contains_key(key) {
                assert(kvs.contains((&key, &self.to_send@[key])));
                let j = choose|j: int| 0 <= j < kvs.len() && kvs[j] == (&key, &self.to_send@[key]);
                let names_k = names(self.to_send@[key]@);
                assert(names_k.len() == 1);
                assert(names_k.contains(neighbor@) <==> names_k[0] == neighbor@);
                assert(batch@.contains(*kvs[j].0) <==> !names(kvs[j].1@).contains(neighbor@));
            }
            if batch@.contains(key) {
                let a = choose|a: int| 0 <= a < batch.len() && batch@[a] == key;
                assert(*kvs[from[a]].0 == key);
                assert(self.to_send@.contains_key(key));
            }
        }
        assert(batch@.to_set() =~= spec_batch(self.origins(), neighbor@));
        batch
    }
}


impl Default for WorkloadBroadcast {
    fn default() -> (w: Self)
        ensures
            w.wf(),
            w.node_name() == Seq::<char>::empty(),
            w.topology() == Seq::<(String, Vec<String>)>::empty(),
            w.gossip_targets() == Seq::<Seq<char>>::empty(),
            w.messages() == Set::<u32>::empty(),
            w.origins() == Map::<u32, Seq<char>>::empty(),
    {
        WorkloadBroadcast::new()
    }
}


/// Delivering the same messages again, from any node, changes nothing: they are all seen
/// already, and those still pending keep the origin they had.
pub proof fn lemma_redelivery_changes_nothing(
    origins: Map<u32, Seq<char>>,
    seen: Set<u32>,
    fresh: Set<u32>,
    src: Seq<char>,
    other_src: Seq<char>,
)
    requires
        forall|k: u32| #[trigger] origins.contains_key(k) ==> seen.contains(k),
    ensures
        ({
            let seen1 = seen + fresh;
            let origins1 = spec_new_origins(origins, seen, fresh, src);
            &&& seen1 + fresh == seen1
            &&& spec_new_origins(origins1, seen1, fresh, other_src) == origins1
            &&& forall|k: u32| #[trigger] origins1.contains_key(k) ==> seen1.contains(k)
        }),
{
    let seen1 = seen + fresh;
    let origins1 = spec_new_origins(origins, seen, fresh, src);
    assert(seen1 + fresh =~= seen1);
    assert(spec_new_origins(origins1, seen1, fresh, other_src) =~= origins1);
}

/// Gossip never sends a message back to the node it came from.
pub proof fn lemma_gossip_never_returns_to_origin(
    origins: Map<u32, Seq<char>>,
    neighbor: Seq<char>,
    k: u32,
)
    requires
        spec_batch(origins, neighbor).contains(k),
    ensures
        origins.contains_key(k),
        origins[k] != neighbor,
{
}

/// A gossip round sends each pending message to every gossip target other than its origin.
pub proof fn lemma_gossip_reaches_every_target(
    targets: Seq<Seq<char>>,
    origins: Map<u32, Seq<char>>,
    t: Seq<char>,
    k: u32,
)
    requires
        targets.contains(t),
        origins.contains_key(k),
        origins[k] != t,
    ensures
        spec_targets_with_news(targets, origins).contains(t),
        spec_batch(origins, t).contains(k),
    decreases targets.len(),
{
    assert(spec_batch(origins, t).contains(k));
    if targets.last() == t {
        assert(spec_batch(origins, t) != Set::<u32>::empty());
        let out = spec_targets_with_news(targets, origins);
        assert(out.last() == t);
    } else {
        let i = choose|i: int| 0 <= i < targets.len() && targets[i] == t;
        assert(targets.drop_last()[i] == t);
        lemma_gossip_reaches_every_target(targets.drop_last(), origins, t, k);
        let rest = spec_targets_with_news(targets.drop_last(), origins);
        let j = choose|j: int| 0 <= j < rest.len() && rest[j] == t;
        let out = spec_targets_with_news(targets, origins);
        assert(out[j] == t);
    }
}

/// A message the node has not seen before becomes pending with its sender as origin, whoever
/// the sender is; a message already pending keeps its origin; nothing else becomes pending.
pub proof fn lemma_new_message_pending_from_sender(
    origins: Map<u32, Seq<char>>,
    seen: Set<u32>,
    fresh: Set<u32>,
    src: Seq<char>,
)
    ensures
        ({
            let next = spec_new_origins(origins, seen, fresh, src);
            &&& forall|k: u32|
                fresh.contains(k) && !seen.contains(k) && !origins.contains_key(k) ==> {
                    &&& #[trigger] next.contains_key(k)
                    &&& next[k] == src
                }
            &&& forall|k: u32| #[trigger]
                origins.contains_key(k) ==> next.contains_key(k) && next[k] == origins[k]
            &&& forall|k: u32| #[trigger]
                next.contains_key(k) ==> origins.contains_key(k) || (fresh.contains(k)
                    && !seen.contains(k))
        }),
{
}

/// A message new to the node, delivered by `src`, goes out in the next gossip round to every
/// gossip target other than `src`.
pub proof fn lemma_new_message_gossiped_to_all_but_sender(
    origins: Map<u32, Seq<char>>,
    seen: Set<u32>,
    fresh: Set<u32>,
    src: Seq<char>,
    targets: Seq<Seq<char>>,
    t: Seq<char>,
    k: u32,
)
    requires
        forall|j: u32| #[trigger] origins.contains_key(j) ==> seen.contains(j),
        fresh.contains(k),
        !seen.contains(k),
        targets.contains(t),
        t != src,
    ensures
        spec_targets_with_news(targets, spec_new_origins(origins, seen, fresh, src)).contains(t),
        spec_batch(spec_new_origins(origins, seen, fresh, src), t).contains(k),
{
    lemma_new_message_pending_from_sender(origins, seen, fresh, src);
    let next = spec_new_origins(origins, seen, fresh, src);
    assert(next.contains_key(k) && next[k] == src);
    lemma_gossip_reaches_every_target(targets, next, t, k);
}

/// The candidates for gossip are exactly the nodes of the topology other than the node itself,
/// each once.
pub proof fn lemma_other_nodes_are_all_but_self(keys: Seq<Seq<char>>, node: Seq<char>)
    ensures
        forall|x: Seq<char>| #[trigger]
            spec_other_nodes(keys, node).contains(x) <==> (keys.contains(x) && x != node),
        spec_other_nodes(keys, node).no_duplicates(),
    decreases keys.len(),
{
    if keys.len() > 0 {
        let init = keys.drop_last();
        let last = keys.last();
        lemma_other_nodes_are_all_but_self(init, node);
        let rest = spec_other_nodes(init, node);
        let out = spec_other_nodes(keys, node);
        assert(keys =~= init.push(last));
        if last != node && !rest.contains(last) {
            assert(out == rest.push(last));
            lemma_push_keeps_members_distinct(rest, last);
        } else {
            assert(out == rest);
        }
        assert forall|x: Seq<char>| #[trigger] out.contains(x) <==> (keys.contains(x) && x != node) by {
            lemma_push_contains(init, last, x);
            lemma_push_contains(rest, last, x);
        }
    }
}

/// Counting each node of a topology once keeps every node it names, and only those, each once.
pub proof fn lemma_distinct_keeps_every_name(keys: Seq<Seq<char>>)
    ensures
        forall|x: Seq<char>| #[trigger] spec_distinct(keys).contains(x) <==> keys.contains(x),
        spec_distinct(keys).no_duplicates(),
        spec_distinct(keys).len() <= keys.len(),
    decreases keys.len(),
{
    if keys.len() > 0 {
        let init = keys.drop_last();
        let last = keys.last();
        lemma_distinct_keeps_every_name(init);
        let rest = spec_distinct(init);
        let out = spec_distinct(keys);
        assert(keys =~= init.push(last));
        if !rest.contains(last) {
            assert(out == rest.push(last));
            lemma_push_keeps_members_distinct(rest, last);
        } else {
            assert(out == rest);
        }
        assert forall|x: Seq<char>| #[trigger] out.contains(x) <==> keys.contains(x) by {
            lemma_push_contains(init, last, x);
            lemma_push_contains(rest, last, x);
        }
    }
}

/// What a sequence holds after a push.
proof fn lemma_push_contains(s: Seq<Seq<char>>, v: Seq<char>, x: Seq<char>)
    ensures
        s.push(v).contains(x) <==> (s.contains(x) || x == v),
{
    if s.contains(x) {
        let i = choose|i: int| 0 <= i < s.len() && s[i] == x;
        assert(s.push(v)[i] == x);
    }
    if x == v {
        assert(s.push(v)[s.len() as int] == x);
    }
    if s.push(v).contains(x) {
        let i = choose|i: int| 0 <= i < s.push(v).len() && s.push(v)[i] == x;
        if i < s.len() {
            assert(s[i] == x);
        }
    }
}

/// Pushing a value not yet there keeps every value once.
proof fn lemma_push_keeps_members_distinct(s: Seq<Seq<char>>, v: Seq<char>)
    requires
        s.no_duplicates(),
        !s.contains(v),
    ensures
        s.push(v).no_duplicates(),
{
    let t = s.push(v);
    assert forall|a: int, b: int| 0 <= a < t.len() && 0 <= b < t.len() && a != b implies t[a] != t[b] by {
        if a == s.len() {
            assert(s.contains(s[b]));
        } else if b == s.len() {
            assert(s.contains(s[a]));
        } else {
            assert(t[a] == s[a] && t[b] == s[b]);
        }
    }
}

} // verus!
