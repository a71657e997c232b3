//! Gossip anti-entropy bookkeeping.
//!
//! `SentTable` is the outstanding-gossip table: for each allocated message id
//! it records the exact delta sent under that id, pending acknowledgment.
//! `GossipManager` owns that table together with the stale-gossip marker set
//! and the verified-by-peer table, and implements pruning, delta computation,
//! acknowledgment handling, and the recording of peer gossip.

use vstd::prelude::*;

use crate::elements::contains_value;
use crate::elements::copy_values;
use crate::elements::delta_of;
use crate::elements::filter_unknown;
use crate::message::Message;

verus! {

/// The outstanding-gossip table: message id to the delta sent under that id.
pub struct SentTable {
    entries: Vec<(usize, Vec<usize>)>,
}

impl SentTable {
    /// Entries carry distinct message ids.
    pub closed spec fn wf(self) -> bool {
        forall|j: int, k: int|
            0 <= j < k < self.entries@.len() ==> (#[trigger] self.entries@[j]).0 != (
            #[trigger] self.entries@[k]).0
    }

    /// Whether a delta is outstanding under this id.
    pub closed spec fn has(self, id: usize) -> bool {
        exists|j: int| 0 <= j < self.entries@.len() && (#[trigger] self.entries@[j]).0 == id
    }

    /// The delta outstanding under this id; meaningful only when `has(id)`.
    pub closed spec fn payload(self, id: usize) -> Seq<usize> {
        let j = choose|j: int|
            0 <= j < self.entries@.len() && (#[trigger] self.entries@[j]).0 == id;
        self.entries@[j].1@
    }

    /// An empty table.
    pub fn new() -> (r: Self)
        ensures
            r.wf(),
            forall|id: usize| !r.has(id),
    {
        SentTable { entries: Vec::new() }
    }

    /// The index of the entry for `id`, if one is outstanding.
    fn find(&self, id: usize) -> (r: Option<usize>)
        ensures
            match r {
                Some(i) => i < self.entries@.len() && self.entries@[i as int].0 == id
                    && self.has(id),
                None => !self.has(id),
            },
    {
        let mut i: usize = 0;
        while i < self.entries.len()
            invariant
                0 <= i <= self.entries@.len(),
                forall|j: int| 0 <= j < i ==> (#[trigger] self.entries@[j]).0 != id,
            decreases self.entries@.len() - i,
        {
            if self.entries[i].0 == id {
                return Some(i);
            }
            i = i + 1;
        }
        None
    }

    /// Removes the entry outstanding under `id` and returns its delta, or
    /// returns `None` and changes nothing when no entry carries that id.
    pub fn remove(&mut self, id: usize) -> (r: Option<Vec<usize>>)
        requires
            old(self).wf(),
        ensures
            final(self).wf(),
            !final(self).has(id),
            forall|id2: usize| id2 != id ==> final(self).has(id2) == old(self).has(id2),
            forall|id2: usize|
                id2 != id && old(self).has(id2) ==> final(self).payload(id2) == old(self).payload(
                    id2,
                ),
            match r {
                Some(v) => old(self).has(id) && v@ == old(self).payload(id),
                None => !old(self).has(id) && *final(self) == *old(self),
            },
    {
        let found = self.find(id);
        match found {
            None => None,
            Some(i) => {
                let ghost pre = self.entries@;
                let entry = self.entries.swap_remove(i);
                proof {
                    let post = self.entries@;
                    assert(entry.1@ == old(self).payload(id));
                    assert forall|j: int, k: int| 0 <= j < k < post.len() implies (
                    #[trigger] post[j]).0 != (#[trigger] post[k]).0 by {
                        let j0: int = if j == i { pre.len() - 1 } else { j };
                        let k0: int = if k == i { pre.len() - 1 } else { k };
                        assert(post[j] == pre[j0] && post[k] == pre[k0]);
                    }
                    assert forall|id2: usize| id2 != id implies final(self).has(id2) == old(
                        self,
                    ).has(id2) by {
                        if old(self).has(id2) {
                            let j = choose|j: int|
                                0 <= j < pre.len() && (#[trigger] pre[j]).0 == id2;
                            let j1: int = if j == pre.len() - 1 {
                                i as int
                            } else {
                                j
                            };
                            assert(post[j1].0 == id2);
                        }
                        if final(self).has(id2) {
                            let j = choose|j: int|
                                0 <= j < post.len() && (#[trigger] post[j]).0 == id2;
                            let j0: int = if j == i {
                                pre.len() - 1
                            } else {
                                j
                            };
                            assert(pre[j0].0 == id2);
                        }
                    }
                    assert(!final(self).has(id)) by {
                        if final(self).has(id) {
                            let j = choose|j: int|
                                0 <= j < post.len() && (#[trigger] post[j]).0 == id;
                            let j0: int = if j == i {
                                pre.len() - 1
                            } else {
                                j
                            };
                            assert(pre[j0].0 == id);
                            assert(pre[i as int].0 == id);
                        }
                    }
                    assert forall|id2: usize|
                        id2 != id && old(self).has(id2) implies #[trigger] final(self).payload(id2)
                        == old(self).payload(id2) by {
                        let j = choose|j: int| 0 <= j < pre.len() && (#[trigger] pre[j]).0 == id2;
                        let j1: int = if j == pre.len() - 1 {
                            i as int
                        } else {
                            j
                        };
                        assert(post[j1].0 == id2);
                        let ja = choose|ja: int|
                            0 <= ja < pre.len() && (#[trigger] pre[ja]).0 == id2;
                        assert(ja == j);
                        let jb = choose|jb: int|
                            0 <= jb < post.len() && (#[trigger] post[jb]).0 == id2;
                        let jb0: int = if jb == i {
                            pre.len() - 1
                        } else {
                            jb
                        };
                        assert(pre[jb0].0 == id2);
                        assert(jb0 == j);
                    }
                }
                Some(entry.1)
            },
        }
    }

    /// Appends `delta` to the entry outstanding under `id`, creating the
    /// entry when absent: this is how a tick remembers what it sent.
    pub fn extend_entry(&mut self, id: usize, delta: &Vec<usize>)
        requires
            old(self).wf(),
        ensures
            final(self).wf(),
            final(self).has(id),
            final(self).payload(id) == (if old(self).has(id) {
                old(self).payload(id)
            } else {
                Seq::<usize>::empty()
            }) + delta@,
            forall|id2: usize| id2 != id ==> final(self).has(id2) == old(self).has(id2),
            forall|id2: usize|
                id2 != id && old(self).has(id2) ==> final(self).payload(id2) == old(self).payload(
                    id2,
                ),
    {
        let ghost orig = *self;
        let removed = self.remove(id);
        let mut p: Vec<usize> = match removed {
            Some(v) => v,
            None => Vec::new(),
        };
        let ghost base = p@;
        let mut i: usize = 0;
        while i < delta.len()
            invariant
                0 <= i <= delta@.len(),
                p@ == base + delta@.take(i as int),
            decreases delta@.len() - i,
        {
            p.push(delta[i]);
            assert(base + delta@.take(i + 1 as int) =~= (base + delta@.take(i as int)).push(
                delta@[i as int],
            ));
            i = i + 1;
        }
        assert(delta@.take(delta@.len() as int) =~= delta@);
        let ghost mid = *self;
        self.entries.push((id, p));
        proof {
            let post = self.entries@;
            let n = post.len() - 1;
            assert(post[n].0 == id);
            assert forall|j: int, k: int| 0 <= j < k < post.len() implies (#[trigger] post[j]).0
                != (#[trigger] post[k]).0 by {
                if k == n {
                    assert(mid.entries@[j].0 != id) by {
                        if mid.entries@[j].0 == id {
                            assert(mid.has(id));
                        }
                    }
                }
            }
            assert(final(self).has(id));
            assert forall|id2: usize| id2 != id implies final(self).has(id2) == mid.has(id2) by {
                if final(self).has(id2) {
                    let j = choose|j: int| 0 <= j < post.len() && (#[trigger] post[j]).0 == id2;
                    assert(j != n);
                    assert(mid.entries@[j].0 == id2);
                }
                if mid.has(id2) {
                    let j = choose|j: int|
                        0 <= j < mid.entries@.len() && (#[trigger] mid.entries@[j]).0 == id2;
                    assert(post[j].0 == id2);
                }
            }
            assert(final(self).payload(id) == p@) by {
                let j = choose|j: int| 0 <= j < post.len() && (#[trigger] post[j]).0 == id;
                assert(j == n) by {
                    if j != n {
                        assert(mid.entries@[j].0 == id);
                        assert(mid.has(id));
                    }
                }
            }
            assert forall|id2: usize| id2 != id && mid.has(id2) implies final(self).payload(id2)
                == mid.payload(id2) by {
                let j = choose|j: int|
                    0 <= j < mid.entries@.len() && (#[trigger] mid.entries@[j]).0 == id2;
                let jb = choose|jb: int| 0 <= jb < post.len() && (#[trigger] post[jb]).0 == id2;
                assert(jb != n);
                assert(mid.entries@[jb].0 == id2);
                assert(jb == j);
                assert(post[j].0 == id2);
            }
        }
    }

    /// The table as a map from message id to the delta outstanding under it.
    pub open spec fn as_map(self) -> Map<usize, Seq<usize>> {
        Map::new(|id: usize| self.has(id), |id: usize| self.payload(id))
    }

    /// Removes every entry whose id is listed in `ids`; ids without an entry
    /// are ignored.
    pub fn remove_all(&mut self, ids: &Vec<usize>)
        requires
            old(self).wf(),
        ensures
            final(self).wf(),
            forall|id: usize|
                #[trigger] final(self).has(id) <==> (old(self).has(id) && !ids@.contains(id)),
            forall|id: usize|
                final(self).has(id) ==> final(self).payload(id) == old(self).payload(id),
    {
        let ghost orig = *self;
        let mut i: usize = 0;
        while i < ids.len()
            invariant
                0 <= i <= ids@.len(),
                self.wf(),
                forall|id: usize|
                    #[trigger] self.has(id) <==> (orig.has(id) && !ids@.take(i as int).contains(
                        id,
                    )),
                forall|id: usize| self.has(id) ==> self.payload(id) == orig.payload(id),
            decreases ids@.len() - i,
        {
            let id = ids[i];
            let _ = self.remove(id);
            proof {
                let taken = ids@.take(i + 1 as int);
                assert(taken.drop_last() =~= ids@.take(i as int));
                assert(taken.last() == id);
                assert forall|id2: usize| #[trigger]
                    self.has(id2) <==> (orig.has(id2) && !taken.contains(id2)) by {
                    if taken.contains(id2) {
                        let j = choose|j: int| 0 <= j < taken.len() && taken[j] == id2;
                        if j < i {
                            assert(taken.drop_last()[j] == id2);
                        }
                    }
                    if ids@.take(i as int).contains(id2) {
                        let j = choose|j: int| 0 <= j < i && ids@.take(i as int)[j] == id2;
                        assert(taken[j] == id2);
                    }
                    if id2 == id {
                        assert(taken.contains(id2)) by {
                            assert(taken[taken.len() - 1] == id);
                        }
                    }
                }
            }
            i = i + 1;
        }
        proof {
            assert(ids@.take(ids@.len() as int) =~= ids@);
        }
    }

    /// The message ids of every outstanding entry, without duplicates.
    pub fn keys(&self) -> (r: Vec<usize>)
        requires
            self.wf(),
        ensures
            forall|id: usize| r@.contains(id) <==> self.has(id),
            forall|j: int, k: int| 0 <= j < k < r@.len() ==> r@[j] != r@[k],
    {
        let mut r: Vec<usize> = Vec::new();
        let mut i: usize = 0;
        while i < self.entries.len()
            invariant
                0 <= i <= self.entries@.len(),
                r@.len() == i,
                forall|j: int| 0 <= j < i ==> r@[j] == (#[trigger] self.entries@[j]).0,
            decreases self.entries@.len() - i,
        {
            r.push(self.entries[i].0);
            i = i + 1;
        }
        proof {
            assert forall|id: usize| r@.contains(id) implies self.has(id) by {
                let j = choose|j: int| 0 <= j < r@.len() && r@[j] == id;
                assert(self.entries@[j].0 == id);
            }
            assert forall|id: usize| self.has(id) implies r@.contains(id) by {
                let j = choose|j: int|
                    0 <= j < self.entries@.len() && (#[trigger] self.entries@[j]).0 == id;
                assert(r@[j] == id);
            }
            assert forall|j: int, k: int| 0 <= j < k < r@.len() implies r@[j] != r@[k] by {
                assert((self.entries@[j]).0 != (self.entries@[k]).0);
            }
        }
        r
    }
}

/// Owns the per-peer acknowledgment state of the gossip protocol: the
/// outstanding-gossip table, the stale-gossip marker set, and the
/// verified-by-peer table, together with the identity and peer snapshot the
/// gossip timer was armed with.
pub struct GossipManager {
    node_id: String,
    node_ids: Vec<String>,
    gossips_sent: SentTable,
    stale_gossips_sent: Vec<usize>,
    verified: vstd::hash_map::StringHashMap<Vec<usize>>,
}

/// How one tick-start pruning pass moves the outstanding-gossip table and
/// the stale marker set: every id that was both outstanding and marked stale
/// is dropped, the survivors stay outstanding, and exactly those survivors
/// are marked stale — at risk for the next pass.
pub open spec fn prune_transition(pre: GossipManager, post: GossipManager) -> bool {
    &&& forall|id: usize|
        #[trigger] post.outstanding(id) <==> (pre.outstanding(id) && !pre.is_stale(id))
    &&& forall|id: usize|
        #[trigger] post.is_stale(id) <==> (pre.outstanding(id) && !pre.is_stale(id))
}

impl GossipManager {
    /// The outstanding-gossip table carries distinct message ids.
    pub closed spec fn wf(self) -> bool {
        self.gossips_sent.wf()
    }

    /// Whether a gossip sent under this id awaits acknowledgment.
    pub closed spec fn outstanding(self, id: usize) -> bool {
        self.gossips_sent.has(id)
    }

    /// The delta sent under this id; meaningful only when outstanding.
    pub closed spec fn sent_payload(self, id: usize) -> Seq<usize> {
        self.gossips_sent.payload(id)
    }

    /// Whether this id was already outstanding at the previous tick.
    pub closed spec fn is_stale(self, id: usize) -> bool {
        self.stale_gossips_sent@.contains(id)
    }

    /// The elements this peer is known to hold: what it sent us, plus what
    /// it acknowledged receiving from us.
    pub closed spec fn known_of(self, peer: Seq<char>) -> Seq<usize> {
        if self.verified@.contains_key(peer) {
            self.verified@[peer]@
        } else {
            Seq::<usize>::empty()
        }
    }

    /// The outstanding-gossip table as a map from message id to its delta.
    pub open spec fn sent_map(self) -> Map<usize, Seq<usize>> {
        Map::new(|id: usize| self.outstanding(id), |id: usize| self.sent_payload(id))
    }

    /// The stale-gossip marker set.
    pub open spec fn stale_set(self) -> Set<usize> {
        Set::new(|id: usize| self.is_stale(id))
    }

    /// The node identity recorded when the gossip timer was armed.
    pub closed spec fn identity(self) -> Seq<char> {
        self.node_id@
    }

    /// The peer snapshot recorded when the gossip timer was armed.
    pub closed spec fn peers(self) -> Seq<String> {
        self.node_ids@
    }

    /// A manager with nothing outstanding, nothing stale, and no peer known
    /// to hold anything.
    pub fn new() -> (r: Self)
        ensures
            r.wf(),
            forall|id: usize| !r.outstanding(id),
            forall|id: usize| !r.is_stale(id),
            forall|peer: Seq<char>| r.known_of(peer) == Seq::<usize>::empty(),
            r.identity() == "0"@,
            r.peers() == Seq::<String>::empty(),
    {
        broadcast use vstd::string::to_string_from_display_ensures_for_str;

        GossipManager {
            node_id: "0".to_string(),
            node_ids: Vec::new(),
            gossips_sent: SentTable::new(),
            stale_gossips_sent: Vec::new(),
            verified: vstd::hash_map::StringHashMap::new(),
        }
    }

    /// Records the identity and peer snapshot captured when the caller arms
    /// its gossip timer; the replication state is untouched.
    pub fn arm(&mut self, node_id: String, node_ids: Vec<String>)
        ensures
            final(self).identity() == node_id@,
            final(self).peers() == node_ids@,
            final(self).wf() == old(self).wf(),
            forall|id: usize| final(self).outstanding(id) == old(self).outstanding(id),
            forall|id: usize|
                final(self).sent_payload(id) == old(self).sent_payload(id),
            forall|id: usize| final(self).is_stale(id) == old(self).is_stale(id),
            forall|peer: Seq<char>| final(self).known_of(peer) == old(self).known_of(peer),
    {
        self.node_id = node_id;
        self.node_ids = node_ids;
    }

    /// The stale-gossip pruning pass that starts a tick. Drops every
    /// outstanding gossip that was already outstanding at the previous tick
    /// (presumed lost — never acknowledged across a full tick interval),
    /// then marks whatever is still outstanding as at risk for the next
    /// tick. The dropped payloads are not credited to any peer, so they stay
    /// eligible for recomputation.
    pub fn prune_stale_sent_gossips(&mut self)
        requires
            old(self).wf(),
        ensures
            final(self).wf(),
            prune_transition(*old(self), *final(self)),
            forall|id: usize|
                final(self).outstanding(id) ==> final(self).sent_payload(id) == old(
                    self,
                ).sent_payload(id),
            forall|peer: Seq<char>| final(self).known_of(peer) == old(self).known_of(peer),
            final(self).identity() == old(self).identity(),
            final(self).peers() == old(self).peers(),
    {
        let ghost orig = *self;
        self.gossips_sent.remove_all(&self.stale_gossips_sent);
        let ghost pruned = *self;
        self.stale_gossips_sent = self.gossips_sent.keys();
        proof {
            assert forall|id: usize| #[trigger]
                final(self).outstanding(id) <==> (orig.outstanding(id) && !orig.is_stale(
                    id,
                )) by {
                assert(pruned.gossips_sent.has(id) <==> (orig.gossips_sent.has(id)
                    && !orig.stale_gossips_sent@.contains(id)));
            }
            assert forall|id: usize| #[trigger]
                final(self).is_stale(id) <==> (orig.outstanding(id) && !orig.is_stale(id)) by {
                assert(final(self).stale_gossips_sent@.contains(id)
                    <==> pruned.gossips_sent.has(id));
            }
        }
    }

    /// The delta a tick sends to `dest_id`: the elements of `values` the
    /// peer is not known to hold. Reads only; an empty result means the peer
    /// is skipped this tick and nothing is allocated or recorded for it.
    pub fn get_messages_to_send(&self, dest_id: &str, values: &Vec<usize>) -> (r: Vec<usize>)
        ensures
            r@ == delta_of(values@, self.known_of(dest_id@)),
    {
        let empty_known: Vec<usize> = Vec::new();
        match self.verified.get(dest_id) {
            Some(known) => filter_unknown(values, known),
            None => filter_unknown(values, &empty_known),
        }
    }

    /// Remembers the delta sent under a freshly allocated `msg_id`, pending
    /// acknowledgment; the stale marks and the verified-by-peer table are
    /// untouched, so the entry gets the full two-tick grace window.
    pub fn record_sent(&mut self, msg_id: usize, delta: &Vec<usize>)
        requires
            old(self).wf(),
        ensures
            final(self).wf(),
            final(self).outstanding(msg_id),
            final(self).sent_payload(msg_id) == (if old(self).outstanding(msg_id) {
                old(self).sent_payload(msg_id)
            } else {
                Seq::<usize>::empty()
            }) + delta@,
            forall|id: usize|
                id != msg_id ==> final(self).outstanding(id) == old(self).outstanding(id),
            forall|id: usize|
                id != msg_id && old(self).outstanding(id) ==> final(self).sent_payload(id) == old(
                    self,
                ).sent_payload(id),
            forall|id: usize| final(self).is_stale(id) == old(self).is_stale(id),
            forall|peer: Seq<char>| final(self).known_of(peer) == old(self).known_of(peer),
            final(self).identity() == old(self).identity(),
            final(self).peers() == old(self).peers(),
    {
        self.gossips_sent.extend_entry(msg_id, delta);
    }

    /// Records that `src` demonstrably holds `messages`: a peer that gossips
    /// elements to us already has them, so they are never sent back.
    pub fn verify_messages(&mut self, src: &str, messages: Vec<usize>)
        ensures
            final(self).known_of(src@) == old(self).known_of(src@) + messages@,
            forall|peer: Seq<char>|
                peer != src@ ==> final(self).known_of(peer) == old(self).known_of(peer),
            final(self).wf() == old(self).wf(),
            forall|id: usize| final(self).outstanding(id) == old(self).outstanding(id),
            forall|id: usize|
                final(self).sent_payload(id) == old(self).sent_payload(id),
            forall|id: usize| final(self).is_stale(id) == old(self).is_stale(id),
            final(self).identity() == old(self).identity(),
            final(self).peers() == old(self).peers(),
    {
        broadcast use vstd::string::to_string_from_display_ensures_for_str;

        let mut v: Vec<usize> = match self.verified.get(src) {
            Some(cur) => copy_values(cur),
            None => Vec::new(),
        };
        let mut m = messages;
        v.append(&mut m);
        self.verified.insert(src.to_string(), v);
    }

    /// Processes an acknowledgment: when `in_reply_to` names an outstanding
    /// gossip, exactly the delta recorded under that id is dropped from the
    /// outstanding-gossip table and folded into what the acknowledging peer
    /// is known to hold; a duplicate or unknown acknowledgment changes
    /// nothing.
    pub fn handle_gossip_ok<P>(&mut self, input_msg: Message<P>)
        requires
            old(self).wf(),
        ensures
            final(self).wf(),
            match input_msg.body.in_reply_to {
                Some(mid) => {
                    if old(self).outstanding(mid) {
                        &&& !final(self).outstanding(mid)
                        &&& forall|id: usize|
                            id != mid ==> final(self).outstanding(id) == old(self).outstanding(id)
                        &&& forall|id: usize|
                            id != mid && old(self).outstanding(id) ==> final(self).sent_payload(id)
                                == old(self).sent_payload(id)
                        &&& final(self).known_of(input_msg.src@) == old(self).known_of(
                            input_msg.src@,
                        ) + old(self).sent_payload(mid)
                        &&& forall|peer: Seq<char>|
                            peer != input_msg.src@ ==> final(self).known_of(peer) == old(
                                self,
                            ).known_of(peer)
                        &&& forall|id: usize| final(self).is_stale(id) == old(self).is_stale(id)
                        &&& final(self).identity() == old(self).identity()
                        &&& final(self).peers() == old(self).peers()
                    } else {
                        *final(self) == *old(self)
                    }
                },
                None => *final(self) == *old(self),
            },
    {
        broadcast use vstd::string::to_string_from_display_ensures_for_str;

        match input_msg.body.in_reply_to {
            None => {},
            Some(mid) => {
                match self.gossips_sent.remove(mid) {
                    None => {},
                    Some(sent) => {
                        let mut v: Vec<usize> = match self.verified.get(input_msg.src.as_str()) {
                            Some(cur) => copy_values(cur),
                            None => Vec::new(),
                        };
                        let mut s = sent;
                        v.append(&mut s);
                        self.verified.insert(input_msg.src, v);
                    },
                }
            },
        }
    }

    /// The message ids of every outstanding gossip.
    pub fn outstanding_ids(&self) -> (r: Vec<usize>)
        requires
            self.wf(),
        ensures
            forall|id: usize| r@.contains(id) <==> self.outstanding(id),
    {
        self.gossips_sent.keys()
    }

    /// What `peer` is known to hold, as recorded so far.
    pub fn known(&self, peer: &str) -> (r: Vec<usize>)
        ensures
            r@ == self.known_of(peer@),
    {
        match self.verified.get(peer) {
            Some(cur) => copy_values(cur),
            None => Vec::new(),
        }
    }
}

/// An outstanding gossip with no acknowledgment is dropped after exactly two
/// tick cycles: a delta recorded before the first pruning pass (and so not
/// yet marked stale) is still outstanding — and marked — after that pass,
/// survives whatever fresh deltas the rest of that tick records (`m1` to
/// `m1b`: the entry's status and the marks untouched, as `record_sent`
/// guarantees), and is gone after the next tick's pass; its elements stay
/// eligible for recomputation, since a tick's delta is computed against the
/// verified-by-peer table alone.
pub proof fn lemma_stale_gossip_dropped(
    m0: GossipManager,
    m1: GossipManager,
    m1b: GossipManager,
    m2: GossipManager,
    id: usize,
)
    requires
        prune_transition(m0, m1),
        m1b.outstanding(id) == m1.outstanding(id),
        m1b.is_stale(id) == m1.is_stale(id),
        prune_transition(m1b, m2),
        m0.outstanding(id),
        !m0.is_stale(id),
    ensures
        m1.outstanding(id),
        m1.is_stale(id),
        !m2.outstanding(id),
{
}

} // verus!
