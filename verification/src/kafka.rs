//! The log service: per-key append-only logs with offsets and a committed
//! high-water mark per key.
//!
//! Offsets are assigned by this node on receipt of a write, monotonically per
//! key starting at one, so a log's entries live at offsets `1..=len`. A poll
//! returns the entries in a bounded window of offsets; a commit records the
//! high-water mark and never deletes entries.

use vstd::prelude::*;

use crate::message::is_reply_to;
use crate::message::Body;
use crate::message::Message;
use crate::node::FatalError;
use crate::node::Node;

verus! {

/// How many offsets past the requested one a poll window spans.
pub const POLL_SPAN: u64 = 10;

/// One key's log: entry `messages[i]` lives at offset `i + 1`.
pub struct Log {
    pub committed_offset: u64,
    pub current_offset: u64,
    pub messages: Vec<u64>,
}

/// How many entries a poll from `offset` returns on a log of `len` entries:
/// the offsets in both `[offset, offset + POLL_SPAN]` and `[1, len]`.
pub open spec fn window_len(len: int, offset: int) -> int {
    let lo = if offset < 1 {
        1
    } else {
        offset
    };
    let hi = if offset + POLL_SPAN < len {
        offset + POLL_SPAN
    } else {
        len
    };
    if hi >= lo {
        hi - lo + 1
    } else {
        0
    }
}

/// The first offset a poll from `offset` returns.
pub open spec fn window_lo(offset: int) -> int {
    if offset < 1 {
        1
    } else {
        offset
    }
}

impl Log {
    /// The offset counter matches the number of entries.
    pub open spec fn inv(self) -> bool {
        self.messages@.len() == self.current_offset
    }

    /// An empty log: no entries, nothing committed.
    pub fn new() -> (r: Self)
        ensures
            r.inv(),
            r.committed_offset == 0,
            r.current_offset == 0,
            r.messages@ == Seq::<u64>::empty(),
    {
        Log { committed_offset: 0, current_offset: 0, messages: Vec::new() }
    }

    /// A fresh log with the same entries and marks.
    pub fn snapshot(&self) -> (r: Self)
        ensures
            r.committed_offset == self.committed_offset,
            r.current_offset == self.current_offset,
            r.messages@ == self.messages@,
    {
        let mut messages: Vec<u64> = Vec::new();
        let mut i: usize = 0;
        while i < self.messages.len()
            invariant
                0 <= i <= self.messages@.len(),
                messages@ == self.messages@.take(i as int),
            decreases self.messages@.len() - i,
        {
            messages.push(self.messages[i]);
            proof {
                assert(self.messages@.take(i + 1 as int) =~= self.messages@.take(
                    i as int,
                ).push(self.messages@[i as int]));
            }
            i = i + 1;
        }
        proof {
            assert(self.messages@.take(self.messages@.len() as int) =~= self.messages@);
        }
        Log {
            committed_offset: self.committed_offset,
            current_offset: self.current_offset,
            messages,
        }
    }

    /// Appends one entry and returns the offset assigned to it: one past the
    /// previous entry's.
    pub fn insert_message(&mut self, msg: u64) -> (offset: u64)
        requires
            old(self).inv(),
            old(self).current_offset < u64::MAX,
        ensures
            final(self).inv(),
            offset == old(self).current_offset + 1,
            final(self).current_offset == offset,
            final(self).messages@ == old(self).messages@.push(msg),
            final(self).committed_offset == old(self).committed_offset,
    {
        self.current_offset = self.current_offset + 1;
        self.messages.push(msg);
        self.current_offset
    }

    /// The `[offset, entry]` pairs for every entry whose offset lies within
    /// `POLL_SPAN` of the requested one.
    pub fn poll_commits(&self, offset: &u64) -> (r: Vec<Vec<u64>>)
        requires
            self.inv(),
            *offset + POLL_SPAN <= u64::MAX,
        ensures
            r@.len() == window_len(self.messages@.len() as int, *offset as int),
            forall|j: int|
                0 <= j < r@.len() ==> (#[trigger] r@[j])@ =~= Seq::<u64>::empty().push(
                    (window_lo(*offset as int) + j) as u64,
                ).push(self.messages@[window_lo(*offset as int) + j - 1]),
    {
        let mut r: Vec<Vec<u64>> = Vec::new();
        let lo: u64 = if *offset < 1 {
            1
        } else {
            *offset
        };
        let len: u64 = self.messages.len() as u64;
        let hi: u64 = if *offset + POLL_SPAN < len {
            *offset + POLL_SPAN
        } else {
            len
        };
        let count: u64 = if hi < lo {
            0
        } else {
            hi - lo + 1
        };
        proof {
            assert(count == window_len(self.messages@.len() as int, *offset as int));
        }
        let mut j: u64 = 0;
        while j < count
            invariant
                self.inv(),
                lo == window_lo(*offset as int),
                1 <= lo,
                count == window_len(self.messages@.len() as int, *offset as int),
                count > 0 ==> lo + count - 1 <= self.messages@.len(),
                self.messages@.len() <= usize::MAX,
                0 <= j <= count,
                r@.len() == j,
                forall|p: int|
                    0 <= p < r@.len() ==> (#[trigger] r@[p])@ =~= Seq::<u64>::empty().push(
                        (lo + p) as u64,
                    ).push(self.messages@[lo + p - 1]),
            decreases count - j,
        {
            let k: u64 = lo + j;
            proof {
                assert(lo + j <= lo + count - 1);
                assert(k - 1 < self.messages@.len());
                assert(k - 1 <= usize::MAX);
                assert(((k - 1) as usize) as int == k - 1);
            }
            let entry = self.messages[(k - 1) as usize];
            let mut pair: Vec<u64> = Vec::new();
            pair.push(k);
            pair.push(entry);
            r.push(pair);
            proof {
                assert(k == (lo + j) as u64);
                assert(entry == self.messages@[lo + j - 1]);
                assert(pair@ =~= Seq::<u64>::empty().push(k).push(entry));
            }
            j = j + 1;
        }
        r
    }

    /// Records the committed high-water mark; entries are untouched.
    pub fn commit(&mut self, offset: u64)
        ensures
            final(self).committed_offset == offset,
            final(self).current_offset == old(self).current_offset,
            final(self).messages == old(self).messages,
            final(self).inv() == old(self).inv(),
    {
        self.committed_offset = offset;
    }
}

/// The commit a sequence of `(key, offset)` pairs leaves for `k`: the last
/// pair naming `k`, if any.
pub open spec fn last_commit(offsets: Seq<(String, u64)>, k: Seq<char>) -> Option<u64>
    decreases offsets.len(),
{
    if offsets.len() == 0 {
        None
    } else if offsets.last().0@ == k {
        Some(offsets.last().1)
    } else {
        last_commit(offsets.drop_last(), k)
    }
}

/// What a log node sends and receives.
pub enum Payload {
    Init { node_id: String, node_ids: Vec<String> },
    InitOk,
    Send { key: String, msg: u64 },
    SendOk { offset: u64 },
    Poll { offsets: Vec<(String, u64)> },
    PollOk { msgs: Vec<(String, Vec<Vec<u64>>)> },
    CommitOffsets { offsets: Vec<(String, u64)> },
    CommitOffsetsOk,
    ListCommittedOffsets { keys: Vec<String> },
    ListCommittedOffsetsOk { offsets: Vec<(String, u64)> },
}

/// A node serving per-key append-only logs.
pub struct Kafka {
    pub msg_id: usize,
    pub node_id: String,
    pub node_ids: Vec<String>,
    pub logs: vstd::hash_map::StringHashMap<Log>,
}

impl Kafka {
    /// Every log's offset counter matches its entries.
    pub open spec fn inv(self) -> bool {
        forall|k: Seq<char>| self.logs@.contains_key(k) ==> (#[trigger] self.logs@[k]).inv()
    }

    /// The entries of `k`'s log, oldest first; empty when the key is new.
    pub open spec fn log_entries(self, k: Seq<char>) -> Seq<u64> {
        if self.logs@.contains_key(k) {
            self.logs@[k].messages@
        } else {
            Seq::<u64>::empty()
        }
    }

    /// The committed high-water mark of `k`'s log; zero when the key is new.
    pub open spec fn log_committed(self, k: Seq<char>) -> int {
        if self.logs@.contains_key(k) {
            self.logs@[k].committed_offset as int
        } else {
            0
        }
    }

    /// A fresh log node with no logs.
    pub fn new() -> (r: Self)
        ensures
            r.inv(),
            r.msg_id == 0,
            forall|k: Seq<char>| r.log_entries(k) == Seq::<u64>::empty(),
            forall|k: Seq<char>| r.log_committed(k) == 0,
    {
        broadcast use vstd::string::to_string_from_display_ensures_for_str;

        Kafka {
            msg_id: 0,
            node_id: "0".to_string(),
            node_ids: Vec::new(),
            logs: vstd::hash_map::StringHashMap::new(),
        }
    }

    /// A copy of `key`'s log, or a fresh one when the key is new.
    fn log_of(&self, key: &String) -> (r: Log)
        requires
            self.inv(),
        ensures
            r.inv(),
            r.messages@ == self.log_entries(key@),
            r.committed_offset as int == self.log_committed(key@),
    {
        match self.logs.get(key.as_str()) {
            Some(l) => l.snapshot(),
            None => Log::new(),
        }
    }
}

impl Node<Payload> for Kafka {
    /// The node is well formed, one more message id fits, and the request
    /// respects the logs' machine limits: an appended log stays within
    /// `u64` offsets and a poll window's upper bound fits.
    open spec fn ready(&self, input: &Message<Payload>) -> bool {
        &&& self.inv()
        &&& self.msg_id < usize::MAX
        &&& match input.body.payload {
            Payload::Send { key, .. } => self.log_entries(key@).len() < u64::MAX,
            Payload::Poll { offsets } => forall|j: int|
                0 <= j < offsets@.len() ==> (#[trigger] offsets@[j]).1 + POLL_SPAN <= u64::MAX,
            _ => true,
        }
    }

    open spec fn can_allocate(&self) -> bool {
        self.msg_id < usize::MAX
    }

    fn init(&mut self)
        ensures
            *final(self) == *old(self),
    {
    }

    fn get_msg_id(&mut self) -> (r: Option<usize>)
        ensures
            final(self).msg_id == old(self).msg_id + 1,
            r == Some((old(self).msg_id + 1) as usize),
            final(self).node_id == old(self).node_id,
            final(self).node_ids == old(self).node_ids,
            final(self).logs == old(self).logs,
    {
        self.msg_id = self.msg_id + 1;
        Some(self.msg_id)
    }

    fn handle(&mut self, input_msg: Message<Payload>) -> (r: Result<
        Vec<Message<Payload>>,
        FatalError,
    >)
        ensures
            final(self).inv(),
            match input_msg.body.payload {
                Payload::Init { node_id, node_ids } => {
                    &&& final(self).node_id == node_id
                    &&& final(self).node_ids == node_ids
                    &&& final(self).logs == old(self).logs
                    &&& final(self).msg_id == old(self).msg_id + 1
                    &&& r matches Ok(out) && out@.len() == 1 && is_reply_to(
                        out@[0],
                        input_msg,
                        Some((old(self).msg_id + 1) as usize),
                    ) && out@[0].body.payload is InitOk
                },
                Payload::InitOk => r == Err::<Vec<Message<Payload>>, FatalError>(
                    FatalError::UnexpectedMessage,
                ) && *final(self) == *old(self),
                Payload::Send { key, msg } => {
                    &&& final(self).log_entries(key@) == old(self).log_entries(key@).push(msg)
                    &&& final(self).log_committed(key@) == old(self).log_committed(key@)
                    &&& forall|k: Seq<char>|
                        k != key@ ==> final(self).log_entries(k) == old(self).log_entries(k)
                    &&& forall|k: Seq<char>|
                        k != key@ ==> final(self).log_committed(k) == old(self).log_committed(k)
                    &&& final(self).msg_id == old(self).msg_id + 1
                    &&& final(self).node_id == old(self).node_id
                    &&& final(self).node_ids == old(self).node_ids
                    &&& r matches Ok(out) && out@.len() == 1 && is_reply_to(
                        out@[0],
                        input_msg,
                        Some((old(self).msg_id + 1) as usize),
                    ) && (out@[0].body.payload matches Payload::SendOk { offset } && offset as int
                        == old(self).log_entries(key@).len() + 1)
                },
                Payload::SendOk { .. } => r matches Ok(out) && out@.len() == 0 && *final(self)
                    == *old(self),
                Payload::Poll { offsets } => {
                    &&& final(self).logs == old(self).logs
                    &&& final(self).msg_id == old(self).msg_id + 1
                    &&& final(self).node_id == old(self).node_id
                    &&& final(self).node_ids == old(self).node_ids
                    &&& r matches Ok(out) && out@.len() == 1 && is_reply_to(
                        out@[0],
                        input_msg,
                        Some((old(self).msg_id + 1) as usize),
                    ) && (out@[0].body.payload matches Payload::PollOk { msgs } && {
                        &&& msgs@.len() == offsets@.len()
                        &&& forall|j: int|
                            0 <= j < msgs@.len() ==> {
                                let key = offsets@[j].0@;
                                let offset = offsets@[j].1 as int;
                                let entries = old(self).log_entries(key);
                                &&& (#[trigger] msgs@[j]).0 == offsets@[j].0
                                &&& msgs@[j].1@.len() == window_len(entries.len() as int, offset)
                                &&& forall|p: int|
                                    0 <= p < msgs@[j].1@.len() ==> (#[trigger] msgs@[j].1@[p])@
                                        =~= Seq::<u64>::empty().push(
                                        (window_lo(offset) + p) as u64,
                                    ).push(entries[window_lo(offset) + p - 1])
                            }
                    })
                },
                Payload::PollOk { .. } => r matches Ok(out) && out@.len() == 0 && *final(self)
                    == *old(self),
                Payload::CommitOffsets { offsets } => {
                    &&& forall|k: Seq<char>|
                        #[trigger] final(self).log_committed(k) == (match last_commit(
                            offsets@,
                            k,
                        ) {
                            Some(v) => v as int,
                            None => old(self).log_committed(k),
                        })
                    &&& forall|k: Seq<char>|
                        final(self).log_entries(k) == old(self).log_entries(k)
                    &&& final(self).msg_id == old(self).msg_id + 1
                    &&& final(self).node_id == old(self).node_id
                    &&& final(self).node_ids == old(self).node_ids
                    &&& r matches Ok(out) && out@.len() == 1 && is_reply_to(
                        out@[0],
                        input_msg,
                        Some((old(self).msg_id + 1) as usize),
                    ) && out@[0].body.payload is CommitOffsetsOk
                },
                Payload::CommitOffsetsOk => r matches Ok(out) && out@.len() == 0 && *final(self)
                    == *old(self),
                Payload::ListCommittedOffsets { keys } => {
                    &&& final(self).logs == old(self).logs
                    &&& final(self).msg_id == old(self).msg_id + 1
                    &&& final(self).node_id == old(self).node_id
                    &&& final(self).node_ids == old(self).node_ids
                    &&& r matches Ok(out) && out@.len() == 1 && is_reply_to(
                        out@[0],
                        input_msg,
                        Some((old(self).msg_id + 1) as usize),
                    ) && (out@[0].body.payload matches Payload::ListCommittedOffsetsOk { offsets }
                        && {
                        &&& offsets@.len() == keys@.len()
                        &&& forall|j: int|
                            0 <= j < offsets@.len() ==> (#[trigger] offsets@[j]).0 == keys@[j]
                                && offsets@[j].1 as int == old(self).log_committed(keys@[j]@)
                    })
                },
                Payload::ListCommittedOffsetsOk { .. } => r matches Ok(out) && out@.len() == 0
                    && *final(self) == *old(self),
            },
    {
        let Message { src, dest, body } = input_msg;
        let Body { msg_id: in_msg_id, in_reply_to: _, payload } = body;
        match payload {
            Payload::Init { node_id, node_ids } => {
                self.node_id = node_id;
                self.node_ids = node_ids;
                let reply = Message {
                    src: dest,
                    dest: src,
                    body: Body {
                        msg_id: self.get_msg_id(),
                        in_reply_to: in_msg_id,
                        payload: Payload::InitOk,
                    },
                };
                let mut out: Vec<Message<Payload>> = Vec::new();
                out.push(reply);
                Ok(out)
            },
            Payload::InitOk => Err(FatalError::UnexpectedMessage),
            Payload::Send { key, msg } => {
                let mut log = self.log_of(&key);
                let offset = log.insert_message(msg);
                self.logs.insert(key, log);
                let reply = Message {
                    src: dest,
                    dest: src,
                    body: Body {
                        msg_id: self.get_msg_id(),
                        in_reply_to: in_msg_id,
                        payload: Payload::SendOk { offset },
                    },
                };
                let mut out: Vec<Message<Payload>> = Vec::new();
                out.push(reply);
                Ok(out)
            },
            Payload::SendOk { .. } => {
                let out: Vec<Message<Payload>> = Vec::new();
                Ok(out)
            },
            Payload::Poll { offsets } => {
                let ghost n0 = *self;
                let mut msgs: Vec<(String, Vec<Vec<u64>>)> = Vec::new();
                let mut j: usize = 0;
                while j < offsets.len()
                    invariant
                        0 <= j <= offsets@.len(),
                        self.inv(),
                        *self == n0,
                        forall|j2: int|
                            0 <= j2 < offsets@.len() ==> (#[trigger] offsets@[j2]).1 + POLL_SPAN
                                <= u64::MAX,
                        msgs@.len() == j,
                        forall|j2: int|
                            0 <= j2 < msgs@.len() ==> {
                                let key = offsets@[j2].0@;
                                let offset = offsets@[j2].1 as int;
                                let entries = n0.log_entries(key);
                                &&& (#[trigger] msgs@[j2]).0 == offsets@[j2].0
                                &&& msgs@[j2].1@.len() == window_len(entries.len() as int, offset)
                                &&& forall|p: int|
                                    0 <= p < msgs@[j2].1@.len() ==> (#[trigger] msgs@[j2].1@[p])@
                                        =~= Seq::<u64>::empty().push(
                                        (window_lo(offset) + p) as u64,
                                    ).push(entries[window_lo(offset) + p - 1])
                            },
                    decreases offsets@.len() - j,
                {
                    let key = offsets[j].0.clone();
                    let offset = offsets[j].1;
                    let log = self.log_of(&key);
                    let commits = log.poll_commits(&offset);
                    msgs.push((key, commits));
                    j = j + 1;
                }
                let reply = Message {
                    src: dest,
                    dest: src,
                    body: Body {
                        msg_id: self.get_msg_id(),
                        in_reply_to: in_msg_id,
                        payload: Payload::PollOk { msgs },
                    },
                };
                let mut out: Vec<Message<Payload>> = Vec::new();
                out.push(reply);
                Ok(out)
            },
            Payload::PollOk { .. } => {
                let out: Vec<Message<Payload>> = Vec::new();
                Ok(out)
            },
            Payload::CommitOffsets { offsets } => {
                let ghost n0 = *self;
                let mut j: usize = 0;
                proof {
                    assert(offsets@.take(0) =~= Seq::<(String, u64)>::empty());
                }
                while j < offsets.len()
                    invariant
                        0 <= j <= offsets@.len(),
                        self.inv(),
                        self.msg_id == n0.msg_id,
                        self.node_id == n0.node_id,
                        self.node_ids == n0.node_ids,
                        forall|k: Seq<char>|
                            #[trigger] self.log_committed(k) == (match last_commit(
                                offsets@.take(j as int),
                                k,
                            ) {
                                Some(v) => v as int,
                                None => n0.log_committed(k),
                            }),
                        forall|k: Seq<char>| self.log_entries(k) == n0.log_entries(k),
                    decreases offsets@.len() - j,
                {
                    let ghost pre = *self;
                    let key = offsets[j].0.clone();
                    let offset = offsets[j].1;
                    let mut log = self.log_of(&key);
                    log.commit(offset);
                    self.logs.insert(key, log);
                    proof {
                        let taken = offsets@.take(j + 1 as int);
                        assert(taken.drop_last() =~= offsets@.take(j as int));
                        assert(taken.last() == offsets@[j as int]);
                        assert forall|k: Seq<char>| #[trigger]
                            self.log_committed(k) == (match last_commit(taken, k) {
                                Some(v) => v as int,
                                None => n0.log_committed(k),
                            }) by {
                            if k == key@ {
                                assert(taken.last().0@ == k);
                                assert(self.log_committed(k) == offset as int);
                            } else {
                                assert(self.log_committed(k) == pre.log_committed(k));
                            }
                        }
                        assert forall|k: Seq<char>| self.log_entries(k) == n0.log_entries(
                            k,
                        ) by {
                            if k != key@ {
                                assert(self.log_entries(k) == pre.log_entries(k));
                            }
                        }
                    }
                    j = j + 1;
                }
                proof {
                    assert(offsets@.take(offsets@.len() as int) =~= offsets@);
                }
                let ghost done = *self;
                let reply = Message {
                    src: dest,
                    dest: src,
                    body: Body {
                        msg_id: self.get_msg_id(),
                        in_reply_to: in_msg_id,
                        payload: Payload::CommitOffsetsOk,
                    },
                };
                proof {
                    assert forall|k: Seq<char>| #[trigger]
                        self.log_committed(k) == (match last_commit(offsets@, k) {
                            Some(v) => v as int,
                            None => n0.log_committed(k),
                        }) by {
                        assert(done.log_committed(k) == (match last_commit(
                            offsets@.take(offsets@.len() as int),
                            k,
                        ) {
                            Some(v) => v as int,
                            None => n0.log_committed(k),
                        }));
                        assert(self.logs == done.logs);
                    }
                    assert forall|k: Seq<char>| self.log_entries(k) == n0.log_entries(k) by {
                        assert(done.log_entries(k) == n0.log_entries(k));
                        assert(self.logs == done.logs);
                    }
                }
                let mut out: Vec<Message<Payload>> = Vec::new();
                out.push(reply);
                Ok(out)
            },
            Payload::CommitOffsetsOk => {
                let out: Vec<Message<Payload>> = Vec::new();
                Ok(out)
            },
            Payload::ListCommittedOffsets { keys } => {
                let ghost n0 = *self;
                let mut committed: Vec<(String, u64)> = Vec::new();
                let mut j: usize = 0;
                while j < keys.len()
                    invariant
                        0 <= j <= keys@.len(),
                        self.inv(),
                        *self == n0,
                        committed@.len() == j,
                        forall|j2: int|
                            0 <= j2 < committed@.len() ==> (#[trigger] committed@[j2]).0
                                == keys@[j2] && committed@[j2].1 as int == n0.log_committed(
                                keys@[j2]@,
                            ),
                    decreases keys@.len() - j,
                {
                    let key = keys[j].clone();
                    let log = self.log_of(&key);
                    let mark = log.committed_offset;
                    committed.push((key, mark));
                    j = j + 1;
                }
                let reply = Message {
                    src: dest,
                    dest: src,
                    body: Body {
                        msg_id: self.get_msg_id(),
                        in_reply_to: in_msg_id,
                        payload: Payload::ListCommittedOffsetsOk { offsets: committed },
                    },
                };
                let mut out: Vec<Message<Payload>> = Vec::new();
                out.push(reply);
                Ok(out)
            },
            Payload::ListCommittedOffsetsOk { .. } => {
                let out: Vec<Message<Payload>> = Vec::new();
                Ok(out)
            },
        }
    }
}

} // verus!
