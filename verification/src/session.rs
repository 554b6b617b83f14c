//! The sessions of the UDP adapters: which local source each datagram
//! session belongs to, and when it was last used.
//!
//! A datagram carries a session id in place of a flow id. What comes back
//! under the id is routed to the source of the session. The UDP socket
//! adapter gives every source one session and keeps to it; the SOCKS relay
//! opens a session of its own for every packet. A session that lies idle
//! for the prune timeout is forgotten.

use std::collections::HashMap;
use vstd::prelude::*;
use vstd::std_specs::hash::spec_keys_iter;
use vstd::std_specs::iter::IteratorSpec;

verus! {

broadcast use vstd::std_specs::hash::group_hash_axioms;

/// Where packets come from: the socket they arrived on, as the caller
/// numbers its sockets, and the address and port of the sender, IPv4
/// addresses mapped into IPv6.
#[derive(Clone, Copy, Debug, PartialEq, Eq, Structural)]
pub struct Source {
    pub socket: u64,
    pub address: u128,
    pub port: u16,
}

/// One session: the source it belongs to, and when it was last used, on the
/// caller's clock.
#[derive(Clone, Copy, Debug, PartialEq, Eq, Structural)]
pub struct Session {
    pub source: Source,
    pub last_used: u64,
}

/// The first of `candidates` that can name a new session: not zero, and
/// the id of no session. The length of `candidates` where there is none.
pub open spec fn first_unused(sessions: Map<u32, Session>, candidates: Seq<u32>) -> int
    decreases candidates.len(),
{
    if candidates.len() == 0 {
        0
    } else if candidates[0] != 0 && !sessions.contains_key(candidates[0]) {
        0
    } else {
        1 + first_unused(sessions, candidates.skip(1))
    }
}

/// `first_unused` is an index into `candidates` or its length; what it
/// points at is unused, and nothing before it is.
pub proof fn lemma_first_unused(sessions: Map<u32, Session>, candidates: Seq<u32>)
    ensures
        0 <= first_unused(sessions, candidates) <= candidates.len(),
        first_unused(sessions, candidates) < candidates.len() ==> {
            let c = candidates[first_unused(sessions, candidates)];
            c != 0 && !sessions.contains_key(c)
        },
        forall|i: int|
            0 <= i < first_unused(sessions, candidates) ==> candidates[i] == 0
                || sessions.contains_key(#[trigger] candidates[i]),
    decreases candidates.len(),
{
    if candidates.len() > 0 && !(candidates[0] != 0 && !sessions.contains_key(candidates[0])) {
        let rest = candidates.skip(1);
        lemma_first_unused(sessions, rest);
        assert forall|i: int| 0 <= i < first_unused(sessions, candidates) implies candidates[i]
            == 0 || sessions.contains_key(#[trigger] candidates[i]) by {
            if i > 0 {
                assert(candidates[i] == rest[i - 1]);
            }
        }
    }
}

/// Whether some session belongs to `source`.
pub open spec fn has_source(sessions: Map<u32, Session>, source: Source) -> bool {
    exists|id: u32| #[trigger] sessions.contains_key(id) && sessions[id].source == source
}

/// Whether a session that was last used at `last_used` is still kept at
/// `now`, with the given prune timeout.
pub open spec fn kept(last_used: u64, now: u64, timeout: u64) -> bool {
    now < last_used || now - last_used < timeout
}

/// The sessions of the adapters, by id.
pub struct ClientIdMap {
    sessions: HashMap<u32, Session>,
}

impl View for ClientIdMap {
    type V = Map<u32, Session>;

    closed spec fn view(&self) -> Map<u32, Session> {
        self.sessions@
    }
}

impl ClientIdMap {
    /// Whether the sessions are what the adapters can have made: none goes
    /// under id zero.
    pub open spec fn wf(&self) -> bool {
        !self@.contains_key(0)
    }

    /// No sessions.
    pub fn new() -> (map: ClientIdMap)
        ensures
            map@ == Map::<u32, Session>::empty(),
            map.wf(),
    {
        ClientIdMap { sessions: HashMap::new() }
    }

    /// How many sessions there are.
    pub fn len(&self) -> (n: usize)
        ensures
            n == self@.len(),
    {
        self.sessions.len()
    }

    /// Whether there is a session with `id`.
    pub fn contains(&self, id: u32) -> (found: bool)
        ensures
            found == self@.contains_key(id),
    {
        self.sessions.contains_key(&id)
    }

    /// The session with `id`, if there is one.
    pub fn get(&self, id: u32) -> (session: Option<Session>)
        ensures
            session == self@.get(id),
    {
        match self.sessions.get(&id) {
            Some(session) => Some(*session),
            None => None,
        }
    }

    /// The ids of all sessions, each once, in no order that could be
    /// relied on.
    fn ids(&self) -> (ids: Vec<u32>)
        ensures
            ids@.no_duplicates(),
            forall|id: u32| ids@.contains(id) <==> self@.contains_key(id),
    {
        let mut ids: Vec<u32> = Vec::new();
        for id in it: self.sessions.keys()
            invariant
                ids@.len() == it.index(),
                forall|i: int| 0 <= i < ids@.len() ==> ids@[i] == *it.seq()[i],
        {
            ids.push(*id);
        }
        proof {
            let keys = spec_keys_iter(&self.sessions).remaining();
            assert(ids@ =~= keys.unref());
            assert(ids@.to_set() =~= self@.dom());
            assert forall|id: u32| ids@.contains(id) <==> self@.contains_key(id) by {
                assert(ids@.to_set().contains(id) <==> self@.dom().contains(id));
            }
        }
        ids
    }

    /// Opens a session for `source` at `now`, under an id that no session
    /// has: the first candidate that is neither zero nor taken. The caller
    /// draws the candidates at random. Whether the source has sessions
    /// already makes no difference. `None`, with nothing changed, where no
    /// candidate is free.
    pub fn open_session(&mut self, source: Source, now: u64, candidates: &[u32]) -> (id: Option<
        u32,
    >)
        requires
            old(self).wf(),
        ensures
            final(self).wf(),
            ({
                let pick = first_unused(old(self)@, candidates@);
                if pick < candidates@.len() {
                    &&& id == Some(candidates@[pick])
                    &&& candidates@[pick] != 0
                    &&& !old(self)@.contains_key(candidates@[pick])
                    &&& final(self)@ == old(self)@.insert(
                        candidates@[pick],
                        Session { source, last_used: now },
                    )
                } else {
                    &&& id is None
                    &&& final(self)@ == old(self)@
                }
            }),
    {
        let mut i: usize = 0;
        assert(candidates@.skip(0) =~= candidates@);
        while i < candidates.len()
            invariant
                i <= candidates@.len(),
                *self == *old(self),
                self.wf(),
                first_unused(self@, candidates@) == i + first_unused(
                    self@,
                    candidates@.skip(i as int),
                ),
            decreases candidates@.len() - i,
        {
            let c = candidates[i];
            assert(candidates@.skip(i as int)[0] == c);
            assert(candidates@.skip(i as int).skip(1) =~= candidates@.skip(i + 1));
            if c != 0 && !self.sessions.contains_key(&c) {
                self.sessions.insert(c, Session { source, last_used: now });
                return Some(c);
            }
            i += 1;
        }
        None
    }

    /// The session id under which a packet from `source` goes out at
    /// `now`, for an adapter that keeps one session to a source.
    ///
    /// Where the source has a session, the id of one of its sessions comes
    /// back, and that session counts as used. A new source gets a session
    /// as [`ClientIdMap::open_session`] opens it.
    pub fn session_for(&mut self, source: Source, now: u64, candidates: &[u32]) -> (id: Option<u32>)
        requires
            old(self).wf(),
        ensures
            final(self).wf(),
            has_source(old(self)@, source) ==> {
                &&& id is Some
                &&& old(self)@.contains_key(id->Some_0)
                &&& old(self)@[id->Some_0].source == source
                &&& final(self)@ == old(self)@.insert(
                    id->Some_0,
                    Session { source, last_used: now },
                )
            },
            !has_source(old(self)@, source) ==> {
                let pick = first_unused(old(self)@, candidates@);
                if pick < candidates@.len() {
                    &&& id == Some(candidates@[pick])
                    &&& final(self)@ == old(self)@.insert(
                        candidates@[pick],
                        Session { source, last_used: now },
                    )
                } else {
                    &&& id is None
                    &&& final(self)@ == old(self)@
                }
            },
    {
        let ids = self.ids();
        let mut i: usize = 0;
        while i < ids.len()
            invariant
                i <= ids@.len(),
                *self == *old(self),
                self.wf(),
                forall|id: u32| ids@.contains(id) <==> self@.contains_key(id),
                forall|j: int| 0 <= j < i ==> self@[#[trigger] ids@[j]].source != source,
            decreases ids@.len() - i,
        {
            let id = ids[i];
            assert(ids@.contains(id));
            match self.sessions.get(&id) {
                Some(session) => {
                    if session.source == source {
                        self.sessions.insert(id, Session { source, last_used: now });
                        return Some(id);
                    }
                },
                None => {},
            }
            i += 1;
        }
        assert(!has_source(self@, source)) by {
            if has_source(self@, source) {
                let id = choose|id: u32| #[trigger]
                    self@.contains_key(id) && self@[id].source == source;
                assert(ids@.contains(id));
                let j = choose|j: int| 0 <= j < ids@.len() && ids@[j] == id;
                assert(self@[ids@[j]].source != source);
            }
        }
        self.open_session(source, now, candidates)
    }

    /// The source that a datagram under the session `id` goes back to at
    /// `now`. The session counts as used. `None`, with nothing changed,
    /// where there is no such session.
    pub fn source_of(&mut self, id: u32, now: u64) -> (source: Option<Source>)
        requires
            old(self).wf(),
        ensures
            final(self).wf(),
            match old(self)@.get(id) {
                Some(session) => {
                    &&& source == Some(session.source)
                    &&& final(self)@ == old(self)@.insert(
                        id,
                        Session { last_used: now, ..session },
                    )
                },
                None => source is None && final(self)@ == old(self)@,
            },
    {
        let session = match self.sessions.get(&id) {
            Some(session) => *session,
            None => {
                return None;
            },
        };
        self.sessions.insert(id, Session { last_used: now, ..session });
        Some(session.source)
    }

    /// Forgets every session that has lain idle for `timeout` at `now`.
    /// The others stay as they are.
    pub fn prune(&mut self, now: u64, timeout: u64)
        requires
            old(self).wf(),
        ensures
            forall|id: u32|
                final(self)@.contains_key(id) <==> #[trigger] old(self)@.contains_key(id) && kept(
                    old(self)@[id].last_used,
                    now,
                    timeout,
                ),
            forall|id: u32| #[trigger]
                final(self)@.contains_key(id) ==> final(self)@[id] == old(self)@[id],
            final(self).wf(),
    {
        let ids = self.ids();
        let mut i: usize = 0;
        assert forall|j: int| 0 <= j < ids@.len() implies self@.contains_key(
            #[trigger] ids@[j],
        ) by {
            assert(ids@.contains(ids@[j]));
        }
        while i < ids.len()
            invariant
                i <= ids@.len(),
                ids@.no_duplicates(),
                !self@.contains_key(0),
                forall|id: u32| ids@.contains(id) <==> old(self)@.contains_key(id),
                forall|id: u32| #[trigger]
                    self@.contains_key(id) ==> old(self)@.contains_key(id) && self@[id]
                        == old(self)@[id],
                forall|j: int|
                    0 <= j < i ==> (self@.contains_key(#[trigger] ids@[j]) <==> kept(
                        old(self)@[ids@[j]].last_used,
                        now,
                        timeout,
                    )),
                forall|j: int| i <= j < ids@.len() ==> self@.contains_key(#[trigger] ids@[j]),
            decreases ids@.len() - i,
        {
            let id = ids[i];
            assert(self@.contains_key(ids@[i as int]));
            let ghost before = self@;
            match self.sessions.get(&id) {
                Some(session) => {
                    if !(now < session.last_used || now - session.last_used < timeout) {
                        self.sessions.remove(&id);
                        assert forall|j: int| 0 <= j < ids@.len() && j != i implies (
                        self@.contains_key(#[trigger] ids@[j]) <==> before.contains_key(
                            ids@[j],
                        )) by {
                            assert(ids@[j] != ids@[i as int]);
                        }
                    }
                },
                None => {},
            }
            i += 1;
        }
        assert forall|id: u32| #[trigger] old(self)@.contains_key(id) && kept(
            old(self)@[id].last_used,
            now,
            timeout,
        ) implies self@.contains_key(id) by {
            assert(ids@.contains(id));
            let j = choose|j: int| 0 <= j < ids@.len() && ids@[j] == id;
            assert(self@.contains_key(ids@[j]));
        }
        assert forall|id: u32| self@.contains_key(id) implies kept(
            old(self)@[id].last_used,
            now,
            timeout,
        ) by {
            assert(ids@.contains(id));
            let j = choose|j: int| 0 <= j < ids@.len() && ids@[j] == id;
            assert(self@.contains_key(ids@[j]));
        }
    }
}

} // verus!
