//! A registry of live sessions keyed by owner.
//!
//! One registry holds the sessions of one kind. An owner has at most one
//! session in it. A session may be shared by two owners; both then see the
//! same payload, and ending it for one ends it for both.

use std::collections::HashMap;
use vstd::prelude::*;

verus! {

/// Why a session could not be started.
#[derive(Clone, Copy, PartialEq, Eq, Structural, Debug)]
pub enum StartError {
    /// The named owner already has a session in this registry.
    AlreadyActive { owner: u64 },
    /// A shared session needs two different owners.
    SameOwner,
}

/// The owner has no session in this registry.
#[derive(Clone, Copy, PartialEq, Eq, Structural, Debug)]
pub struct NotFound;

/// What the registry knows of one owner: the session's payload and, for a
/// shared session, the other owner.
pub struct Entry<T> {
    pub payload: T,
    pub partner: Option<u64>,
}

/// Every shared session is registered for both of its owners, who are
/// distinct and see the same payload.
pub open spec fn paired<T>(m: Map<u64, Entry<T>>) -> bool {
    forall|a: u64| #[trigger]
        m.contains_key(a) ==> (m[a].partner matches Some(b) ==> b != a && m.contains_key(b)
            && m[b].partner == Some(a) && m[b].payload == m[a].payload)
}

/// The registry after `owner` starts a session of their own.
pub open spec fn model_start<T>(m: Map<u64, Entry<T>>, owner: u64, payload: T) -> Map<
    u64,
    Entry<T>,
> {
    m.insert(owner, Entry { payload, partner: None })
}

/// The registry after `first` and `second` start a shared session.
pub open spec fn model_start_pair<T>(
    m: Map<u64, Entry<T>>,
    first: u64,
    second: u64,
    payload: T,
) -> Map<u64, Entry<T>> {
    m.insert(first, Entry { payload, partner: Some(second) }).insert(
        second,
        Entry { payload, partner: Some(first) },
    )
}

/// The outcome of asking to start a session for `owner` alone.
pub open spec fn start_verdict<T>(m: Map<u64, Entry<T>>, owner: u64) -> Result<(), StartError> {
    if m.contains_key(owner) {
        Err(StartError::AlreadyActive { owner })
    } else {
        Ok(())
    }
}

/// The outcome of asking to start a session shared by `first` and `second`.
pub open spec fn start_pair_verdict<T>(m: Map<u64, Entry<T>>, first: u64, second: u64) -> Result<
    (),
    StartError,
> {
    if first == second {
        Err(StartError::SameOwner)
    } else if m.contains_key(first) {
        Err(StartError::AlreadyActive { owner: first })
    } else if m.contains_key(second) {
        Err(StartError::AlreadyActive { owner: second })
    } else {
        Ok(())
    }
}

/// The registry after the session of `owner` takes a new payload. A partner
/// sees the new payload too.
pub open spec fn model_set<T>(m: Map<u64, Entry<T>>, owner: u64, payload: T) -> Map<
    u64,
    Entry<T>,
> {
    match m[owner].partner {
        None => m.insert(owner, Entry { payload, partner: None }),
        Some(b) => m.insert(owner, Entry { payload, partner: Some(b) }).insert(
            b,
            Entry { payload, partner: Some(owner) },
        ),
    }
}

/// The registry after the session of `owner` ends. A partner's entry goes
/// with it.
pub open spec fn model_end<T>(m: Map<u64, Entry<T>>, owner: u64) -> Map<u64, Entry<T>> {
    match m[owner].partner {
        None => m.remove(owner),
        Some(b) => m.remove(owner).remove(b),
    }
}

enum Slot<T> {
    /// Holds the payload; `partner` is the guest of a shared session.
    Host { payload: T, partner: Option<u64> },
    /// Shares the session whose payload is kept under `host`.
    Guest { host: u64 },
}

/// The live sessions of one kind, by owner.
pub struct SessionStore<T> {
    slots: HashMap<u64, Slot<T>>,
}

impl<T> View for SessionStore<T> {
    type V = Map<u64, Entry<T>>;

    closed spec fn view(&self) -> Map<u64, Entry<T>> {
        Map::new(
            |k: u64| self.slots@.contains_key(k),
            |k: u64|
                match self.slots@[k] {
                    Slot::Host { payload, partner } => Entry { payload, partner },
                    Slot::Guest { host } => Entry {
                        payload: self.slots@[host]->payload,
                        partner: Some(host),
                    },
                },
        )
    }
}

impl<T> SessionStore<T> {
    /// The representation is sound: every guest points at its host and
    /// every host with a partner is pointed at by that partner.
    pub closed spec fn wf(&self) -> bool {
        &&& forall|k: u64| #[trigger]
            self.slots@.contains_key(k) ==> (self.slots@[k] matches Slot::Guest { host } ==> host
                != k && self.slots@.contains_key(host) && self.slots@[host] is Host
                && self.slots@[host]->partner == Some(k))
        &&& forall|k: u64| #[trigger]
            self.slots@.contains_key(k) ==> (self.slots@[k] matches Slot::Host {
                partner: Some(g),
                ..
            } ==> g != k && self.slots@.contains_key(g) && self.slots@[g] == (Slot::Guest::<T> {
                host: k,
            }))
    }

    /// A well-formed registry pairs its shared sessions.
    pub proof fn lemma_paired(&self)
        requires
            self.wf(),
        ensures
            paired(self@),
            self@.dom().finite(),
    {
        assert(self@.dom() =~= self.slots@.dom());
        assert forall|a: u64| #[trigger] self@.contains_key(a) implies (self@[a].partner matches Some(
            b,
        ) ==> b != a && self@.contains_key(b) && self@[b].partner == Some(a) && self@[b].payload
            == self@[a].payload) by {
            assert(self.slots@.contains_key(a));
            match self.slots@[a] {
                Slot::Host { payload, partner: Some(g) } => {
                    assert(self.slots@.contains_key(g));
                },
                Slot::Host { payload, partner: None } => {},
                Slot::Guest { host } => {
                    assert(self.slots@.contains_key(host));
                },
            }
        }
    }

    /// An empty registry.
    pub fn new() -> (s: Self)
        ensures
            s.wf(),
            s@ == Map::<u64, Entry<T>>::empty(),
    {
        let s = SessionStore { slots: HashMap::new() };
        assert(s@ =~= Map::<u64, Entry<T>>::empty());
        s
    }

    /// Whether `owner` has a session.
    pub fn contains(&self, owner: u64) -> (b: bool)
        requires
            self.wf(),
        ensures
            b == self@.contains_key(owner),
    {
        self.slots.contains_key(&owner)
    }

    /// The other owner of the session of `owner`, if it is shared.
    pub fn partner(&self, owner: u64) -> (p: Option<u64>)
        requires
            self.wf(),
        ensures
            p == if self@.contains_key(owner) {
                self@[owner].partner
            } else {
                None
            },
    {
        match self.slots.get(&owner) {
            None => None,
            Some(Slot::Host { partner, .. }) => *partner,
            Some(Slot::Guest { host }) => Some(*host),
        }
    }

    /// A read-only look at the session of `owner`.
    pub fn get(&self, owner: u64) -> (r: Option<&T>)
        requires
            self.wf(),
        ensures
            r == if self@.contains_key(owner) {
                Some(&self@[owner].payload)
            } else {
                None
            },
    {
        match self.slots.get(&owner) {
            None => None,
            Some(Slot::Host { payload, .. }) => Some(payload),
            Some(Slot::Guest { host }) => {
                match self.slots.get(host) {
                    Some(Slot::Host { payload, .. }) => Some(payload),
                    _ => None,
                }
            },
        }
    }

    /// Starts a session for `owner` alone. Refused, with the registry left
    /// as it was, when `owner` already has one.
    pub fn start(&mut self, owner: u64, payload: T) -> (r: Result<(), StartError>)
        requires
            old(self).wf(),
        ensures
            final(self).wf(),
            r == start_verdict(old(self)@, owner),
            r is Ok ==> final(self)@ == model_start(old(self)@, owner, payload),
            r is Err ==> final(self)@ == old(self)@,
    {
        if self.slots.contains_key(&owner) {
            return Err(StartError::AlreadyActive { owner });
        }
        self.slots.insert(owner, Slot::Host { payload, partner: None });
        assert(self@ =~= model_start(old(self)@, owner, payload));
        Ok(())
    }

    /// Starts one session shared by `first` and `second`. Both are checked
    /// before either is registered: when it is refused, neither has a new
    /// session.
    pub fn start_pair(&mut self, first: u64, second: u64, payload: T) -> (r: Result<
        (),
        StartError,
    >)
        requires
            old(self).wf(),
        ensures
            final(self).wf(),
            r == start_pair_verdict(old(self)@, first, second),
            r is Ok ==> final(self)@ == model_start_pair(old(self)@, first, second, payload),
            r is Err ==> final(self)@ == old(self)@,
    {
        if first == second {
            return Err(StartError::SameOwner);
        }
        if self.slots.contains_key(&first) {
            return Err(StartError::AlreadyActive { owner: first });
        }
        if self.slots.contains_key(&second) {
            return Err(StartError::AlreadyActive { owner: second });
        }
        self.slots.insert(first, Slot::Host { payload, partner: Some(second) });
        self.slots.insert(second, Slot::Guest { host: first });
        assert(self@ =~= model_start_pair(old(self)@, first, second, payload));
        Ok(())
    }

    /// Applies `f` to the session of `owner` and keeps what it returns as
    /// the new payload. No other session changes.
    pub fn mutate<O, F: FnOnce(T) -> (T, O)>(&mut self, owner: u64, f: F) -> (r: Result<
        O,
        NotFound,
    >)
        requires
            old(self).wf(),
            old(self)@.contains_key(owner) ==> f.requires((old(self)@[owner].payload,)),
        ensures
            final(self).wf(),
            r is Ok == old(self)@.contains_key(owner),
            r is Err ==> final(self)@ == old(self)@,
            r matches Ok(outcome) ==> final(self)@.contains_key(owner) && f.ensures(
                (old(self)@[owner].payload,),
                (final(self)@[owner].payload, outcome),
            ) && final(self)@ == model_set(old(self)@, owner, final(self)@[owner].payload),
    {
        let host = match self.slots.get(&owner) {
            None => {
                return Err(NotFound);
            },
            Some(Slot::Host { .. }) => owner,
            Some(Slot::Guest { host }) => *host,
        };
        match self.slots.remove(&host) {
            Some(Slot::Host { payload, partner }) => {
                let (next, outcome) = f(payload);
                self.slots.insert(host, Slot::Host { payload: next, partner });
                assert(self.slots@.dom() =~= old(self).slots@.dom());
                assert(self@ =~= model_set(old(self)@, owner, next));
                Ok(outcome)
            },
            _ => {
                assert(false);
                Err(NotFound)
            },
        }
    }

    /// Puts `payload` in place of the payload of the session of `owner`
    /// and hands back the old one. Without a session nothing is stored.
    pub fn replace(&mut self, owner: u64, payload: T) -> (r: Result<T, NotFound>)
        requires
            old(self).wf(),
        ensures
            final(self).wf(),
            r == if old(self)@.contains_key(owner) {
                Ok::<T, NotFound>(old(self)@[owner].payload)
            } else {
                Err::<T, NotFound>(NotFound)
            },
            final(self)@ == if old(self)@.contains_key(owner) {
                model_set(old(self)@, owner, payload)
            } else {
                old(self)@
            },
    {
        let host = match self.slots.get(&owner) {
            None => {
                return Err(NotFound);
            },
            Some(Slot::Host { .. }) => owner,
            Some(Slot::Guest { host }) => *host,
        };
        match self.slots.remove(&host) {
            Some(Slot::Host { payload: previous, partner }) => {
                self.slots.insert(host, Slot::Host { payload, partner });
                assert(self.slots@.dom() =~= old(self).slots@.dom());
                assert(self@ =~= model_set(old(self)@, owner, payload));
                Ok(previous)
            },
            _ => {
                assert(false);
                Err(NotFound)
            },
        }
    }

    /// Ends the session of `owner` and hands back its payload. A shared
    /// session ends for both owners at once.
    pub fn end(&mut self, owner: u64) -> (r: Option<T>)
        requires
            old(self).wf(),
        ensures
            final(self).wf(),
            r == if old(self)@.contains_key(owner) {
                Some(old(self)@[owner].payload)
            } else {
                None
            },
            final(self)@ == if old(self)@.contains_key(owner) {
                model_end(old(self)@, owner)
            } else {
                old(self)@
            },
    {
        match self.slots.remove(&owner) {
            None => {
                assert(self@ =~= old(self)@);
                None
            },
            Some(Slot::Host { payload, partner }) => {
                match partner {
                    Some(g) => {
                        self.slots.remove(&g);
                    },
                    None => {},
                }
                assert(self@ =~= model_end(old(self)@, owner));
                Some(payload)
            },
            Some(Slot::Guest { host }) => {
                match self.slots.remove(&host) {
                    Some(Slot::Host { payload, .. }) => {
                        assert(self@ =~= model_end(old(self)@, owner));
                        Some(payload)
                    },
                    _ => {
                        assert(false);
                        None
                    },
                }
            },
        }
    }

    /// How many owners have a session.
    pub fn len(&self) -> (n: usize)
        requires
            self.wf(),
        ensures
            n == self@.dom().len(),
    {
        assert(self@.dom() =~= self.slots@.dom());
        self.slots.len()
    }
}

/// While a session is active, a second start for its owner is refused, be
/// it alone or as either party of a shared session.
pub proof fn law_one_session_per_owner<T>(m: Map<u64, Entry<T>>, owner: u64, other: u64, payload: T)
    requires
        other != owner,
    ensures
        start_verdict(model_start(m, owner, payload), owner) == Err::<(), StartError>(
            StartError::AlreadyActive { owner },
        ),
        start_pair_verdict(model_start(m, owner, payload), owner, other) == Err::<(), StartError>(
            StartError::AlreadyActive { owner },
        ),
        start_pair_verdict(model_start(m, owner, payload), other, owner) is Err,
        start_verdict(model_start_pair(m, owner, other, payload), owner) is Err,
        start_verdict(model_start_pair(m, owner, other, payload), other) is Err,
{
}

/// A shared start is refused as soon as either party has a session.
pub proof fn law_pair_needs_both_free<T>(m: Map<u64, Entry<T>>, first: u64, second: u64)
    ensures
        start_pair_verdict(m, first, second) is Ok <==> first != second && !m.contains_key(first)
            && !m.contains_key(second),
{
}

/// Starting, updating and ending sessions keep every shared session
/// registered for both of its owners.
pub proof fn law_pairing_is_kept<T>(m: Map<u64, Entry<T>>, a: u64, b: u64, payload: T)
    requires
        paired(m),
    ensures
        !m.contains_key(a) ==> paired(model_start(m, a, payload)),
        start_pair_verdict(m, a, b) is Ok ==> paired(model_start_pair(m, a, b, payload)),
        m.contains_key(a) ==> paired(model_set(m, a, payload)),
        m.contains_key(a) ==> paired(model_end(m, a)),
        m.contains_key(a) ==> !model_end(m, a).contains_key(a),
        m.contains_key(a) && m[a].partner == Some(b) ==> !model_end(m, a).contains_key(b),
{
    if !m.contains_key(a) {
        let n = model_start(m, a, payload);
        assert forall|k: u64| #[trigger] n.contains_key(k) implies (n[k].partner matches Some(q)
            ==> q != k && n.contains_key(q) && n[q].partner == Some(k) && n[q].payload
            == n[k].payload) by {
            if k != a {
                assert(m.contains_key(k));
            }
        }
    }
    if start_pair_verdict(m, a, b) is Ok {
        let n = model_start_pair(m, a, b, payload);
        assert forall|k: u64| #[trigger] n.contains_key(k) implies (n[k].partner matches Some(q)
            ==> q != k && n.contains_key(q) && n[q].partner == Some(k) && n[q].payload
            == n[k].payload) by {
            if k != a && k != b {
                assert(m.contains_key(k));
            }
        }
    }
    if m.contains_key(a) {
        let n = model_set(m, a, payload);
        assert forall|k: u64| #[trigger] n.contains_key(k) implies (n[k].partner matches Some(q)
            ==> q != k && n.contains_key(q) && n[q].partner == Some(k) && n[q].payload
            == n[k].payload) by {
            assert(m.contains_key(k));
        }
        let e = model_end(m, a);
        assert forall|k: u64| #[trigger] e.contains_key(k) implies (e[k].partner matches Some(q)
            ==> q != k && e.contains_key(q) && e[q].partner == Some(k) && e[q].payload
            == e[k].payload) by {
            assert(m.contains_key(k));
            if m[k].partner is Some {
                assert(m.contains_key(m[k].partner->0));
            }
        }
    }
}

} // verus!
