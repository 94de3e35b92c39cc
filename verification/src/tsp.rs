use vstd::prelude::*;

use crate::text::str_eq;

verus! {

/// Persisted state of trust between the local identity and one peer, as the
/// store reports it.
#[derive(Clone, Copy, PartialEq, Eq, Structural, Debug)]
pub enum RelationStatus {
    /// No relationship recorded.
    Unrelated,
    /// A request was sent or received but not yet mutually acknowledged.
    Pending,
    /// Both sides have exchanged request and accept; the only status that
    /// authorizes access under the relationship strategy.
    Bidirectional,
    /// Any relationship state outside this subsystem's lifecycle.
    Other,
}

/// A store access error.
#[derive(Clone, Copy, PartialEq, Eq, Structural, Debug)]
pub enum StoreError {
    /// The queried identity is not the one registered with the store.
    UnknownIdentity,
}

impl StoreError {
    /// The description embedded in deny messages.
    pub open spec fn spec_describe(&self) -> Seq<char> {
        "unknown local identity"@
    }

    /// Renders the description of the error.
    pub fn describe(&self) -> (s: String)
        ensures
            s@ == self.spec_describe(),
    {
        String::from_str("unknown local identity")
    }
}

/// One recorded relationship.
#[derive(Clone)]
pub struct PeerRelation {
    pub peer: String,
    pub status: RelationStatus,
}

/// The identity and relationship store this subsystem consumes: the
/// service's own identity, and the relationship recorded with each peer.
#[derive(Clone)]
pub struct RelationStore {
    local: Option<String>,
    relations: Vec<PeerRelation>,
}

impl RelationStore {
    /// The registered local identity, if one has been registered.
    pub closed spec fn local_id(&self) -> Option<Seq<char>> {
        match self.local {
            Some(v) => Some(v@),
            None => None,
        }
    }

    /// Whether some relationship with this peer has been recorded.
    pub closed spec fn has_relation(&self, p: Seq<char>) -> bool {
        exists|i: int| 0 <= i < self.relations@.len() && self.relations@[i].peer@ == p
    }

    /// The status recorded for this peer; `Unrelated` where nothing is.
    pub closed spec fn status_of(&self, p: Seq<char>) -> RelationStatus {
        if self.has_relation(p) {
            let i = choose|i: int|
                0 <= i < self.relations@.len() && self.relations@[i].peer@ == p;
            self.relations@[i].status
        } else {
            RelationStatus::Unrelated
        }
    }

    /// Well-formed: each peer has at most one record.
    pub closed spec fn wf(&self) -> bool {
        forall|i: int, j: int|
            0 <= i < j < self.relations@.len() ==> self.relations@[i].peer@
                != self.relations@[j].peer@
    }

    /// An empty store: no identity, no relationships.
    pub fn new() -> (s: Self)
        ensures
            s.wf(),
            s.local_id() is None,
            forall|p: Seq<char>| !s.has_relation(p),
    {
        RelationStore { local: None, relations: Vec::new() }
    }

    /// Registers the service's own identity.
    pub fn register_identity(&mut self, vid: String)
        ensures
            final(self).wf() == old(self).wf(),
            final(self).local_id() == Some(vid@),
            forall|p: Seq<char>| final(self).has_relation(p) == old(self).has_relation(p),
            forall|p: Seq<char>| final(self).status_of(p) == old(self).status_of(p),
    {
        self.local = Some(vid);
    }

    fn find_peer(&self, peer: &str) -> (r: Option<usize>)
        requires
            self.wf(),
        ensures
            match r {
                Some(i) => i < self.relations@.len() && self.relations@[i as int].peer@ == peer@
                    && self.has_relation(peer@) && self.status_of(peer@) == self.relations@[
                    i as int].status,
                None => !self.has_relation(peer@),
            },
    {
        let mut i: usize = 0;
        while i < self.relations.len()
            invariant
                self.wf(),
                i <= self.relations@.len(),
                forall|j: int| 0 <= j < i ==> self.relations@[j].peer@ != peer@,
            decreases self.relations@.len() - i,
        {
            if str_eq(self.relations[i].peer.as_str(), peer) {
                proof {
                    assert(self.has_relation(peer@));
                    let k = choose|k: int|
                        0 <= k < self.relations@.len() && self.relations@[k].peer@ == peer@;
                    if k != i {
                        if k < i {
                            assert(self.relations@[k].peer@ != self.relations@[i as int].peer@);
                        } else {
                            assert(self.relations@[i as int].peer@ != self.relations@[k].peer@);
                        }
                    }
                }
                return Some(i);
            }
            i += 1;
        }
        None
    }

    proof fn lemma_push(pre: Self, post: Self, x: PeerRelation)
        requires
            pre.wf(),
            !pre.has_relation(x.peer@),
            post.relations@ == pre.relations@.push(x),
        ensures
            post.wf(),
            post.has_relation(x.peer@),
            post.status_of(x.peer@) == x.status,
            forall|q: Seq<char>|
                q != x.peer@ ==> post.has_relation(q) == pre.has_relation(q) && post.status_of(q)
                    == pre.status_of(q),
    {
        let n = pre.relations@.len() as int;
        assert forall|i: int| 0 <= i < n implies pre.relations@[i].peer@ != x.peer@ by {
            if pre.relations@[i].peer@ == x.peer@ {
                assert(pre.has_relation(x.peer@));
            }
        }
        assert(post.relations@[n].peer@ == x.peer@);
        assert(post.has_relation(x.peer@));
        let k = choose|k: int|
            0 <= k < post.relations@.len() && post.relations@[k].peer@ == x.peer@;
        assert(k == n);
        assert forall|q: Seq<char>| q != x.peer@ implies post.has_relation(q) == pre.has_relation(
            q,
        ) && post.status_of(q) == pre.status_of(q) by {
            if pre.has_relation(q) {
                let i = choose|i: int|
                    0 <= i < pre.relations@.len() && pre.relations@[i].peer@ == q;
                assert(post.relations@[i].peer@ == q);
                assert(post.has_relation(q));
            }
            if post.has_relation(q) {
                let i = choose|i: int|
                    0 <= i < post.relations@.len() && post.relations@[i].peer@ == q;
                assert(i < n);
                assert(pre.relations@[i].peer@ == q);
                assert(pre.has_relation(q));
                let ip = choose|ip: int|
                    0 <= ip < pre.relations@.len() && pre.relations@[ip].peer@ == q;
                if ip != i {
                    if ip < i {
                        assert(pre.relations@[ip].peer@ != pre.relations@[i].peer@);
                    } else {
                        assert(pre.relations@[i].peer@ != pre.relations@[ip].peer@);
                    }
                }
            }
        }
    }

    proof fn lemma_remove(pre: Self, post: Self, i: int)
        requires
            pre.wf(),
            0 <= i < pre.relations@.len(),
            post.relations@ == pre.relations@.remove(i),
        ensures
            post.wf(),
            !post.has_relation(pre.relations@[i].peer@),
            forall|q: Seq<char>|
                q != pre.relations@[i].peer@ ==> post.has_relation(q) == pre.has_relation(q)
                    && post.status_of(q) == pre.status_of(q),
    {
        let n = pre.relations@.len() as int;
        assert forall|j: int| 0 <= j < n - 1 implies post.relations@[j] == (if j < i {
            pre.relations@[j]
        } else {
            pre.relations@[j + 1]
        }) by {
            pre.relations@.remove_ensures(i);
        }
        assert(post.relations@.len() == n - 1) by {
            pre.relations@.remove_ensures(i);
        }
        assert forall|j1: int, j2: int|
            0 <= j1 < j2 < post.relations@.len() implies post.relations@[j1].peer@
            != post.relations@[j2].peer@ by {
            let p1: int = if j1 < i {
                j1
            } else {
                j1 + 1
            };
            let p2: int = if j2 < i {
                j2
            } else {
                j2 + 1
            };
            assert(pre.relations@[p1].peer@ != pre.relations@[p2].peer@);
        }
        let pi = pre.relations@[i].peer@;
        assert forall|j: int| 0 <= j < post.relations@.len() implies post.relations@[j].peer@
            != pi by {
            let p: int = if j < i {
                j
            } else {
                j + 1
            };
            if p < i {
                assert(pre.relations@[p].peer@ != pre.relations@[i].peer@);
            } else {
                assert(pre.relations@[i].peer@ != pre.relations@[p].peer@);
            }
        }
        assert forall|q: Seq<char>| q != pi implies post.has_relation(q) == pre.has_relation(q)
            && post.status_of(q) == pre.status_of(q) by {
            if pre.has_relation(q) {
                let j = choose|j: int|
                    0 <= j < pre.relations@.len() && pre.relations@[j].peer@ == q;
                assert(j != i);
                let b: int = if j < i {
                    j
                } else {
                    j - 1
                };
                assert(post.relations@[b].peer@ == q);
                assert(post.has_relation(q));
            }
            if post.has_relation(q) {
                let j = choose|j: int|
                    0 <= j < post.relations@.len() && post.relations@[j].peer@ == q;
                let p: int = if j < i {
                    j
                } else {
                    j + 1
                };
                assert(pre.relations@[p].peer@ == q);
                assert(pre.has_relation(q));
                let jp = choose|jp: int|
                    0 <= jp < pre.relations@.len() && pre.relations@[jp].peer@ == q;
                if jp != p {
                    if jp < p {
                        assert(pre.relations@[jp].peer@ != pre.relations@[p].peer@);
                    } else {
                        assert(pre.relations@[p].peer@ != pre.relations@[jp].peer@);
                    }
                }
            }
        }
    }

    /// Records an inbound relationship request from a peer: a peer without
    /// a record enters `Pending`; a recorded relationship is never moved
    /// backwards by a repeated request.
    pub fn record_request(&mut self, peer: &str)
        requires
            old(self).wf(),
        ensures
            final(self).wf(),
            final(self).local_id() == old(self).local_id(),
            final(self).has_relation(peer@),
            final(self).status_of(peer@) == (if old(self).has_relation(peer@) {
                old(self).status_of(peer@)
            } else {
                RelationStatus::Pending
            }),
            forall|q: Seq<char>|
                q != peer@ ==> final(self).has_relation(q) == old(self).has_relation(q)
                    && final(self).status_of(q) == old(self).status_of(q),
    {
        match self.find_peer(peer) {
            Some(_) => {
            },
            None => {
                let pr = PeerRelation {
                    peer: String::from_str(peer),
                    status: RelationStatus::Pending,
                };
                let ghost prg = pr;
                self.relations.push(pr);
                proof {
                    Self::lemma_push(*old(self), *self, prg);
                }
            },
        }
    }

    /// Sets the relationship with a peer to `Bidirectional`.  The store's
    /// own protocol logic reaches this point once both sides have completed
    /// the accept exchange; no code of this subsystem decides it.
    pub fn set_bidirectional(&mut self, peer: &str)
        requires
            old(self).wf(),
        ensures
            final(self).wf(),
            final(self).local_id() == old(self).local_id(),
            final(self).has_relation(peer@),
            final(self).status_of(peer@) == RelationStatus::Bidirectional,
            forall|q: Seq<char>|
                q != peer@ ==> final(self).has_relation(q) == old(self).has_relation(q)
                    && final(self).status_of(q) == old(self).status_of(q),
    {
        match self.find_peer(peer) {
            Some(i) => {
                let mut pr = self.relations.remove(i);
                let ghost mid = *self;
                pr.status = RelationStatus::Bidirectional;
                let ghost prg = pr;
                self.relations.push(pr);
                proof {
                    Self::lemma_remove(*old(self), mid, i as int);
                    Self::lemma_push(mid, *self, prg);
                }
            },
            None => {
                let pr = PeerRelation {
                    peer: String::from_str(peer),
                    status: RelationStatus::Bidirectional,
                };
                let ghost prg = pr;
                self.relations.push(pr);
                proof {
                    Self::lemma_push(*old(self), *self, prg);
                }
            },
        }
    }

    /// A peer with no recorded relationship reports `Unrelated`.
    pub proof fn lemma_status_default(&self, p: Seq<char>)
        requires
            !self.has_relation(p),
        ensures
            self.status_of(p) == RelationStatus::Unrelated,
    {
    }

    /// Queries the relationship status between the given identity and a
    /// peer.  Answers only for the registered identity; any other yields a
    /// store error.
    pub fn relation_status(&self, vid: &str, peer: &str) -> (r: Result<
        RelationStatus,
        StoreError,
    >)
        requires
            self.wf(),
        ensures
            r is Ok <==> self.local_id() == Some(vid@),
            r matches Ok(st) ==> st == self.status_of(peer@),
            r matches Err(e) ==> e == StoreError::UnknownIdentity,
    {
        let registered = match &self.local {
            Some(v) => str_eq(v.as_str(), vid),
            None => false,
        };
        if !registered {
            return Err(StoreError::UnknownIdentity);
        }
        match self.find_peer(peer) {
            Some(i) => Ok(self.relations[i].status),
            None => Ok(RelationStatus::Unrelated),
        }
    }
}

/// An inbound message as the endpoint's listener observes it.
pub enum TspMessage {
    /// A peer asks for a relationship; carries the sender's identity and
    /// the correlation (thread) identifier of the request.
    RequestRelationship { sender: String, thread_id: String },
    /// Any other message type: observed, never acted on.
    Other,
}

/// What the listener does in answer to one message.
pub enum ListenerAction {
    /// Reply to the peer with an accept echoing the request's correlation
    /// identifier.
    SendAccept { receiver: String, thread_id: String },
    /// Nothing: no state transition a verifier could observe.
    Ignore,
}

/// The component owning the local identity and the relationship state that
/// the handshake listener maintains.
pub struct TrustEndpoint {
    pub store: RelationStore,
    pub vid: String,
}

impl TrustEndpoint {
    /// Creates the endpoint: a fresh store with the given identity
    /// registered as its own.
    pub fn new(vid: String) -> (ep: Self)
        ensures
            ep.store.wf(),
            ep.vid@ == vid@,
            ep.store.local_id() == Some(vid@),
            forall|p: Seq<char>| !ep.store.has_relation(p),
    {
        let mut store = RelationStore::new();
        store.register_identity(vid.clone());
        TrustEndpoint { store, vid }
    }

    /// Handles one inbound message.  A relationship request is recorded and
    /// answered with an accept that echoes the request's thread identifier
    /// — the endpoint never rejects a request, and a repeated request moves
    /// no relationship backwards.  Every other message is ignored and
    /// changes no state a verifier could observe.
    pub fn handle_message(&mut self, msg: &TspMessage) -> (act: ListenerAction)
        requires
            old(self).store.wf(),
        ensures
            final(self).store.wf(),
            final(self).vid == old(self).vid,
            final(self).store.local_id() == old(self).store.local_id(),
            match msg {
                TspMessage::RequestRelationship { sender, thread_id } => {
                    &&& act matches ListenerAction::SendAccept { receiver, thread_id: t }
                        && receiver@ == sender@ && t@ == thread_id@
                    &&& final(self).store.has_relation(sender@)
                    &&& final(self).store.status_of(sender@) == (if old(self).store.has_relation(
                        sender@,
                    ) {
                        old(self).store.status_of(sender@)
                    } else {
                        RelationStatus::Pending
                    })
                    &&& forall|q: Seq<char>|
                        q != sender@ ==> final(self).store.has_relation(q) == old(
                            self,
                        ).store.has_relation(q) && final(self).store.status_of(q) == old(
                            self,
                        ).store.status_of(q)
                },
                TspMessage::Other => act is Ignore && *final(self) == *old(self),
            },
    {
        match msg {
            TspMessage::RequestRelationship { sender, thread_id } => {
                self.store.record_request(sender.as_str());
                ListenerAction::SendAccept {
                    receiver: sender.clone(),
                    thread_id: thread_id.clone(),
                }
            },
            TspMessage::Other => ListenerAction::Ignore,
        }
    }
}

/// Law: a repeated relationship request from the same peer makes at most
/// one observable state progression.  Once the peer is recorded — as it is
/// after a first request was handled — a store reached by handling the
/// same request again reports every relationship unchanged, so repeated
/// verification of any credential cannot flip between allow and deny.
/// The hypotheses on the second store are exactly what `handle_message`
/// ensures of it.
pub proof fn lemma_repeated_request_stable(s1: RelationStore, s2: RelationStore, peer: Seq<char>)
    requires
        s1.has_relation(peer),
        s2.local_id() == s1.local_id(),
        s2.has_relation(peer),
        s2.status_of(peer) == (if s1.has_relation(peer) {
            s1.status_of(peer)
        } else {
            RelationStatus::Pending
        }),
        forall|q: Seq<char>|
            q != peer ==> s2.has_relation(q) == s1.has_relation(q) && s2.status_of(q)
                == s1.status_of(q),
    ensures
        forall|q: Seq<char>| s2.has_relation(q) == s1.has_relation(q),
        forall|q: Seq<char>| s2.status_of(q) == s1.status_of(q),
{
    assert forall|q: Seq<char>|
        s2.has_relation(q) == s1.has_relation(q) && s2.status_of(q) == s1.status_of(q) by {
        if q != peer {
            assert(s2.has_relation(q) == s1.has_relation(q));
        }
    }
}

} // verus!
