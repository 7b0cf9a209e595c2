//! Presence states, the in-memory presence map, and the connection
//! registry that drives online/offline transitions.

use vstd::prelude::*;
use crate::util::str_eq;
use crate::keyidx::{keys_unique, has_key, index_of, lemma_index_of_at, lemma_no_key, lemma_push_fresh, lemma_remove_at};

verus! {

/// Presence status values; the wire protocol encodes them numerically.
#[derive(PartialEq, Eq, Structural, Clone, Copy, Debug)]
pub enum PresenceStatus {
    Online,
    Away,
    Dnd,
    Offline,
}

/// The numeric wire code of a presence status.
pub open spec fn presence_code(s: PresenceStatus) -> i32 {
    match s {
        PresenceStatus::Online => 1,
        PresenceStatus::Away => 2,
        PresenceStatus::Dnd => 3,
        PresenceStatus::Offline => 4,
    }
}

/// The textual name of a presence status.
pub open spec fn presence_name(s: PresenceStatus) -> Seq<char> {
    match s {
        PresenceStatus::Online => "online"@,
        PresenceStatus::Away => "away"@,
        PresenceStatus::Dnd => "dnd"@,
        PresenceStatus::Offline => "offline"@,
    }
}

impl PresenceStatus {
    /// Parse a status name; fails on anything but the four names.
    pub fn from_str(s: &str) -> (r: Option<PresenceStatus>)
        ensures
            match r {
                Some(v) => presence_name(v) == s@,
                None => forall|v: PresenceStatus| presence_name(v) != s@,
            },
    {
        if str_eq(s, "online") {
            Some(PresenceStatus::Online)
        } else if str_eq(s, "away") {
            Some(PresenceStatus::Away)
        } else if str_eq(s, "dnd") {
            Some(PresenceStatus::Dnd)
        } else if str_eq(s, "offline") {
            Some(PresenceStatus::Offline)
        } else {
            proof {
                assert forall|v: PresenceStatus| presence_name(v) != s@ by {
                    match v {
                        PresenceStatus::Online => assert(presence_name(v) == "online"@),
                        PresenceStatus::Away => assert(presence_name(v) == "away"@),
                        PresenceStatus::Dnd => assert(presence_name(v) == "dnd"@),
                        PresenceStatus::Offline => assert(presence_name(v) == "offline"@),
                    }
                }
            }
            None
        }
    }

    pub fn as_str(&self) -> (r: &'static str)
        ensures
            r@ == presence_name(*self),
    {
        match self {
            PresenceStatus::Online => "online",
            PresenceStatus::Away => "away",
            PresenceStatus::Dnd => "dnd",
            PresenceStatus::Offline => "offline",
        }
    }

    pub fn as_proto_i32(&self) -> (r: i32)
        ensures
            r == presence_code(*self),
    {
        match self {
            PresenceStatus::Online => 1,
            PresenceStatus::Away => 2,
            PresenceStatus::Dnd => 3,
            PresenceStatus::Offline => 4,
        }
    }
}

/// Presence as rendered for the REST surface.
pub struct PresenceResponse {
    pub user_pubkey: String,
    pub display_name: String,
    pub status: String,
}

/// Request to set the caller's own presence.
pub struct SetPresenceRequest {
    pub status: String,
}

/// Request to send a typing indicator.
pub struct SendTypingRequest {
    pub channel_id: String,
}

/// Presence record for one user, keyed by public key.
pub struct PresenceInfo {
    pub status: PresenceStatus,
    pub user_pubkey: String,
    pub display_name: String,
}

/// In-memory presence map keyed by user public key.
pub struct PresenceMap {
    pub entries: Vec<PresenceInfo>,
}

impl PresenceMap {
    /// The keys of the map, in row order.
    pub open spec fn key_seq(self) -> Seq<Seq<char>> {
        self.entries@.map_values(|e: PresenceInfo| e.user_pubkey@)
    }

    pub open spec fn wf(self) -> bool {
        keys_unique(self.key_seq())
    }

    /// The status recorded for a public key, if any.
    pub open spec fn spec_status_of(self, pubkey: Seq<char>) -> Option<PresenceStatus> {
        if has_key(self.key_seq(), pubkey) {
            Some(self.entries@[index_of(self.key_seq(), pubkey)].status)
        } else {
            None
        }
    }

    pub fn new() -> (r: PresenceMap)
        ensures
            r.wf(),
            r.entries@.len() == 0,
    {
        PresenceMap { entries: Vec::new() }
    }

    /// Record a user's presence, replacing any earlier record for the same
    /// public key.
    #[verifier::loop_isolation(false)]
    pub fn set(&mut self, pubkey: &str, display_name: &str, status: PresenceStatus)
        requires
            old(self).wf(),
        ensures
            final(self).wf(),
            final(self).spec_status_of(pubkey@) == Some(status),
            forall|p: Seq<char>| p != pubkey@ ==> #[trigger] final(self).spec_status_of(p) == old(
                self,
            ).spec_status_of(p),
    {
        let ghost pre = *self;
        let mut i: usize = 0;
        let n = self.entries.len();
        while i < n
            invariant
                *self == pre,
                pre.wf(),
                n == self.entries@.len(),
                i <= n,
                forall|j: int| 0 <= j < i ==> pre.key_seq()[j] != pubkey@,
            decreases n - i,
        {
            if str_eq(self.entries[i].user_pubkey.as_str(), pubkey) {
                let name = String::from_str(display_name);
                let key = String::from_str(pubkey);
                self.entries.set(i, PresenceInfo { status, user_pubkey: key, display_name: name });
                proof {
                    assert(self.key_seq() =~= pre.key_seq());
                    lemma_index_of_at(pre.key_seq(), i as int);
                    assert(self.spec_status_of(pubkey@) == Some(status));
                    assert forall|p: Seq<char>| p != pubkey@ implies #[trigger] self.spec_status_of(
                        p,
                    ) == pre.spec_status_of(p) by {
                        if has_key(pre.key_seq(), p) {
                            assert(pre.key_seq()[index_of(pre.key_seq(), p)] == p);
                            assert(index_of(pre.key_seq(), p) != i as int);
                        }
                    }
                }
                return ;
            }
            i = i + 1;
        }
        let name = String::from_str(display_name);
        let key = String::from_str(pubkey);
        self.entries.push(PresenceInfo { status, user_pubkey: key, display_name: name });
        proof {
            assert(self.key_seq() =~= pre.key_seq().push(pubkey@));
            lemma_no_key(pre.key_seq(), pubkey@);
            lemma_push_fresh(pre.key_seq(), pubkey@);
            assert(self.spec_status_of(pubkey@) == Some(status));
        }
    }

    /// A copy of every presence record, for the initial snapshot.
    pub fn all(&self) -> (r: Vec<PresenceInfo>)
        ensures
            r@.len() == self.entries@.len(),
            forall|i: int|
                0 <= i < r@.len() ==> {
                    &&& (#[trigger] r@[i]).status == self.entries@[i].status
                    &&& r@[i].user_pubkey@ == self.entries@[i].user_pubkey@
                    &&& r@[i].display_name@ == self.entries@[i].display_name@
                },
    {
        let mut out: Vec<PresenceInfo> = Vec::new();
        let mut i: usize = 0;
        while i < self.entries.len()
            invariant
                i <= self.entries@.len(),
                out@.len() == i,
                forall|j: int|
                    0 <= j < i ==> {
                        &&& (#[trigger] out@[j]).status == self.entries@[j].status
                        &&& out@[j].user_pubkey@ == self.entries@[j].user_pubkey@
                        &&& out@[j].display_name@ == self.entries@[j].display_name@
                    },
            decreases self.entries@.len() - i,
        {
            let e = &self.entries[i];
            out.push(
                PresenceInfo {
                    status: e.status,
                    user_pubkey: e.user_pubkey.clone(),
                    display_name: e.display_name.clone(),
                },
            );
            i = i + 1;
        }
        out
    }
}

/// One user's entry in the connection registry: how many live sockets the
/// user holds.
pub struct ConnEntry {
    pub user_id: String,
    pub sockets: u64,
}

/// Process-wide registry of live connections per user. A user may hold
/// several concurrent sockets; presence goes online with the first and
/// offline with the last.
pub struct ConnectionRegistry {
    pub entries: Vec<ConnEntry>,
}

impl ConnectionRegistry {
    pub open spec fn key_seq(self) -> Seq<Seq<char>> {
        self.entries@.map_values(|e: ConnEntry| e.user_id@)
    }

    pub open spec fn wf(self) -> bool {
        &&& keys_unique(self.key_seq())
        &&& forall|i: int| 0 <= i < self.entries@.len() ==> (#[trigger] self.entries@[i]).sockets > 0
    }

    /// The number of live sockets registered for a user.
    pub open spec fn spec_count_of(self, user: Seq<char>) -> nat {
        if has_key(self.key_seq(), user) {
            self.entries@[index_of(self.key_seq(), user)].sockets as nat
        } else {
            0
        }
    }

    pub fn new() -> (r: ConnectionRegistry)
        ensures
            r.wf(),
            r.entries@.len() == 0,
    {
        ConnectionRegistry { entries: Vec::new() }
    }

    /// Register one more socket for a user. The result says whether the
    /// user just came online: true exactly when this is the first socket.
    #[verifier::loop_isolation(false)]
    pub fn register_connection(&mut self, user: &str) -> (went_online: bool)
        requires
            old(self).wf(),
            old(self).spec_count_of(user@) < u64::MAX,
        ensures
            final(self).wf(),
            went_online <==> old(self).spec_count_of(user@) == 0,
            final(self).spec_count_of(user@) == old(self).spec_count_of(user@) + 1,
            forall|p: Seq<char>| p != user@ ==> #[trigger] final(self).spec_count_of(p) == old(
                self,
            ).spec_count_of(p),
    {
        let ghost pre = *self;
        let mut i: usize = 0;
        let n = self.entries.len();
        while i < n
            invariant
                *self == pre,
                pre.wf(),
                n == self.entries@.len(),
                i <= n,
                forall|j: int| 0 <= j < i ==> pre.key_seq()[j] != user@,
                pre.spec_count_of(user@) < u64::MAX,
            decreases n - i,
        {
            if str_eq(self.entries[i].user_id.as_str(), user) {
                proof {
                    lemma_index_of_at(pre.key_seq(), i as int);
                    assert(pre.spec_count_of(user@) == pre.entries@[i as int].sockets as nat);
                }
                let key = String::from_str(user);
                let c = self.entries[i].sockets;
                self.entries.set(i, ConnEntry { user_id: key, sockets: c + 1 });
                proof {
                    assert(self.key_seq() =~= pre.key_seq());
                    assert(self.spec_count_of(user@) == c + 1);
                    assert forall|p: Seq<char>| p != user@ implies #[trigger] self.spec_count_of(p)
                        == pre.spec_count_of(p) by {
                        if has_key(pre.key_seq(), p) {
                            assert(pre.key_seq()[index_of(pre.key_seq(), p)] == p);
                            assert(index_of(pre.key_seq(), p) != i as int);
                        }
                    }
                }
                return false;
            }
            i = i + 1;
        }
        proof {
            lemma_no_key(pre.key_seq(), user@);
            assert(pre.spec_count_of(user@) == 0);
        }
        let key = String::from_str(user);
        self.entries.push(ConnEntry { user_id: key, sockets: 1 });
        proof {
            assert(self.key_seq() =~= pre.key_seq().push(user@));
            lemma_push_fresh(pre.key_seq(), user@);
            assert(self.spec_count_of(user@) == 1);
        }
        true
    }

    /// Drop one socket for a user. The result says whether the user just
    /// went offline: true exactly when the last socket closed.
    #[verifier::loop_isolation(false)]
    pub fn unregister_connection(&mut self, user: &str) -> (went_offline: bool)
        requires
            old(self).wf(),
        ensures
            final(self).wf(),
            went_offline <==> old(self).spec_count_of(user@) == 1,
            old(self).spec_count_of(user@) > 0 ==> final(self).spec_count_of(user@) == old(
                self,
            ).spec_count_of(user@) - 1,
            old(self).spec_count_of(user@) == 0 ==> final(self).spec_count_of(user@) == 0,
            forall|p: Seq<char>| p != user@ ==> #[trigger] final(self).spec_count_of(p) == old(
                self,
            ).spec_count_of(p),
    {
        let ghost pre = *self;
        let mut i: usize = 0;
        let n = self.entries.len();
        while i < n
            invariant
                *self == pre,
                pre.wf(),
                n == self.entries@.len(),
                i <= n,
                forall|j: int| 0 <= j < i ==> pre.key_seq()[j] != user@,
            decreases n - i,
        {
            if str_eq(self.entries[i].user_id.as_str(), user) {
                proof {
                    lemma_index_of_at(pre.key_seq(), i as int);
                    assert(pre.spec_count_of(user@) == pre.entries@[i as int].sockets as nat);
                }
                let c = self.entries[i].sockets;
                if c == 1 {
                    self.entries.remove(i);
                    proof {
                        assert(self.key_seq() =~= pre.key_seq().remove(i as int));
                        lemma_remove_at(pre.key_seq(), i as int);
                        assert(self.spec_count_of(user@) == 0);
                        assert forall|p: Seq<char>| p != user@ implies #[trigger] self
                            .spec_count_of(p) == pre.spec_count_of(p) by {
                            if has_key(pre.key_seq(), p) {
                                assert(pre.key_seq()[index_of(pre.key_seq(), p)] == p);
                                let m = index_of(pre.key_seq(), p);
                                if m < i as int {
                                    assert(self.entries@[m] == pre.entries@[m]);
                                } else {
                                    assert(m > i as int);
                                    assert(self.entries@[m - 1] == pre.entries@[m]);
                                }
                            }
                        }
                    }
                    return true;
                } else {
                    let key = String::from_str(user);
                    self.entries.set(i, ConnEntry { user_id: key, sockets: c - 1 });
                    proof {
                        assert(self.key_seq() =~= pre.key_seq());
                        assert(self.spec_count_of(user@) == c - 1);
                        assert forall|p: Seq<char>| p != user@ implies #[trigger] self
                            .spec_count_of(p) == pre.spec_count_of(p) by {
                            if has_key(pre.key_seq(), p) {
                                assert(pre.key_seq()[index_of(pre.key_seq(), p)] == p);
                                assert(index_of(pre.key_seq(), p) != i as int);
                            }
                        }
                    }
                    return false;
                }
            }
            i = i + 1;
        }
        proof {
            lemma_no_key(pre.key_seq(), user@);
            assert(pre.spec_count_of(user@) == 0);
        }
        false
    }
}

} // verus!
