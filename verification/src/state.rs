//! The server's relational state: every table of the store, its
//! well-formedness invariant, and the shared lookups. Handlers mutate this
//! state under a single lock; here that discipline appears as ordinary
//! `&mut` access.

use vstd::prelude::*;
use crate::keyidx::{keys_unique, has_key};
use crate::models::{User, IdentityBlobRow, RotationRecordRow, RefreshTokenRow, ServerSetting, Category, Channel, Role, UserRole, Ban, Invite, Message, Reaction, LastRead, DmPublicKey, DmConversation, DmMessage, DmOfflineQueueEntry, BlockRow};
use crate::util::{str_eq, seq_lt};

verus! {

/// Upper bound on timestamps the store accepts, far past any real clock;
/// keeps date arithmetic inside `i64`.
pub const MAX_TIME_MS: i64 = 0x4000_0000_0000;

/// Upper bound on server-assigned sequence numbers; keeps the increment
/// inside `i64`.
pub const MAX_SEQUENCE: i64 = 0x4000_0000_0000_0000;

/// The whole relational state of one server.
pub struct ServerDb {
    pub users: Vec<User>,
    pub identity_blobs: Vec<IdentityBlobRow>,
    pub rotation_records: Vec<RotationRecordRow>,
    pub refresh_tokens: Vec<RefreshTokenRow>,
    pub server_settings: Vec<ServerSetting>,
    pub categories: Vec<Category>,
    pub channels: Vec<Channel>,
    pub roles: Vec<Role>,
    pub user_roles: Vec<UserRole>,
    pub bans: Vec<Ban>,
    pub invites: Vec<Invite>,
    pub messages: Vec<Message>,
    pub reactions: Vec<Reaction>,
    pub last_read: Vec<LastRead>,
    pub dm_public_keys: Vec<DmPublicKey>,
    pub dm_conversations: Vec<DmConversation>,
    pub dm_messages: Vec<DmMessage>,
    pub dm_offline_queue: Vec<DmOfflineQueueEntry>,
    pub blocks: Vec<BlockRow>,
    pub next_message_id: i64,
    pub next_reaction_id: i64,
    pub next_offline_id: i64,
}

/// The rotation chain invariant: for every fingerprint the first record is
/// the genesis, which carries no previous key and no old-key signature;
/// every later record is a rotation carrying both signatures; records of
/// one fingerprint are ordered by creation time.
pub open spec fn first_fp_at(records: Seq<RotationRecordRow>, i: int) -> bool {
    forall|j: int|
        0 <= j < i ==> (#[trigger] records[j]).fingerprint@ != records[i].fingerprint@
}

pub open spec fn chain_wf(records: Seq<RotationRecordRow>) -> bool {
    &&& forall|i: int|
        0 <= i < records.len() ==> ((#[trigger] records[i]).record_type@ == "genesis"@
            || records[i].record_type@ == "rotation"@)
    &&& forall|i: int|
        0 <= i < records.len() ==> (((#[trigger] records[i]).record_type@ == "genesis"@)
            <==> first_fp_at(records, i))
    &&& forall|i: int|
        0 <= i < records.len() && (#[trigger] records[i]).record_type@ == "genesis"@ ==> (
        records[i].prev_key is None && records[i].signature_old is None)
    &&& forall|i: int|
        0 <= i < records.len() && (#[trigger] records[i]).record_type@ == "rotation"@ ==> (
        records[i].prev_key is Some && records[i].signature_old is Some)
    &&& forall|i: int, j: int|
        0 <= i < j < records.len() && (#[trigger] records[i]).fingerprint@
            == (#[trigger] records[j]).fingerprint@ ==> records[i].created_at
            <= records[j].created_at
}

/// Per-channel message sequences strictly increase in row order, and row
/// ids grow with the id counter.
pub open spec fn messages_wf(messages: Seq<Message>, next_id: i64) -> bool {
    &&& forall|i: int, j: int|
        0 <= i < j < messages.len() && (#[trigger] messages[i]).channel_id@
            == (#[trigger] messages[j]).channel_id@ ==> messages[i].server_sequence
            < messages[j].server_sequence
    &&& forall|i: int| 0 <= i < messages.len() ==> (#[trigger] messages[i]).id < next_id
    &&& forall|i: int, j: int|
        0 <= i < j < messages.len() ==> (#[trigger] messages[i]).id < (#[trigger] messages[j]).id
    &&& forall|i: int|
        0 <= i < messages.len() ==> 0 <= (#[trigger] messages[i]).server_sequence <= MAX_SEQUENCE
    &&& 0 <= next_id < i64::MAX
}

/// Per-conversation DM sequences strictly increase in row order.
pub open spec fn dm_messages_wf(messages: Seq<DmMessage>) -> bool {
    &&& forall|i: int, j: int|
        0 <= i < j < messages.len() && (#[trigger] messages[i]).conversation_id@
            == (#[trigger] messages[j]).conversation_id@ ==> messages[i].server_sequence
            < messages[j].server_sequence
    &&& forall|i: int|
        0 <= i < messages.len() ==> 0 <= (#[trigger] messages[i]).server_sequence <= MAX_SEQUENCE
}

/// Conversations keep their participants in strict lexicographic order,
/// and no pair occurs twice.
pub open spec fn dm_conversations_wf(convs: Seq<DmConversation>) -> bool {
    &&& forall|i: int|
        0 <= i < convs.len() ==> seq_lt(
            (#[trigger] convs[i]).participant_a@,
            convs[i].participant_b@,
        )
    &&& forall|i: int, j: int|
        0 <= i < j < convs.len() ==> !((#[trigger] convs[i]).participant_a@
            == (#[trigger] convs[j]).participant_a@ && convs[i].participant_b@
            == convs[j].participant_b@)
    &&& keys_unique(convs.map_values(|c: DmConversation| c.id@))
}

impl ServerDb {
    pub open spec fn user_ids(self) -> Seq<Seq<char>> {
        self.users@.map_values(|u: User| u.id@)
    }

    pub open spec fn user_fps(self) -> Seq<Seq<char>> {
        self.users@.map_values(|u: User| u.fingerprint@)
    }

    pub open spec fn user_names(self) -> Seq<Seq<char>> {
        self.users@.map_values(|u: User| u.display_name@)
    }

    pub open spec fn setting_keys(self) -> Seq<Seq<char>> {
        self.server_settings@.map_values(|s: ServerSetting| s.key@)
    }

    pub open spec fn invite_codes(self) -> Seq<Seq<char>> {
        self.invites@.map_values(|v: Invite| v.code@)
    }

    pub open spec fn ban_fps(self) -> Seq<Seq<char>> {
        self.bans@.map_values(|b: Ban| b.fingerprint@)
    }

    pub open spec fn block_hashes(self) -> Seq<Seq<char>> {
        self.blocks@.map_values(|b: BlockRow| b.hash@)
    }

    pub open spec fn role_ids(self) -> Seq<Seq<char>> {
        self.roles@.map_values(|r: Role| r.id@)
    }

    pub open spec fn channel_ids(self) -> Seq<Seq<char>> {
        self.channels@.map_values(|c: Channel| c.id@)
    }

    pub open spec fn category_ids(self) -> Seq<Seq<char>> {
        self.categories@.map_values(|c: Category| c.id@)
    }

    pub open spec fn dm_key_owners(self) -> Seq<Seq<char>> {
        self.dm_public_keys@.map_values(|k: DmPublicKey| k.ed25519_pubkey@)
    }

    pub open spec fn record_fps(self) -> Seq<Seq<char>> {
        self.rotation_records@.map_values(|r: RotationRecordRow| r.fingerprint@)
    }

    /// Every timestamp in the rotation chain is at or before `now`; new
    /// records may then be appended at `now` without breaking its order.
    pub open spec fn times_ok(self, now: i64) -> bool {
        forall|i: int|
            0 <= i < self.rotation_records@.len() ==> (#[trigger] self.rotation_records@[i]).created_at
                <= now
    }

    /// Well-formedness of the whole store.
    pub open spec fn wf(self) -> bool {
        &&& keys_unique(self.user_ids())
        &&& keys_unique(self.user_fps())
        &&& keys_unique(self.user_names())
        &&& keys_unique(self.setting_keys())
        &&& keys_unique(self.invite_codes())
        &&& keys_unique(self.ban_fps())
        &&& keys_unique(self.block_hashes())
        &&& keys_unique(self.role_ids())
        &&& keys_unique(self.channel_ids())
        &&& keys_unique(self.category_ids())
        &&& keys_unique(self.dm_key_owners())
        &&& keys_unique(self.identity_blobs@.map_values(|b: IdentityBlobRow| b.fingerprint@))
        &&& chain_wf(self.rotation_records@)
        &&& forall|i: int|
            0 <= i < self.rotation_records@.len() ==> has_key(
                self.user_fps(),
                (#[trigger] self.rotation_records@[i]).fingerprint@,
            )
        &&& forall|i: int|
            0 <= i < self.users@.len() ==> has_key(
                self.record_fps(),
                (#[trigger] self.users@[i]).fingerprint@,
            )
        &&& messages_wf(self.messages@, self.next_message_id)
        &&& dm_messages_wf(self.dm_messages@)
        &&& dm_conversations_wf(self.dm_conversations@)
        &&& forall|i: int, j: int|
            0 <= i < j < self.roles@.len() ==> !((#[trigger] self.roles@[i]).is_default
                && (#[trigger] self.roles@[j]).is_default)
        &&& forall|i: int, j: int|
            0 <= i < j < self.reactions@.len() ==> !((#[trigger] self.reactions@[i]).message_id
                == (#[trigger] self.reactions@[j]).message_id && self.reactions@[i].user_pubkey@
                == self.reactions@[j].user_pubkey@ && self.reactions@[i].emoji@
                == self.reactions@[j].emoji@)
    }

    /// Whether a fingerprint has a live ban entry (expiry is checked by the
    /// callers against their clock).
    pub open spec fn spec_has_ban(self, fp: Seq<char>) -> bool {
        has_key(self.ban_fps(), fp)
    }

    /// A fresh, empty store.
    pub fn new() -> (r: ServerDb)
        ensures
            r.wf(),
            r.users@.len() == 0,
            r.rotation_records@.len() == 0,
            r.refresh_tokens@.len() == 0,
            r.invites@.len() == 0,
            r.bans@.len() == 0,
            r.messages@.len() == 0,
            r.channels@.len() == 0,
            r.categories@.len() == 0,
            r.roles@.len() == 0,
            r.server_settings@.len() == 0,
            r.blocks@.len() == 0,
            r.dm_conversations@.len() == 0,
            r.dm_messages@.len() == 0,
            r.dm_public_keys@.len() == 0,
            r.dm_offline_queue@.len() == 0,
            r.identity_blobs@.len() == 0,
            r.user_roles@.len() == 0,
            r.reactions@.len() == 0,
            r.last_read@.len() == 0,
            r.next_message_id == 1,
    {
        ServerDb {
            users: Vec::new(),
            identity_blobs: Vec::new(),
            rotation_records: Vec::new(),
            refresh_tokens: Vec::new(),
            server_settings: Vec::new(),
            categories: Vec::new(),
            channels: Vec::new(),
            roles: Vec::new(),
            user_roles: Vec::new(),
            bans: Vec::new(),
            invites: Vec::new(),
            messages: Vec::new(),
            reactions: Vec::new(),
            last_read: Vec::new(),
            dm_public_keys: Vec::new(),
            dm_conversations: Vec::new(),
            dm_messages: Vec::new(),
            dm_offline_queue: Vec::new(),
            blocks: Vec::new(),
            next_message_id: 1,
            next_reaction_id: 1,
            next_offline_id: 1,
        }
    }

    /// Index of the user with this id.
    pub fn user_idx_by_id(&self, id: &str) -> (r: Option<usize>)
        ensures
            match r {
                Some(i) => i < self.users@.len() && self.users@[i as int].id@ == id@,
                None => !has_key(self.user_ids(), id@),
            },
    {
        let mut i: usize = 0;
        while i < self.users.len()
            invariant
                i <= self.users@.len(),
                forall|j: int| 0 <= j < i ==> self.user_ids()[j] != id@,
            decreases self.users@.len() - i,
        {
            if str_eq(self.users[i].id.as_str(), id) {
                return Some(i);
            }
            i = i + 1;
        }
        proof {
            crate::keyidx::lemma_no_key(self.user_ids(), id@);
        }
        None
    }

    /// Index of the user with this fingerprint.
    pub fn user_idx_by_fp(&self, fp: &str) -> (r: Option<usize>)
        ensures
            match r {
                Some(i) => i < self.users@.len() && self.users@[i as int].fingerprint@ == fp@,
                None => !has_key(self.user_fps(), fp@),
            },
    {
        let mut i: usize = 0;
        while i < self.users.len()
            invariant
                i <= self.users@.len(),
                forall|j: int| 0 <= j < i ==> self.user_fps()[j] != fp@,
            decreases self.users@.len() - i,
        {
            if str_eq(self.users[i].fingerprint.as_str(), fp) {
                return Some(i);
            }
            i = i + 1;
        }
        proof {
            crate::keyidx::lemma_no_key(self.user_fps(), fp@);
        }
        None
    }

    /// Index of the user with this display name.
    pub fn user_idx_by_name(&self, name: &str) -> (r: Option<usize>)
        ensures
            match r {
                Some(i) => i < self.users@.len() && self.users@[i as int].display_name@ == name@,
                None => !has_key(self.user_names(), name@),
            },
    {
        let mut i: usize = 0;
        while i < self.users.len()
            invariant
                i <= self.users@.len(),
                forall|j: int| 0 <= j < i ==> self.user_names()[j] != name@,
            decreases self.users@.len() - i,
        {
            if str_eq(self.users[i].display_name.as_str(), name) {
                return Some(i);
            }
            i = i + 1;
        }
        proof {
            crate::keyidx::lemma_no_key(self.user_names(), name@);
        }
        None
    }

    /// Index of the channel with this id.
    pub fn channel_idx_by_id(&self, id: &str) -> (r: Option<usize>)
        ensures
            match r {
                Some(i) => i < self.channels@.len() && self.channels@[i as int].id@ == id@,
                None => !has_key(self.channel_ids(), id@),
            },
    {
        let mut i: usize = 0;
        while i < self.channels.len()
            invariant
                i <= self.channels@.len(),
                forall|j: int| 0 <= j < i ==> self.channel_ids()[j] != id@,
            decreases self.channels@.len() - i,
        {
            if str_eq(self.channels[i].id.as_str(), id) {
                return Some(i);
            }
            i = i + 1;
        }
        proof {
            crate::keyidx::lemma_no_key(self.channel_ids(), id@);
        }
        None
    }

    /// The value stored under a settings key, if any.
    pub open spec fn spec_setting(self, key: Seq<char>) -> Option<Seq<char>> {
        if has_key(self.setting_keys(), key) {
            Some(
                self.server_settings@[crate::keyidx::index_of(self.setting_keys(), key)].value@,
            )
        } else {
            None
        }
    }

    /// Value of a server setting.
    pub fn get_setting(&self, key: &str) -> (r: Option<String>)
        requires
            self.wf(),
        ensures
            match r {
                Some(v) => self.spec_setting(key@) == Some(v@),
                None => self.spec_setting(key@) is None,
            },
    {
        let mut i: usize = 0;
        #[verifier::loop_isolation(false)]
        while i < self.server_settings.len()
            invariant
                i <= self.server_settings@.len(),
                forall|j: int| 0 <= j < i ==> self.setting_keys()[j] != key@,
            decreases self.server_settings@.len() - i,
        {
            if str_eq(self.server_settings[i].key.as_str(), key) {
                proof {
                    crate::keyidx::lemma_index_of_at(self.setting_keys(), i as int);
                }
                return Some(self.server_settings[i].value.clone());
            }
            i = i + 1;
        }
        proof {
            crate::keyidx::lemma_no_key(self.setting_keys(), key@);
        }
        None
    }

    /// Insert or replace a server setting.
    pub fn set_setting(&mut self, key: &str, value: &str)
        requires
            old(self).wf(),
        ensures
            final(self).wf(),
            final(self).spec_setting(key@) == Some(value@),
            forall|p: Seq<char>|
                p != key@ ==> #[trigger] final(self).spec_setting(p) == old(self).spec_setting(p),
            final(self).users@ == old(self).users@,
            final(self).rotation_records@ == old(self).rotation_records@,
            final(self).refresh_tokens@ == old(self).refresh_tokens@,
            final(self).bans@ == old(self).bans@,
            final(self).invites@ == old(self).invites@,
            final(self).messages@ == old(self).messages@,
            final(self).channels@ == old(self).channels@,
            final(self).categories@ == old(self).categories@,
            final(self).roles@ == old(self).roles@,
            final(self).blocks@ == old(self).blocks@,
            final(self).user_roles@ == old(self).user_roles@,
            final(self).identity_blobs@ == old(self).identity_blobs@,
            final(self).reactions@ == old(self).reactions@,
            final(self).last_read@ == old(self).last_read@,
            final(self).dm_public_keys@ == old(self).dm_public_keys@,
            final(self).dm_conversations@ == old(self).dm_conversations@,
            final(self).dm_messages@ == old(self).dm_messages@,
            final(self).dm_offline_queue@ == old(self).dm_offline_queue@,
            final(self).next_message_id == old(self).next_message_id,
    {
        let ghost pre = *self;
        let mut i: usize = 0;
        let n = self.server_settings.len();
        #[verifier::loop_isolation(false)]
        while i < n
            invariant
                *self == pre,
                n == self.server_settings@.len(),
                i <= n,
                forall|j: int| 0 <= j < i ==> pre.setting_keys()[j] != key@,
            decreases n - i,
        {
            if str_eq(self.server_settings[i].key.as_str(), key) {
                let k = String::from_str(key);
                let v = String::from_str(value);
                self.server_settings.set(i, ServerSetting { key: k, value: v });
                proof {
                    assert(self.setting_keys() =~= pre.setting_keys());
                    crate::keyidx::lemma_index_of_at(pre.setting_keys(), i as int);
                    assert(self.spec_setting(key@) == Some(value@));
                    assert forall|p: Seq<char>| p != key@ implies #[trigger] self.spec_setting(p)
                        == pre.spec_setting(p) by {
                        if has_key(pre.setting_keys(), p) {
                            assert(pre.setting_keys()[crate::keyidx::index_of(
                                pre.setting_keys(),
                                p,
                            )] == p);
                            assert(crate::keyidx::index_of(pre.setting_keys(), p) != i as int);
                        }
                    }
                }
                return ;
            }
            i = i + 1;
        }
        let k = String::from_str(key);
        let v = String::from_str(value);
        self.server_settings.push(ServerSetting { key: k, value: v });
        proof {
            assert(self.setting_keys() =~= pre.setting_keys().push(key@));
            crate::keyidx::lemma_no_key(pre.setting_keys(), key@);
            crate::keyidx::lemma_push_fresh(pre.setting_keys(), key@);
            assert(self.spec_setting(key@) == Some(value@));
        }
    }

    /// Remove a server setting if present.
    pub fn delete_setting(&mut self, key: &str)
        requires
            old(self).wf(),
        ensures
            final(self).wf(),
            final(self).spec_setting(key@) is None,
            forall|p: Seq<char>|
                p != key@ ==> #[trigger] final(self).spec_setting(p) == old(self).spec_setting(p),
            final(self).users@ == old(self).users@,
            final(self).rotation_records@ == old(self).rotation_records@,
            final(self).refresh_tokens@ == old(self).refresh_tokens@,
            final(self).invites@ == old(self).invites@,
            final(self).bans@ == old(self).bans@,
            final(self).messages@ == old(self).messages@,
            final(self).channels@ == old(self).channels@,
            final(self).categories@ == old(self).categories@,
            final(self).roles@ == old(self).roles@,
            final(self).user_roles@ == old(self).user_roles@,
            final(self).identity_blobs@ == old(self).identity_blobs@,
            final(self).reactions@ == old(self).reactions@,
            final(self).last_read@ == old(self).last_read@,
            final(self).dm_public_keys@ == old(self).dm_public_keys@,
            final(self).dm_conversations@ == old(self).dm_conversations@,
            final(self).dm_messages@ == old(self).dm_messages@,
            final(self).dm_offline_queue@ == old(self).dm_offline_queue@,
            final(self).blocks@ == old(self).blocks@,
            final(self).next_message_id == old(self).next_message_id,
    {
        let ghost pre = *self;
        let mut i: usize = 0;
        let n = self.server_settings.len();
        #[verifier::loop_isolation(false)]
        while i < n
            invariant
                *self == pre,
                n == self.server_settings@.len(),
                i <= n,
                forall|j: int| 0 <= j < i ==> pre.setting_keys()[j] != key@,
            decreases n - i,
        {
            if str_eq(self.server_settings[i].key.as_str(), key) {
                self.server_settings.remove(i);
                proof {
                    assert(self.setting_keys() =~= pre.setting_keys().remove(i as int));
                    crate::keyidx::lemma_remove_at(pre.setting_keys(), i as int);
                    assert forall|m: int|
                        0 <= m < self.setting_keys().len() implies #[trigger] self.setting_keys()[m]
                        != key@ by {
                        assert(self.setting_keys()[m] == pre.setting_keys().remove(i as int)[m]);
                    }
                    crate::keyidx::lemma_no_key(self.setting_keys(), key@);
                    assert forall|p: Seq<char>| p != key@ implies #[trigger] self.spec_setting(p)
                        == pre.spec_setting(p) by {
                        if has_key(pre.setting_keys(), p) {
                            assert(pre.setting_keys()[crate::keyidx::index_of(
                                pre.setting_keys(),
                                p,
                            )] == p);
                            let m = crate::keyidx::index_of(pre.setting_keys(), p);
                            if m < i as int {
                                assert(self.server_settings@[m] == pre.server_settings@[m]);
                            } else {
                                assert(m > i as int);
                                assert(self.server_settings@[m - 1] == pre.server_settings@[m]);
                            }
                        }
                    }
                }
                return ;
            }
            i = i + 1;
        }
        proof {
            crate::keyidx::lemma_no_key(pre.setting_keys(), key@);
        }
    }
}

} // verus!
