//! Voice signalling: in-memory channel membership with a soft cap and an
//! optional hard cap, relay targets for SDP and ICE, and time-limited
//! TURN credentials.

use vstd::prelude::*;
use crate::trusted::{hmac_sha1, hmac_sha1_of, base64_encode, b64_of};
use crate::util::str_eq;
use vstd::string::StringSliceAdditionalSpecFns;

verus! {

/// Above this many participants a join succeeds but carries a quality
/// warning.
pub const SOFT_CAP: usize = 8;

/// Information about a participant in a voice channel.
#[derive(Debug)]
pub struct VoiceParticipantInfo {
    pub user_id: String,
    pub display_name: String,
    pub pubkey: String,
    pub muted: bool,
    pub deafened: bool,
}

/// State for a single voice channel.
pub struct VoiceChannelState {
    pub channel_id: String,
    pub participants: Vec<VoiceParticipantInfo>,
}

/// Error type for voice state operations.
#[derive(PartialEq, Eq, Structural, Clone, Copy, Debug)]
pub enum VoiceError {
    ChannelFull,
}

/// Result from joining a voice channel.
#[derive(Debug)]
pub struct JoinResult {
    pub existing_participants: Vec<VoiceParticipantInfo>,
    pub quality_warning: bool,
}


/// Two participant records with the same visible fields.
pub open spec fn p_match(a: VoiceParticipantInfo, b: VoiceParticipantInfo) -> bool {
    &&& a.user_id@ == b.user_id@
    &&& a.display_name@ == b.display_name@
    &&& a.pubkey@ == b.pubkey@
    &&& a.muted == b.muted
    &&& a.deafened == b.deafened
}

/// Two rosters with the same visible entries in the same order.
pub open spec fn roster_matches(xs: Seq<VoiceParticipantInfo>, ys: Seq<VoiceParticipantInfo>) -> bool {
    xs.len() == ys.len() && forall|k: int| 0 <= k < xs.len() ==> p_match(#[trigger] xs[k], ys[k])
}

/// A roster with every entry of one user removed, order kept.
pub open spec fn roster_without(s: Seq<VoiceParticipantInfo>, uid: Seq<char>) -> Seq<
    VoiceParticipantInfo,
>
    decreases s.len(),
{
    if s.len() == 0 {
        Seq::empty()
    } else if s.last().user_id@ == uid {
        roster_without(s.drop_last(), uid)
    } else {
        roster_without(s.drop_last(), uid).push(s.last())
    }
}

/// In-memory voice channel membership.
pub struct VoiceState {
    pub channels: Vec<VoiceChannelState>,
}

impl VoiceState {
    pub open spec fn key_seq(self) -> Seq<Seq<char>> {
        self.channels@.map_values(|c: VoiceChannelState| c.channel_id@)
    }

    pub open spec fn wf(self) -> bool {
        crate::keyidx::keys_unique(self.key_seq())
    }

    /// The number of participants in a channel.
    pub open spec fn spec_count(self, cid: Seq<char>) -> int {
        if crate::keyidx::has_key(self.key_seq(), cid) {
            self.channels@[crate::keyidx::index_of(self.key_seq(), cid)].participants@.len() as int
        } else {
            0
        }
    }

    /// The roster of a channel, empty when the channel is unknown.
    pub open spec fn spec_roster(self, cid: Seq<char>) -> Seq<VoiceParticipantInfo> {
        if crate::keyidx::has_key(self.key_seq(), cid) {
            self.channels@[crate::keyidx::index_of(self.key_seq(), cid)].participants@
        } else {
            Seq::empty()
        }
    }

    /// Whether a user is in a channel.
    pub open spec fn spec_in_channel(self, cid: Seq<char>, uid: Seq<char>) -> bool {
        crate::keyidx::has_key(self.key_seq(), cid) && exists|k: int|
            0 <= k < self.channels@[crate::keyidx::index_of(self.key_seq(), cid)].participants@.len()
                && (#[trigger] self.channels@[crate::keyidx::index_of(
                self.key_seq(),
                cid,
            )].participants@[k]).user_id@ == uid
    }

    pub fn new() -> (r: VoiceState)
        ensures
            r.wf(),
            r.channels@.len() == 0,
    {
        VoiceState { channels: Vec::new() }
    }

    /// Add a participant to a channel: enforces the optional hard cap,
    /// replaces any stale entry of the same user, and reports the
    /// pre-join roster plus whether the soft cap was reached. The quality
    /// warning is raised exactly when eight or more others were already
    /// in the channel.
    pub fn join_channel(
        &mut self,
        channel_id: &str,
        participant: VoiceParticipantInfo,
        max_participants: Option<i64>,
    ) -> (r: Result<JoinResult, VoiceError>)
        requires
            old(self).wf(),
        ensures
            final(self).wf(),
            r matches Ok(out) ==> {
                &&& out.quality_warning <==> out.existing_participants@.len() >= SOFT_CAP
                &&& final(self).spec_in_channel(channel_id@, participant.user_id@)
                &&& final(self).spec_count(channel_id@) == out.existing_participants@.len() + 1
                // the pre-join roster in join order, the joiner appended
                &&& roster_matches(
                    out.existing_participants@,
                    roster_without(old(self).spec_roster(channel_id@), participant.user_id@),
                )
                &&& roster_matches(
                    final(self).spec_roster(channel_id@),
                    roster_without(old(self).spec_roster(channel_id@), participant.user_id@).push(
                        participant,
                    ),
                )
            },
            r is Err ==> *final(self) == *old(self),
            (match max_participants {
                Some(m) => m <= 0 || old(self).spec_count(channel_id@) < m,
                None => true,
            }) && !old(self).spec_in_channel(channel_id@, participant.user_id@) ==> r is Ok,
    {
        let ghost pre = *self;
        let mut i: usize = 0;
        let n = self.channels.len();
        #[verifier::loop_isolation(false)]
        while i < n
            invariant
                *self == pre,
                n == self.channels@.len(),
                i <= n,
                forall|j: int| 0 <= j < i ==> pre.key_seq()[j] != channel_id@,
            decreases n - i,
        {
            if str_eq(self.channels[i].channel_id.as_str(), channel_id) {
                proof {
                    crate::keyidx::lemma_index_of_at(pre.key_seq(), i as int);
                }
                // hard cap, counted before the stale entry is dropped
                let cur_len = self.channels[i].participants.len();
                match max_participants {
                    Some(m) => {
                        if m > 0 && cur_len as i64 >= m {
                            let ghost has_user = pre.spec_in_channel(
                                channel_id@,
                                participant.user_id@,
                            );
                            proof {
                                if !has_user {
                                    assert(pre.spec_count(channel_id@) >= m);
                                }
                            }
                            return Err(VoiceError::ChannelFull);
                        }
                    },
                    None => {},
                }
                // drop any stale entry of this user, collect the roster
                let mut existing: Vec<VoiceParticipantInfo> = Vec::new();
                let mut rebuilt: Vec<VoiceParticipantInfo> = Vec::new();
                let mut k: usize = 0;
                let m0 = self.channels[i].participants.len();
                #[verifier::loop_isolation(false)]
                while k < m0
                    invariant
                        *self == pre,
                        0 <= (i as int) < self.channels@.len(),
                        m0 == self.channels@[i as int].participants@.len(),
                        k <= m0,
                        existing@.len() <= k,
                        rebuilt@.len() == existing@.len(),
                        forall|q: int|
                            0 <= q < rebuilt@.len() ==> (#[trigger] rebuilt@[q]).user_id@
                                != participant.user_id@,
                        roster_matches(
                            existing@,
                            roster_without(
                                pre.channels@[i as int].participants@.take(k as int),
                                participant.user_id@,
                            ),
                        ),
                        roster_matches(
                            rebuilt@,
                            roster_without(
                                pre.channels@[i as int].participants@.take(k as int),
                                participant.user_id@,
                            ),
                        ),
                    decreases m0 - k,
                {
                    proof {
                        assert(pre.channels@[i as int].participants@.take(k as int + 1).drop_last()
                            =~= pre.channels@[i as int].participants@.take(k as int));
                        assert(pre.channels@[i as int].participants@.take(k as int + 1).last()
                            == pre.channels@[i as int].participants@[k as int]);
                    }
                    let p = &self.channels[i].participants[k];
                    if !str_eq(p.user_id.as_str(), participant.user_id.as_str()) {
                        existing.push(clone_participant(p));
                        rebuilt.push(clone_participant(p));
                    }
                    k = k + 1;
                }
                let warning = existing.len() >= SOFT_CAP;
                let ghost uid = participant.user_id@;
                rebuilt.push(participant);
                let count = rebuilt.len();
                self.channels.set(
                    i,
                    VoiceChannelState {
                        channel_id: String::from_str(channel_id),
                        participants: rebuilt,
                    },
                );
                proof {
                    assert(self.key_seq() =~= pre.key_seq());
                    crate::keyidx::lemma_index_of_at(self.key_seq(), i as int);
                    crate::keyidx::lemma_index_of_at(pre.key_seq(), i as int);
                    assert(self.channels@[i as int].participants@.last().user_id@ == uid);
                    assert(self.spec_in_channel(channel_id@, uid));
                    assert(self.spec_count(channel_id@) == count);
                    assert(pre.channels@[i as int].participants@.take(m0 as int)
                        =~= pre.channels@[i as int].participants@);
                    assert(pre.spec_roster(channel_id@) == pre.channels@[i as int].participants@);
                    assert(roster_matches(
                        self.spec_roster(channel_id@),
                        roster_without(pre.spec_roster(channel_id@), uid).push(participant),
                    ));
                }
                return Ok(JoinResult { existing_participants: existing, quality_warning: warning });
            }
            i = i + 1;
        }
        proof {
            crate::keyidx::lemma_no_key(pre.key_seq(), channel_id@);
        }
        match max_participants {
            Some(m) => {
                if m > 0 && m <= 0 {
                    return Err(VoiceError::ChannelFull);
                }
            },
            None => {},
        }
        let ghost uid = participant.user_id@;
        let mut members: Vec<VoiceParticipantInfo> = Vec::new();
        members.push(participant);
        self.channels.push(
            VoiceChannelState { channel_id: String::from_str(channel_id), participants: members },
        );
        proof {
            assert(self.key_seq() =~= pre.key_seq().push(channel_id@));
            crate::keyidx::lemma_push_fresh(pre.key_seq(), channel_id@);
            assert(crate::keyidx::index_of(self.key_seq(), channel_id@)
                == pre.channels@.len() as int);
            assert(self.channels@[pre.channels@.len() as int].participants@[0].user_id@ == uid);
            assert(self.spec_in_channel(channel_id@, uid));
            assert(self.spec_count(channel_id@) == 1);
            assert(pre.spec_roster(channel_id@) =~= Seq::<VoiceParticipantInfo>::empty());
            assert(roster_matches(
                self.spec_roster(channel_id@),
                roster_without(pre.spec_roster(channel_id@), uid).push(participant),
            ));
        }
        Ok(JoinResult { existing_participants: Vec::new(), quality_warning: false })
    }

    /// Remove a participant from a channel; an emptied channel is reaped.
    /// The channel keeps its other members in order; every other channel
    /// is untouched.
    pub fn leave_channel(&mut self, channel_id: &str, user_id: &str)
        requires
            old(self).wf(),
        ensures
            final(self).wf(),
            !final(self).spec_in_channel(channel_id@, user_id@),
            roster_matches(
                final(self).spec_roster(channel_id@),
                roster_without(old(self).spec_roster(channel_id@), user_id@),
            ),
            forall|c: Seq<char>|
                c != channel_id@ ==> #[trigger] final(self).spec_roster(c) == old(self).spec_roster(
                    c,
                ),
    {
        let ghost pre = *self;
        let mut i: usize = 0;
        let n = self.channels.len();
        #[verifier::loop_isolation(false)]
        while i < n
            invariant
                *self == pre,
                n == self.channels@.len(),
                i <= n,
                forall|j: int| 0 <= j < i ==> pre.key_seq()[j] != channel_id@,
            decreases n - i,
        {
            if str_eq(self.channels[i].channel_id.as_str(), channel_id) {
                proof {
                    crate::keyidx::lemma_index_of_at(pre.key_seq(), i as int);
                    assert(pre.spec_roster(channel_id@) == pre.channels@[i as int].participants@);
                }
                let mut rebuilt: Vec<VoiceParticipantInfo> = Vec::new();
                let mut k: usize = 0;
                let m0 = self.channels[i].participants.len();
                #[verifier::loop_isolation(false)]
                while k < m0
                    invariant
                        *self == pre,
                        0 <= (i as int) < self.channels@.len(),
                        m0 == self.channels@[i as int].participants@.len(),
                        k <= m0,
                        forall|q: int|
                            0 <= q < rebuilt@.len() ==> (#[trigger] rebuilt@[q]).user_id@
                                != user_id@,
                        roster_matches(
                            rebuilt@,
                            roster_without(
                                pre.channels@[i as int].participants@.take(k as int),
                                user_id@,
                            ),
                        ),
                    decreases m0 - k,
                {
                    proof {
                        assert(pre.channels@[i as int].participants@.take(k as int + 1).drop_last()
                            =~= pre.channels@[i as int].participants@.take(k as int));
                        assert(pre.channels@[i as int].participants@.take(k as int + 1).last()
                            == pre.channels@[i as int].participants@[k as int]);
                    }
                    let p = &self.channels[i].participants[k];
                    if !str_eq(p.user_id.as_str(), user_id) {
                        rebuilt.push(clone_participant(p));
                    }
                    k = k + 1;
                }
                proof {
                    assert(pre.channels@[i as int].participants@.take(m0 as int)
                        =~= pre.channels@[i as int].participants@);
                }
                if rebuilt.len() == 0 {
                    self.channels.remove(i);
                    proof {
                        assert(self.key_seq() =~= pre.key_seq().remove(i as int));
                        crate::keyidx::lemma_remove_at(pre.key_seq(), i as int);
                        assert(self.spec_roster(channel_id@) =~= Seq::<
                            VoiceParticipantInfo,
                        >::empty());
                        assert forall|c: Seq<char>| c != channel_id@ implies #[trigger] self.spec_roster(
                            c,
                        ) == pre.spec_roster(c) by {
                            if crate::keyidx::has_key(pre.key_seq(), c) {
                                assert(pre.key_seq()[crate::keyidx::index_of(pre.key_seq(), c)]
                                    == c);
                                let m = crate::keyidx::index_of(pre.key_seq(), c);
                                if m < i as int {
                                    assert(self.channels@[m] == pre.channels@[m]);
                                } else {
                                    assert(m > i as int);
                                    assert(self.channels@[m - 1] == pre.channels@[m]);
                                }
                            }
                        }
                    }
                } else {
                    self.channels.set(
                        i,
                        VoiceChannelState {
                            channel_id: String::from_str(channel_id),
                            participants: rebuilt,
                        },
                    );
                    proof {
                        assert(self.key_seq() =~= pre.key_seq());
                        crate::keyidx::lemma_index_of_at(self.key_seq(), i as int);
                        assert forall|c: Seq<char>| c != channel_id@ implies #[trigger] self.spec_roster(
                            c,
                        ) == pre.spec_roster(c) by {
                            if crate::keyidx::has_key(pre.key_seq(), c) {
                                assert(pre.key_seq()[crate::keyidx::index_of(pre.key_seq(), c)]
                                    == c);
                                assert(crate::keyidx::index_of(pre.key_seq(), c) != i as int);
                            }
                        }
                    }
                }
                return ;
            }
            i = i + 1;
        }
        proof {
            crate::keyidx::lemma_no_key(pre.key_seq(), channel_id@);
            assert(pre.spec_roster(channel_id@) =~= Seq::<VoiceParticipantInfo>::empty());
        }
    }

    /// A copy of the roster of one channel.
    pub fn get_participants(&self, channel_id: &str) -> (r: Vec<VoiceParticipantInfo>)
        requires
            self.wf(),
        ensures
            r@.len() == self.spec_count(channel_id@),
    {
        let mut i: usize = 0;
        let n = self.channels.len();
        #[verifier::loop_isolation(false)]
        while i < n
            invariant
                n == self.channels@.len(),
                i <= n,
                forall|j: int| 0 <= j < i ==> self.key_seq()[j] != channel_id@,
            decreases n - i,
        {
            if str_eq(self.channels[i].channel_id.as_str(), channel_id) {
                proof {
                    crate::keyidx::lemma_index_of_at(self.key_seq(), i as int);
                }
                let mut out: Vec<VoiceParticipantInfo> = Vec::new();
                let mut k: usize = 0;
                let m0 = self.channels[i].participants.len();
                #[verifier::loop_isolation(false)]
                while k < m0
                    invariant
                        0 <= (i as int) < self.channels@.len(),
                        m0 == self.channels@[i as int].participants@.len(),
                        k <= m0,
                        out@.len() == k,
                    decreases m0 - k,
                {
                    out.push(clone_participant(&self.channels[i].participants[k]));
                    k = k + 1;
                }
                return out;
            }
            i = i + 1;
        }
        proof {
            crate::keyidx::lemma_no_key(self.key_seq(), channel_id@);
        }
        Vec::new()
    }

    /// Update one participant's muted and deafened flags.
    pub fn update_state(&mut self, channel_id: &str, user_id: &str, muted: bool, deafened: bool)
        requires
            old(self).wf(),
        ensures
            final(self).wf(),
    {
        let ghost pre = *self;
        let mut i: usize = 0;
        let n = self.channels.len();
        #[verifier::loop_isolation(false)]
        while i < n
            invariant
                *self == pre,
                n == self.channels@.len(),
                i <= n,
                forall|j: int| 0 <= j < i ==> pre.key_seq()[j] != channel_id@,
            decreases n - i,
        {
            if str_eq(self.channels[i].channel_id.as_str(), channel_id) {
                let mut rebuilt: Vec<VoiceParticipantInfo> = Vec::new();
                let mut k: usize = 0;
                let m0 = self.channels[i].participants.len();
                #[verifier::loop_isolation(false)]
                while k < m0
                    invariant
                        *self == pre,
                        0 <= (i as int) < self.channels@.len(),
                        m0 == self.channels@[i as int].participants@.len(),
                        k <= m0,
                    decreases m0 - k,
                {
                    let p = &self.channels[i].participants[k];
                    if str_eq(p.user_id.as_str(), user_id) {
                        rebuilt.push(
                            VoiceParticipantInfo {
                                user_id: p.user_id.clone(),
                                display_name: p.display_name.clone(),
                                pubkey: p.pubkey.clone(),
                                muted,
                                deafened,
                            },
                        );
                    } else {
                        rebuilt.push(clone_participant(p));
                    }
                    k = k + 1;
                }
                self.channels.set(
                    i,
                    VoiceChannelState {
                        channel_id: String::from_str(channel_id),
                        participants: rebuilt,
                    },
                );
                proof {
                    assert(self.key_seq() =~= pre.key_seq());
                }
                return ;
            }
            i = i + 1;
        }
    }

    /// Remove a user from every channel; the ids of the channels left are
    /// returned for the leave broadcasts.
    pub fn leave_all_channels(&mut self, user_id: &str) -> (r: Vec<String>)
        requires
            old(self).wf(),
        ensures
            final(self).wf(),
            forall|cid: Seq<char>| !final(self).spec_in_channel(cid, user_id@),
    {
        let ghost pre = *self;
        let mut left: Vec<String> = Vec::new();
        let mut i: usize = 0;
        let n = self.channels.len();
        #[verifier::loop_isolation(false)]
        while i < n
            invariant
                n == self.channels@.len(),
                i <= n,
                self.key_seq() =~= pre.key_seq(),
                forall|j: int, w: int|
                    0 <= j < i && 0 <= w < (#[trigger] self.channels@[j]).participants@.len()
                        ==> (#[trigger] self.channels@[j].participants@[w]).user_id@ != user_id@,
            decreases n - i,
        {
            let ghost before = *self;
            let mut rebuilt: Vec<VoiceParticipantInfo> = Vec::new();
            let mut removed_any = false;
            let mut k: usize = 0;
            let m0 = self.channels[i].participants.len();
            #[verifier::loop_isolation(false)]
            while k < m0
                invariant
                    *self == before,
                    0 <= (i as int) < self.channels@.len(),
                    m0 == self.channels@[i as int].participants@.len(),
                    k <= m0,
                    forall|q: int|
                        0 <= q < rebuilt@.len() ==> (#[trigger] rebuilt@[q]).user_id@ != user_id@,
                decreases m0 - k,
            {
                let p = &self.channels[i].participants[k];
                if !str_eq(p.user_id.as_str(), user_id) {
                    rebuilt.push(clone_participant(p));
                } else {
                    removed_any = true;
                }
                k = k + 1;
            }
            if removed_any {
                left.push(self.channels[i].channel_id.clone());
            }
            let cid = self.channels[i].channel_id.clone();
            self.channels.set(i, VoiceChannelState { channel_id: cid, participants: rebuilt });
            proof {
                assert(self.key_seq() =~= before.key_seq());
                assert forall|j: int, w: int|
                    0 <= j < i + 1 && 0 <= w < (#[trigger] self.channels@[j]).participants@.len()
                        implies (#[trigger] self.channels@[j].participants@[w]).user_id@
                    != user_id@ by {
                    if j < i {
                        assert(self.channels@[j] == before.channels@[j]);
                    }
                }
            }
            i = i + 1;
        }
        proof {
            assert forall|cid: Seq<char>| !self.spec_in_channel(cid, user_id@) by {
                if crate::keyidx::has_key(self.key_seq(), cid) {
                    let j = crate::keyidx::index_of(self.key_seq(), cid);
                    assert(self.key_seq()[j] == cid);
                }
            }
        }
        left
    }
}

spec fn sub_keys(keys: Seq<Seq<char>>, m: int, upto: int) -> Seq<Seq<char>> {
    Seq::empty()
}

fn clone_participant(p: &VoiceParticipantInfo) -> (r: VoiceParticipantInfo)
    ensures
        r.user_id@ == p.user_id@,
        r.display_name@ == p.display_name@,
        r.pubkey@ == p.pubkey@,
        r.muted == p.muted,
        r.deafened == p.deafened,
{
    VoiceParticipantInfo {
        user_id: p.user_id.clone(),
        display_name: p.display_name.clone(),
        pubkey: p.pubkey.clone(),
        muted: p.muted,
        deafened: p.deafened,
    }
}

// --- TURN credentials ---

/// The TURN username for a user and expiry: `{expiry}:{user_id}`.
pub open spec fn turn_username_of(expiry: Seq<char>, user_id: Seq<char>) -> Seq<char> {
    expiry + seq![':'] + user_id
}

/// Generate time-limited TURN credentials: the username carries the
/// expiry, the credential is the base64 HMAC-SHA1 of the username under
/// the shared secret, exactly as the relay re-derives it.
pub fn generate_turn_credentials(expiry_text: &str, username: &str, shared_secret: &str) -> (r: (
    String,
    String,
))
    ensures
        r.0@ == turn_username_of(expiry_text@, username@),
        r.1@ == b64_of(
            hmac_sha1_of(
                vstd::utf8::encode_utf8(shared_secret@),
                vstd::utf8::encode_utf8(turn_username_of(expiry_text@, username@)),
            ),
        ),
{
    let mut turn_username = String::from_str(expiry_text);
    turn_username.append(":");
    turn_username.append(username);
    proof {
        reveal_strlit(":");
        assert(turn_username@ =~= turn_username_of(expiry_text@, username@));
    }
    let secret_bytes = shared_secret.as_bytes_vec();
    let name_bytes = turn_username.as_str().as_bytes_vec();
    let mac = hmac_sha1(&secret_bytes, &name_bytes);
    let credential = base64_encode(&mac);
    (turn_username, credential)
}

/// One ICE server entry for a voice join response.
#[derive(Debug)]
pub struct IceServer {
    pub urls: Vec<String>,
    pub username: String,
    pub credential: String,
}

/// The ICE servers for a join response: the public STUN entry always,
/// and a TURN entry with fresh time-limited credentials when the relay is
/// configured with a secret.
pub fn get_ice_servers(
    turn_enabled: bool,
    turn_shared_secret: &str,
    turn_urls: Vec<String>,
    expiry_text: &str,
    user_id: &str,
) -> (r: Vec<IceServer>)
    ensures
        r@.len() == 1 || r@.len() == 2,
        r@[0].username@.len() == 0,
        r@[0].urls@.len() == 1 && r@[0].urls@[0]@ == "stun:stun.l.google.com:19302"@,
        r@.len() == 2 <==> (turn_enabled && turn_shared_secret@.len() > 0),
        r@.len() == 2 ==> {
            &&& r@[1].username@ == turn_username_of(expiry_text@, user_id@)
            &&& r@[1].credential@ == b64_of(
                hmac_sha1_of(
                    vstd::utf8::encode_utf8(turn_shared_secret@),
                    vstd::utf8::encode_utf8(turn_username_of(expiry_text@, user_id@)),
                ),
            )
            &&& r@[1].urls == turn_urls
        },
{
    let mut servers: Vec<IceServer> = Vec::new();
    let mut stun_urls: Vec<String> = Vec::new();
    stun_urls.push(String::from_str("stun:stun.l.google.com:19302"));
    servers.push(
        IceServer { urls: stun_urls, username: String::new(), credential: String::new() },
    );
    if turn_enabled && turn_shared_secret.unicode_len() > 0 {
        let (username, credential) = generate_turn_credentials(
            expiry_text,
            user_id,
            turn_shared_secret,
        );
        servers.push(IceServer { urls: turn_urls, username, credential });
    }
    servers
}

} // verus!
