//! Moderation: bans keyed by fingerprint so they survive key rotation,
//! lazy expiry, and kick decisions. Socket closes are actions the caller
//! carries out; the close codes are decided here.

use vstd::prelude::*;
use crate::errors::ApiError;
use crate::keyidx::{has_key, lemma_no_key, lemma_push_fresh, lemma_remove_at, lemma_index_of_at};
use crate::models::Ban;
use crate::state::ServerDb;
use crate::trusted::new_uuid_string;
use crate::util::str_eq;

verus! {

/// Close code pushed to a banned user's sockets.
pub const CLOSE_BANNED: u16 = 4003;

/// Close code pushed to a kicked user's sockets.
pub const CLOSE_KICKED: u16 = 4004;

pub struct BanRequest {
    pub user_id: String,
    pub reason: Option<String>,
    pub expires_at: Option<i64>,
}

#[derive(Debug)]
pub struct BanResponse {
    pub ban_id: String,
}

pub struct UnbanRequest {
    pub fingerprint: String,
}

#[derive(Debug)]
pub struct BanInfoResponse {
    pub id: String,
    pub fingerprint: String,
    pub banned_by: String,
    pub reason: Option<String>,
    pub expires_at: Option<i64>,
    pub created_at: i64,
}

#[derive(Debug)]
pub struct BanListResponse {
    pub bans: Vec<BanInfoResponse>,
}

pub struct KickRequest {
    pub user_id: String,
}

/// Whether a ban row is still in force at the given time.
pub open spec fn ban_active(b: Ban, now: i64) -> bool {
    match b.expires_at {
        Some(e) => e > now,
        None => true,
    }
}

/// Ban a user by id: the ban row is keyed by the user's fingerprint, so
/// a later key rotation does not lift it. The owner cannot be banned.
/// Banning an already-banned fingerprint replaces the row.
pub fn ban_user(db: &mut ServerDb, banned_by: &str, req: &BanRequest, now: i64) -> (r: Result<
    BanResponse,
    ApiError,
>)
    requires
        old(db).wf(),
    ensures
        final(db).wf(),
        r matches Err(_) ==> *final(db) == *old(db),
        ({
            let target = has_key(old(db).user_ids(), req.user_id@);
            let owner = target && old(db).users@[crate::keyidx::index_of(
                old(db).user_ids(),
                req.user_id@,
            )].is_owner;
            &&& (r is Ok <==> (target && !owner))
            &&& (!target ==> r == Err::<BanResponse, ApiError>(ApiError::NotFound))
            &&& (owner ==> r == Err::<BanResponse, ApiError>(ApiError::Forbidden))
        }),
        r is Ok ==> exists|u: int|
            {
                &&& 0 <= u < old(db).users@.len()
                &&& (#[trigger] old(db).users@[u]).id@ == req.user_id@
                &&& !old(db).users@[u].is_owner
                &&& final(db).spec_has_ban(old(db).users@[u].fingerprint@)
                &&& exists|b: int|
                    {
                        &&& 0 <= b < final(db).bans@.len()
                        &&& (#[trigger] final(db).bans@[b]).fingerprint@ == old(db).users@[u].fingerprint@
                        &&& final(db).bans@[b].banned_by@ == banned_by@
                        &&& final(db).bans@[b].expires_at == req.expires_at
                        &&& (match req.reason {
                            Some(t) => final(db).bans@[b].reason matches Some(w) && w@ == t@,
                            None => final(db).bans@[b].reason is None,
                        })
                    }
            },
        forall|fp: Seq<char>|
            old(db).spec_has_ban(fp) ==> #[trigger] final(db).spec_has_ban(fp) || r is Err,
        final(db).users@ == old(db).users@,
        final(db).rotation_records@ == old(db).rotation_records@,
        final(db).refresh_tokens@ == old(db).refresh_tokens@,
        final(db).messages@ == old(db).messages@,
{
    let ghost db0 = *db;
    let uidx = match db.user_idx_by_id(req.user_id.as_str()) {
        Some(i) => i,
        None => {
            proof {
                lemma_no_key(db0.user_ids(), req.user_id@);
            }
            return Err(ApiError::NotFound);
        },
    };
    proof {
        assert(db0.user_ids()[uidx as int] == req.user_id@);
        lemma_index_of_at(db0.user_ids(), uidx as int);
    }
    if db.users[uidx].is_owner {
        return Err(ApiError::Forbidden);
    }
    let fp = db.users[uidx].fingerprint.clone();
    let ban_id = new_uuid_string();
    let row = Ban {
        id: ban_id.clone(),
        fingerprint: fp.clone(),
        banned_by: String::from_str(banned_by),
        reason: crate::util::opt_string_clone(&req.reason),
        expires_at: req.expires_at,
        created_at: now,
    };
    let mut i: usize = 0;
    let n = db.bans.len();
    #[verifier::loop_isolation(false)]
    while i < n
        invariant
            *db == db0,
            n == db.bans@.len(),
            i <= n,
            forall|j: int| 0 <= j < i ==> db0.ban_fps()[j] != fp@,
        decreases n - i,
    {
        if str_eq(db.bans[i].fingerprint.as_str(), fp.as_str()) {
            db.bans.set(i, row);
            proof {
                assert(db.ban_fps() =~= db0.ban_fps());
                lemma_index_of_at(db0.ban_fps(), i as int);
                assert(db.bans@[i as int].fingerprint@ == fp@);
                assert(db.bans@[i as int].expires_at == req.expires_at);
                assert(db.spec_has_ban(fp@));
            }
            return Ok(BanResponse { ban_id });
        }
        i = i + 1;
    }
    proof {
        lemma_no_key(db0.ban_fps(), fp@);
    }
    db.bans.push(row);
    proof {
        assert(db.ban_fps() =~= db0.ban_fps().push(fp@));
        lemma_push_fresh(db0.ban_fps(), fp@);
        assert(db.bans@.last().fingerprint@ == fp@);
    }
    Ok(BanResponse { ban_id })
}

/// Remove the ban of a fingerprint; unknown fingerprints are a no-op.
pub fn unban_user(db: &mut ServerDb, fingerprint: &str)
    requires
        old(db).wf(),
    ensures
        final(db).wf(),
        !final(db).spec_has_ban(fingerprint@),
        forall|fp: Seq<char>|
            fp != fingerprint@ ==> #[trigger] final(db).spec_has_ban(fp) == old(db).spec_has_ban(
                fp,
            ),
        final(db).users@ == old(db).users@,
        final(db).rotation_records@ == old(db).rotation_records@,
        final(db).refresh_tokens@ == old(db).refresh_tokens@,
        final(db).messages@ == old(db).messages@,
{
    let ghost db0 = *db;
    let mut i: usize = 0;
    let n = db.bans.len();
    #[verifier::loop_isolation(false)]
    while i < n
        invariant
            *db == db0,
            n == db.bans@.len(),
            i <= n,
            forall|j: int| 0 <= j < i ==> db0.ban_fps()[j] != fingerprint@,
        decreases n - i,
    {
        if str_eq(db.bans[i].fingerprint.as_str(), fingerprint) {
            db.bans.remove(i);
            proof {
                assert(db.ban_fps() =~= db0.ban_fps().remove(i as int));
                lemma_remove_at(db0.ban_fps(), i as int);
            }
            return ;
        }
        i = i + 1;
    }
    proof {
        lemma_no_key(db0.ban_fps(), fingerprint@);
    }
}

/// Drop every expired ban (lazy purge), then report the remaining rows.
pub fn list_bans(db: &mut ServerDb, now: i64) -> (r: BanListResponse)
    requires
        old(db).wf(),
    ensures
        final(db).wf(),
        forall|i: int|
            0 <= i < final(db).bans@.len() ==> ban_active(#[trigger] final(db).bans@[i], now),
        // every still-active row is retained, every kept row was a row
        forall|j: int|
            0 <= j < old(db).bans@.len() && ban_active(#[trigger] old(db).bans@[j], now) ==> final(db).bans@.contains(old(db).bans@[j]),
        forall|i: int|
            0 <= i < final(db).bans@.len() ==> old(db).bans@.contains(#[trigger] final(db).bans@[i]),
        r.bans@.len() == final(db).bans@.len(),
        forall|i: int|
            0 <= i < r.bans@.len() ==> {
                &&& (#[trigger] r.bans@[i]).fingerprint@ == final(db).bans@[i].fingerprint@
                &&& r.bans@[i].id@ == final(db).bans@[i].id@
                &&& r.bans@[i].banned_by@ == final(db).bans@[i].banned_by@
                &&& r.bans@[i].expires_at == final(db).bans@[i].expires_at
                &&& (match final(db).bans@[i].reason {
                    Some(w) => r.bans@[i].reason matches Some(t) && t@ == w@,
                    None => r.bans@[i].reason is None,
                })
            },
        final(db).users@ == old(db).users@,
        final(db).rotation_records@ == old(db).rotation_records@,
        final(db).refresh_tokens@ == old(db).refresh_tokens@,
        final(db).messages@ == old(db).messages@,
{
    let ghost db0 = *db;
    let mut kept: Vec<Ban> = Vec::new();
    let mut out: Vec<BanInfoResponse> = Vec::new();
    let mut i: usize = 0;
    let n = db.bans.len();
    #[verifier::loop_isolation(false)]
    while i < n
        invariant
            *db == db0,
            n == db.bans@.len(),
            i <= n,
            out@.len() == kept@.len(),
            forall|k: int| 0 <= k < kept@.len() ==> ban_active(#[trigger] kept@[k], now),
            forall|k: int|
                0 <= k < kept@.len() ==> exists|j: int|
                    0 <= j < i && (#[trigger] kept@[k]) == (#[trigger] db0.bans@[j]),
            forall|j: int|
                0 <= j < i && ban_active(#[trigger] db0.bans@[j], now) ==> kept@.contains(
                    db0.bans@[j],
                ),
            forall|k: int|
                0 <= k < out@.len() ==> {
                    &&& (#[trigger] out@[k]).fingerprint@ == (#[trigger] kept@[k]).fingerprint@
                    &&& out@[k].id@ == kept@[k].id@
                    &&& out@[k].banned_by@ == kept@[k].banned_by@
                    &&& out@[k].expires_at == kept@[k].expires_at
                    &&& (match kept@[k].reason {
                        Some(w) => out@[k].reason matches Some(t) && t@ == w@,
                        None => out@[k].reason is None,
                    })
                },
            forall|k1: int, k2: int|
                0 <= k1 < k2 < kept@.len() ==> (#[trigger] kept@[k1]).fingerprint@
                    != (#[trigger] kept@[k2]).fingerprint@,
        decreases n - i,
    {
        let b = &db.bans[i];
        let active = match b.expires_at {
            Some(e) => e > now,
            None => true,
        };
        let ghost kept0 = kept@;
        if active {
            proof {
                assert forall|k1: int| 0 <= k1 < kept@.len() implies (#[trigger] kept@[k1]).fingerprint@
                    != db.bans@[i as int].fingerprint@ by {
                    let j = choose|j: int|
                        0 <= j < i && (#[trigger] kept@[k1]) == (#[trigger] db0.bans@[j]);
                    assert(db0.ban_fps()[j] == kept@[k1].fingerprint@);
                    assert(db0.ban_fps()[j] != db0.ban_fps()[i as int]);
                }
            }
            let copy = Ban {
                id: b.id.clone(),
                fingerprint: b.fingerprint.clone(),
                banned_by: b.banned_by.clone(),
                reason: crate::util::opt_string_clone_exact(&b.reason),
                expires_at: b.expires_at,
                created_at: b.created_at,
            };
            proof {
                assert(copy == db0.bans@[i as int]);
            }
            kept.push(copy);
            out.push(
                BanInfoResponse {
                    id: b.id.clone(),
                    fingerprint: b.fingerprint.clone(),
                    banned_by: b.banned_by.clone(),
                    reason: crate::util::opt_string_clone(&b.reason),
                    expires_at: b.expires_at,
                    created_at: b.created_at,
                },
            );
            proof {
                assert(kept@.last() == db0.bans@[i as int]);
                assert forall|j: int|
                    0 <= j < i + 1 && ban_active(#[trigger] db0.bans@[j], now) implies kept@.contains(
                    db0.bans@[j],
                ) by {
                    if j < i {
                        let k = choose|k: int| 0 <= k < kept0.len() && kept0[k] == db0.bans@[j];
                        assert(kept@[k] == db0.bans@[j]);
                    } else {
                        assert(kept@[kept@.len() - 1] == db0.bans@[j]);
                    }
                }
            }
        }
        i = i + 1;
    }
    db.bans = kept;
    proof {
        assert forall|k1: int, k2: int|
            0 <= k1 < k2 < db.ban_fps().len() implies (#[trigger] db.ban_fps()[k1])
            != (#[trigger] db.ban_fps()[k2]) by {
            assert(db.bans@[k1].fingerprint@ != db.bans@[k2].fingerprint@);
        }
        assert forall|k: int| 0 <= k < db.bans@.len() implies db0.bans@.contains(
            #[trigger] db.bans@[k],
        ) by {
            let j = choose|j: int| 0 <= j < n && (#[trigger] db.bans@[k]) == (#[trigger] db0.bans@[j]);
            assert(db0.bans@[j] == db.bans@[k]);
        }
    }
    BanListResponse { bans: out }
}

/// Whether a fingerprint is actively banned. Expired rows are lazily
/// purged first, exactly as reading the ban state does.
pub fn check_ban(db: &mut ServerDb, fingerprint: &str, now: i64) -> (r: Option<String>)
    requires
        old(db).wf(),
    ensures
        final(db).wf(),
        // lazy purge: exactly the active rows remain
        forall|i: int|
            0 <= i < final(db).bans@.len() ==> ban_active(#[trigger] final(db).bans@[i], now),
        forall|j: int|
            0 <= j < old(db).bans@.len() && ban_active(#[trigger] old(db).bans@[j], now) ==> final(db).bans@.contains(old(db).bans@[j]),
        forall|i: int|
            0 <= i < final(db).bans@.len() ==> old(db).bans@.contains(#[trigger] final(db).bans@[i]),
        r is Some <==> exists|i: int|
            0 <= i < old(db).bans@.len() && (#[trigger] old(db).bans@[i]).fingerprint@
                == fingerprint@ && ban_active(old(db).bans@[i], now),
        r matches Some(t) ==> exists|i: int|
            {
                &&& 0 <= i < old(db).bans@.len()
                &&& (#[trigger] old(db).bans@[i]).fingerprint@ == fingerprint@
                &&& ban_active(old(db).bans@[i], now)
                &&& (match old(db).bans@[i].reason {
                    Some(w) => t@ == w@,
                    None => t@.len() == 0,
                })
            },
        final(db).users@ == old(db).users@,
        final(db).rotation_records@ == old(db).rotation_records@,
        final(db).refresh_tokens@ == old(db).refresh_tokens@,
        final(db).messages@ == old(db).messages@,
{
    let ghost db0 = *db;
    let mut kept: Vec<Ban> = Vec::new();
    let mut hit: Option<String> = None;
    let mut i: usize = 0;
    let n = db.bans.len();
    #[verifier::loop_isolation(false)]
    while i < n
        invariant
            *db == db0,
            n == db.bans@.len(),
            i <= n,
            forall|k: int| 0 <= k < kept@.len() ==> ban_active(#[trigger] kept@[k], now),
            forall|k: int|
                0 <= k < kept@.len() ==> exists|j: int|
                    0 <= j < i && (#[trigger] kept@[k]) == (#[trigger] db0.bans@[j]),
            forall|j: int|
                0 <= j < i && ban_active(#[trigger] db0.bans@[j], now) ==> kept@.contains(
                    db0.bans@[j],
                ),
            forall|k1: int, k2: int|
                0 <= k1 < k2 < kept@.len() ==> (#[trigger] kept@[k1]).fingerprint@
                    != (#[trigger] kept@[k2]).fingerprint@,
            match hit {
                Some(t) => exists|j: int|
                    {
                        &&& 0 <= j < i
                        &&& (#[trigger] db0.bans@[j]).fingerprint@ == fingerprint@
                        &&& ban_active(db0.bans@[j], now)
                        &&& (match db0.bans@[j].reason {
                            Some(w) => t@ == w@,
                            None => t@.len() == 0,
                        })
                    },
                None => forall|j: int|
                    0 <= j < i ==> !((#[trigger] db0.bans@[j]).fingerprint@ == fingerprint@
                        && ban_active(db0.bans@[j], now)),
            },
        decreases n - i,
    {
        let b = &db.bans[i];
        let active = match b.expires_at {
            Some(e) => e > now,
            None => true,
        };
        let ghost kept0 = kept@;
        if active {
            proof {
                assert forall|k1: int| 0 <= k1 < kept@.len() implies (#[trigger] kept@[k1]).fingerprint@
                    != db.bans@[i as int].fingerprint@ by {
                    let j = choose|j: int|
                        0 <= j < i && (#[trigger] kept@[k1]) == (#[trigger] db0.bans@[j]);
                    assert(db0.ban_fps()[j] == kept@[k1].fingerprint@);
                    assert(db0.ban_fps()[j] != db0.ban_fps()[i as int]);
                }
            }
            let copy = Ban {
                id: b.id.clone(),
                fingerprint: b.fingerprint.clone(),
                banned_by: b.banned_by.clone(),
                reason: crate::util::opt_string_clone_exact(&b.reason),
                expires_at: b.expires_at,
                created_at: b.created_at,
            };
            proof {
                assert(copy == db0.bans@[i as int]);
            }
            kept.push(copy);
            proof {
                assert(kept@.last() == db0.bans@[i as int]);
                assert forall|j: int|
                    0 <= j < i + 1 && ban_active(#[trigger] db0.bans@[j], now) implies kept@.contains(
                    db0.bans@[j],
                ) by {
                    if j < i {
                        let k = choose|k: int| 0 <= k < kept0.len() && kept0[k] == db0.bans@[j];
                        assert(kept@[k] == db0.bans@[j]);
                    } else {
                        assert(kept@[kept@.len() - 1] == db0.bans@[j]);
                    }
                }
            }
            if str_eq(b.fingerprint.as_str(), fingerprint) && hit.is_none() {
                let reason = match &b.reason {
                    Some(rs) => rs.clone(),
                    None => String::new(),
                };
                hit = Some(reason);
            }
        }
        i = i + 1;
    }
    db.bans = kept;
    proof {
        assert forall|k1: int, k2: int|
            0 <= k1 < k2 < db.ban_fps().len() implies (#[trigger] db.ban_fps()[k1])
            != (#[trigger] db.ban_fps()[k2]) by {
            assert(db.bans@[k1].fingerprint@ != db.bans@[k2].fingerprint@);
        }
        assert forall|k: int| 0 <= k < db.bans@.len() implies db0.bans@.contains(
            #[trigger] db.bans@[k],
        ) by {
            let j = choose|j: int| 0 <= j < n && (#[trigger] db.bans@[k]) == (#[trigger] db0.bans@[j]);
            assert(db0.bans@[j] == db.bans@[k]);
        }
    }
    hit
}

/// Decide a kick: the target must exist and not be the owner; the caller
/// then force-closes the target's sockets with the kicked close code.
pub fn kick_user(db: &ServerDb, req: &KickRequest) -> (r: Result<u16, ApiError>)
    requires
        db.wf(),
    ensures
        ({
            let target = has_key(db.user_ids(), req.user_id@);
            let owner = target && db.users@[crate::keyidx::index_of(
                db.user_ids(),
                req.user_id@,
            )].is_owner;
            &&& (r is Ok <==> (target && !owner))
            &&& (r matches Ok(code) ==> code == CLOSE_KICKED)
            &&& (!target ==> r == Err::<u16, ApiError>(ApiError::NotFound))
            &&& (owner ==> r == Err::<u16, ApiError>(ApiError::Forbidden))
        }),
{
    let uidx = match db.user_idx_by_id(req.user_id.as_str()) {
        Some(i) => i,
        None => {
            return Err(ApiError::NotFound);
        },
    };
    proof {
        assert(db.user_ids()[uidx as int] == req.user_id@);
        lemma_index_of_at(db.user_ids(), uidx as int);
    }
    if db.users[uidx].is_owner {
        return Err(ApiError::Forbidden);
    }
    Ok(CLOSE_KICKED)
}

} // verus!
