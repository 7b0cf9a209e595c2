//! Invite codes: creation, listing, deletion, and atomic consumption with
//! an expiry and a use limit. Consumption is a conditional increment:
//! either the invite is live and its count grows by one, or nothing
//! changes.

use vstd::prelude::*;
use crate::errors::ApiError;
use crate::keyidx::{has_key, lemma_no_key, lemma_push_fresh, lemma_remove_at, lemma_index_of_at};
use crate::models::Invite;
use crate::state::ServerDb;
use crate::trusted::random_below;
use crate::util::{str_eq, string_from_ascii};

verus! {

pub struct CreateInviteRequest {
    pub max_uses: i64,
    pub expires_at: Option<i64>,
}

#[derive(Debug)]
pub struct InviteResponse {
    pub code: String,
    pub created_by: String,
    pub max_uses: i64,
    pub use_count: i64,
    pub expires_at: i64,
    pub created_at: i64,
}

#[derive(Debug)]
pub struct InviteListResponse {
    pub invites: Vec<InviteResponse>,
}

/// Whether an invite still admits a consumption at the given time: not
/// expired, below its use limit, and within the counter's range.
pub open spec fn invite_live(inv: Invite, now: i64) -> bool {
    &&& match inv.expires_at {
        Some(e) => e > now,
        None => true,
    }
    &&& match inv.max_uses {
        Some(m) => inv.use_count < m,
        None => inv.use_count < i64::MAX,
    }
}

/// The invite after one successful consumption.
pub open spec fn consumed(inv: Invite) -> Invite {
    Invite {
        code: inv.code,
        created_by: inv.created_by,
        max_uses: inv.max_uses,
        use_count: (inv.use_count + 1) as i64,
        expires_at: inv.expires_at,
        created_at: inv.created_at,
    }
}

/// The invite state and number of successes after `n` consumption
/// attempts at one time.
pub open spec fn consume_n(inv: Invite, now: i64, n: nat) -> (Invite, nat)
    decreases n,
{
    if n == 0 {
        (inv, 0)
    } else {
        let (prev, succ) = consume_n(inv, now, (n - 1) as nat);
        if invite_live(prev, now) {
            (consumed(prev), succ + 1)
        } else {
            (prev, succ)
        }
    }
}

/// With a use limit of `m` and `u` uses already taken, `n` racing
/// consumption attempts succeed exactly min(n, m - u) times.
pub proof fn lemma_invite_max_uses(inv: Invite, now: i64, n: nat)
    requires
        inv.max_uses matches Some(m) && inv.use_count <= m,
        0 <= inv.use_count,
        match inv.expires_at {
            Some(e) => e > now,
            None => true,
        },
    ensures
        consume_n(inv, now, n).1 == vstd::math::min(
            n as int,
            inv.max_uses->Some_0 - inv.use_count,
        ),
        consume_n(inv, now, n).0.use_count == inv.use_count + consume_n(inv, now, n).1,
        consume_n(inv, now, n).0.max_uses == inv.max_uses,
        consume_n(inv, now, n).0.expires_at == inv.expires_at,
    decreases n,
{
    if n > 0 {
        lemma_invite_max_uses(inv, now, (n - 1) as nat);
    }
}

/// An 8-character alphanumeric invite code drawn from uppercase,
/// lowercase and digits.
pub open spec fn is_alnum(c: char) -> bool {
    ('A' <= c && c <= 'Z') || ('a' <= c && c <= 'z') || ('0' <= c && c <= '9')
}

fn alnum_of(idx: usize) -> (r: u8)
    requires
        idx < 62,
    ensures
        r < 128,
        is_alnum(r as char),
{
    if idx < 26 {
        65 + idx as u8
    } else if idx < 52 {
        97 + (idx as u8 - 26)
    } else {
        48 + (idx as u8 - 52)
    }
}

/// Generate a random 8-character alphanumeric invite code.
pub fn generate_code() -> (r: String)
    ensures
        r@.len() == 8,
        forall|i: int| 0 <= i < r@.len() ==> is_alnum(#[trigger] r@[i]),
{
    let mut bytes: Vec<u8> = Vec::new();
    let mut i: usize = 0;
    while i < 8
        invariant
            i <= 8,
            bytes@.len() == i,
            forall|j: int| 0 <= j < i ==> (#[trigger] bytes@[j]) < 128 && is_alnum(bytes@[j] as char),
        decreases 8 - i,
    {
        let idx = random_below(62);
        bytes.push(alnum_of(idx));
        i = i + 1;
    }
    let s = string_from_ascii(bytes);
    s
}

/// Create an invite. Fails only if the code is already taken.
pub fn create_invite(
    db: &mut ServerDb,
    code: String,
    created_by: &str,
    max_uses: Option<i64>,
    expires_at: Option<i64>,
    now: i64,
) -> (r: Result<(), ApiError>)
    requires
        old(db).wf(),
    ensures
        final(db).wf(),
        r is Ok <==> !has_key(old(db).invite_codes(), code@),
        r matches Err(e) ==> e == ApiError::Conflict && *final(db) == *old(db),
        r is Ok ==> {
            &&& final(db).invites@.len() == old(db).invites@.len() + 1
            &&& final(db).invites@.last().code@ == code@
            &&& final(db).invites@.last().created_by@ == created_by@
            &&& final(db).invites@.last().max_uses == max_uses
            &&& final(db).invites@.last().use_count == 0
            &&& final(db).invites@.last().expires_at == expires_at
            &&& final(db).invites@.last().created_at == now
            &&& final(db).invites@.take(old(db).invites@.len() as int) == old(db).invites@
        },
        final(db).users@ == old(db).users@,
        final(db).rotation_records@ == old(db).rotation_records@,
        final(db).refresh_tokens@ == old(db).refresh_tokens@,
        final(db).bans@ == old(db).bans@,
        final(db).messages@ == old(db).messages@,
{
    let ghost pre = *db;
    let mut i: usize = 0;
    let n = db.invites.len();
    #[verifier::loop_isolation(false)]
    while i < n
        invariant
            *db == pre,
            n == db.invites@.len(),
            i <= n,
            forall|j: int| 0 <= j < i ==> pre.invite_codes()[j] != code@,
        decreases n - i,
    {
        if str_eq(db.invites[i].code.as_str(), code.as_str()) {
            proof {
                assert(pre.invite_codes()[i as int] == code@);
                assert(has_key(pre.invite_codes(), code@));
            }
            return Err(ApiError::Conflict);
        }
        i = i + 1;
    }
    proof {
        lemma_no_key(pre.invite_codes(), code@);
    }
    let by = String::from_str(created_by);
    db.invites.push(
        Invite {
            code,
            created_by: by,
            max_uses,
            use_count: 0,
            expires_at,
            created_at: now,
        },
    );
    proof {
        assert(db.invite_codes() =~= pre.invite_codes().push(code@));
        lemma_push_fresh(pre.invite_codes(), code@);
        assert(db.invites@.take(pre.invites@.len() as int) =~= pre.invites@);
    }
    Ok(())
}

/// Atomically consume an invite: increment its count exactly when it is
/// known, unexpired and below its use limit; otherwise change nothing.
pub fn consume_invite(db: &mut ServerDb, code: &str, now: i64) -> (r: Result<(), ApiError>)
    requires
        old(db).wf(),
    ensures
        final(db).wf(),
        r is Ok <==> exists|i: int|
            0 <= i < old(db).invites@.len() && (#[trigger] old(db).invites@[i]).code@ == code@
                && invite_live(old(db).invites@[i], now),
        r matches Err(e) ==> e == ApiError::BadRequest && *final(db) == *old(db),
        r is Ok ==> exists|i: int|
            {
                &&& 0 <= i < old(db).invites@.len()
                &&& (#[trigger] old(db).invites@[i]).code@ == code@
                &&& final(db).invites@ == old(db).invites@.update(i, consumed(old(db).invites@[i]))
            },
        final(db).users@ == old(db).users@,
        final(db).rotation_records@ == old(db).rotation_records@,
        final(db).refresh_tokens@ == old(db).refresh_tokens@,
        final(db).bans@ == old(db).bans@,
        final(db).messages@ == old(db).messages@,
        final(db).server_settings@ == old(db).server_settings@,
        final(db).identity_blobs@ == old(db).identity_blobs@,
        final(db).user_roles@ == old(db).user_roles@,
        final(db).roles@ == old(db).roles@,
        final(db).categories@ == old(db).categories@,
        final(db).channels@ == old(db).channels@,
        final(db).reactions@ == old(db).reactions@,
        final(db).last_read@ == old(db).last_read@,
        final(db).dm_public_keys@ == old(db).dm_public_keys@,
        final(db).dm_conversations@ == old(db).dm_conversations@,
        final(db).dm_messages@ == old(db).dm_messages@,
        final(db).dm_offline_queue@ == old(db).dm_offline_queue@,
        final(db).blocks@ == old(db).blocks@,
        final(db).next_message_id == old(db).next_message_id,
{
    let ghost pre = *db;
    let mut i: usize = 0;
    let n = db.invites.len();
    #[verifier::loop_isolation(false)]
    while i < n
        invariant
            *db == pre,
            n == db.invites@.len(),
            i <= n,
            forall|j: int| 0 <= j < i ==> pre.invite_codes()[j] != code@,
        decreases n - i,
    {
        if str_eq(db.invites[i].code.as_str(), code) {
            let live = invite_live_exec(&db.invites[i], now);
            if !live {
                proof {
                    assert forall|k: int|
                        0 <= k < pre.invites@.len() && (#[trigger] pre.invites@[k]).code@ == code@
                        implies !invite_live(pre.invites@[k], now) by {
                        lemma_index_of_at(pre.invite_codes(), k);
                        lemma_index_of_at(pre.invite_codes(), i as int);
                    }
                }
                return Err(ApiError::BadRequest);
            }
            let inv = &db.invites[i];
            let updated = Invite {
                code: inv.code.clone(),
                created_by: inv.created_by.clone(),
                max_uses: inv.max_uses,
                use_count: inv.use_count + 1,
                expires_at: inv.expires_at,
                created_at: inv.created_at,
            };
            db.invites.set(i, updated);
            proof {
                assert(db.invite_codes() =~= pre.invite_codes());
                assert(db.invites@ =~= pre.invites@.update(i as int, consumed(
                    pre.invites@[i as int])));
            }
            return Ok(());
        }
        i = i + 1;
    }
    proof {
        assert forall|k: int|
            0 <= k < pre.invites@.len() implies !((#[trigger] pre.invites@[k]).code@ == code@
            && invite_live(pre.invites@[k], now)) by {
            assert(pre.invite_codes()[k] == pre.invites@[k].code@);
        }
    }
    Err(ApiError::BadRequest)
}

/// Whether an invite is currently valid; drives the public landing page.
pub fn invite_live_exec(inv: &Invite, now: i64) -> (r: bool)
    ensures
        r == invite_live(*inv, now),
{
    let not_expired = match inv.expires_at {
        Some(e) => e > now,
        None => true,
    };
    let below_limit = match inv.max_uses {
        Some(m) => inv.use_count < m,
        None => inv.use_count < i64::MAX,
    };
    not_expired && below_limit
}

/// Whether a live invite with this code exists.
pub fn invite_valid(db: &ServerDb, code: &str, now: i64) -> (r: bool)
    ensures
        r == exists|i: int|
            0 <= i < db.invites@.len() && (#[trigger] db.invites@[i]).code@ == code@ && invite_live(
                db.invites@[i],
                now,
            ),
{
    let mut i: usize = 0;
    let n = db.invites.len();
    #[verifier::loop_isolation(false)]
    while i < n
        invariant
            n == db.invites@.len(),
            i <= n,
            forall|j: int|
                0 <= j < i ==> !((#[trigger] db.invites@[j]).code@ == code@ && invite_live(
                    db.invites@[j],
                    now,
                )),
        decreases n - i,
    {
        if str_eq(db.invites[i].code.as_str(), code) {
            if invite_live_exec(&db.invites[i], now) {
                return true;
            }
        }
        i = i + 1;
    }
    false
}

/// Delete an invite by code; deleting an unknown code is a no-op, as the
/// underlying row delete is.
pub fn delete_invite(db: &mut ServerDb, code: &str)
    requires
        old(db).wf(),
    ensures
        final(db).wf(),
        !has_key(final(db).invite_codes(), code@),
        forall|p: Seq<char>|
            p != code@ ==> (#[trigger] has_key(final(db).invite_codes(), p) == has_key(
                old(db).invite_codes(),
                p,
            )),
        final(db).users@ == old(db).users@,
        final(db).refresh_tokens@ == old(db).refresh_tokens@,
        final(db).rotation_records@ == old(db).rotation_records@,
{
    let ghost pre = *db;
    let mut i: usize = 0;
    let n = db.invites.len();
    #[verifier::loop_isolation(false)]
    while i < n
        invariant
            *db == pre,
            n == db.invites@.len(),
            i <= n,
            forall|j: int| 0 <= j < i ==> pre.invite_codes()[j] != code@,
        decreases n - i,
    {
        if str_eq(db.invites[i].code.as_str(), code) {
            remove_invite_at(db, i);
            proof {
                assert(db.invite_codes() =~= pre.invite_codes().remove(i as int));
                lemma_remove_at(pre.invite_codes(), i as int);
            }
            return ;
        }
        i = i + 1;
    }
    proof {
        lemma_no_key(pre.invite_codes(), code@);
    }
}

fn remove_invite_at(db: &mut ServerDb, i: usize)
    requires
        i < old(db).invites@.len(),
    ensures
        final(db).invites@ == old(db).invites@.remove(i as int),
        final(db).users@ == old(db).users@,
        final(db).refresh_tokens@ == old(db).refresh_tokens@,
        final(db).rotation_records@ == old(db).rotation_records@,
        final(db).bans@ == old(db).bans@,
        final(db).messages@ == old(db).messages@,
        final(db).server_settings@ == old(db).server_settings@,
        final(db).identity_blobs@ == old(db).identity_blobs@,
        final(db).user_roles@ == old(db).user_roles@,
        final(db).roles@ == old(db).roles@,
        final(db).categories@ == old(db).categories@,
        final(db).channels@ == old(db).channels@,
        final(db).reactions@ == old(db).reactions@,
        final(db).last_read@ == old(db).last_read@,
        final(db).dm_public_keys@ == old(db).dm_public_keys@,
        final(db).dm_conversations@ == old(db).dm_conversations@,
        final(db).dm_messages@ == old(db).dm_messages@,
        final(db).dm_offline_queue@ == old(db).dm_offline_queue@,
        final(db).blocks@ == old(db).blocks@,
        final(db).next_message_id == old(db).next_message_id,
        final(db).next_reaction_id == old(db).next_reaction_id,
        final(db).next_offline_id == old(db).next_offline_id,
{
    db.invites.remove(i);
}


/// Every invite, in row order; absent limits and expiries are rendered
/// as zero, as the admin surface shows them.
pub fn list_invites(db: &ServerDb) -> (r: InviteListResponse)
    ensures
        r.invites@.len() == db.invites@.len(),
        forall|i: int|
            0 <= i < r.invites@.len() ==> {
                &&& (#[trigger] r.invites@[i]).code@ == db.invites@[i].code@
                &&& r.invites@[i].created_by@ == db.invites@[i].created_by@
                &&& r.invites@[i].use_count == db.invites@[i].use_count
                &&& r.invites@[i].max_uses == (match db.invites@[i].max_uses {
                    Some(m) => m,
                    None => 0,
                })
                &&& r.invites@[i].expires_at == (match db.invites@[i].expires_at {
                    Some(e) => e,
                    None => 0,
                })
                &&& r.invites@[i].created_at == db.invites@[i].created_at
            },
{
    let mut out: Vec<InviteResponse> = Vec::new();
    let mut i: usize = 0;
    let n = db.invites.len();
    #[verifier::loop_isolation(false)]
    while i < n
        invariant
            n == db.invites@.len(),
            i <= n,
            out@.len() == i,
            forall|j: int|
                0 <= j < i ==> {
                    &&& (#[trigger] out@[j]).code@ == db.invites@[j].code@
                    &&& out@[j].created_by@ == db.invites@[j].created_by@
                    &&& out@[j].use_count == db.invites@[j].use_count
                    &&& out@[j].max_uses == (match db.invites@[j].max_uses {
                        Some(m) => m,
                        None => 0,
                    })
                    &&& out@[j].expires_at == (match db.invites@[j].expires_at {
                        Some(e) => e,
                        None => 0,
                    })
                    &&& out@[j].created_at == db.invites@[j].created_at
                },
        decreases n - i,
    {
        let v = &db.invites[i];
        let max_uses = match v.max_uses {
            Some(m) => m,
            None => 0,
        };
        let expires_at = match v.expires_at {
            Some(e) => e,
            None => 0,
        };
        out.push(
            InviteResponse {
                code: v.code.clone(),
                created_by: v.created_by.clone(),
                max_uses,
                use_count: v.use_count,
                expires_at,
                created_at: v.created_at,
            },
        );
        i = i + 1;
    }
    InviteListResponse { invites: out }
}

/// One character of HTML text, escaped.
pub open spec fn html_escaped_char(c: char) -> Seq<char> {
    if c == '&' {
        "&amp;"@
    } else if c == '<' {
        "&lt;"@
    } else if c == '>' {
        "&gt;"@
    } else if c == '"' {
        "&quot;"@
    } else if c == '\'' {
        "&#39;"@
    } else {
        seq![c]
    }
}

/// HTML text with every special character escaped.
pub open spec fn html_escaped(s: Seq<char>) -> Seq<char>
    decreases s.len(),
{
    if s.len() == 0 {
        Seq::empty()
    } else {
        html_escaped(s.drop_last()) + html_escaped_char(s.last())
    }
}

/// Escape HTML special characters.
pub fn html_escape(s: &str) -> (r: String)
    ensures
        r@ == html_escaped(s@),
{
    let mut out = String::new();
    let n = s.unicode_len();
    let mut i: usize = 0;
    #[verifier::loop_isolation(false)]
    while i < n
        invariant
            n == s@.len(),
            i <= n,
            out@ == html_escaped(s@.take(i as int)),
        decreases n - i,
    {
        proof {
            assert(s@.take(i as int + 1).drop_last() =~= s@.take(i as int));
            assert(s@.take(i as int + 1).last() == s@[i as int]);
        }
        let c = s.get_char(i);
        if c == '&' {
            out.append("&amp;");
        } else if c == '<' {
            out.append("&lt;");
        } else if c == '>' {
            out.append("&gt;");
        } else if c == '"' {
            out.append("&quot;");
        } else if c == '\'' {
            out.append("&#39;");
        } else {
            crate::util::push_char(&mut out, c);
        }
        i = i + 1;
    }
    proof {
        assert(s@.take(n as int) =~= s@);
    }
    out
}

/// The public landing page for an invite link: server name and
/// description escaped, the code shown, and the deep link embedded.
/// Unknown or spent codes get no page.
pub fn invite_landing_page(db: &ServerDb, code: &str, server_name: &str, description: &str, now: i64) -> (r:
    Result<String, ApiError>)
    requires
        db.wf(),
    ensures
        r is Ok <==> exists|i: int|
            0 <= i < db.invites@.len() && (#[trigger] db.invites@[i]).code@ == code@ && invite_live(
                db.invites@[i],
                now,
            ),
        r matches Err(e) ==> e == ApiError::NotFound,
{
    if !invite_valid(db, code, now) {
        return Err(ApiError::NotFound);
    }
    let name = html_escape(server_name);
    let desc = html_escape(description);
    let esc_code = html_escape(code);
    let mut page = String::from_str("<!DOCTYPE html>\n<html lang=\"en\">\n<head>\n");
    page.append("<meta charset=\"UTF-8\">\n<title>Join ");
    page.append(name.as_str());
    page.append(" on UNITED</title>\n</head>\n<body>\n<h1>");
    page.append(name.as_str());
    page.append("</h1>\n<p>");
    page.append(desc.as_str());
    page.append("</p>\n<p>You have been invited to join this server.</p>\n");
    page.append("<p>Invite code: <code>");
    page.append(esc_code.as_str());
    page.append("</code></p>\n<a href=\"united://invite/");
    page.append(esc_code.as_str());
    page.append("\">Open in UNITED</a>\n</body>\n</html>\n");
    Ok(page)
}

} // verus!
