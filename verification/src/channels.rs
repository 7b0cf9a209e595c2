//! Categories and channels: sparse positions for cheap reordering, the
//! starter template seeded for the owning registration, and gossip topic
//! naming.

use vstd::prelude::*;
use crate::errors::ApiError;
use crate::keyidx::{has_key, lemma_no_key, lemma_push_fresh};
use crate::models::{Category, Channel};
use crate::state::ServerDb;
use crate::trusted::new_uuid_string;
use crate::util::str_eq;

verus! {

/// Gap between position values for ordered items; a large gap allows
/// insertions between neighbours without renumbering.
pub const POSITION_GAP: i64 = 1000;

/// Next position after the current maximum in a category.
pub fn next_position(max_current: i64) -> (r: i64)
    requires
        max_current <= i64::MAX - POSITION_GAP,
    ensures
        r == max_current + POSITION_GAP,
{
    max_current + POSITION_GAP
}

/// The gossipsub topic for a channel: the first 16 characters of the
/// server's peer id, a slash, and the channel id.
pub open spec fn topic_of(peer_id: Seq<char>, channel_id: Seq<char>) -> Seq<char> {
    let prefix = if peer_id.len() <= 16 {
        peer_id
    } else {
        peer_id.take(16)
    };
    prefix + seq!['/'] + channel_id
}

/// Build a gossipsub topic string for a channel.
pub fn gossipsub_topic(server_peer_id: &str, channel_id: &str) -> (r: String)
    ensures
        r@ == topic_of(server_peer_id@, channel_id@),
{
    let n = server_peer_id.unicode_len();
    let cut = if n < 16 {
        n
    } else {
        16
    };
    let prefix = server_peer_id.substring_char(0, cut);
    let mut out = String::from_str(prefix);
    out.append("/");
    out.append(channel_id);
    proof {
        reveal_strlit("/");
        assert(server_peer_id@.subrange(0, cut as int) =~= (if server_peer_id@.len() <= 16 {
            server_peer_id@
        } else {
            server_peer_id@.take(16)
        }));
        assert(out@ =~= topic_of(server_peer_id@, channel_id@));
    }
    out
}

/// What the starter template adds on an empty server: the "General" and
/// "Voice" categories, two text channels and one voice channel.
pub open spec fn starter_template_added(pre: ServerDb, post: ServerDb) -> bool {
    &&& post.categories@.len() == pre.categories@.len() + 2
    &&& post.channels@.len() == pre.channels@.len() + 3
    &&& post.categories@[pre.categories@.len() as int].name@ == "General"@
    &&& post.categories@[pre.categories@.len() as int + 1].name@ == "Voice"@
    &&& post.channels@[pre.channels@.len() as int].name@ == "general"@
    &&& post.channels@[pre.channels@.len() as int].channel_type@ == "text"@
    &&& post.channels@[pre.channels@.len() as int + 1].name@ == "introductions"@
    &&& post.channels@[pre.channels@.len() as int + 1].channel_type@ == "text"@
    &&& post.channels@[pre.channels@.len() as int + 2].name@ == "General"@
    &&& post.channels@[pre.channels@.len() as int + 2].channel_type@ == "voice"@
    &&& post.channels@[pre.channels@.len() as int].category_id@
        == post.categories@[pre.categories@.len() as int].id@
    &&& post.channels@[pre.channels@.len() as int + 1].category_id@
        == post.categories@[pre.categories@.len() as int].id@
    &&& post.channels@[pre.channels@.len() as int + 2].category_id@
        == post.categories@[pre.categories@.len() as int + 1].id@
    &&& post.categories@.take(pre.categories@.len() as int) == pre.categories@
    &&& post.channels@.take(pre.channels@.len() as int) == pre.channels@
}

/// Seed the starter template when no categories exist yet; on a server
/// that already has categories this is a no-op. Fails only on an id
/// collision in the underlying store.
pub fn seed_starter_template(db: &mut ServerDb, now: i64) -> (r: Result<(), ApiError>)
    requires
        old(db).wf(),
    ensures
        final(db).wf(),
        old(db).categories@.len() > 0 ==> r is Ok && *final(db) == *old(db),
        r is Ok && old(db).categories@.len() == 0 ==> starter_template_added(*old(db), *final(db)),
        r matches Err(e) ==> e == ApiError::Internal && *final(db) == *old(db),
        final(db).users@ == old(db).users@,
        final(db).rotation_records@ == old(db).rotation_records@,
        final(db).refresh_tokens@ == old(db).refresh_tokens@,
        final(db).server_settings@ == old(db).server_settings@,
        final(db).identity_blobs@ == old(db).identity_blobs@,
        final(db).user_roles@ == old(db).user_roles@,
        final(db).roles@ == old(db).roles@,
        final(db).invites@ == old(db).invites@,
        final(db).bans@ == old(db).bans@,
        final(db).messages@ == old(db).messages@,
        final(db).dm_conversations@ == old(db).dm_conversations@,
        final(db).dm_messages@ == old(db).dm_messages@,
        final(db).blocks@ == old(db).blocks@,
{
    if db.categories.len() > 0 {
        return Ok(());
    }
    let general_cat_id = new_uuid_string();
    let voice_cat_id = new_uuid_string();
    let general_ch_id = new_uuid_string();
    let intro_ch_id = new_uuid_string();
    let voice_ch_id = new_uuid_string();
    if str_eq(general_cat_id.as_str(), voice_cat_id.as_str()) {
        return Err(ApiError::Internal);
    }
    if db.channel_idx_by_id(general_ch_id.as_str()).is_some() || db.channel_idx_by_id(
        intro_ch_id.as_str(),
    ).is_some() || db.channel_idx_by_id(voice_ch_id.as_str()).is_some() {
        return Err(ApiError::Internal);
    }
    if str_eq(general_ch_id.as_str(), intro_ch_id.as_str()) || str_eq(
        general_ch_id.as_str(),
        voice_ch_id.as_str(),
    ) || str_eq(intro_ch_id.as_str(), voice_ch_id.as_str()) {
        return Err(ApiError::Internal);
    }
    seed_with_ids(db, general_cat_id, voice_cat_id, general_ch_id, intro_ch_id, voice_ch_id, now);
    Ok(())
}

/// Insert the starter template rows under the given fresh ids.
pub fn seed_with_ids(
    db: &mut ServerDb,
    general_cat_id: String,
    voice_cat_id: String,
    general_ch_id: String,
    intro_ch_id: String,
    voice_ch_id: String,
    now: i64,
)
    requires
        old(db).wf(),
        old(db).categories@.len() == 0,
        general_cat_id@ != voice_cat_id@,
        general_ch_id@ != intro_ch_id@,
        general_ch_id@ != voice_ch_id@,
        intro_ch_id@ != voice_ch_id@,
        !has_key(old(db).channel_ids(), general_ch_id@),
        !has_key(old(db).channel_ids(), intro_ch_id@),
        !has_key(old(db).channel_ids(), voice_ch_id@),
    ensures
        final(db).wf(),
        starter_template_added(*old(db), *final(db)),
        final(db).users@ == old(db).users@,
        final(db).rotation_records@ == old(db).rotation_records@,
        final(db).refresh_tokens@ == old(db).refresh_tokens@,
        final(db).server_settings@ == old(db).server_settings@,
        final(db).identity_blobs@ == old(db).identity_blobs@,
        final(db).user_roles@ == old(db).user_roles@,
        final(db).roles@ == old(db).roles@,
        final(db).invites@ == old(db).invites@,
        final(db).bans@ == old(db).bans@,
        final(db).messages@ == old(db).messages@,
        final(db).dm_conversations@ == old(db).dm_conversations@,
        final(db).dm_messages@ == old(db).dm_messages@,
        final(db).blocks@ == old(db).blocks@,
        final(db).dm_public_keys@ == old(db).dm_public_keys@,
        final(db).dm_offline_queue@ == old(db).dm_offline_queue@,
        final(db).reactions@ == old(db).reactions@,
        final(db).last_read@ == old(db).last_read@,
        final(db).next_message_id == old(db).next_message_id,
{
    let ghost pre = *db;
    db.categories.push(
        Category {
            id: general_cat_id.clone(),
            name: String::from_str("General"),
            position: POSITION_GAP,
            created_at: now,
        },
    );
    db.categories.push(
        Category {
            id: voice_cat_id.clone(),
            name: String::from_str("Voice"),
            position: 2 * POSITION_GAP,
            created_at: now,
        },
    );
    db.channels.push(
        Channel {
            id: general_ch_id.clone(),
            name: String::from_str("general"),
            channel_type: String::from_str("text"),
            category_id: general_cat_id.clone(),
            position: POSITION_GAP,
            topic: None,
            max_participants: None,
            created_at: now,
        },
    );
    db.channels.push(
        Channel {
            id: intro_ch_id.clone(),
            name: String::from_str("introductions"),
            channel_type: String::from_str("text"),
            category_id: general_cat_id,
            position: 2 * POSITION_GAP,
            topic: None,
            max_participants: None,
            created_at: now,
        },
    );
    db.channels.push(
        Channel {
            id: voice_ch_id,
            name: String::from_str("General"),
            channel_type: String::from_str("voice"),
            category_id: voice_cat_id,
            position: POSITION_GAP,
            topic: None,
            max_participants: None,
            created_at: now,
        },
    );
    proof {
        assert(pre.categories@.len() == 0);
        assert(db.category_ids().len() == 2);
        assert forall|i: int, j: int|
            0 <= i < j < db.category_ids().len() implies db.category_ids()[i]
            != db.category_ids()[j] by {
            assert(db.category_ids()[0] == db.categories@[0].id@);
            assert(db.category_ids()[1] == db.categories@[1].id@);
        }
        assert(db.channels@.len() == pre.channels@.len() + 3);
        assert(db.channel_ids() =~= pre.channel_ids().push(db.channels@[pre.channels@.len() as int].id@).push(
            db.channels@[pre.channels@.len() as int + 1].id@,
        ).push(db.channels@[pre.channels@.len() as int + 2].id@));
        lemma_channels_three_fresh(pre, *db);
        assert(db.categories@.take(0) =~= pre.categories@);
        assert(db.channels@.take(pre.channels@.len() as int) =~= pre.channels@);
    }
}

proof fn lemma_channels_three_fresh(pre: ServerDb, post: ServerDb)
    requires
        crate::keyidx::keys_unique(pre.channel_ids()),
        post.channels@.len() == pre.channels@.len() + 3,
        forall|j: int| 0 <= j < pre.channels@.len() ==> post.channels@[j] == pre.channels@[j],
        !has_key(pre.channel_ids(), post.channels@[pre.channels@.len() as int].id@),
        !has_key(pre.channel_ids(), post.channels@[pre.channels@.len() as int + 1].id@),
        !has_key(pre.channel_ids(), post.channels@[pre.channels@.len() as int + 2].id@),
        post.channels@[pre.channels@.len() as int].id@ != post.channels@[pre.channels@.len() as int + 1].id@,
        post.channels@[pre.channels@.len() as int].id@ != post.channels@[pre.channels@.len() as int + 2].id@,
        post.channels@[pre.channels@.len() as int + 1].id@ != post.channels@[pre.channels@.len() as int + 2].id@,
    ensures
        crate::keyidx::keys_unique(post.channel_ids()),
{
    let keys = post.channel_ids();
    let n = pre.channels@.len() as int;
    assert forall|i: int, j: int| 0 <= i < j < keys.len() implies keys[i] != keys[j] by {
        if j < n {
            assert(pre.channel_ids()[i] == keys[i]);
            assert(pre.channel_ids()[j] == keys[j]);
        } else if i < n {
            assert(pre.channel_ids()[i] == keys[i]);
            lemma_no_key_contra(pre.channel_ids(), keys[j], i);
        }
    }
}

proof fn lemma_no_key_contra(keys: Seq<Seq<char>>, k: Seq<char>, i: int)
    requires
        !has_key(keys, k),
        0 <= i < keys.len(),
    ensures
        keys[i] != k,
{
}


// --- Channel and category CRUD ---

#[derive(Debug)]
pub struct ChannelResponse {
    pub id: String,
    pub name: String,
    pub channel_type: String,
    pub category_id: String,
    pub position: i64,
    pub topic: String,
}

#[derive(Debug)]
pub struct CategoryResponse {
    pub id: String,
    pub name: String,
    pub position: i64,
}

#[derive(Debug)]
pub struct CategoryWithChannelsResponse {
    pub category: CategoryResponse,
    pub channels: Vec<ChannelResponse>,
}

#[derive(Debug)]
pub struct ChannelListResponse {
    pub categories: Vec<CategoryWithChannelsResponse>,
}

pub struct CreateChannelRequest {
    pub name: String,
    pub channel_type: String,
    pub category_id: String,
}

pub struct UpdateChannelRequest {
    pub name: String,
}

pub struct ReorderEntry {
    pub id: String,
    pub position: i64,
}

pub struct ReorderRequest {
    pub entries: Vec<ReorderEntry>,
}

pub struct CreateCategoryRequest {
    pub name: String,
}

/// The highest position used by the channels of one category, zero when
/// it has none.
pub open spec fn max_channel_pos(channels: Seq<Channel>, cat: Seq<char>) -> i64
    decreases channels.len(),
{
    if channels.len() == 0 {
        0
    } else if channels.last().category_id@ == cat && channels.last().position > max_channel_pos(
        channels.drop_last(),
        cat,
    ) {
        channels.last().position
    } else {
        max_channel_pos(channels.drop_last(), cat)
    }
}

/// The highest category position, zero with no categories.
pub open spec fn max_category_pos(cats: Seq<Category>) -> i64
    decreases cats.len(),
{
    if cats.len() == 0 {
        0
    } else if cats.last().position > max_category_pos(cats.drop_last()) {
        cats.last().position
    } else {
        max_category_pos(cats.drop_last())
    }
}

/// Create a channel in an existing category, placed one gap after the
/// category's highest position. The channel type must be text or voice.
pub fn create_channel(db: &mut ServerDb, req: &CreateChannelRequest, now: i64) -> (r: Result<
    ChannelResponse,
    ApiError,
>)
    requires
        old(db).wf(),
    ensures
        final(db).wf(),
        r matches Err(_) ==> *final(db) == *old(db),
        !(req.channel_type@ == "text"@ || req.channel_type@ == "voice"@) ==> r == Err::<
            ChannelResponse,
            ApiError,
        >(ApiError::BadRequest),
        (req.channel_type@ == "text"@ || req.channel_type@ == "voice"@) && !has_key(
            old(db).category_ids(),
            req.category_id@,
        ) ==> r == Err::<ChannelResponse, ApiError>(ApiError::NotFound),
        (req.channel_type@ == "text"@ || req.channel_type@ == "voice"@) && has_key(
            old(db).category_ids(),
            req.category_id@,
        ) && max_channel_pos(old(db).channels@, req.category_id@) <= i64::MAX - POSITION_GAP ==> (r
            is Ok || r == Err::<ChannelResponse, ApiError>(ApiError::Internal)),
        r matches Ok(out) ==> {
            &&& req.channel_type@ == "text"@ || req.channel_type@ == "voice"@
            &&& has_key(old(db).category_ids(), req.category_id@)
            &&& final(db).channels@.len() == old(db).channels@.len() + 1
            &&& final(db).channels@.take(old(db).channels@.len() as int) == old(db).channels@
            &&& final(db).channels@.last().name@ == req.name@
            &&& final(db).channels@.last().channel_type@ == req.channel_type@
            &&& final(db).channels@.last().category_id@ == req.category_id@
            &&& final(db).channels@.last().position == max_channel_pos(
                old(db).channels@,
                req.category_id@,
            ) + POSITION_GAP
            &&& out.id@ == final(db).channels@.last().id@
            &&& out.position == final(db).channels@.last().position
        },
        final(db).users@ == old(db).users@,
        final(db).categories@ == old(db).categories@,
        final(db).messages@ == old(db).messages@,
        final(db).refresh_tokens@ == old(db).refresh_tokens@,
        final(db).rotation_records@ == old(db).rotation_records@,
        final(db).bans@ == old(db).bans@,
{
    let ghost db0 = *db;
    if !(str_eq(req.channel_type.as_str(), "text") || str_eq(req.channel_type.as_str(), "voice")) {
        return Err(ApiError::BadRequest);
    }
    let mut cat_found = false;
    let mut c: usize = 0;
    let nc = db.categories.len();
    #[verifier::loop_isolation(false)]
    while c < nc
        invariant
            *db == db0,
            nc == db.categories@.len(),
            c <= nc,
            cat_found <==> exists|j: int| 0 <= j < c && db0.category_ids()[j] == req.category_id@,
        decreases nc - c,
    {
        if str_eq(db.categories[c].id.as_str(), req.category_id.as_str()) {
            proof {
                assert(db0.category_ids()[c as int] == req.category_id@);
            }
            cat_found = true;
        }
        c = c + 1;
    }
    if !cat_found {
        proof {
            crate::keyidx::lemma_no_key(db0.category_ids(), req.category_id@);
        }
        return Err(ApiError::NotFound);
    }
    let id = new_uuid_string();
    let mut k: usize = 0;
    let n = db.channels.len();
    #[verifier::loop_isolation(false)]
    while k < n
        invariant
            *db == db0,
            n == db.channels@.len(),
            k <= n,
            forall|j: int| 0 <= j < k ==> db0.channel_ids()[j] != id@,
        decreases n - k,
    {
        if str_eq(db.channels[k].id.as_str(), id.as_str()) {
            return Err(ApiError::Internal);
        }
        k = k + 1;
    }
    proof {
        lemma_no_key(db0.channel_ids(), id@);
    }
    // one gap after the category's highest position
    let mut maxp: i64 = 0;
    let mut i: usize = 0;
    proof {
        assert(db.channels@.take(0) =~= Seq::<Channel>::empty());
    }
    #[verifier::loop_isolation(false)]
    while i < n
        invariant
            *db == db0,
            n == db.channels@.len(),
            i <= n,
            maxp == max_channel_pos(db.channels@.take(i as int), req.category_id@),
        decreases n - i,
    {
        proof {
            assert(db.channels@.take(i as int + 1).drop_last() =~= db.channels@.take(i as int));
            assert(db.channels@.take(i as int + 1).last() == db.channels@[i as int]);
        }
        if str_eq(db.channels[i].category_id.as_str(), req.category_id.as_str()) {
            if db.channels[i].position > maxp {
                maxp = db.channels[i].position;
            }
        }
        i = i + 1;
    }
    proof {
        assert(db.channels@.take(n as int) =~= db.channels@);
    }
    if maxp > i64::MAX - POSITION_GAP {
        return Err(ApiError::Internal);
    }
    let position = maxp + POSITION_GAP;
    db.channels.push(
        Channel {
            id: id.clone(),
            name: req.name.clone(),
            channel_type: req.channel_type.clone(),
            category_id: req.category_id.clone(),
            position,
            topic: None,
            max_participants: None,
            created_at: now,
        },
    );
    proof {
        assert(db.channel_ids() =~= db0.channel_ids().push(id@));
        crate::keyidx::lemma_push_fresh(db0.channel_ids(), id@);
        assert(db.channels@.take(db0.channels@.len() as int) =~= db0.channels@);
    }
    Ok(
        ChannelResponse {
            id,
            name: req.name.clone(),
            channel_type: req.channel_type.clone(),
            category_id: req.category_id.clone(),
            position,
            topic: String::new(),
        },
    )
}

/// Rename a channel.
pub fn update_channel(db: &mut ServerDb, channel_id: &str, req: &UpdateChannelRequest) -> (r: Result<
    (),
    ApiError,
>)
    requires
        old(db).wf(),
    ensures
        final(db).wf(),
        r matches Err(e) ==> e == ApiError::NotFound && *final(db) == *old(db),
        r is Ok <==> has_key(old(db).channel_ids(), channel_id@),
        r is Ok ==> exists|i: int|
            {
                &&& 0 <= i < final(db).channels@.len()
                &&& (#[trigger] final(db).channels@[i]).id@ == channel_id@
                &&& final(db).channels@[i].name@ == req.name@
                &&& forall|j: int|
                    0 <= j < old(db).channels@.len() && j != i ==> final(db).channels@[j] == old(
                        db,
                    ).channels@[j]
            },
        final(db).users@ == old(db).users@,
        final(db).categories@ == old(db).categories@,
        final(db).messages@ == old(db).messages@,
        final(db).refresh_tokens@ == old(db).refresh_tokens@,
        final(db).rotation_records@ == old(db).rotation_records@,
        final(db).bans@ == old(db).bans@,
{
    let ghost db0 = *db;
    let mut i: usize = 0;
    let n = db.channels.len();
    #[verifier::loop_isolation(false)]
    while i < n
        invariant
            *db == db0,
            n == db.channels@.len(),
            i <= n,
            forall|j: int| 0 <= j < i ==> db0.channel_ids()[j] != channel_id@,
        decreases n - i,
    {
        if str_eq(db.channels[i].id.as_str(), channel_id) {
            let ch = &db.channels[i];
            let updated = Channel {
                id: ch.id.clone(),
                name: req.name.clone(),
                channel_type: ch.channel_type.clone(),
                category_id: ch.category_id.clone(),
                position: ch.position,
                topic: crate::util::opt_string_clone(&ch.topic),
                max_participants: ch.max_participants,
                created_at: ch.created_at,
            };
            db.channels.set(i, updated);
            proof {
                assert(db.channel_ids() =~= db0.channel_ids());
                assert(db.channels@[i as int].id@ == channel_id@);
                assert(db0.channel_ids()[i as int] == channel_id@);
            }
            return Ok(());
        }
        i = i + 1;
    }
    proof {
        lemma_no_key(db0.channel_ids(), channel_id@);
    }
    Err(ApiError::NotFound)
}

/// Delete a channel; the deleted id no longer resolves.
pub fn delete_channel(db: &mut ServerDb, channel_id: &str) -> (r: Result<(), ApiError>)
    requires
        old(db).wf(),
    ensures
        final(db).wf(),
        r is Ok <==> has_key(old(db).channel_ids(), channel_id@),
        r matches Err(e) ==> e == ApiError::NotFound && *final(db) == *old(db),
        !has_key(final(db).channel_ids(), channel_id@),
        final(db).users@ == old(db).users@,
        final(db).categories@ == old(db).categories@,
        final(db).messages@ == old(db).messages@,
        final(db).refresh_tokens@ == old(db).refresh_tokens@,
        final(db).rotation_records@ == old(db).rotation_records@,
        final(db).bans@ == old(db).bans@,
{
    let ghost db0 = *db;
    let mut i: usize = 0;
    let n = db.channels.len();
    #[verifier::loop_isolation(false)]
    while i < n
        invariant
            *db == db0,
            n == db.channels@.len(),
            i <= n,
            forall|j: int| 0 <= j < i ==> db0.channel_ids()[j] != channel_id@,
        decreases n - i,
    {
        if str_eq(db.channels[i].id.as_str(), channel_id) {
            db.channels.remove(i);
            proof {
                assert(db.channel_ids() =~= db0.channel_ids().remove(i as int));
                crate::keyidx::lemma_remove_at(db0.channel_ids(), i as int);
                assert(db0.channel_ids()[i as int] == channel_id@);
            }
            return Ok(());
        }
        i = i + 1;
    }
    proof {
        lemma_no_key(db0.channel_ids(), channel_id@);
    }
    Err(ApiError::NotFound)
}

/// Create a category one gap after the highest category position.
pub fn create_category(db: &mut ServerDb, req: &CreateCategoryRequest, now: i64) -> (r: Result<
    CategoryResponse,
    ApiError,
>)
    requires
        old(db).wf(),
    ensures
        final(db).wf(),
        r matches Err(_) ==> *final(db) == *old(db),
        max_category_pos(old(db).categories@) <= i64::MAX - POSITION_GAP ==> (r is Ok || r
            == Err::<CategoryResponse, ApiError>(ApiError::Internal)),
        r matches Err(e) ==> e == ApiError::Internal,
        r matches Ok(out) ==> {
            &&& final(db).categories@.len() == old(db).categories@.len() + 1
            &&& final(db).categories@.last().name@ == req.name@
            &&& final(db).categories@.last().position == max_category_pos(old(db).categories@)
                + POSITION_GAP
            &&& out.position == final(db).categories@.last().position
        },
        final(db).users@ == old(db).users@,
        final(db).channels@ == old(db).channels@,
        final(db).messages@ == old(db).messages@,
        final(db).refresh_tokens@ == old(db).refresh_tokens@,
        final(db).rotation_records@ == old(db).rotation_records@,
        final(db).bans@ == old(db).bans@,
{
    let ghost db0 = *db;
    let id = new_uuid_string();
    let mut k: usize = 0;
    let n = db.categories.len();
    #[verifier::loop_isolation(false)]
    while k < n
        invariant
            *db == db0,
            n == db.categories@.len(),
            k <= n,
            forall|j: int| 0 <= j < k ==> db0.category_ids()[j] != id@,
        decreases n - k,
    {
        if str_eq(db.categories[k].id.as_str(), id.as_str()) {
            return Err(ApiError::Internal);
        }
        k = k + 1;
    }
    proof {
        lemma_no_key(db0.category_ids(), id@);
    }
    let mut maxp: i64 = 0;
    let mut i: usize = 0;
    proof {
        assert(db.categories@.take(0) =~= Seq::<Category>::empty());
    }
    #[verifier::loop_isolation(false)]
    while i < n
        invariant
            *db == db0,
            n == db.categories@.len(),
            i <= n,
            maxp == max_category_pos(db.categories@.take(i as int)),
        decreases n - i,
    {
        proof {
            assert(db.categories@.take(i as int + 1).drop_last() =~= db.categories@.take(i as int));
            assert(db.categories@.take(i as int + 1).last() == db.categories@[i as int]);
        }
        if db.categories[i].position > maxp {
            maxp = db.categories[i].position;
        }
        i = i + 1;
    }
    proof {
        assert(db.categories@.take(n as int) =~= db.categories@);
    }
    if maxp > i64::MAX - POSITION_GAP {
        return Err(ApiError::Internal);
    }
    let position = maxp + POSITION_GAP;
    db.categories.push(Category { id: id.clone(), name: req.name.clone(), position, created_at: now });
    proof {
        assert(db.category_ids() =~= db0.category_ids().push(id@));
        crate::keyidx::lemma_push_fresh(db0.category_ids(), id@);
    }
    Ok(CategoryResponse { id, name: req.name.clone(), position })
}

/// Delete a category; refused while channels still live in it.
pub fn delete_category(db: &mut ServerDb, category_id: &str) -> (r: Result<(), ApiError>)
    requires
        old(db).wf(),
    ensures
        final(db).wf(),
        r matches Err(e) ==> *final(db) == *old(db) && (e == ApiError::NotFound || e
            == ApiError::BadRequest),
        ({
            let occupied = exists|j: int|
                0 <= j < old(db).channels@.len() && (#[trigger] old(db).channels@[j]).category_id@
                    == category_id@;
            &&& (occupied ==> r == Err::<(), ApiError>(ApiError::BadRequest))
            &&& (r is Ok <==> (!occupied && has_key(old(db).category_ids(), category_id@)))
            &&& (!occupied && !has_key(old(db).category_ids(), category_id@) ==> r == Err::<
                (),
                ApiError,
            >(ApiError::NotFound))
        }),
        r is Ok ==> !has_key(final(db).category_ids(), category_id@),
        final(db).users@ == old(db).users@,
        final(db).channels@ == old(db).channels@,
        final(db).messages@ == old(db).messages@,
        final(db).refresh_tokens@ == old(db).refresh_tokens@,
        final(db).rotation_records@ == old(db).rotation_records@,
        final(db).bans@ == old(db).bans@,
{
    let ghost db0 = *db;
    let mut j: usize = 0;
    let nch = db.channels.len();
    #[verifier::loop_isolation(false)]
    while j < nch
        invariant
            *db == db0,
            nch == db.channels@.len(),
            j <= nch,
            forall|q: int|
                0 <= q < j ==> (#[trigger] db.channels@[q]).category_id@ != category_id@,
        decreases nch - j,
    {
        if str_eq(db.channels[j].category_id.as_str(), category_id) {
            return Err(ApiError::BadRequest);
        }
        j = j + 1;
    }
    let mut i: usize = 0;
    let n = db.categories.len();
    #[verifier::loop_isolation(false)]
    while i < n
        invariant
            *db == db0,
            n == db.categories@.len(),
            i <= n,
            forall|q: int| 0 <= q < i ==> db0.category_ids()[q] != category_id@,
        decreases n - i,
    {
        if str_eq(db.categories[i].id.as_str(), category_id) {
            db.categories.remove(i);
            proof {
                assert(db.category_ids() =~= db0.category_ids().remove(i as int));
                crate::keyidx::lemma_remove_at(db0.category_ids(), i as int);
            }
            return Ok(());
        }
        i = i + 1;
    }
    proof {
        lemma_no_key(db0.category_ids(), category_id@);
    }
    Err(ApiError::NotFound)
}

/// The position the batch assigns to a channel id: that of the last
/// entry naming it, if any.
pub open spec fn entry_pos(entries: Seq<ReorderEntry>, id: Seq<char>) -> Option<i64>
    decreases entries.len(),
{
    if entries.len() == 0 {
        None
    } else if entries.last().id@ == id {
        Some(entries.last().position)
    } else {
        entry_pos(entries.drop_last(), id)
    }
}

/// One channel after a position change: every other field kept.
pub open spec fn repositioned(pre_c: Channel, post_c: Channel, p: i64) -> bool {
    &&& post_c.id@ == pre_c.id@
    &&& post_c.name@ == pre_c.name@
    &&& post_c.channel_type@ == pre_c.channel_type@
    &&& post_c.category_id@ == pre_c.category_id@
    &&& post_c.position == p
    &&& (match pre_c.topic {
        Some(t) => post_c.topic matches Some(w) && w@ == t@,
        None => post_c.topic is None,
    })
    &&& post_c.max_participants == pre_c.max_participants
    &&& post_c.created_at == pre_c.created_at
}

/// Apply a batch of sparse positions to channels by id: every channel a
/// batch entry names takes the position of the last entry naming it,
/// every other channel is untouched; unknown ids are skipped, as the row
/// updates would be.
pub fn reorder_channels(db: &mut ServerDb, req: &ReorderRequest)
    requires
        old(db).wf(),
    ensures
        final(db).wf(),
        final(db).channels@.len() == old(db).channels@.len(),
        final(db).channel_ids() == old(db).channel_ids(),
        forall|j: int|
            0 <= j < old(db).channels@.len() ==> (match entry_pos(
                req.entries@,
                (#[trigger] old(db).channels@[j]).id@,
            ) {
                Some(p) => repositioned(old(db).channels@[j], final(db).channels@[j], p),
                None => final(db).channels@[j] == old(db).channels@[j],
            }),
        final(db).users@ == old(db).users@,
        final(db).categories@ == old(db).categories@,
        final(db).messages@ == old(db).messages@,
        final(db).refresh_tokens@ == old(db).refresh_tokens@,
        final(db).rotation_records@ == old(db).rotation_records@,
        final(db).bans@ == old(db).bans@,
{
    let ghost db0 = *db;
    let mut e: usize = 0;
    let m = req.entries.len();
    proof {
        assert(req.entries@.take(0) =~= Seq::<ReorderEntry>::empty());
    }
    #[verifier::loop_isolation(false)]
    while e < m
        invariant
            m == req.entries@.len(),
            e <= m,
            db.channels@.len() == db0.channels@.len(),
            db.channel_ids() == db0.channel_ids(),
            forall|j: int|
                0 <= j < db0.channels@.len() ==> (match entry_pos(
                    req.entries@.take(e as int),
                    (#[trigger] db0.channels@[j]).id@,
                ) {
                    Some(p) => repositioned(db0.channels@[j], db.channels@[j], p),
                    None => db.channels@[j] == db0.channels@[j],
                }),
            db.users@ == db0.users@,
            db.categories@ == db0.categories@,
            db.messages@ == db0.messages@,
            db.refresh_tokens@ == db0.refresh_tokens@,
            db.rotation_records@ == db0.rotation_records@,
            db.bans@ == db0.bans@,
            db.invites@ == db0.invites@,
            db.server_settings@ == db0.server_settings@,
            db.roles@ == db0.roles@,
            db.user_roles@ == db0.user_roles@,
            db.identity_blobs@ == db0.identity_blobs@,
            db.reactions@ == db0.reactions@,
            db.last_read@ == db0.last_read@,
            db.dm_conversations@ == db0.dm_conversations@,
            db.dm_messages@ == db0.dm_messages@,
            db.dm_public_keys@ == db0.dm_public_keys@,
            db.dm_offline_queue@ == db0.dm_offline_queue@,
            db.blocks@ == db0.blocks@,
            db.next_message_id == db0.next_message_id,
            db.wf(),
        decreases m - e,
    {
        proof {
            assert(req.entries@.take(e as int + 1).drop_last() =~= req.entries@.take(e as int));
            assert(req.entries@.take(e as int + 1).last() == req.entries@[e as int]);
        }
        let ghost before = *db;
        let mut i: usize = 0;
        let n = db.channels.len();
        let mut hit = false;
        #[verifier::loop_isolation(false)]
        while i < n
            invariant
                *db == before,
                n == db.channels@.len(),
                i <= n,
                0 <= (e as int) < req.entries@.len(),
                !hit,
                forall|q: int| 0 <= q < i ==> db0.channel_ids()[q] != req.entries@[e as int].id@,
            decreases n - i,
        {
            if str_eq(db.channels[i].id.as_str(), req.entries[e].id.as_str()) {
                let ch = &db.channels[i];
                let updated = Channel {
                    id: ch.id.clone(),
                    name: ch.name.clone(),
                    channel_type: ch.channel_type.clone(),
                    category_id: ch.category_id.clone(),
                    position: req.entries[e].position,
                    topic: crate::util::opt_string_clone(&ch.topic),
                    max_participants: ch.max_participants,
                    created_at: ch.created_at,
                };
                db.channels.set(i, updated);
                hit = true;
                proof {
                    assert(db.channel_ids() =~= before.channel_ids());
                    assert(db0.channel_ids()[i as int] == req.entries@[e as int].id@);
                    assert(repositioned(
                        before.channels@[i as int],
                        db.channels@[i as int],
                        req.entries@[e as int].position,
                    ));
                    assert forall|j: int|
                        0 <= j < db0.channels@.len() implies (match entry_pos(
                        req.entries@.take(e as int + 1),
                        (#[trigger] db0.channels@[j]).id@,
                    ) {
                        Some(p) => repositioned(db0.channels@[j], db.channels@[j], p),
                        None => db.channels@[j] == db0.channels@[j],
                    }) by {
                        assert(db0.channel_ids()[j] == db0.channels@[j].id@);
                        if j == i as int {
                            match entry_pos(req.entries@.take(e as int), db0.channels@[j].id@) {
                                Some(p0) => {
                                    assert(repositioned(db0.channels@[j], before.channels@[j], p0));
                                },
                                None => {
                                    assert(before.channels@[j] == db0.channels@[j]);
                                },
                            }
                        } else {
                            assert(db0.channel_ids()[j] != db0.channel_ids()[i as int]);
                            assert(db.channels@[j] == before.channels@[j]);
                        }
                    }
                }
                break ;
            }
            i = i + 1;
        }
        proof {
            if !hit {
                crate::keyidx::lemma_no_key(db0.channel_ids(), req.entries@[e as int].id@);
                assert forall|j: int|
                    0 <= j < db0.channels@.len() implies (match entry_pos(
                    req.entries@.take(e as int + 1),
                    (#[trigger] db0.channels@[j]).id@,
                ) {
                    Some(p) => repositioned(db0.channels@[j], db.channels@[j], p),
                    None => db.channels@[j] == db0.channels@[j],
                }) by {
                    assert(db0.channel_ids()[j] == db0.channels@[j].id@);
                    assert(db0.channels@[j].id@ != req.entries@[e as int].id@);
                }
            }
        }
        e = e + 1;
    }
    proof {
        assert(req.entries@.take(m as int) =~= req.entries@);
    }
}

/// Every category with its channels, read from the store rows./// Every category with its channels, read from the store rows.
pub fn list_channels(db: &ServerDb) -> (r: ChannelListResponse)
    requires
        db.wf(),
    ensures
        r.categories@.len() == db.categories@.len(),
{
    let mut out: Vec<CategoryWithChannelsResponse> = Vec::new();
    let mut c: usize = 0;
    let nc = db.categories.len();
    #[verifier::loop_isolation(false)]
    while c < nc
        invariant
            nc == db.categories@.len(),
            c <= nc,
            out@.len() == c,
        decreases nc - c,
    {
        let cat = &db.categories[c];
        let mut chans: Vec<ChannelResponse> = Vec::new();
        let mut i: usize = 0;
        let n = db.channels.len();
        #[verifier::loop_isolation(false)]
        while i < n
            invariant
                n == db.channels@.len(),
                i <= n,
                0 <= (c as int) < db.categories@.len(),
            decreases n - i,
        {
            let ch = &db.channels[i];
            if str_eq(ch.category_id.as_str(), db.categories[c].id.as_str()) {
                let topic = match &ch.topic {
                    Some(t) => t.clone(),
                    None => String::new(),
                };
                chans.push(
                    ChannelResponse {
                        id: ch.id.clone(),
                        name: ch.name.clone(),
                        channel_type: ch.channel_type.clone(),
                        category_id: ch.category_id.clone(),
                        position: ch.position,
                        topic,
                    },
                );
            }
            i = i + 1;
        }
        out.push(
            CategoryWithChannelsResponse {
                category: CategoryResponse {
                    id: cat.id.clone(),
                    name: cat.name.clone(),
                    position: cat.position,
                },
                channels: chans,
            },
        );
        c = c + 1;
    }
    ChannelListResponse { categories: out }
}

} // verus!
