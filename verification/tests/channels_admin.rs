//! Channel and category management, the starter template, invite landing
//! pages and the configuration surface.

use united_server::channels::{
    create_category, create_channel, delete_category, delete_channel, list_channels,
    reorder_channels, seed_starter_template, update_channel, CreateCategoryRequest,
    CreateChannelRequest, ReorderEntry, ReorderRequest, UpdateChannelRequest,
};
use united_server::config::{generate_config_template, Config, P2pConfig, BlocksConfig, TurnConfig, PeerDirectory};
use united_server::errors::ApiError;
use united_server::invites::{create_invite, html_escape, invite_landing_page, list_invites};
use united_server::state::ServerDb;

#[test]
fn starter_template_seeds_once() {
    let mut db = ServerDb::new();
    seed_starter_template(&mut db, 100).unwrap();
    assert_eq!(db.categories.len(), 2);
    assert_eq!(db.categories[0].name, "General");
    assert_eq!(db.categories[1].name, "Voice");
    assert_eq!(db.channels.len(), 3);
    assert_eq!(db.channels[0].name, "general");
    assert_eq!(db.channels[1].name, "introductions");
    assert_eq!(db.channels[2].channel_type, "voice");
    // idempotent: a second seed is a no-op
    seed_starter_template(&mut db, 200).unwrap();
    assert_eq!(db.categories.len(), 2);
}

#[test]
fn channel_crud_positions_and_rename() {
    let mut db = ServerDb::new();
    let cat = create_category(&mut db, &CreateCategoryRequest { name: "New Category".to_string() }, 100)
        .unwrap();
    assert_eq!(cat.position, 1000);

    let ch1 = create_channel(
        &mut db,
        &CreateChannelRequest {
            name: "test-channel".to_string(),
            channel_type: "text".to_string(),
            category_id: cat.id.clone(),
        },
        200,
    )
    .unwrap();
    assert_eq!(ch1.position, 1000);
    let ch2 = create_channel(
        &mut db,
        &CreateChannelRequest {
            name: "second".to_string(),
            channel_type: "voice".to_string(),
            category_id: cat.id.clone(),
        },
        300,
    )
    .unwrap();
    assert_eq!(ch2.position, 2000);

    // unknown category and bad type are rejected
    assert_eq!(
        create_channel(
            &mut db,
            &CreateChannelRequest {
                name: "x".to_string(),
                channel_type: "text".to_string(),
                category_id: "missing".to_string(),
            },
            400,
        )
        .unwrap_err(),
        ApiError::NotFound
    );
    assert_eq!(
        create_channel(
            &mut db,
            &CreateChannelRequest {
                name: "x".to_string(),
                channel_type: "video".to_string(),
                category_id: cat.id.clone(),
            },
            400,
        )
        .unwrap_err(),
        ApiError::BadRequest
    );

    update_channel(&mut db, &ch1.id, &UpdateChannelRequest { name: "renamed".to_string() }).unwrap();
    let listing = list_channels(&db);
    assert_eq!(listing.categories.len(), 1);
    assert_eq!(listing.categories[0].channels.len(), 2);
    assert_eq!(listing.categories[0].channels[0].name, "renamed");

    reorder_channels(
        &mut db,
        &ReorderRequest {
            entries: vec![
                ReorderEntry { id: ch1.id.clone(), position: 5000 },
                ReorderEntry { id: ch2.id.clone(), position: 1000 },
            ],
        },
    );
    assert_eq!(db.channels[0].position, 5000);
    assert_eq!(db.channels[1].position, 1000);

    // a category with channels cannot be deleted; an emptied one can
    assert_eq!(delete_category(&mut db, &cat.id).unwrap_err(), ApiError::BadRequest);
    delete_channel(&mut db, &ch1.id).unwrap();
    delete_channel(&mut db, &ch2.id).unwrap();
    assert_eq!(delete_channel(&mut db, &ch2.id).unwrap_err(), ApiError::NotFound);
    delete_category(&mut db, &cat.id).unwrap();
    assert_eq!(list_channels(&db).categories.len(), 0);
}

#[test]
fn invite_landing_page_escapes_and_links() {
    let mut db = ServerDb::new();
    create_invite(&mut db, "WELCOME1".to_string(), "creator", None, None, 100).unwrap();
    let page = invite_landing_page(&db, "WELCOME1", "My <Server>", "a & b", 200).unwrap();
    assert!(page.contains("UNITED"));
    assert!(page.contains("united://invite/WELCOME1"));
    assert!(page.contains("My &lt;Server&gt;"));
    assert!(page.contains("a &amp; b"));
    assert_eq!(
        invite_landing_page(&db, "NOPE", "n", "d", 200).unwrap_err(),
        ApiError::NotFound
    );
    assert_eq!(html_escape("<&\"'>"), "&lt;&amp;&quot;&#39;&gt;");
}

#[test]
fn invites_are_listed_with_zero_defaults() {
    let mut db = ServerDb::new();
    create_invite(&mut db, "LISTCODE".to_string(), "creator", Some(5), None, 100).unwrap();
    create_invite(&mut db, "LISTCOD2".to_string(), "creator", None, Some(900), 200).unwrap();
    let listing = list_invites(&db);
    assert_eq!(listing.invites.len(), 2);
    assert_eq!(listing.invites[0].code, "LISTCODE");
    assert_eq!(listing.invites[0].max_uses, 5);
    assert_eq!(listing.invites[0].expires_at, 0);
    assert_eq!(listing.invites[1].max_uses, 0);
    assert_eq!(listing.invites[1].expires_at, 900);
}

#[test]
fn config_defaults_and_template() {
    let c = Config::default();
    assert_eq!(c.port, 1984);
    assert_eq!(c.bind_address, "0.0.0.0");
    assert_eq!(c.registration_mode, "open");
    let p = P2pConfig::default();
    assert_eq!(p.libp2p_port, 1985);
    assert_eq!(p.gossipsub_mesh_n, 4);
    assert_eq!(p.gossipsub_mesh_n_low, 3);
    assert_eq!(p.gossipsub_mesh_n_high, 8);
    assert_eq!(p.gossipsub_max_transmit_size, 65536);
    let b = BlocksConfig::default();
    assert_eq!(b.retention_days, 30);
    assert_eq!(b.cleanup_interval_secs, 3600);
    assert_eq!(b.max_upload_size_mb, 100);
    let t = TurnConfig::default();
    assert!(!t.enabled);
    assert_eq!(t.port, 3478);
    assert_eq!(t.credential_ttl_secs, 86400);
    let tpl = generate_config_template();
    assert!(tpl.contains("registration_mode"));
    assert!(tpl.contains("libp2p_port = 1985"));
}

#[test]
fn peer_directory_tracks_channels_and_bindings() {
    let mut dir = PeerDirectory::new();
    dir.add_channel("peer-1", "chan-a", 100);
    dir.register_peer("peer-1", "fp-1", 200);
    dir.add_channel("peer-2", "chan-b", 300);
    dir.register_peer("peer-2", "fp-2", 400);

    let hits = dir.get_peers_for_channels(&vec!["chan-a".to_string()]);
    assert_eq!(hits.len(), 1);
    assert_eq!(hits[0].united_id, "fp-1");
    assert_eq!(hits[0].peer_id, "peer-1");

    dir.unregister_peer("peer-1");
    let hits2 = dir.get_peers_for_channels(&vec!["chan-a".to_string()]);
    assert_eq!(hits2.len(), 0);
}
