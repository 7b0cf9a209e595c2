pub mod admin;
pub mod auth;
pub mod blocks;
pub mod channels;
pub mod config;
pub mod chat;
pub mod dm;
pub mod errors;
pub mod gossip;
pub mod hexcodec;
pub mod identity;
pub mod invites;
pub mod keyidx;
pub mod models;
pub mod moderation;
pub mod state;
pub mod perms;
pub mod presence;
pub mod roles;
pub mod totp;
pub mod trusted;
pub mod util;
pub mod voice;

use vstd::prelude::*;

verus! {

} // verus!
