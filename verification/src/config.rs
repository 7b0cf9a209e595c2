//! Configuration shapes and their defaults: server, block store, TURN
//! relay and the peer-to-peer mesh. Loading from file, environment and
//! command line happens at the transport edge; the defaults and the
//! template live here.

use vstd::prelude::*;
use crate::util::string_from_ascii;

verus! {

pub struct Config {
    pub port: u16,
    pub bind_address: String,
    pub config: String,
    pub json_logs: bool,
    pub generate_config: bool,
    pub data_dir: String,
    pub registration_mode: String,
    pub p2p: Option<P2pConfig>,
    pub blocks: Option<BlocksConfig>,
    pub turn: Option<TurnConfig>,
}

/// Configuration of the content-addressed block store.
pub struct BlocksConfig {
    pub retention_days: u32,
    pub cleanup_interval_secs: u64,
    pub max_upload_size_mb: u32,
}

/// Configuration of the TURN relay for voice.
pub struct TurnConfig {
    pub enabled: bool,
    pub host: String,
    pub port: u16,
    pub shared_secret: String,
    pub credential_ttl_secs: u64,
}

/// Configuration of the libp2p mesh.
pub struct P2pConfig {
    pub libp2p_port: u16,
    pub gossipsub_mesh_n: usize,
    pub gossipsub_mesh_n_low: usize,
    pub gossipsub_mesh_n_high: usize,
    pub gossipsub_max_transmit_size: usize,
    pub relay_max_circuits: usize,
    pub relay_max_circuits_per_peer: usize,
    pub relay_max_circuit_duration_secs: u64,
    pub relay_max_circuit_bytes: u64,
}

pub fn default_retention_days() -> (r: u32)
    ensures
        r == 30,
{
    30
}

pub fn default_cleanup_interval() -> (r: u64)
    ensures
        r == 3600,
{
    3600
}

pub fn default_max_upload_size() -> (r: u32)
    ensures
        r == 100,
{
    100
}

pub fn default_turn_host() -> (r: String)
    ensures
        r@ == "127.0.0.1"@,
{
    String::from_str("127.0.0.1")
}

pub fn default_turn_port() -> (r: u16)
    ensures
        r == 3478,
{
    3478
}

pub fn default_credential_ttl() -> (r: u64)
    ensures
        r == 86400,
{
    86400
}

pub fn default_libp2p_port() -> (r: u16)
    ensures
        r == 1985,
{
    1985
}

pub fn default_gossipsub_mesh_n() -> (r: usize)
    ensures
        r == 4,
{
    4
}

pub fn default_gossipsub_mesh_n_low() -> (r: usize)
    ensures
        r == 3,
{
    3
}

pub fn default_gossipsub_mesh_n_high() -> (r: usize)
    ensures
        r == 8,
{
    8
}

pub fn default_gossipsub_max_transmit_size() -> (r: usize)
    ensures
        r == 65536,
{
    65536
}

pub fn default_relay_max_circuits() -> (r: usize)
    ensures
        r == 64,
{
    64
}

pub fn default_relay_max_circuits_per_peer() -> (r: usize)
    ensures
        r == 8,
{
    8
}

pub fn default_relay_max_circuit_duration_secs() -> (r: u64)
    ensures
        r == 1800,
{
    1800
}

pub fn default_relay_max_circuit_bytes() -> (r: u64)
    ensures
        r == 10485760,
{
    10485760
}

impl Default for BlocksConfig {
    fn default() -> (r: BlocksConfig)
        ensures
            r.retention_days == 30,
            r.cleanup_interval_secs == 3600,
            r.max_upload_size_mb == 100,
    {
        BlocksConfig { retention_days: 30, cleanup_interval_secs: 3600, max_upload_size_mb: 100 }
    }
}

impl Default for TurnConfig {
    fn default() -> (r: TurnConfig)
        ensures
            !r.enabled,
            r.port == 3478,
            r.credential_ttl_secs == 86400,
            r.host@ == "127.0.0.1"@,
            r.shared_secret@.len() == 0,
    {
        TurnConfig {
            enabled: false,
            host: String::from_str("127.0.0.1"),
            port: 3478,
            shared_secret: String::new(),
            credential_ttl_secs: 86400,
        }
    }
}

impl Default for P2pConfig {
    fn default() -> (r: P2pConfig)
        ensures
            r.libp2p_port == 1985,
            r.gossipsub_mesh_n == 4,
            r.gossipsub_mesh_n_low == 3,
            r.gossipsub_mesh_n_high == 8,
            r.gossipsub_max_transmit_size == 65536,
            r.relay_max_circuits == 64,
            r.relay_max_circuits_per_peer == 8,
            r.relay_max_circuit_duration_secs == 1800,
            r.relay_max_circuit_bytes == 10485760,
    {
        P2pConfig {
            libp2p_port: 1985,
            gossipsub_mesh_n: 4,
            gossipsub_mesh_n_low: 3,
            gossipsub_mesh_n_high: 8,
            gossipsub_max_transmit_size: 65536,
            relay_max_circuits: 64,
            relay_max_circuits_per_peer: 8,
            relay_max_circuit_duration_secs: 1800,
            relay_max_circuit_bytes: 10485760,
        }
    }
}

pub fn default_p2p_config() -> (r: Option<P2pConfig>)
    ensures
        r matches Some(c) && c.libp2p_port == 1985,
{
    Some(P2pConfig::default())
}

impl Default for Config {
    fn default() -> (r: Config)
        ensures
            r.port == 1984,
            r.bind_address@ == "0.0.0.0"@,
            r.registration_mode@ == "open"@,
            r.data_dir@ == "./data"@,
            !r.json_logs,
            !r.generate_config,
    {
        Config {
            port: 1984,
            bind_address: String::from_str("0.0.0.0"),
            config: String::from_str("./united.toml"),
            json_logs: false,
            generate_config: false,
            data_dir: String::from_str("./data"),
            registration_mode: String::from_str("open"),
            p2p: Some(P2pConfig::default()),
            blocks: None,
            turn: None,
        }
    }
}

/// An annotated configuration template, emitted by the flag that prints
/// it and exits.
pub fn generate_config_template() -> (r: String)
    ensures
        r@.len() > 0,
{
    let mut out = String::from_str("# Coordination server configuration\n");
    out.append("# Place this file beside the binary or name it with --config <path>\n");
    out.append("# Every setting can also come from the environment or the command line\n\n");
    out.append("# Server port (default: 1984)\n# port = 1984\n\n");
    out.append("# Bind address (default: 0.0.0.0)\n# bind_address = \"0.0.0.0\"\n\n");
    out.append("# Structured JSON logging\n# json_logs = false\n\n");
    out.append("# Data directory for the store and key files\n# data_dir = \"./data\"\n\n");
    out.append("# Registration mode: \"open\" or \"invite-only\"\n# registration_mode = \"open\"\n\n");
    out.append("# [p2p]\n# libp2p_port = 1985\n# gossipsub_mesh_n = 4\n");
    out.append("# gossipsub_mesh_n_low = 3\n# gossipsub_mesh_n_high = 8\n");
    out.append("# gossipsub_max_transmit_size = 65536\n\n");
    out.append("# [blocks]\n# retention_days = 30\n# cleanup_interval_secs = 3600\n");
    out.append("# max_upload_size_mb = 100\n\n");
    out.append("# [turn]\n# enabled = false\n# host = \"127.0.0.1\"\n# port = 3478\n");
    out.append("# shared_secret = \"\"\n# credential_ttl_secs = 86400\n");
    proof {
        reveal_strlit("# Coordination server configuration\n");
    }
    out
}

// --- Peer directory ---

/// One peer's standing in the directory.
pub struct PeerDirectoryEntry {
    pub peer_id: String,
    pub united_id: Option<String>,
    pub multiaddrs: Vec<String>,
    pub channels: Vec<String>,
    pub nat_type: String,
    pub last_seen: i64,
}

/// Directory entry rendered for a response.
pub struct PeerDirectoryInfo {
    pub united_id: String,
    pub peer_id: String,
    pub multiaddrs: Vec<String>,
    pub channels: Vec<String>,
    pub nat_type: String,
}

/// The process-wide peer directory joining libp2p peer ids with platform
/// fingerprints and channel subscriptions.
pub struct PeerDirectory {
    pub entries: Vec<PeerDirectoryEntry>,
}

impl PeerDirectory {
    pub open spec fn key_seq(self) -> Seq<Seq<char>> {
        self.entries@.map_values(|e: PeerDirectoryEntry| e.peer_id@)
    }

    pub open spec fn wf(self) -> bool {
        crate::keyidx::keys_unique(self.key_seq())
    }

    pub fn new() -> (r: PeerDirectory)
        ensures
            r.wf(),
            r.entries@.len() == 0,
    {
        PeerDirectory { entries: Vec::new() }
    }

    /// Bind a platform fingerprint to a peer id, creating the entry if
    /// the peer is new.
    pub fn register_peer(&mut self, peer_id: &str, united_id: &str, now: i64)
        requires
            old(self).wf(),
        ensures
            final(self).wf(),
            exists|i: int|
                {
                    &&& 0 <= i < final(self).entries@.len()
                    &&& (#[trigger] final(self).entries@[i]).peer_id@ == peer_id@
                    &&& final(self).entries@[i].united_id matches Some(u) && u@ == united_id@
                },
    {
        let ghost pre = *self;
        let mut i: usize = 0;
        let n = self.entries.len();
        #[verifier::loop_isolation(false)]
        while i < n
            invariant
                *self == pre,
                n == self.entries@.len(),
                i <= n,
                forall|j: int| 0 <= j < i ==> pre.key_seq()[j] != peer_id@,
            decreases n - i,
        {
            if crate::util::str_eq(self.entries[i].peer_id.as_str(), peer_id) {
                let e = &self.entries[i];
                let updated = PeerDirectoryEntry {
                    peer_id: e.peer_id.clone(),
                    united_id: Some(String::from_str(united_id)),
                    multiaddrs: clone_strings(&e.multiaddrs),
                    channels: clone_strings(&e.channels),
                    nat_type: e.nat_type.clone(),
                    last_seen: now,
                };
                self.entries.set(i, updated);
                proof {
                    assert(self.key_seq() =~= pre.key_seq());
                    assert(self.entries@[i as int].peer_id@ == peer_id@);
                }
                return ;
            }
            i = i + 1;
        }
        proof {
            crate::keyidx::lemma_no_key(pre.key_seq(), peer_id@);
        }
        self.entries.push(
            PeerDirectoryEntry {
                peer_id: String::from_str(peer_id),
                united_id: Some(String::from_str(united_id)),
                multiaddrs: Vec::new(),
                channels: Vec::new(),
                nat_type: String::new(),
                last_seen: now,
            },
        );
        proof {
            assert(self.key_seq() =~= pre.key_seq().push(peer_id@));
            crate::keyidx::lemma_push_fresh(pre.key_seq(), peer_id@);
            assert(self.entries@.last().peer_id@ == peer_id@);
        }
    }

    /// Drop a peer on disconnect.
    pub fn unregister_peer(&mut self, peer_id: &str)
        requires
            old(self).wf(),
        ensures
            final(self).wf(),
            forall|i: int|
                0 <= i < final(self).entries@.len() ==> (#[trigger] final(self).entries@[i]).peer_id@
                    != peer_id@,
    {
        let ghost pre = *self;
        let mut i: usize = 0;
        let n = self.entries.len();
        #[verifier::loop_isolation(false)]
        while i < n
            invariant
                *self == pre,
                n == self.entries@.len(),
                i <= n,
                forall|j: int| 0 <= j < i ==> pre.key_seq()[j] != peer_id@,
            decreases n - i,
        {
            if crate::util::str_eq(self.entries[i].peer_id.as_str(), peer_id) {
                self.entries.remove(i);
                proof {
                    assert(self.key_seq() =~= pre.key_seq().remove(i as int));
                    crate::keyidx::lemma_remove_at(pre.key_seq(), i as int);
                    assert forall|k: int|
                        0 <= k < self.entries@.len() implies (#[trigger] self.entries@[k]).peer_id@
                        != peer_id@ by {
                        assert(self.key_seq()[k] == self.entries@[k].peer_id@);
                        assert(!crate::keyidx::has_key(self.key_seq(), peer_id@));
                    }
                }
                return ;
            }
            i = i + 1;
        }
        proof {
            assert forall|k: int|
                0 <= k < self.entries@.len() implies (#[trigger] self.entries@[k]).peer_id@
                != peer_id@ by {
                assert(pre.key_seq()[k] == pre.entries@[k].peer_id@);
            }
        }
    }

    /// Record a gossipsub subscription.
    pub fn add_channel(&mut self, peer_id: &str, channel: &str, now: i64)
        requires
            old(self).wf(),
        ensures
            final(self).wf(),
    {
        let ghost pre = *self;
        let mut i: usize = 0;
        let n = self.entries.len();
        #[verifier::loop_isolation(false)]
        while i < n
            invariant
                *self == pre,
                n == self.entries@.len(),
                i <= n,
                forall|j: int| 0 <= j < i ==> pre.key_seq()[j] != peer_id@,
            decreases n - i,
        {
            if crate::util::str_eq(self.entries[i].peer_id.as_str(), peer_id) {
                let e = &self.entries[i];
                let mut chans = clone_strings(&e.channels);
                chans.push(String::from_str(channel));
                let updated = PeerDirectoryEntry {
                    peer_id: e.peer_id.clone(),
                    united_id: crate::util::opt_string_clone(&e.united_id),
                    multiaddrs: clone_strings(&e.multiaddrs),
                    channels: chans,
                    nat_type: e.nat_type.clone(),
                    last_seen: now,
                };
                self.entries.set(i, updated);
                proof {
                    assert(self.key_seq() =~= pre.key_seq());
                }
                return ;
            }
            i = i + 1;
        }
        proof {
            crate::keyidx::lemma_no_key(pre.key_seq(), peer_id@);
        }
        let mut chans: Vec<String> = Vec::new();
        chans.push(String::from_str(channel));
        self.entries.push(
            PeerDirectoryEntry {
                peer_id: String::from_str(peer_id),
                united_id: None,
                multiaddrs: Vec::new(),
                channels: chans,
                nat_type: String::new(),
                last_seen: now,
            },
        );
        proof {
            assert(self.key_seq() =~= pre.key_seq().push(peer_id@));
            crate::keyidx::lemma_push_fresh(pre.key_seq(), peer_id@);
        }
    }

    /// Replace a peer's known addresses, creating the entry if new.
    pub fn update_multiaddrs(&mut self, peer_id: &str, multiaddrs: Vec<String>, now: i64)
        requires
            old(self).wf(),
        ensures
            final(self).wf(),
    {
        let ghost pre = *self;
        let mut i: usize = 0;
        let n = self.entries.len();
        #[verifier::loop_isolation(false)]
        while i < n
            invariant
                *self == pre,
                n == self.entries@.len(),
                i <= n,
                forall|j: int| 0 <= j < i ==> pre.key_seq()[j] != peer_id@,
            decreases n - i,
        {
            if crate::util::str_eq(self.entries[i].peer_id.as_str(), peer_id) {
                let e = &self.entries[i];
                let updated = PeerDirectoryEntry {
                    peer_id: e.peer_id.clone(),
                    united_id: crate::util::opt_string_clone(&e.united_id),
                    multiaddrs,
                    channels: clone_strings(&e.channels),
                    nat_type: e.nat_type.clone(),
                    last_seen: now,
                };
                self.entries.set(i, updated);
                proof {
                    assert(self.key_seq() =~= pre.key_seq());
                }
                return ;
            }
            i = i + 1;
        }
        proof {
            crate::keyidx::lemma_no_key(pre.key_seq(), peer_id@);
        }
        self.entries.push(
            PeerDirectoryEntry {
                peer_id: String::from_str(peer_id),
                united_id: None,
                multiaddrs,
                channels: Vec::new(),
                nat_type: String::new(),
                last_seen: now,
            },
        );
        proof {
            assert(self.key_seq() =~= pre.key_seq().push(peer_id@));
            crate::keyidx::lemma_push_fresh(pre.key_seq(), peer_id@);
        }
    }

    /// Record a peer's observed NAT type.
    pub fn update_nat_type(&mut self, peer_id: &str, nat_type: &str, now: i64)
        requires
            old(self).wf(),
        ensures
            final(self).wf(),
    {
        let ghost pre = *self;
        let mut i: usize = 0;
        let n = self.entries.len();
        #[verifier::loop_isolation(false)]
        while i < n
            invariant
                *self == pre,
                n == self.entries@.len(),
                i <= n,
                forall|j: int| 0 <= j < i ==> pre.key_seq()[j] != peer_id@,
            decreases n - i,
        {
            if crate::util::str_eq(self.entries[i].peer_id.as_str(), peer_id) {
                let e = &self.entries[i];
                let updated = PeerDirectoryEntry {
                    peer_id: e.peer_id.clone(),
                    united_id: crate::util::opt_string_clone(&e.united_id),
                    multiaddrs: clone_strings(&e.multiaddrs),
                    channels: clone_strings(&e.channels),
                    nat_type: String::from_str(nat_type),
                    last_seen: now,
                };
                self.entries.set(i, updated);
                proof {
                    assert(self.key_seq() =~= pre.key_seq());
                }
                return ;
            }
            i = i + 1;
        }
    }

    /// Forget a gossipsub subscription.
    pub fn remove_channel(&mut self, peer_id: &str, channel: &str)
        requires
            old(self).wf(),
        ensures
            final(self).wf(),
    {
        let ghost pre = *self;
        let mut i: usize = 0;
        let n = self.entries.len();
        #[verifier::loop_isolation(false)]
        while i < n
            invariant
                *self == pre,
                n == self.entries@.len(),
                i <= n,
                forall|j: int| 0 <= j < i ==> pre.key_seq()[j] != peer_id@,
            decreases n - i,
        {
            if crate::util::str_eq(self.entries[i].peer_id.as_str(), peer_id) {
                let e = &self.entries[i];
                let mut chans: Vec<String> = Vec::new();
                let mut k: usize = 0;
                let m = e.channels.len();
                #[verifier::loop_isolation(false)]
                while k < m
                    invariant
                        *self == pre,
                        0 <= (i as int) < self.entries@.len(),
                        m == self.entries@[i as int].channels@.len(),
                        k <= m,
                    decreases m - k,
                {
                    let ch = &self.entries[i].channels[k];
                    if !crate::util::str_eq(ch.as_str(), channel) {
                        chans.push(ch.clone());
                    }
                    k = k + 1;
                }
                let updated = PeerDirectoryEntry {
                    peer_id: e.peer_id.clone(),
                    united_id: crate::util::opt_string_clone(&e.united_id),
                    multiaddrs: clone_strings(&e.multiaddrs),
                    channels: chans,
                    nat_type: e.nat_type.clone(),
                    last_seen: e.last_seen,
                };
                self.entries.set(i, updated);
                proof {
                    assert(self.key_seq() =~= pre.key_seq());
                }
                return ;
            }
            i = i + 1;
        }
    }

    /// The peers subscribed to at least one of the requested channels,
    /// with a bound fingerprint.
    pub fn get_peers_for_channels(&self, channel_ids: &Vec<String>) -> (r: Vec<PeerDirectoryInfo>)
    {
        let mut out: Vec<PeerDirectoryInfo> = Vec::new();
        let mut i: usize = 0;
        let n = self.entries.len();
        #[verifier::loop_isolation(false)]
        while i < n
            invariant
                n == self.entries@.len(),
                i <= n,
            decreases n - i,
        {
            let e = &self.entries[i];
            let mut hit = false;
            let mut k: usize = 0;
            let m = e.channels.len();
            #[verifier::loop_isolation(false)]
            while k < m
                invariant
                    0 <= (i as int) < self.entries@.len(),
                    m == self.entries@[i as int].channels@.len(),
                    k <= m,
                decreases m - k,
            {
                let mut q: usize = 0;
                let w = channel_ids.len();
                #[verifier::loop_isolation(false)]
                while q < w
                    invariant
                        0 <= (i as int) < self.entries@.len(),
                        0 <= (k as int) < self.entries@[i as int].channels@.len(),
                        w == channel_ids@.len(),
                        q <= w,
                    decreases w - q,
                {
                    if crate::util::str_eq(
                        self.entries[i].channels[k].as_str(),
                        channel_ids[q].as_str(),
                    ) {
                        hit = true;
                    }
                    q = q + 1;
                }
                k = k + 1;
            }
            match &e.united_id {
                Some(uid) => {
                    if hit {
                        out.push(
                            PeerDirectoryInfo {
                                united_id: uid.clone(),
                                peer_id: e.peer_id.clone(),
                                multiaddrs: clone_strings(&e.multiaddrs),
                                channels: clone_strings(&e.channels),
                                nat_type: e.nat_type.clone(),
                            },
                        );
                    }
                },
                None => {},
            }
            i = i + 1;
        }
        out
    }
}

fn clone_strings(v: &Vec<String>) -> (r: Vec<String>)
    ensures
        r@.len() == v@.len(),
        forall|i: int| 0 <= i < v@.len() ==> (#[trigger] r@[i])@ == (#[trigger] v@[i])@,
{
    let mut out: Vec<String> = Vec::new();
    let mut i: usize = 0;
    #[verifier::loop_isolation(false)]
    while i < v.len()
        invariant
            i <= v@.len(),
            out@.len() == i,
            forall|j: int| 0 <= j < i ==> (#[trigger] out@[j])@ == (#[trigger] v@[j])@,
        decreases v@.len() - i,
    {
        out.push(v[i].clone());
        i = i + 1;
    }
    out
}

} // verus!
