//! Configuration of the daemon.
use vstd::prelude::*;

use crate::strmap;
use crate::strmap::StrMap;

verus! {

/// Configuration of the daemon.
#[derive(Debug)]
pub struct Config {
    pub node: NodeConfig,
    pub bridge: BridgeConfig,
    pub peers: StrMap<PeerConfig>,
    pub log: LogConfig,
    pub sfu: Option<SfuSettings>,
}

/// This node.
#[derive(Debug)]
pub struct NodeConfig {
    pub name: String,
    pub wg_ip: String,
    pub listen: String,
}

/// The bridge to the local application.
#[derive(Debug)]
pub struct BridgeConfig {
    pub socket: String,
    pub callback_url: String,
}

/// A node to connect to.
#[derive(Debug)]
pub struct PeerConfig {
    pub wg_ip: String,
    pub port: u16,
}

/// What a [`PeerConfig`] says.
pub struct PeerConfigView {
    pub wg_ip: Seq<char>,
    pub port: u16,
}

impl View for PeerConfig {
    type V = PeerConfigView;

    open spec fn view(&self) -> PeerConfigView {
        PeerConfigView { wg_ip: self.wg_ip@, port: self.port }
    }
}

impl Clone for PeerConfig {
    fn clone(&self) -> (r: PeerConfig)
        ensures
            r@ == self@,
    {
        PeerConfig { wg_ip: self.wg_ip.clone(), port: self.port }
    }
}

/// Logging.
#[derive(Debug)]
pub struct LogConfig {
    pub level: String,
}

/// The selective forwarding unit.
#[derive(Debug)]
pub struct SfuSettings {
    pub enabled: bool,
    pub udp_bind: String,
}

impl Default for LogConfig {
    fn default() -> (r: LogConfig)
        ensures
            r.level@ == "info"@,
    {
        LogConfig { level: default_log_level() }
    }
}

/// Where the daemon listens for peers unless it is told otherwise.
pub fn default_listen() -> (r: String)
    ensures
        r@ == "0.0.0.0:9800"@,
{
    "0.0.0.0:9800".to_owned()
}

/// Where the bridge listens unless it is told otherwise.
pub fn default_socket() -> (r: String)
    ensures
        r@ == "/run/meshd/meshd.sock"@,
{
    "/run/meshd/meshd.sock".to_owned()
}

/// The port of a peer unless it is told otherwise.
pub fn default_port() -> (r: u16)
    ensures
        r == 9800,
{
    9800
}

/// The log level unless it is told otherwise.
pub fn default_log_level() -> (r: String)
    ensures
        r@ == "info"@,
{
    "info".to_owned()
}

/// The peers of a configuration, by name.
pub open spec fn peer_map(peers: StrMap<PeerConfig>) -> Map<Seq<char>, PeerConfigView> {
    Map::new(|k: Seq<char>| peers@.contains_key(k), |k: Seq<char>| peers@[k]@)
}

/// Resolve peers from configuration.
///
/// The peers are those of the static configuration.
pub fn resolve_peers(config_peers: &StrMap<PeerConfig>) -> (r: StrMap<PeerConfig>)
    ensures
        peer_map(r) == peer_map(*config_peers),
{
    let mut r: StrMap<PeerConfig> = StrMap::new();
    let n: usize = config_peers.len();
    let ghost es = config_peers.entries();
    let mut i: usize = 0;
    while i < n
        invariant
            i <= n,
            n == es.len(),
            es == config_peers.entries(),
            strmap::distinct_keys(es),
            r.entries().len() == i,
            forall|j: int|
                0 <= j < i ==> (#[trigger] r.entries()[j]).0 == es[j].0 && r.entries()[j].1@
                    == es[j].1@,
        decreases n - i,
    {
        assert(!strmap::has_key(r.entries(), es[i as int].0)) by {
            if strmap::has_key(r.entries(), es[i as int].0) {
                let j = strmap::slot(r.entries(), es[i as int].0);
                assert(r.entries()[j].0 == es[j].0);
                assert(es[j].0 != es[i as int].0);
            }
        }
        r.insert(config_peers.key(i).clone(), config_peers.value(i).clone());
        i += 1;
    }
    proof {
        let got = r.entries();
        assert(strmap::distinct_keys(got)) by {
            assert forall|a: int, b: int| 0 <= a < b < got.len() implies got[a].0 != got[b].0 by {
                assert(got[a].0 == es[a].0 && got[b].0 == es[b].0);
            }
        }
        assert forall|k: Seq<char>| #[trigger] peer_map(r).contains_key(k) == peer_map(
            *config_peers,
        ).contains_key(k) by {
            if strmap::has_key(got, k) {
                let j = strmap::slot(got, k);
                assert(got[j].0 == es[j].0);
                assert(strmap::has_key(es, k));
            }
            if strmap::has_key(es, k) {
                let j = strmap::slot(es, k);
                assert(got[j].0 == es[j].0);
                assert(strmap::has_key(got, k));
            }
        }
        assert forall|k: Seq<char>| #[trigger] peer_map(r).contains_key(k) implies peer_map(r)[k]
            == peer_map(*config_peers)[k] by {
            let j = strmap::slot(got, k);
            assert(got[j].0 == es[j].0);
            strmap::lemma_slot(es, j);
        }
        assert(peer_map(r) =~= peer_map(*config_peers));
    }
    r
}

/// The peers of a configuration are those that it lists, each with its address and port.
pub proof fn law_peer_map(peers: StrMap<PeerConfig>, k: Seq<char>)
    ensures
        peer_map(peers).contains_key(k) <==> peers@.contains_key(k),
        peers@.contains_key(k) ==> peer_map(peers)[k].wg_ip == peers@[k].wg_ip@ && peer_map(
            peers,
        )[k].port == peers@[k].port,
{
}

} // verus!
