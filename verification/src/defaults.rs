//! Built-in defaults of the profile and of the downloader adapters.

use vstd::prelude::*;
use crate::text::texts;

pub mod pcb;
pub mod qb;

verus! {

/// How long a ban lasts by default: 14 days, in milliseconds.
pub const DEFAULT_BAN_DURATION_MS: i64 = 1_209_600_000;

/// How long a ban by a black list lasts: 3 days, in milliseconds.
pub const BLACKLIST_BAN_DURATION_MS: i64 = 259_200_000;

/// How long a ban for cheating with the progress lasts: 30 days, in milliseconds.
pub const PCB_BAN_DURATION_MS: i64 = 2_592_000_000;

/// How often peers are checked: every 5 seconds, in milliseconds.
pub const DEFAULT_CHECK_INTERVAL_MS: u64 = 5_000;

/// How long a ban by the BTN network lasts: 3 days, in milliseconds.
pub const BTN_BAN_DURATION_MS: i64 = 259_200_000;

/// The default rules on peer identifiers.
pub open spec fn banned_peer_id_rules() -> Seq<Seq<char>> {
    seq![
        "{\"method\":\"STARTS_WITH\",\"content\":\"-hp\"}"@,
        "{\"method\":\"STARTS_WITH\",\"content\":\"-xm\"}"@,
        "{\"method\":\"STARTS_WITH\",\"content\":\"-dt\"}"@,
        "{\"method\":\"CONTAINS\",\"content\":\"-rn0.0.0\"}"@,
        "{\"method\":\"STARTS_WITH\",\"content\":\"-sd\"}"@,
        "{\"method\":\"STARTS_WITH\",\"content\":\"-xf\"}"@,
        "{\"method\":\"STARTS_WITH\",\"content\":\"-qd\"}"@,
        "{\"method\":\"STARTS_WITH\",\"content\":\"-bn\"}"@,
        "{\"method\":\"STARTS_WITH\",\"content\":\"-dl\"}"@,
        "{\"method\":\"STARTS_WITH\",\"content\":\"-ts\"}"@,
        "{\"method\":\"STARTS_WITH\",\"content\":\"-fg\"}"@,
        "{\"method\":\"STARTS_WITH\",\"content\":\"-tt\"}"@,
        "{\"method\":\"STARTS_WITH\",\"content\":\"-nx\"}"@,
        "{\"method\":\"CONTAINS\",\"content\":\"cacao\"}"@,
        "{\"method\":\"EQUALS\",\"content\":\"Unknown\"}"@,
        "{\"method\":\"EQUALS\",\"content\":\"未知\"}"@,
    ]
}

/// The rules on peer identifiers that hold by default, in their order.
pub fn default_banned_peer_id() -> (v: Vec<String>)
    ensures
        texts(v@) == banned_peer_id_rules(),
{
    let mut v: Vec<String> = Vec::new();
    v.push("{\"method\":\"STARTS_WITH\",\"content\":\"-hp\"}".to_string());
    v.push("{\"method\":\"STARTS_WITH\",\"content\":\"-xm\"}".to_string());
    v.push("{\"method\":\"STARTS_WITH\",\"content\":\"-dt\"}".to_string());
    v.push("{\"method\":\"CONTAINS\",\"content\":\"-rn0.0.0\"}".to_string());
    v.push("{\"method\":\"STARTS_WITH\",\"content\":\"-sd\"}".to_string());
    v.push("{\"method\":\"STARTS_WITH\",\"content\":\"-xf\"}".to_string());
    v.push("{\"method\":\"STARTS_WITH\",\"content\":\"-qd\"}".to_string());
    v.push("{\"method\":\"STARTS_WITH\",\"content\":\"-bn\"}".to_string());
    v.push("{\"method\":\"STARTS_WITH\",\"content\":\"-dl\"}".to_string());
    v.push("{\"method\":\"STARTS_WITH\",\"content\":\"-ts\"}".to_string());
    v.push("{\"method\":\"STARTS_WITH\",\"content\":\"-fg\"}".to_string());
    v.push("{\"method\":\"STARTS_WITH\",\"content\":\"-tt\"}".to_string());
    v.push("{\"method\":\"STARTS_WITH\",\"content\":\"-nx\"}".to_string());
    v.push("{\"method\":\"CONTAINS\",\"content\":\"cacao\"}".to_string());
    v.push("{\"method\":\"EQUALS\",\"content\":\"Unknown\"}".to_string());
    v.push("{\"method\":\"EQUALS\",\"content\":\"未知\"}".to_string());
    assert(texts(v@) =~= banned_peer_id_rules());
    v
}

/// The default rules on client names.
pub open spec fn banned_client_name_rules() -> Seq<Seq<char>> {
    seq![
        "{\"method\":\"STARTS_WITH\",\"content\":\"hp/torrent\"}"@,
        "{\"method\":\"STARTS_WITH\",\"content\":\"hp \"}"@,
        "{\"method\":\"STARTS_WITH\",\"content\":\"dt/torrent\"}"@,
        "{\"method\":\"STARTS_WITH\",\"content\":\"dt \"}"@,
        "{\"method\":\"STARTS_WITH\",\"content\":\"xm/torrent\"}"@,
        "{\"method\":\"STARTS_WITH\",\"content\":\"xm \"}"@,
        "{\"method\":\"STARTS_WITH\",\"content\":\"taipei-torrent\"}"@,
        "{\"method\":\"CONTAINS\",\"content\":\"rain 0.0.0\"}"@,
        "{\"method\":\"CONTAINS\",\"content\":\"gopeed dev\"}"@,
        "{\"method\":\"STARTS_WITH\",\"content\":\"xfplay\"}"@,
        "{\"method\":\"CONTAINS\",\"content\":\"StellarPlayer\"}"@,
        "{\"method\":\"CONTAINS\",\"content\":\"SP \"}"@,
        "{\"method\":\"CONTAINS\",\"content\":\"flashget\"}"@,
        "{\"method\":\"CONTAINS\",\"content\":\"tudou\"}"@,
        "{\"method\":\"CONTAINS\",\"content\":\"torrentstorm\"}"@,
        "{\"method\":\"CONTAINS\",\"content\":\"qqdownload\"}"@,
        "{\"method\":\"STARTS_WITH\",\"content\":\"qbittorrent/3.3.15\"}"@,
        "{\"method\":\"STARTS_WITH\",\"content\":\"github.com/thank423/trafficconsume\"}"@,
        "{\"method\":\"STARTS_WITH\",\"content\":\"\u{07AD}__\"}"@,
        "{\"method\":\"STARTS_WITH\",\"content\":\"Unknown [\"}"@,
        "{\"method\":\"STARTS_WITH\",\"content\":\"Gopeed bt-exp\"}"@,
    ]
}

/// The rules on client names that hold by default, in their order.
pub fn default_banned_client_name() -> (v: Vec<String>)
    ensures
        texts(v@) == banned_client_name_rules(),
{
    let mut v: Vec<String> = Vec::new();
    v.push("{\"method\":\"STARTS_WITH\",\"content\":\"hp/torrent\"}".to_string());
    v.push("{\"method\":\"STARTS_WITH\",\"content\":\"hp \"}".to_string());
    v.push("{\"method\":\"STARTS_WITH\",\"content\":\"dt/torrent\"}".to_string());
    v.push("{\"method\":\"STARTS_WITH\",\"content\":\"dt \"}".to_string());
    v.push("{\"method\":\"STARTS_WITH\",\"content\":\"xm/torrent\"}".to_string());
    v.push("{\"method\":\"STARTS_WITH\",\"content\":\"xm \"}".to_string());
    v.push("{\"method\":\"STARTS_WITH\",\"content\":\"taipei-torrent\"}".to_string());
    v.push("{\"method\":\"CONTAINS\",\"content\":\"rain 0.0.0\"}".to_string());
    v.push("{\"method\":\"CONTAINS\",\"content\":\"gopeed dev\"}".to_string());
    v.push("{\"method\":\"STARTS_WITH\",\"content\":\"xfplay\"}".to_string());
    v.push("{\"method\":\"CONTAINS\",\"content\":\"StellarPlayer\"}".to_string());
    v.push("{\"method\":\"CONTAINS\",\"content\":\"SP \"}".to_string());
    v.push("{\"method\":\"CONTAINS\",\"content\":\"flashget\"}".to_string());
    v.push("{\"method\":\"CONTAINS\",\"content\":\"tudou\"}".to_string());
    v.push("{\"method\":\"CONTAINS\",\"content\":\"torrentstorm\"}".to_string());
    v.push("{\"method\":\"CONTAINS\",\"content\":\"qqdownload\"}".to_string());
    v.push("{\"method\":\"STARTS_WITH\",\"content\":\"qbittorrent/3.3.15\"}".to_string());
    v.push("{\"method\":\"STARTS_WITH\",\"content\":\"github.com/thank423/trafficconsume\"}".to_string());
    v.push("{\"method\":\"STARTS_WITH\",\"content\":\"\u{07AD}__\"}".to_string());
    v.push("{\"method\":\"STARTS_WITH\",\"content\":\"Unknown [\"}".to_string());
    v.push("{\"method\":\"STARTS_WITH\",\"content\":\"Gopeed bt-exp\"}".to_string());
    assert(texts(v@) =~= banned_client_name_rules());
    v
}

/// The networks that are not checked by default.
pub open spec fn ignored_networks() -> Seq<Seq<char>> {
    seq![
        "10.0.0.0/8"@,
        "172.16.0.0/12"@,
        "192.168.0.0/16"@,
        "fc00::/7"@,
        "100.64.0.0/10"@,
        "169.254.0.0/16"@,
        "127.0.0.0/8"@,
        "fe80::/10"@,
    ]
}

/// The networks whose peers are not checked by default.
pub fn default_ignore_addresses() -> (v: Vec<String>)
    ensures
        texts(v@) == ignored_networks(),
{
    let mut v: Vec<String> = Vec::new();
    v.push("10.0.0.0/8".to_string());
    v.push("172.16.0.0/12".to_string());
    v.push("192.168.0.0/16".to_string());
    v.push("fc00::/7".to_string());
    v.push("100.64.0.0/10".to_string());
    v.push("169.254.0.0/16".to_string());
    v.push("127.0.0.0/8".to_string());
    v.push("fe80::/10".to_string());
    assert(texts(v@) =~= ignored_networks());
    v
}

/// The private networks, the shared one, the link-local ones and the loopback are ignored where
/// nothing else is said.
pub proof fn private_networks_are_ignored(text: Seq<char>)
    ensures
        ignored_networks().contains(text) == (text == "10.0.0.0/8"@ || text == "172.16.0.0/12"@
            || text == "192.168.0.0/16"@ || text == "fc00::/7"@ || text == "100.64.0.0/10"@ || text
            == "169.254.0.0/16"@ || text == "127.0.0.0/8"@ || text == "fe80::/10"@),
{
    let all = ignored_networks();
    assert(all[0] == "10.0.0.0/8"@ && all[1] == "172.16.0.0/12"@ && all[2] == "192.168.0.0/16"@);
    assert(all[3] == "fc00::/7"@ && all[4] == "100.64.0.0/10"@ && all[5] == "169.254.0.0/16"@);
    assert(all[6] == "127.0.0.0/8"@ && all[7] == "fe80::/10"@);
    assert(all.len() == 8);
}

} // verus!
