//! What is reported to the BTN server: the rows to report, the messages made of them and the
//! cursors that tell how far reporting has come.

use vstd::prelude::*;
use crate::btn_codec::{get_hashed_identifier, hashed_identifier};
use crate::btn_store::BtnMetadataStore;
use crate::model::Double;
use crate::text::{chars_of, decimal_int, decimal_round_trips, find_char, find_from, i64_text, int_of_text, lemma_find_from, opt_view, parse_i64, push_text, string_of, substring_of};

verus! {

/// Where the cursor of reported bans is kept.
pub const METADATA_KEY_BANS_CURSOR: &'static str = "BtnAbilitySubmitBans.cursor";

/// Where the cursor of reported swarms is kept.
pub const METADATA_KEY_SWARM_CURSOR: &'static str = "BtnAbilitySubmitSwarm.cursor";

/// Where the time up to which peer histories are reported is kept.
pub const METADATA_KEY_HISTORY_TIMESTAMP: &'static str = "btn.submithistory.timestamp";

/// How many bans go into one report.
pub const BAN_PAGE_SIZE: usize = 100;

/// How many swarms go into one report.
pub const SWARM_PAGE_SIZE: usize = 1000;

/// How many peer histories go into one report.
pub const HISTORY_PAGE_SIZE: usize = 5000;

/// How old the time up to which peer histories are reported may be: 30 days, in milliseconds.
pub const HISTORY_MAX_AGE_MS: i64 = 2_592_000_000;

/// A reported ban.
#[derive(Debug, Clone, PartialEq, Eq)]
pub struct BtnBan {
    pub ban_at: i64,
    pub peer_ip: String,
    pub peer_port: u16,
    pub peer_id: Option<String>,
    pub peer_client_name: Option<String>,
    pub peer_progress: Double,
    pub peer_flag: Option<String>,
    pub torrent_identifier: String,
    pub torrent_is_private: bool,
    pub torrent_size: i64,
    pub from_peer_traffic: i64,
    pub to_peer_traffic: i64,
    pub downloader_progress: Double,
    pub module: String,
    pub rule: String,
    pub description: String,
    pub structured_data: Option<String>,
}

impl Default for BtnBan {
    fn default() -> (v: Self)
        ensures
            v.ban_at == 0,
            v.peer_ip@.len() == 0,
            v.peer_port == 0,
            v.peer_id is None,
            v.peer_client_name is None,
            v.peer_progress.bits == 0,
            v.peer_flag is None,
            v.torrent_identifier@.len() == 0,
            !v.torrent_is_private,
            v.torrent_size == 0,
            v.from_peer_traffic == 0,
            v.to_peer_traffic == 0,
            v.downloader_progress.bits == 0,
            v.module@.len() == 0,
            v.rule@.len() == 0,
            v.description@.len() == 0,
            v.structured_data is None,
    {
        BtnBan {
            ban_at: 0,
            peer_ip: String::new(),
            peer_port: 0,
            peer_id: None,
            peer_client_name: None,
            peer_progress: Double { bits: 0 },
            peer_flag: None,
            torrent_identifier: String::new(),
            torrent_is_private: false,
            torrent_size: 0,
            from_peer_traffic: 0,
            to_peer_traffic: 0,
            downloader_progress: Double { bits: 0 },
            module: String::new(),
            rule: String::new(),
            description: String::new(),
            structured_data: None,
        }
    }
}

/// A reported peer of a swarm.
#[derive(Debug, Clone, PartialEq, Eq)]
pub struct BtnSwarm {
    pub torrent_identifier: String,
    pub torrent_is_private: Option<bool>,
    pub torrent_size: i64,
    pub downloader: String,
    pub downloader_progress: Double,
    pub peer_ip: String,
    pub peer_port: u16,
    pub peer_id: Option<String>,
    pub peer_client_name: Option<String>,
    pub peer_progress: Double,
    pub to_peer_traffic: i64,
    pub to_peer_traffic_offset: i64,
    pub from_peer_traffic: i64,
    pub from_peer_traffic_offset: i64,
    pub first_time_seen: i64,
    pub last_time_seen: i64,
    pub peer_last_flags: Option<String>,
    pub upload_speed: i64,
    pub download_speed: i64,
    pub download_speed_max: i64,
    pub upload_speed_max: i64,
}

impl Default for BtnSwarm {
    fn default() -> (v: Self)
        ensures
            v.torrent_identifier@.len() == 0,
            v.torrent_is_private is None,
            v.torrent_size == 0,
            v.downloader@.len() == 0,
            v.downloader_progress.bits == 0,
            v.peer_ip@.len() == 0,
            v.peer_port == 0,
            v.peer_id is None,
            v.peer_client_name is None,
            v.peer_progress.bits == 0,
            v.to_peer_traffic == 0,
            v.to_peer_traffic_offset == 0,
            v.from_peer_traffic == 0,
            v.from_peer_traffic_offset == 0,
            v.first_time_seen == 0,
            v.last_time_seen == 0,
            v.peer_last_flags is None,
            v.upload_speed == 0,
            v.download_speed == 0,
            v.download_speed_max == 0,
            v.upload_speed_max == 0,
    {
        BtnSwarm {
            torrent_identifier: String::new(),
            torrent_is_private: None,
            torrent_size: 0,
            downloader: String::new(),
            downloader_progress: Double { bits: 0 },
            peer_ip: String::new(),
            peer_port: 0,
            peer_id: None,
            peer_client_name: None,
            peer_progress: Double { bits: 0 },
            to_peer_traffic: 0,
            to_peer_traffic_offset: 0,
            from_peer_traffic: 0,
            from_peer_traffic_offset: 0,
            first_time_seen: 0,
            last_time_seen: 0,
            peer_last_flags: None,
            upload_speed: 0,
            download_speed: 0,
            download_speed_max: 0,
            upload_speed_max: 0,
        }
    }
}

/// A peer as older servers take it.
#[derive(Debug, Clone, PartialEq, Eq)]
pub struct LegacyBtnPeer {
    pub ip_address: String,
    pub peer_port: u16,
    pub peer_id: Option<String>,
    pub client_name: Option<String>,
    pub torrent_identifier: String,
    pub torrent_is_private: bool,
    pub torrent_size: i64,
    pub downloaded: i64,
    pub rt_download_speed: i64,
    pub uploaded: i64,
    pub rt_upload_speed: i64,
    pub peer_progress: Double,
    pub downloader_progress: Double,
    pub peer_flag: Option<String>,
}

impl Default for LegacyBtnPeer {
    fn default() -> (v: Self)
        ensures
            v.ip_address@.len() == 0,
            v.peer_port == 0,
            v.peer_id is None,
            v.client_name is None,
            v.torrent_identifier@.len() == 0,
            !v.torrent_is_private,
            v.torrent_size == 0,
            v.downloaded == 0,
            v.rt_download_speed == 0,
            v.uploaded == 0,
            v.rt_upload_speed == 0,
            v.peer_progress.bits == 0,
            v.downloader_progress.bits == 0,
            v.peer_flag is None,
    {
        LegacyBtnPeer {
            ip_address: String::new(),
            peer_port: 0,
            peer_id: None,
            client_name: None,
            torrent_identifier: String::new(),
            torrent_is_private: false,
            torrent_size: 0,
            downloaded: 0,
            rt_download_speed: 0,
            uploaded: 0,
            rt_upload_speed: 0,
            peer_progress: Double { bits: 0 },
            downloader_progress: Double { bits: 0 },
            peer_flag: None,
        }
    }
}

/// The history of a peer.
#[derive(Debug, Clone, PartialEq, Eq)]
pub struct LegacyBtnPeerHistory {
    pub ip_address: String,
    pub port: u16,
    pub peer_id: Option<String>,
    pub client_name: Option<String>,
    pub torrent_identifier: String,
    pub torrent_is_private: bool,
    pub torrent_size: i64,
    pub downloaded: i64,
    pub downloaded_offset: i64,
    pub uploaded: i64,
    pub uploaded_offset: i64,
    pub first_time_seen: i64,
    pub last_time_seen: i64,
    pub peer_flag: Option<String>,
}

impl Default for LegacyBtnPeerHistory {
    fn default() -> (v: Self)
        ensures
            v.ip_address@.len() == 0,
            v.port == 0,
            v.peer_id is None,
            v.client_name is None,
            v.torrent_identifier@.len() == 0,
            !v.torrent_is_private,
            v.torrent_size == 0,
            v.downloaded == 0,
            v.downloaded_offset == 0,
            v.uploaded == 0,
            v.uploaded_offset == 0,
            v.first_time_seen == 0,
            v.last_time_seen == 0,
            v.peer_flag is None,
    {
        LegacyBtnPeerHistory {
            ip_address: String::new(),
            port: 0,
            peer_id: None,
            client_name: None,
            torrent_identifier: String::new(),
            torrent_is_private: false,
            torrent_size: 0,
            downloaded: 0,
            downloaded_offset: 0,
            uploaded: 0,
            uploaded_offset: 0,
            first_time_seen: 0,
            last_time_seen: 0,
            peer_flag: None,
        }
    }
}

/// A ban as older servers take it.
#[derive(Debug, Clone, PartialEq, Eq)]
pub struct LegacyBtnBan {
    pub btn_ban: bool,
    pub ban_unique_id: String,
    pub module: String,
    pub rule: String,
    pub peer: LegacyBtnPeer,
    pub structured_data: Option<String>,
}

impl Default for LegacyBtnBan {
    fn default() -> (v: Self)
        ensures
            !v.btn_ban,
            v.ban_unique_id@.len() == 0,
            v.module@.len() == 0,
            v.rule@.len() == 0,
            v.peer.ip_address@.len() == 0,
            v.peer.peer_port == 0,
            v.peer.peer_id is None,
            v.peer.client_name is None,
            v.peer.torrent_identifier@.len() == 0,
            !v.peer.torrent_is_private,
            v.peer.torrent_size == 0,
            v.peer.downloaded == 0,
            v.peer.rt_download_speed == 0,
            v.peer.uploaded == 0,
            v.peer.rt_upload_speed == 0,
            v.peer.peer_progress.bits == 0,
            v.peer.downloader_progress.bits == 0,
            v.peer.peer_flag is None,
            v.structured_data is None,
    {
        LegacyBtnBan {
            btn_ban: false,
            ban_unique_id: String::new(),
            module: String::new(),
            rule: String::new(),
            peer: LegacyBtnPeer::default(),
            structured_data: None,
        }
    }
}

/// A ban to report.
#[derive(Debug, Clone, Default, PartialEq, Eq)]
pub struct BtnBanHistoryRow {
    pub id: i64,
    pub ban_at_ms: i64,
    pub peer_ip: String,
    pub peer_port: u16,
    pub peer_id: Option<String>,
    pub peer_client_name: Option<String>,
    pub peer_progress: Double,
    pub peer_flag: Option<String>,
    pub torrent_hash: String,
    pub torrent_is_private: bool,
    pub torrent_size: i64,
    pub from_peer_traffic: i64,
    pub to_peer_traffic: i64,
    pub downloader_progress: Double,
    pub module: String,
    pub rule: String,
    pub description: String,
    pub structured_data: Option<String>,
}

/// A peer of a swarm to report.
#[derive(Debug, Clone, Default, PartialEq, Eq)]
pub struct BtnSwarmHistoryRow {
    pub id: i64,
    pub last_time_seen_ms: i64,
    pub torrent_hash: String,
    pub torrent_is_private: Option<bool>,
    pub torrent_size: i64,
    pub downloader: String,
    pub downloader_progress: Double,
    pub peer_ip: String,
    pub peer_port: u16,
    pub peer_id: Option<String>,
    pub peer_client_name: Option<String>,
    pub peer_progress: Double,
    pub to_peer_traffic: i64,
    pub to_peer_traffic_offset: i64,
    pub from_peer_traffic: i64,
    pub from_peer_traffic_offset: i64,
    pub first_time_seen_ms: i64,
    pub peer_last_flags: Option<String>,
    pub upload_speed: i64,
    pub download_speed: i64,
    pub download_speed_max: i64,
    pub upload_speed_max: i64,
}

/// The history of a peer to report.
#[derive(Debug, Clone, Default, PartialEq, Eq)]
pub struct BtnPeerHistoryRow {
    pub ip_address: String,
    pub port: u16,
    pub peer_id: Option<String>,
    pub client_name: Option<String>,
    pub torrent_hash: String,
    pub torrent_is_private: bool,
    pub torrent_size: i64,
    pub downloaded: i64,
    pub downloaded_offset: i64,
    pub uploaded: i64,
    pub uploaded_offset: i64,
    pub first_time_seen_ms: i64,
    pub last_time_seen_ms: i64,
    pub peer_flag: Option<String>,
}

/// A connected peer to report to an older server.
#[derive(Debug, Clone, Default, PartialEq, Eq)]
pub struct BtnLegacyPeerRow {
    pub ip_address: String,
    pub peer_port: u16,
    pub peer_id: Option<String>,
    pub client_name: Option<String>,
    pub torrent_hash: String,
    pub torrent_is_private: bool,
    pub torrent_size: i64,
    pub downloaded: i64,
    pub rt_download_speed: i64,
    pub uploaded: i64,
    pub rt_upload_speed: i64,
    pub peer_progress: Double,
    pub downloader_progress: Double,
    pub peer_flag: Option<String>,
}

/// A ban to report to an older server.
#[derive(Debug, Clone, Default, PartialEq, Eq)]
pub struct BtnLegacyBanRow {
    pub ban_at_ms: i64,
    pub ban_unique_id: String,
    pub module: String,
    pub rule: String,
    pub btn_ban: bool,
    pub peer: BtnLegacyPeerRow,
    pub structured_data: Option<String>,
}

/// A report of bans.
#[derive(Debug, Clone, PartialEq, Eq)]
pub struct BtnBanPing {
    pub bans: Vec<BtnBan>,
}

impl Default for BtnBanPing {
    fn default() -> (v: Self)
        ensures
            v.bans@.len() == 0,
    {
        BtnBanPing {
            bans: Vec::new(),
        }
    }
}

/// A report of swarms.
#[derive(Debug, Clone, PartialEq, Eq)]
pub struct BtnSwarmPeerPing {
    pub swarms: Vec<BtnSwarm>,
}

impl Default for BtnSwarmPeerPing {
    fn default() -> (v: Self)
        ensures
            v.swarms@.len() == 0,
    {
        BtnSwarmPeerPing {
            swarms: Vec::new(),
        }
    }
}

/// A report of connected peers to an older server.
#[derive(Debug, Clone, PartialEq, Eq)]
pub struct LegacyBtnPeerPing {
    pub populate_time: i64,
    pub peers: Vec<LegacyBtnPeer>,
}

impl Default for LegacyBtnPeerPing {
    fn default() -> (v: Self)
        ensures
            v.populate_time == 0,
            v.peers@.len() == 0,
    {
        LegacyBtnPeerPing {
            populate_time: 0,
            peers: Vec::new(),
        }
    }
}

/// A report of peer histories.
#[derive(Debug, Clone, PartialEq, Eq)]
pub struct LegacyBtnPeerHistoryPing {
    pub populate_time: i64,
    pub peers: Vec<LegacyBtnPeerHistory>,
}

impl Default for LegacyBtnPeerHistoryPing {
    fn default() -> (v: Self)
        ensures
            v.populate_time == 0,
            v.peers@.len() == 0,
    {
        LegacyBtnPeerHistoryPing {
            populate_time: 0,
            peers: Vec::new(),
        }
    }
}

/// A report of bans to an older server.
#[derive(Debug, Clone, PartialEq, Eq)]
pub struct LegacyBtnBanPing {
    pub populate_time: i64,
    pub bans: Vec<LegacyBtnBan>,
}

impl Default for LegacyBtnBanPing {
    fn default() -> (v: Self)
        ensures
            v.populate_time == 0,
            v.bans@.len() == 0,
    {
        LegacyBtnBanPing {
            populate_time: 0,
            bans: Vec::new(),
        }
    }
}

/// Whether a message says what a row says, its torrent by the hashed identifier.
pub open spec fn reports_ban(m: BtnBan, row: BtnBanHistoryRow) -> bool {
    &&& m.ban_at == row.ban_at_ms
    &&& m.peer_ip == row.peer_ip
    &&& m.peer_port == row.peer_port
    &&& m.peer_id == row.peer_id
    &&& m.peer_client_name == row.peer_client_name
    &&& m.peer_progress == row.peer_progress
    &&& m.peer_flag == row.peer_flag
    &&& m.torrent_identifier@ == hashed_identifier(row.torrent_hash@)
    &&& m.torrent_is_private == row.torrent_is_private
    &&& m.torrent_size == row.torrent_size
    &&& m.from_peer_traffic == row.from_peer_traffic
    &&& m.to_peer_traffic == row.to_peer_traffic
    &&& m.downloader_progress == row.downloader_progress
    &&& m.module == row.module
    &&& m.rule == row.rule
    &&& m.description == row.description
    &&& m.structured_data == row.structured_data
}

impl BtnBanHistoryRow {
    /// The message for the row.
    pub fn into_ping(self) -> (m: BtnBan)
        ensures
            reports_ban(m, self),
    {
        let torrent_identifier = get_hashed_identifier(self.torrent_hash.as_str());
        BtnBan {
            ban_at: self.ban_at_ms,
            peer_ip: self.peer_ip,
            peer_port: self.peer_port,
            peer_id: self.peer_id,
            peer_client_name: self.peer_client_name,
            peer_progress: self.peer_progress,
            peer_flag: self.peer_flag,
            torrent_identifier,
            torrent_is_private: self.torrent_is_private,
            torrent_size: self.torrent_size,
            from_peer_traffic: self.from_peer_traffic,
            to_peer_traffic: self.to_peer_traffic,
            downloader_progress: self.downloader_progress,
            module: self.module,
            rule: self.rule,
            description: self.description,
            structured_data: self.structured_data,
        }
    }
}

/// The messages for rows, in order.
pub fn bans_of(rows: Vec<BtnBanHistoryRow>) -> (out: Vec<BtnBan>)
    ensures
        out.len() == rows.len(),
        forall|i: int| 0 <= i < out.len() ==> reports_ban(#[trigger] out@[i], rows@[i]),
{
    let ghost all = rows@;
    let mut out: Vec<BtnBan> = Vec::new();
    for row in iter: rows
        invariant
            iter.seq() == all,
            out.len() == iter.index(),
            forall|i: int| 0 <= i < out.len() ==> reports_ban(#[trigger] out@[i], all[i]),
    {
        out.push(row.into_ping());
    }
    out
}

/// Whether a message says what a row says, its torrent by the hashed identifier.
pub open spec fn reports_swarm(m: BtnSwarm, row: BtnSwarmHistoryRow) -> bool {
    &&& m.torrent_identifier@ == hashed_identifier(row.torrent_hash@)
    &&& m.torrent_is_private == row.torrent_is_private
    &&& m.torrent_size == row.torrent_size
    &&& m.downloader == row.downloader
    &&& m.downloader_progress == row.downloader_progress
    &&& m.peer_ip == row.peer_ip
    &&& m.peer_port == row.peer_port
    &&& m.peer_id == row.peer_id
    &&& m.peer_client_name == row.peer_client_name
    &&& m.peer_progress == row.peer_progress
    &&& m.to_peer_traffic == row.to_peer_traffic
    &&& m.to_peer_traffic_offset == row.to_peer_traffic_offset
    &&& m.from_peer_traffic == row.from_peer_traffic
    &&& m.from_peer_traffic_offset == row.from_peer_traffic_offset
    &&& m.first_time_seen == row.first_time_seen_ms
    &&& m.last_time_seen == row.last_time_seen_ms
    &&& m.peer_last_flags == row.peer_last_flags
    &&& m.upload_speed == row.upload_speed
    &&& m.download_speed == row.download_speed
    &&& m.download_speed_max == row.download_speed_max
    &&& m.upload_speed_max == row.upload_speed_max
}

impl BtnSwarmHistoryRow {
    /// The message for the row.
    pub fn into_ping(self) -> (m: BtnSwarm)
        ensures
            reports_swarm(m, self),
    {
        let torrent_identifier = get_hashed_identifier(self.torrent_hash.as_str());
        BtnSwarm {
            torrent_identifier,
            torrent_is_private: self.torrent_is_private,
            torrent_size: self.torrent_size,
            downloader: self.downloader,
            downloader_progress: self.downloader_progress,
            peer_ip: self.peer_ip,
            peer_port: self.peer_port,
            peer_id: self.peer_id,
            peer_client_name: self.peer_client_name,
            peer_progress: self.peer_progress,
            to_peer_traffic: self.to_peer_traffic,
            to_peer_traffic_offset: self.to_peer_traffic_offset,
            from_peer_traffic: self.from_peer_traffic,
            from_peer_traffic_offset: self.from_peer_traffic_offset,
            first_time_seen: self.first_time_seen_ms,
            last_time_seen: self.last_time_seen_ms,
            peer_last_flags: self.peer_last_flags,
            upload_speed: self.upload_speed,
            download_speed: self.download_speed,
            download_speed_max: self.download_speed_max,
            upload_speed_max: self.upload_speed_max,
        }
    }
}

/// The messages for rows, in order.
pub fn swarms_of(rows: Vec<BtnSwarmHistoryRow>) -> (out: Vec<BtnSwarm>)
    ensures
        out.len() == rows.len(),
        forall|i: int| 0 <= i < out.len() ==> reports_swarm(#[trigger] out@[i], rows@[i]),
{
    let ghost all = rows@;
    let mut out: Vec<BtnSwarm> = Vec::new();
    for row in iter: rows
        invariant
            iter.seq() == all,
            out.len() == iter.index(),
            forall|i: int| 0 <= i < out.len() ==> reports_swarm(#[trigger] out@[i], all[i]),
    {
        out.push(row.into_ping());
    }
    out
}

/// Whether a message says what a row says, its torrent by the hashed identifier.
pub open spec fn reports_history(m: LegacyBtnPeerHistory, row: BtnPeerHistoryRow) -> bool {
    &&& m.ip_address == row.ip_address
    &&& m.port == row.port
    &&& m.peer_id == row.peer_id
    &&& m.client_name == row.client_name
    &&& m.torrent_identifier@ == hashed_identifier(row.torrent_hash@)
    &&& m.torrent_is_private == row.torrent_is_private
    &&& m.torrent_size == row.torrent_size
    &&& m.downloaded == row.downloaded
    &&& m.downloaded_offset == row.downloaded_offset
    &&& m.uploaded == row.uploaded
    &&& m.uploaded_offset == row.uploaded_offset
    &&& m.first_time_seen == row.first_time_seen_ms
    &&& m.last_time_seen == row.last_time_seen_ms
    &&& m.peer_flag == row.peer_flag
}

impl BtnPeerHistoryRow {
    /// The message for the row.
    pub fn into_ping(self) -> (m: LegacyBtnPeerHistory)
        ensures
            reports_history(m, self),
    {
        let torrent_identifier = get_hashed_identifier(self.torrent_hash.as_str());
        LegacyBtnPeerHistory {
            ip_address: self.ip_address,
            port: self.port,
            peer_id: self.peer_id,
            client_name: self.client_name,
            torrent_identifier,
            torrent_is_private: self.torrent_is_private,
            torrent_size: self.torrent_size,
            downloaded: self.downloaded,
            downloaded_offset: self.downloaded_offset,
            uploaded: self.uploaded,
            uploaded_offset: self.uploaded_offset,
            first_time_seen: self.first_time_seen_ms,
            last_time_seen: self.last_time_seen_ms,
            peer_flag: self.peer_flag,
        }
    }
}

/// The messages for rows, in order.
pub fn histories_of(rows: Vec<BtnPeerHistoryRow>) -> (out: Vec<LegacyBtnPeerHistory>)
    ensures
        out.len() == rows.len(),
        forall|i: int| 0 <= i < out.len() ==> reports_history(#[trigger] out@[i], rows@[i]),
{
    let ghost all = rows@;
    let mut out: Vec<LegacyBtnPeerHistory> = Vec::new();
    for row in iter: rows
        invariant
            iter.seq() == all,
            out.len() == iter.index(),
            forall|i: int| 0 <= i < out.len() ==> reports_history(#[trigger] out@[i], all[i]),
    {
        out.push(row.into_ping());
    }
    out
}

/// Whether a message says what a row says, its torrent by the hashed identifier.
pub open spec fn reports_legacy_peer(m: LegacyBtnPeer, row: BtnLegacyPeerRow) -> bool {
    &&& m.ip_address == row.ip_address
    &&& m.peer_port == row.peer_port
    &&& m.peer_id == row.peer_id
    &&& m.client_name == row.client_name
    &&& m.torrent_identifier@ == hashed_identifier(row.torrent_hash@)
    &&& m.torrent_is_private == row.torrent_is_private
    &&& m.torrent_size == row.torrent_size
    &&& m.downloaded == row.downloaded
    &&& m.rt_download_speed == row.rt_download_speed
    &&& m.uploaded == row.uploaded
    &&& m.rt_upload_speed == row.rt_upload_speed
    &&& m.peer_progress == row.peer_progress
    &&& m.downloader_progress == row.downloader_progress
    &&& m.peer_flag == row.peer_flag
}

impl BtnLegacyPeerRow {
    /// The message for the row.
    pub fn into_peer(self) -> (m: LegacyBtnPeer)
        ensures
            reports_legacy_peer(m, self),
    {
        let torrent_identifier = get_hashed_identifier(self.torrent_hash.as_str());
        LegacyBtnPeer {
            ip_address: self.ip_address,
            peer_port: self.peer_port,
            peer_id: self.peer_id,
            client_name: self.client_name,
            torrent_identifier,
            torrent_is_private: self.torrent_is_private,
            torrent_size: self.torrent_size,
            downloaded: self.downloaded,
            rt_download_speed: self.rt_download_speed,
            uploaded: self.uploaded,
            rt_upload_speed: self.rt_upload_speed,
            peer_progress: self.peer_progress,
            downloader_progress: self.downloader_progress,
            peer_flag: self.peer_flag,
        }
    }
}

/// The messages for rows, in order.
pub fn legacy_peers_of(rows: Vec<BtnLegacyPeerRow>) -> (out: Vec<LegacyBtnPeer>)
    ensures
        out.len() == rows.len(),
        forall|i: int| 0 <= i < out.len() ==> reports_legacy_peer(#[trigger] out@[i], rows@[i]),
{
    let ghost all = rows@;
    let mut out: Vec<LegacyBtnPeer> = Vec::new();
    for row in iter: rows
        invariant
            iter.seq() == all,
            out.len() == iter.index(),
            forall|i: int| 0 <= i < out.len() ==> reports_legacy_peer(#[trigger] out@[i], all[i]),
    {
        out.push(row.into_peer());
    }
    out
}

/// Whether a message says what a row says.
pub open spec fn reports_legacy_ban(m: LegacyBtnBan, row: BtnLegacyBanRow) -> bool {
    &&& m.btn_ban == row.btn_ban
    &&& m.ban_unique_id == row.ban_unique_id
    &&& m.module == row.module
    &&& m.rule == row.rule
    &&& reports_legacy_peer(m.peer, row.peer)
    &&& m.structured_data == row.structured_data
}

impl BtnLegacyBanRow {
    /// The message for the row.
    pub fn into_ping(self) -> (m: LegacyBtnBan)
        ensures
            reports_legacy_ban(m, self),
    {
        LegacyBtnBan {
            btn_ban: self.btn_ban,
            ban_unique_id: self.ban_unique_id,
            module: self.module,
            rule: self.rule,
            peer: self.peer.into_peer(),
            structured_data: self.structured_data,
        }
    }
}

// --------------------------------------------------------------------- cursors
/// The number kept under a key, or `default` where there is none.
pub open spec fn stored_i64(data: Map<Seq<char>, Seq<char>>, key: Seq<char>, default: i64) -> i64 {
    match stored_number(data, key) {
        Some(v) => v,
        None => default,
    }
}

/// The number kept under a key.
pub open spec fn stored_number(data: Map<Seq<char>, Seq<char>>, key: Seq<char>) -> Option<i64> {
    if data.contains_key(key) {
        number_of(data[key])
    } else {
        None
    }
}

/// The number that a text spells, if it fits.
pub open spec fn number_of(s: Seq<char>) -> Option<i64> {
    match int_of_text(s) {
        Some(v) => if i64::MIN <= v <= i64::MAX {
            Some(v as i64)
        } else {
            None
        },
        None => None,
    }
}

/// Reads the number kept under a key.
pub fn metadata_number<M: BtnMetadataStore>(store: &M, key: &str) -> (r: Option<i64>)
    ensures
        r == stored_number(store.data(), key@),
{
    match store.get(key) {
        Some(text) => {
            let chars = chars_of(text.as_str());
            parse_i64(chars.as_slice())
        },
        None => None,
    }
}

/// Reads the number kept under a key, or gives `default`.
pub fn metadata_i64<M: BtnMetadataStore>(store: &M, key: &str, default: i64) -> (v: i64)
    ensures
        v == stored_i64(store.data(), key@, default),
{
    match metadata_number(store, key) {
        Some(v) => v,
        None => default,
    }
}

/// A kept number is read back.
pub proof fn kept_number_is_read_back(data: Map<Seq<char>, Seq<char>>, key: Seq<char>, v: i64)
    ensures
        stored_number(data.insert(key, decimal_int(v as int)), key) == Some(v),
{
    decimal_round_trips(v as int);
}

/// The larger of two numbers.
pub open spec fn larger(a: i64, b: i64) -> i64 {
    if a >= b {
        a
    } else {
        b
    }
}

// ------------------------------------------------------------------------ bans
/// How far the reporting of bans has come.
#[derive(Clone, Copy, PartialEq, Eq, Structural, Debug)]
pub struct BanSubmission {
    /// The identifier of the last reported ban.
    pub cursor: i64,
    /// How many bans were reported in this round.
    pub total: usize,
}

/// A page of bans to report.
#[derive(Debug)]
pub struct BanPage {
    pub ping: BtnBanPing,
    pub last_id: i64,
    pub count: usize,
}

/// The largest identifier among rows.
pub open spec fn max_ban_id(rows: Seq<BtnBanHistoryRow>) -> i64
    decreases rows.len(),
{
    if rows.len() <= 1 {
        rows[0].id
    } else {
        larger(max_ban_id(rows.drop_last()), rows.last().id)
    }
}

impl BanSubmission {
    /// Starts a round from the kept cursor.
    pub fn start<M: BtnMetadataStore>(store: &M) -> (s: BanSubmission)
        ensures
            s == (BanSubmission {
                cursor: stored_i64(store.data(), METADATA_KEY_BANS_CURSOR@, 0),
                total: 0,
            }),
    {
        BanSubmission { cursor: metadata_i64(store, METADATA_KEY_BANS_CURSOR, 0), total: 0 }
    }

    /// The page for the rows behind the cursor; `None` if there are none.
    pub fn page(rows: Vec<BtnBanHistoryRow>) -> (r: Option<BanPage>)
        ensures
            (r is Some) == (rows.len() > 0),
            r matches Some(p) ==> {
                &&& p.count == rows.len()
                &&& p.last_id == max_ban_id(rows@)
                &&& p.ping.bans.len() == rows.len()
                &&& forall|i: int|
                    0 <= i < rows.len() ==> reports_ban(#[trigger] p.ping.bans@[i], rows@[i])
            },
    {
        if rows.len() == 0 {
            return None;
        }
        let mut last_id = rows[0].id;
        let mut i: usize = 1;
        assert(rows@.take(1).len() == 1);
        while i < rows.len()
            invariant
                1 <= i <= rows.len(),
                last_id == max_ban_id(rows@.take(i as int)),
            decreases rows.len() - i,
        {
            assert(rows@.take(i + 1).drop_last() =~= rows@.take(i as int));
            if rows[i].id > last_id {
                last_id = rows[i].id;
            }
            i += 1;
        }
        assert(rows@.take(i as int) =~= rows@);
        let count = rows.len();
        let bans = bans_of(rows);
        Some(BanPage { ping: BtnBanPing { bans }, last_id, count })
    }

    /// Takes note that a page was taken by the server: the cursor moves behind it and is kept.
    /// Tells whether there may be another page.
    pub fn on_posted<M: BtnMetadataStore>(&mut self, page: &BanPage, store: &mut M) -> (more: bool)
        ensures
            final(self).cursor == page.last_id,
            final(self).total == if old(self).total + page.count <= usize::MAX {
                (old(self).total + page.count) as usize
            } else {
                usize::MAX
            },
            final(store).data() == old(store).data().insert(
                METADATA_KEY_BANS_CURSOR@,
                decimal_int(page.last_id as int),
            ),
            more == (page.count >= BAN_PAGE_SIZE),
    {
        self.cursor = page.last_id;
        let text = i64_text(self.cursor);
        store.set(METADATA_KEY_BANS_CURSOR, text.as_str());
        self.total = self.total.saturating_add(page.count);
        page.count >= BAN_PAGE_SIZE
    }
}

/// A round that starts after a page was taken goes on behind that page.
pub proof fn next_ban_round_goes_on(data: Map<Seq<char>, Seq<char>>, last_id: i64)
    ensures
        stored_i64(
            data.insert(METADATA_KEY_BANS_CURSOR@, decimal_int(last_id as int)),
            METADATA_KEY_BANS_CURSOR@,
            0,
        ) == last_id,
{
    kept_number_is_read_back(data, METADATA_KEY_BANS_CURSOR@, last_id);
}

proof fn lemma_max_ban_id(rows: Seq<BtnBanHistoryRow>)
    requires
        rows.len() > 0,
    ensures
        forall|i: int| 0 <= i < rows.len() ==> (#[trigger] rows[i]).id <= max_ban_id(rows),
    decreases rows.len(),
{
    if rows.len() > 1 {
        let head = rows.drop_last();
        lemma_max_ban_id(head);
        assert forall|i: int| 0 <= i < rows.len() implies (#[trigger] rows[i]).id <= max_ban_id(
            rows,
        ) by {
            if i < head.len() {
                assert(head[i] == rows[i]);
            }
        }
    }
}

/// No reported ban lies behind the cursor.
pub proof fn ban_cursor_covers_the_page(rows: Seq<BtnBanHistoryRow>, i: int)
    requires
        0 <= i < rows.len(),
    ensures
        rows[i].id <= max_ban_id(rows),
{
    lemma_max_ban_id(rows);
}

// ---------------------------------------------------------------------- swarms
/// How far the reporting of swarms has come: the time and the identifier of the last one.
#[derive(Clone, Copy, PartialEq, Eq, Structural, Debug)]
pub struct SwarmSubmission {
    pub last_seen: i64,
    pub id: i64,
    pub total: usize,
}

/// A page of swarms to report.
#[derive(Debug)]
pub struct SwarmPage {
    pub ping: BtnSwarmPeerPing,
    pub last_seen: i64,
    pub last_id: i64,
    pub count: usize,
}

/// The number that a text spells, or zero.
pub open spec fn number_or_zero(s: Seq<char>) -> i64 {
    match number_of(s) {
        Some(v) => v,
        None => 0,
    }
}

/// The two numbers of a swarm cursor, written with a comma between them; what is missing or no
/// number counts as zero.
pub open spec fn swarm_cursor_of(s: Seq<char>) -> (i64, i64) {
    match find_from(s, ',', 0) {
        Some(i) => (number_or_zero(s.take(i)), number_or_zero(s.skip(i + 1))),
        None => (number_or_zero(s), 0),
    }
}

/// The text of a swarm cursor.
pub open spec fn swarm_cursor_text(last_seen: i64, id: i64) -> Seq<char> {
    decimal_int(last_seen as int) + ","@ + decimal_int(id as int)
}

/// The kept swarm cursor.
pub open spec fn stored_swarm_cursor(data: Map<Seq<char>, Seq<char>>) -> (i64, i64) {
    if data.contains_key(METADATA_KEY_SWARM_CURSOR@) {
        swarm_cursor_of(data[METADATA_KEY_SWARM_CURSOR@])
    } else {
        (0, 0)
    }
}

fn parse_or_zero(text: &str) -> (v: i64)
    ensures
        v == number_or_zero(text@),
{
    let chars = chars_of(text);
    match parse_i64(chars.as_slice()) {
        Some(v) => v,
        None => 0,
    }
}

/// Reads a swarm cursor.
pub fn swarm_cursor(text: &str) -> (r: (i64, i64))
    ensures
        r == swarm_cursor_of(text@),
{
    let chars = chars_of(text);
    match find_char(chars.as_slice(), ',', 0) {
        Some(i) => {
            let first = substring_of(chars.as_slice(), 0, i);
            let second = substring_of(chars.as_slice(), i + 1, chars.len());
            assert(first@ =~= text@.take(i as int));
            assert(second@ =~= text@.skip(i + 1));
            (parse_or_zero(first.as_str()), parse_or_zero(second.as_str()))
        },
        None => (parse_or_zero(text), 0),
    }
}

impl SwarmSubmission {
    /// Starts a round from the kept cursor.
    pub fn start<M: BtnMetadataStore>(store: &M) -> (s: SwarmSubmission)
        ensures
            (s.last_seen, s.id) == stored_swarm_cursor(store.data()),
            s.total == 0,
    {
        let (last_seen, id) = match store.get(METADATA_KEY_SWARM_CURSOR) {
            Some(text) => swarm_cursor(text.as_str()),
            None => (0, 0),
        };
        SwarmSubmission { last_seen, id, total: 0 }
    }

    /// The page for the rows behind the cursor; `None` if there are none.
    pub fn page(rows: Vec<BtnSwarmHistoryRow>) -> (r: Option<SwarmPage>)
        ensures
            (r is Some) == (rows.len() > 0),
            r matches Some(p) ==> {
                &&& p.count == rows.len()
                &&& p.last_seen == rows@.last().last_time_seen_ms
                &&& p.last_id == rows@.last().id
                &&& p.ping.swarms.len() == rows.len()
                &&& forall|i: int|
                    0 <= i < rows.len() ==> reports_swarm(#[trigger] p.ping.swarms@[i], rows@[i])
            },
    {
        if rows.len() == 0 {
            return None;
        }
        let count = rows.len();
        let last_seen = rows[count - 1].last_time_seen_ms;
        let last_id = rows[count - 1].id;
        let swarms = swarms_of(rows);
        Some(SwarmPage { ping: BtnSwarmPeerPing { swarms }, last_seen, last_id, count })
    }

    /// Takes note that a page was taken by the server: the cursor moves to its last row and is
    /// kept. Tells whether there may be another page.
    pub fn on_posted<M: BtnMetadataStore>(&mut self, page: &SwarmPage, store: &mut M) -> (more:
        bool)
        ensures
            final(self).last_seen == page.last_seen,
            final(self).id == page.last_id,
            final(self).total == if old(self).total + page.count <= usize::MAX {
                (old(self).total + page.count) as usize
            } else {
                usize::MAX
            },
            final(store).data() == old(store).data().insert(
                METADATA_KEY_SWARM_CURSOR@,
                swarm_cursor_text(page.last_seen, page.last_id),
            ),
            more == (page.count >= SWARM_PAGE_SIZE),
    {
        self.last_seen = page.last_seen;
        self.id = page.last_id;
        let first = i64_text(self.last_seen);
        let second = i64_text(self.id);
        let text = crate::text::concat3(first.as_str(), ",", second.as_str());
        store.set(METADATA_KEY_SWARM_CURSOR, text.as_str());
        self.total = self.total.saturating_add(page.count);
        page.count >= SWARM_PAGE_SIZE
    }
}

/// A kept swarm cursor is read back.
pub proof fn kept_swarm_cursor_is_read_back(last_seen: i64, id: i64)
    ensures
        swarm_cursor_of(swarm_cursor_text(last_seen, id)) == (last_seen, id),
{
    reveal_strlit(",");
    let a = decimal_int(last_seen as int);
    let b = decimal_int(id as int);
    let s = swarm_cursor_text(last_seen, id);
    decimal_round_trips(last_seen as int);
    decimal_round_trips(id as int);
    lemma_decimal_has_no_comma(last_seen as int);
    lemma_find_from(s, ',', 0);
    assert(s[a.len() as int] == ',');
    match find_from(s, ',', 0) {
        Some(i) => {
            if i < a.len() {
                assert(a[i] == s[i]);
            }
            assert(i == a.len());
            assert(s.take(i) =~= a);
            assert(s.skip(i + 1) =~= b);
        },
        None => {},
    }
}

proof fn lemma_decimal_has_no_comma(n: int)
    ensures
        forall|i: int| 0 <= i < decimal_int(n).len() ==> #[trigger] decimal_int(n)[i] != ',',
{
    let m = if n < 0 {
        (-n) as nat
    } else {
        n as nat
    };
    crate::text::lemma_decimal_digits(m);
    assert forall|i: int| 0 <= i < decimal_int(n).len() implies #[trigger] decimal_int(n)[i]
        != ',' by {
        if n < 0 {
            if i > 0 {
                assert(decimal_int(n)[i] == crate::text::decimal(m)[i - 1]);
            }
        } else {
            assert(decimal_int(n)[i] == crate::text::decimal(m)[i]);
        }
    }
}

// ------------------------------------------------------------------- histories
/// How far the reporting of peer histories has come.
#[derive(Clone, Copy, PartialEq, Eq, Structural, Debug)]
pub struct HistorySubmission {
    /// The time up to which histories are reported.
    pub last_submit_at: i64,
    pub total: usize,
}

/// A page of peer histories to report.
#[derive(Debug)]
pub struct HistoryPage {
    pub ping: LegacyBtnPeerHistoryPing,
    pub last_record_at: i64,
    pub count: usize,
}

/// The kept time up to which histories are reported, if it is not older than 30 days.
pub open spec fn stored_history_time(data: Map<Seq<char>, Seq<char>>, now_ms: i64) -> Option<i64> {
    match stored_number(data, METADATA_KEY_HISTORY_TIMESTAMP@) {
        Some(v) => if v >= now_ms - HISTORY_MAX_AGE_MS {
            Some(v)
        } else {
            None
        },
        None => None,
    }
}

/// The time up to which histories are reported once a page ends at `last_record_at`: that time, one
/// more where it would stand still, and the clock where it would go back.
pub open spec fn next_submit_time(last_submit_at: i64, last_record_at: i64, clock_ms: i64) -> i64 {
    if last_record_at > last_submit_at {
        last_record_at
    } else if last_record_at == last_submit_at {
        last_record_at.wrapping_add(1)
    } else {
        clock_ms
    }
}

impl HistorySubmission {
    /// Starts a round from the kept time. Where there is none, or one that is too old, reporting
    /// starts now, and that is kept.
    pub fn start<M: BtnMetadataStore>(store: &mut M, now_ms: i64) -> (s: HistorySubmission)
        ensures
            s.total == 0,
            match stored_history_time(old(store).data(), now_ms) {
                Some(v) => s.last_submit_at == v && final(store).data() == old(store).data(),
                None => s.last_submit_at == now_ms && final(store).data()
                    == old(store).data().insert(
                    METADATA_KEY_HISTORY_TIMESTAMP@,
                    decimal_int(now_ms as int),
                ),
            },
    {
        let stored = metadata_number(&*store, METADATA_KEY_HISTORY_TIMESTAMP);
        let valid = match stored {
            Some(v) => now_ms < i64::MIN + HISTORY_MAX_AGE_MS || v >= now_ms - HISTORY_MAX_AGE_MS,
            None => false,
        };
        if let Some(v) = stored {
            if valid {
                return HistorySubmission { last_submit_at: v, total: 0 };
            }
        }
        let text = i64_text(now_ms);
        store.set(METADATA_KEY_HISTORY_TIMESTAMP, text.as_str());
        HistorySubmission { last_submit_at: now_ms, total: 0 }
    }

    /// The page for the rows from the reported time on; `None` if there are none.
    pub fn page(rows: Vec<BtnPeerHistoryRow>, now_ms: i64) -> (r: Option<HistoryPage>)
        ensures
            (r is Some) == (rows.len() > 0),
            r matches Some(p) ==> {
                &&& p.count == rows.len()
                &&& p.last_record_at == rows@.last().last_time_seen_ms
                &&& p.ping.populate_time == now_ms
                &&& p.ping.peers.len() == rows.len()
                &&& forall|i: int|
                    0 <= i < rows.len() ==> reports_history(#[trigger] p.ping.peers@[i], rows@[i])
            },
    {
        if rows.len() == 0 {
            return None;
        }
        let count = rows.len();
        let last_record_at = rows[count - 1].last_time_seen_ms;
        let peers = histories_of(rows);
        Some(
            HistoryPage {
                ping: LegacyBtnPeerHistoryPing { populate_time: now_ms, peers },
                last_record_at,
                count,
            },
        )
    }

    /// Takes note that a page was taken by the server: the reported time moves on and is kept.
    /// Tells whether there may be another page.
    pub fn on_posted<M: BtnMetadataStore>(
        &mut self,
        page: &HistoryPage,
        clock_ms: i64,
        store: &mut M,
    ) -> (more: bool)
        ensures
            final(self).last_submit_at == next_submit_time(
                old(self).last_submit_at,
                page.last_record_at,
                clock_ms,
            ),
            final(self).total == if old(self).total + page.count <= usize::MAX {
                (old(self).total + page.count) as usize
            } else {
                usize::MAX
            },
            final(store).data() == old(store).data().insert(
                METADATA_KEY_HISTORY_TIMESTAMP@,
                decimal_int(final(self).last_submit_at as int),
            ),
            more == (page.count >= HISTORY_PAGE_SIZE),
    {
        let next = if page.last_record_at > self.last_submit_at {
            page.last_record_at
        } else if page.last_record_at == self.last_submit_at {
            page.last_record_at.wrapping_add(1)
        } else {
            clock_ms
        };
        self.last_submit_at = next;
        let text = i64_text(next);
        store.set(METADATA_KEY_HISTORY_TIMESTAMP, text.as_str());
        self.total = self.total.saturating_add(page.count);
        page.count >= HISTORY_PAGE_SIZE
    }
}

/// With each page the reported time grows, or is set to the clock; it never stands still.
pub proof fn reported_time_moves_on(last_submit_at: i64, last_record_at: i64, clock_ms: i64)
    requires
        last_submit_at < i64::MAX,
    ensures
        ({
            let next = next_submit_time(last_submit_at, last_record_at, clock_ms);
            next > last_submit_at || (last_record_at < last_submit_at && next == clock_ms)
        }),
{
}

// ---------------------------------------------------------------- older servers
/// The rows whose ban began behind the given time.
pub open spec fn bans_since(rows: Seq<BtnLegacyBanRow>, last_report_ms: i64) -> Seq<BtnLegacyBanRow>
    decreases rows.len(),
{
    if rows.len() == 0 {
        rows
    } else {
        let rest = bans_since(rows.drop_last(), last_report_ms);
        if rows.last().ban_at_ms > last_report_ms {
            rest.push(rows.last())
        } else {
            rest
        }
    }
}

/// When the latest of the bans began.
pub open spec fn latest_ban(rows: Seq<BtnLegacyBanRow>) -> i64
    decreases rows.len(),
{
    if rows.len() <= 1 {
        rows[0].ban_at_ms
    } else {
        larger(latest_ban(rows.drop_last()), rows.last().ban_at_ms)
    }
}

/// Bans to report to an older server, and when the latest of them began.
#[derive(Debug)]
pub struct LegacyBanPage {
    pub ping: LegacyBtnBanPing,
    pub last_ban_at: i64,
}

/// The report of the bans that began behind the given time; `None` if there are none.
pub fn legacy_ban_page(rows: Vec<BtnLegacyBanRow>, last_report_ms: i64, now_ms: i64) -> (r: Option<
    LegacyBanPage,
>)
    ensures
        (r is Some) == (bans_since(rows@, last_report_ms).len() > 0),
        r matches Some(p) ==> {
            let fresh = bans_since(rows@, last_report_ms);
            &&& p.last_ban_at == latest_ban(fresh)
            &&& p.ping.populate_time == now_ms
            &&& p.ping.bans.len() == fresh.len()
            &&& forall|i: int|
                0 <= i < fresh.len() ==> reports_legacy_ban(#[trigger] p.ping.bans@[i], fresh[i])
        },
{
    let ghost all = rows@;
    let mut bans: Vec<LegacyBtnBan> = Vec::new();
    let mut last_ban_at: i64 = 0;
    assert(all.take(0) =~= Seq::empty());
    for row in iter: rows
        invariant
            iter.seq() == all,
            bans.len() == bans_since(all.take(iter.index() as int), last_report_ms).len(),
            bans.len() > 0 ==> last_ban_at == latest_ban(
                bans_since(all.take(iter.index() as int), last_report_ms),
            ),
            forall|i: int|
                0 <= i < bans.len() ==> reports_legacy_ban(
                    #[trigger] bans@[i],
                    bans_since(all.take(iter.index() as int), last_report_ms)[i],
                ),
    {
        let ghost n = iter.index() as int;
        let ghost before = bans_since(all.take(n), last_report_ms);
        assert(all.take(n + 1).drop_last() =~= all.take(n));
        assert(all.take(n + 1).last() == row);
        if row.ban_at_ms > last_report_ms {
            assert(before.push(row).drop_last() =~= before);
            if bans.len() == 0 || row.ban_at_ms > last_ban_at {
                last_ban_at = row.ban_at_ms;
            }
            bans.push(row.into_ping());
        }
    }
    assert(all.take(all.len() as int) =~= all);
    if bans.len() == 0 {
        return None;
    }
    Some(LegacyBanPage { ping: LegacyBtnBanPing { populate_time: now_ms, bans }, last_ban_at })
}

/// The report of the connected peers; `None` if there are none.
pub fn legacy_peer_page(rows: Vec<BtnLegacyPeerRow>, now_ms: i64) -> (r: Option<LegacyBtnPeerPing>)
    ensures
        (r is Some) == (rows.len() > 0),
        r matches Some(p) ==> {
            &&& p.populate_time == now_ms
            &&& p.peers.len() == rows.len()
            &&& forall|i: int|
                0 <= i < rows.len() ==> reports_legacy_peer(#[trigger] p.peers@[i], rows@[i])
        },
{
    if rows.len() == 0 {
        return None;
    }
    let peers = legacy_peers_of(rows);
    Some(LegacyBtnPeerPing { populate_time: now_ms, peers })
}

// ------------------------------------------------------------------ what reports say
/// A report of a ban tells what the peer sent as traffic from it and what it got as traffic to it,
/// the peer's progress as the peer's and the downloader's as the downloader's, the rest under its
/// own name, and the torrent by its identifier alone.
pub proof fn ban_reports_tell_the_row(
    m: BtnBan,
    row: BtnBanHistoryRow,
    sent: i64,
    received: i64,
    own: Double,
    theirs: Double,
)
    requires
        reports_ban(m, row),
        row.from_peer_traffic == sent,
        row.to_peer_traffic == received,
        row.downloader_progress == own,
        row.peer_progress == theirs,
    ensures
        m.from_peer_traffic == sent,
        m.to_peer_traffic == received,
        m.downloader_progress == own,
        m.peer_progress == theirs,
        m.torrent_identifier@ == hashed_identifier(row.torrent_hash@),
        m.ban_at == row.ban_at_ms,
        m.peer_ip@ == row.peer_ip@,
        m.peer_port == row.peer_port,
        opt_view(m.peer_id) == opt_view(row.peer_id),
        opt_view(m.peer_client_name) == opt_view(row.peer_client_name),
        opt_view(m.peer_flag) == opt_view(row.peer_flag),
        m.torrent_is_private == row.torrent_is_private,
        m.torrent_size == row.torrent_size,
        m.module@ == row.module@,
        m.rule@ == row.rule@,
        m.description@ == row.description@,
        opt_view(m.structured_data) == opt_view(row.structured_data),
{
}

/// A report of a peer in a swarm keeps apart what went to the peer and what came from it, what was
/// there before and since, the speeds and their peaks, and when the peer was first and last seen.
pub proof fn swarm_reports_tell_the_row(m: BtnSwarm, row: BtnSwarmHistoryRow)
    requires
        reports_swarm(m, row),
    ensures
        m.to_peer_traffic == row.to_peer_traffic,
        m.from_peer_traffic == row.from_peer_traffic,
        m.to_peer_traffic_offset == row.to_peer_traffic_offset,
        m.from_peer_traffic_offset == row.from_peer_traffic_offset,
        m.first_time_seen == row.first_time_seen_ms,
        m.last_time_seen == row.last_time_seen_ms,
        m.upload_speed == row.upload_speed,
        m.download_speed == row.download_speed,
        m.upload_speed_max == row.upload_speed_max,
        m.download_speed_max == row.download_speed_max,
        m.downloader@ == row.downloader@,
        m.downloader_progress == row.downloader_progress,
        m.peer_progress == row.peer_progress,
        m.peer_ip@ == row.peer_ip@,
        m.peer_port == row.peer_port,
        opt_view(m.peer_id) == opt_view(row.peer_id),
        opt_view(m.peer_client_name) == opt_view(row.peer_client_name),
        opt_view(m.peer_last_flags) == opt_view(row.peer_last_flags),
        m.torrent_identifier@ == hashed_identifier(row.torrent_hash@),
        m.torrent_is_private == row.torrent_is_private,
        m.torrent_size == row.torrent_size,
{
}

/// A report of a peer's history keeps apart what was downloaded and what was uploaded, what was
/// there before and since, and when the peer was first and last seen.
pub proof fn history_reports_tell_the_row(m: LegacyBtnPeerHistory, row: BtnPeerHistoryRow)
    requires
        reports_history(m, row),
    ensures
        m.downloaded == row.downloaded,
        m.uploaded == row.uploaded,
        m.downloaded_offset == row.downloaded_offset,
        m.uploaded_offset == row.uploaded_offset,
        m.first_time_seen == row.first_time_seen_ms,
        m.last_time_seen == row.last_time_seen_ms,
        m.ip_address@ == row.ip_address@,
        m.port == row.port,
        m.torrent_identifier@ == hashed_identifier(row.torrent_hash@),
        m.torrent_size == row.torrent_size,
        m.torrent_is_private == row.torrent_is_private,
{
}

/// A report of a connected peer keeps apart what was downloaded and what was uploaded, both speeds
/// and both progresses; a report of its ban tells the peer in the same way.
pub proof fn peer_reports_tell_the_row(
    m: LegacyBtnPeer,
    row: BtnLegacyPeerRow,
    ban: LegacyBtnBan,
    ban_row: BtnLegacyBanRow,
)
    requires
        reports_legacy_peer(m, row),
        reports_legacy_ban(ban, ban_row),
        ban_row.peer == row,
    ensures
        m.downloaded == row.downloaded && ban.peer.downloaded == row.downloaded,
        m.uploaded == row.uploaded && ban.peer.uploaded == row.uploaded,
        m.rt_download_speed == row.rt_download_speed && ban.peer.rt_download_speed
            == row.rt_download_speed,
        m.rt_upload_speed == row.rt_upload_speed && ban.peer.rt_upload_speed
            == row.rt_upload_speed,
        m.peer_progress == row.peer_progress && ban.peer.peer_progress == row.peer_progress,
        m.downloader_progress == row.downloader_progress && ban.peer.downloader_progress
            == row.downloader_progress,
        m.ip_address@ == row.ip_address@ && ban.peer.ip_address@ == row.ip_address@,
        m.peer_port == row.peer_port && ban.peer.peer_port == row.peer_port,
        m.torrent_identifier@ == hashed_identifier(row.torrent_hash@),
        ban.peer.torrent_identifier@ == hashed_identifier(row.torrent_hash@),
        m.torrent_size == row.torrent_size && ban.peer.torrent_size == row.torrent_size,
        ban.btn_ban == ban_row.btn_ban,
        ban.module@ == ban_row.module@,
        ban.rule@ == ban_row.rule@,
        ban.ban_unique_id@ == ban_row.ban_unique_id@,
{
}

/// The greatest id of a page is that of one of its rows and is below none of them; so is the latest
/// time of a list of bans.
pub proof fn greatest_of_a_page_is_one_of_it(
    rows: Seq<BtnBanHistoryRow>,
    bans: Seq<BtnLegacyBanRow>,
)
    requires
        rows.len() > 0,
        bans.len() > 0,
    ensures
        exists|i: int| 0 <= i < rows.len() && (#[trigger] rows[i]).id == max_ban_id(rows),
        forall|i: int| 0 <= i < rows.len() ==> (#[trigger] rows[i]).id <= max_ban_id(rows),
        exists|i: int| 0 <= i < bans.len() && (#[trigger] bans[i]).ban_at_ms == latest_ban(bans),
        forall|i: int| 0 <= i < bans.len() ==> (#[trigger] bans[i]).ban_at_ms <= latest_ban(bans),
    decreases rows.len() + bans.len(),
{
    if rows.len() > 1 {
        let rest = rows.drop_last();
        greatest_of_a_page_is_one_of_it(rest, bans);
        let k = choose|i: int| 0 <= i < rest.len() && (#[trigger] rest[i]).id == max_ban_id(rest);
        assert(rows[k] == rest[k]);
        assert(rows[rows.len() - 1] == rows.last());
        assert forall|i: int| 0 <= i < rows.len() implies (#[trigger] rows[i]).id <= max_ban_id(
            rows,
        ) by {
            if i < rest.len() {
                assert(rows[i] == rest[i]);
            }
        }
    } else {
        assert(rows[0].id == max_ban_id(rows));
        if bans.len() > 1 {
            let rest = bans.drop_last();
            greatest_of_a_page_is_one_of_it(rows, rest);
            let k = choose|i: int|
                0 <= i < rest.len() && (#[trigger] rest[i]).ban_at_ms == latest_ban(rest);
            assert(bans[k] == rest[k]);
            assert(bans[bans.len() - 1] == bans.last());
            assert forall|i: int| 0 <= i < bans.len() implies (#[trigger] bans[i]).ban_at_ms
                <= latest_ban(bans) by {
                if i < rest.len() {
                    assert(bans[i] == rest[i]);
                }
            }
        } else {
            assert(bans[0].ban_at_ms == latest_ban(bans));
        }
    }
}

/// The bans to report are those behind the last report, in their order.
pub proof fn bans_behind_the_last_report_are_fresh(
    rows: Seq<BtnLegacyBanRow>,
    row: BtnLegacyBanRow,
    last_report_ms: i64,
)
    ensures
        row.ban_at_ms > last_report_ms ==> bans_since(rows.push(row), last_report_ms)
            == bans_since(rows, last_report_ms).push(row),
        row.ban_at_ms <= last_report_ms ==> bans_since(rows.push(row), last_report_ms)
            == bans_since(rows, last_report_ms),
{
    assert(rows.push(row).drop_last() =~= rows);
}

/// The time of the last history is kept for 30 days; what is older, or spells no number, counts as
/// no time.
pub proof fn history_times_last_thirty_days(
    data: Map<Seq<char>, Seq<char>>,
    t: i64,
    now_ms: i64,
)
    requires
        now_ms >= 0,
    ensures
        ({
            let kept = data.insert("btn.submithistory.timestamp"@, decimal_int(t as int));
            &&& t >= now_ms - 30 * 24 * 60 * 60 * 1000 ==> stored_history_time(kept, now_ms)
                == Some(t)
            &&& t < now_ms - 30 * 24 * 60 * 60 * 1000 ==> stored_history_time(kept, now_ms) is None
        }),
        stored_history_time(data.remove("btn.submithistory.timestamp"@), now_ms) is None,
{
    crate::text::decimal_round_trips(t as int);
}

/// A kept place in the swarms is a time and an id with a comma between; where either spells no
/// number it counts as 0, and so does the id where there is no comma.
pub proof fn swarm_places_are_read_in_two_parts(a: Seq<char>, b: Seq<char>)
    requires
        forall|i: int| 0 <= i < a.len() ==> #[trigger] a[i] != ',',
    ensures
        number_of(a) matches Some(v) ==> swarm_cursor_of(a + seq![','] + b).0 == v
            && swarm_cursor_of(a) == (v, 0i64),
        number_of(a) is None ==> swarm_cursor_of(a + seq![','] + b).0 == 0 && swarm_cursor_of(a)
            == (0i64, 0i64),
        number_of(b) matches Some(v) ==> swarm_cursor_of(a + seq![','] + b).1 == v,
        number_of(b) is None ==> swarm_cursor_of(a + seq![','] + b).1 == 0,
{
    let s = a + seq![','] + b;
    let n = a.len() as int;
    crate::text::lemma_find_from(s, ',', 0);
    crate::text::lemma_find_from(a, ',', 0);
    assert(s[n] == ',');
    assert forall|i: int| 0 <= i < n implies #[trigger] s[i] != ',' by {
        assert(s[i] == a[i]);
    }
    assert(find_from(s, ',', 0) == Some(n));
    assert(s.take(n) =~= a);
    assert(s.skip(n + 1) =~= b);
}

} // verus!
