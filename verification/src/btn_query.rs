//! What a BTN server knows of an address.

use vstd::prelude::*;
use crate::model::Double;

verus! {

/// What a server knows of an address.
#[derive(Debug)]
pub struct IpQueryResult {
    pub color: Option<String>,
    pub labels: Vec<String>,
    pub bans: Option<IpQueryResultBans>,
    pub swarms: Option<IpQueryResultSwarms>,
    pub traffic: Option<IpQueryTraffic>,
    pub torrents: Option<IpQueryTorrents>,
}

impl Default for IpQueryResult {
    fn default() -> (v: Self)
        ensures
            v.color is None,
            v.labels@.len() == 0,
            v.bans is None,
            v.swarms is None,
            v.traffic is None,
            v.torrents is None,
    {
        IpQueryResult {
            color: None,
            labels: Vec::new(),
            bans: None,
            swarms: None,
            traffic: None,
            torrents: None,
        }
    }
}

/// Bans of an address.
#[derive(Debug)]
pub struct IpQueryResultBans {
    pub duration: u64,
    pub total: u64,
    pub records: Vec<IpQueryBanRecord>,
}

impl Default for IpQueryResultBans {
    fn default() -> (v: Self)
        ensures
            v.duration == 0,
            v.total == 0,
            v.records@.len() == 0,
    {
        IpQueryResultBans {
            duration: 0,
            total: 0,
            records: Vec::new(),
        }
    }
}

/// A ban of an address. The structured data is a JSON text.
#[derive(Debug)]
pub struct IpQueryBanRecord {
    pub populate_time: Option<i64>,
    pub torrent: Option<String>,
    pub peer_ip: Option<String>,
    pub peer_port: Option<u16>,
    pub peer_id: Option<String>,
    pub peer_client_name: Option<String>,
    pub peer_progress: Option<Double>,
    pub peer_flags: Option<String>,
    pub reporter_progress: Option<Double>,
    pub to_peer_traffic: Option<i64>,
    pub from_peer_traffic: Option<i64>,
    pub module_name: Option<String>,
    pub rule: Option<String>,
    pub description: Option<String>,
    pub structured_data: Option<String>,
}

impl Default for IpQueryBanRecord {
    fn default() -> (v: Self)
        ensures
            v.populate_time is None,
            v.torrent is None,
            v.peer_ip is None,
            v.peer_port is None,
            v.peer_id is None,
            v.peer_client_name is None,
            v.peer_progress is None,
            v.peer_flags is None,
            v.reporter_progress is None,
            v.to_peer_traffic is None,
            v.from_peer_traffic is None,
            v.module_name is None,
            v.rule is None,
            v.description is None,
            v.structured_data is None,
    {
        IpQueryBanRecord {
            populate_time: None,
            torrent: None,
            peer_ip: None,
            peer_port: None,
            peer_id: None,
            peer_client_name: None,
            peer_progress: None,
            peer_flags: None,
            reporter_progress: None,
            to_peer_traffic: None,
            from_peer_traffic: None,
            module_name: None,
            rule: None,
            description: None,
            structured_data: None,
        }
    }
}

/// Swarms that an address was seen in.
#[derive(Debug)]
pub struct IpQueryResultSwarms {
    pub duration: u64,
    pub total: u64,
    pub records: Vec<IpQuerySwarmRecord>,
    pub concurrent_download_torrents_count: u64,
    pub concurrent_seeding_torrents_count: u64,
}

impl Default for IpQueryResultSwarms {
    fn default() -> (v: Self)
        ensures
            v.duration == 0,
            v.total == 0,
            v.records@.len() == 0,
            v.concurrent_download_torrents_count == 0,
            v.concurrent_seeding_torrents_count == 0,
    {
        IpQueryResultSwarms {
            duration: 0,
            total: 0,
            records: Vec::new(),
            concurrent_download_torrents_count: 0,
            concurrent_seeding_torrents_count: 0,
        }
    }
}

/// A swarm that an address was seen in.
#[derive(Debug)]
pub struct IpQuerySwarmRecord {
    pub torrent: Option<String>,
    pub peer_ip: Option<String>,
    pub peer_port: Option<u16>,
    pub peer_id: Option<String>,
    pub peer_client_name: Option<String>,
    pub peer_progress: Option<Double>,
    pub from_peer_traffic: Option<i64>,
    pub to_peer_traffic: Option<i64>,
    pub from_peer_traffic_offset: Option<i64>,
    pub to_peer_traffic_offset: Option<i64>,
    pub flags: Option<String>,
    pub first_time_seen: Option<i64>,
    pub last_time_seen: Option<i64>,
    pub user_progress: Double,
}

impl Default for IpQuerySwarmRecord {
    fn default() -> (v: Self)
        ensures
            v.torrent is None,
            v.peer_ip is None,
            v.peer_port is None,
            v.peer_id is None,
            v.peer_client_name is None,
            v.peer_progress is None,
            v.from_peer_traffic is None,
            v.to_peer_traffic is None,
            v.from_peer_traffic_offset is None,
            v.to_peer_traffic_offset is None,
            v.flags is None,
            v.first_time_seen is None,
            v.last_time_seen is None,
            v.user_progress.bits == 0,
    {
        IpQuerySwarmRecord {
            torrent: None,
            peer_ip: None,
            peer_port: None,
            peer_id: None,
            peer_client_name: None,
            peer_progress: None,
            from_peer_traffic: None,
            to_peer_traffic: None,
            from_peer_traffic_offset: None,
            to_peer_traffic_offset: None,
            flags: None,
            first_time_seen: None,
            last_time_seen: None,
            user_progress: Double { bits: 0 },
        }
    }
}

/// Traffic with an address.
#[derive(Debug)]
pub struct IpQueryTraffic {
    pub duration: u64,
    pub to_peer_traffic: i64,
    pub from_peer_traffic: i64,
    pub share_ratio: Double,
}

impl Default for IpQueryTraffic {
    fn default() -> (v: Self)
        ensures
            v.duration == 0,
            v.to_peer_traffic == 0,
            v.from_peer_traffic == 0,
            v.share_ratio.bits == 0,
    {
        IpQueryTraffic {
            duration: 0,
            to_peer_traffic: 0,
            from_peer_traffic: 0,
            share_ratio: Double { bits: 0 },
        }
    }
}

/// Torrents of an address.
#[derive(Debug)]
pub struct IpQueryTorrents {
    pub duration: u64,
    pub count: u64,
}

impl Default for IpQueryTorrents {
    fn default() -> (v: Self)
        ensures
            v.duration == 0,
            v.count == 0,
    {
        IpQueryTorrents {
            duration: 0,
            count: 0,
        }
    }
}

} // verus!
