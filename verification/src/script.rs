//! What scripts see: the properties of peers, torrents and downloaders, and the functions that come
//! with the language.

use vstd::prelude::*;
use crate::avscript::MAX_SCRIPT_EXECUTE_MS;
use crate::btn_codec::{get_hashed_identifier, hashed_identifier};
use crate::geoip::{i64_of, read_i64};
use crate::iputil::{addr_of, parse_addr};
use crate::model::{Double, PeerData, TorrentData};
use crate::net::{ip_text, ip_to_string};
use crate::text::{blank, decimal_int, is_blank_text, is_ws, str_eq, texts, trim, trim_of};

verus! {

/// The downloader that a script sees.
#[derive(Debug, Clone)]
pub struct ScriptDownloader {
    pub id: String,
    pub name: String,
}

/// The address of a peer that a script sees.
#[derive(Debug, Clone)]
pub struct PeerAddressInfo {
    pub ip: String,
    pub port: i64,
}

/// A value that a script sees.
#[derive(Debug)]
pub enum ScriptValue {
    Unit,
    Text(String),
    Int(i64),
    Number(Double),
    Bool(bool),
    Address(PeerAddressInfo),
    Other,
}

/// A value that a script sees, as a value.
pub ghost enum ValueView {
    Unit,
    Text(Seq<char>),
    Int(i64),
    Number(Double),
    Bool(bool),
    Address(Seq<char>, i64),
    Other,
}

impl ScriptValue {
    /// The value.
    pub open spec fn view(&self) -> ValueView {
        match self {
            ScriptValue::Unit => ValueView::Unit,
            ScriptValue::Text(t) => ValueView::Text(t@),
            ScriptValue::Int(n) => ValueView::Int(*n),
            ScriptValue::Number(d) => ValueView::Number(*d),
            ScriptValue::Bool(b) => ValueView::Bool(*b),
            ScriptValue::Address(a) => ValueView::Address(a.ip@, a.port),
            ScriptValue::Other => ValueView::Other,
        }
    }
}

/// A value, if any, as a value.
pub open spec fn value_view(o: Option<ScriptValue>) -> Option<ValueView> {
    match o {
        Some(v) => Some(v@),
        None => None,
    }
}

/// A text, or nothing.
pub open spec fn text_of(o: Option<String>) -> Seq<char> {
    match o {
        Some(t) => t@,
        None => Seq::empty(),
    }
}

fn text_value(o: &Option<String>) -> (v: ScriptValue)
    ensures
        v@ == ValueView::Text(text_of(*o)),
{
    match o {
        Some(t) => ScriptValue::Text(t.clone()),
        None => {
            let t = String::new();
            assert(t@ =~= Seq::empty());
            ScriptValue::Text(t)
        },
    }
}

// ------------------------------------------------------------------ properties
/// The properties of a peer. Some have two names.
pub open spec fn peer_value(p: PeerData, name: Seq<char>) -> Option<ValueView> {
    if name == "ip"@ {
        Some(ValueView::Text(p.ip@))
    } else if name == "port"@ {
        Some(ValueView::Int(p.port as i64))
    } else if name == "peer_id"@ || name == "peerId"@ {
        Some(ValueView::Text(text_of(p.peer_id)))
    } else if name == "client_name"@ || name == "clientName"@ {
        Some(ValueView::Text(text_of(p.client_name)))
    } else if name == "download_speed"@ || name == "downloadSpeed"@ {
        Some(ValueView::Int(p.dl_speed))
    } else if name == "upload_speed"@ || name == "uploadSpeed"@ {
        Some(ValueView::Int(p.up_speed))
    } else if name == "downloaded"@ {
        Some(ValueView::Int(p.downloaded))
    } else if name == "uploaded"@ {
        Some(ValueView::Int(p.uploaded))
    } else if name == "progress"@ {
        Some(ValueView::Number(p.progress))
    } else if name == "flags"@ {
        Some(ValueView::Text(text_of(p.flags)))
    } else if name == "peerAddress"@ {
        Some(ValueView::Address(p.ip@, p.port as i64))
    } else {
        None
    }
}

/// A property of a peer.
pub fn peer_property(p: &PeerData, name: &str) -> (r: Option<ScriptValue>)
    ensures
        value_view(r) == peer_value(*p, name@),
{
    if str_eq(name, "ip") {
        Some(ScriptValue::Text(p.ip.clone()))
    } else if str_eq(name, "port") {
        Some(ScriptValue::Int(p.port as i64))
    } else if str_eq(name, "peer_id") || str_eq(name, "peerId") {
        Some(text_value(&p.peer_id))
    } else if str_eq(name, "client_name") || str_eq(name, "clientName") {
        Some(text_value(&p.client_name))
    } else if str_eq(name, "download_speed") || str_eq(name, "downloadSpeed") {
        Some(ScriptValue::Int(p.dl_speed))
    } else if str_eq(name, "upload_speed") || str_eq(name, "uploadSpeed") {
        Some(ScriptValue::Int(p.up_speed))
    } else if str_eq(name, "downloaded") {
        Some(ScriptValue::Int(p.downloaded))
    } else if str_eq(name, "uploaded") {
        Some(ScriptValue::Int(p.uploaded))
    } else if str_eq(name, "progress") {
        Some(ScriptValue::Number(p.progress))
    } else if str_eq(name, "flags") {
        Some(text_value(&p.flags))
    } else if str_eq(name, "peerAddress") {
        Some(ScriptValue::Address(PeerAddressInfo { ip: p.ip.clone(), port: p.port as i64 }))
    } else {
        None
    }
}

/// An address in its usual form; a text that is none stays as it is.
pub open spec fn canonical(ip: Seq<char>) -> Seq<char> {
    match addr_of(ip) {
        Some(a) => ip_text(a),
        None => ip,
    }
}

/// An address in its usual form; a text that is none stays as it is.
pub fn canonical_address(ip: &str) -> (out: String)
    ensures
        out@ == canonical(ip@),
{
    match parse_addr(ip) {
        Some(a) => ip_to_string(&a),
        None => ip.to_string(),
    }
}

/// The properties of a peer's address.
pub open spec fn address_value(ip: Seq<char>, port: i64, name: Seq<char>) -> Option<ValueView> {
    if name == "ip"@ {
        Some(ValueView::Text(ip))
    } else if name == "port"@ {
        Some(ValueView::Int(port))
    } else if name == "address"@ {
        Some(ValueView::Text(canonical(ip)))
    } else {
        None
    }
}

/// A property of a peer's address.
pub fn address_property(a: &PeerAddressInfo, name: &str) -> (r: Option<ScriptValue>)
    ensures
        value_view(r) == address_value(a.ip@, a.port, name@),
{
    if str_eq(name, "ip") {
        Some(ScriptValue::Text(a.ip.clone()))
    } else if str_eq(name, "port") {
        Some(ScriptValue::Int(a.port))
    } else if str_eq(name, "address") {
        Some(ScriptValue::Text(canonical_address(a.ip.as_str())))
    } else {
        None
    }
}

/// The properties of a torrent. Some have two names.
pub open spec fn torrent_value(t: TorrentData, name: Seq<char>) -> Option<ValueView> {
    if name == "id"@ || name == "hash"@ {
        Some(ValueView::Text(t.hash@))
    } else if name == "name"@ {
        Some(ValueView::Text(t.name@))
    } else if name == "progress"@ {
        Some(ValueView::Number(t.progress))
    } else if name == "size"@ {
        Some(ValueView::Int(t.total_size))
    } else if name == "rt_upload_speed"@ || name == "rtUploadSpeed"@ {
        Some(ValueView::Int(t.upspeed))
    } else if name == "rt_download_speed"@ || name == "rtDownloadSpeed"@ {
        Some(ValueView::Int(t.dlspeed))
    } else if name == "completedSize"@ {
        Some(ValueView::Int(t.completed()))
    } else if name == "private"@ {
        Some(ValueView::Bool(t.is_private == Some(true)))
    } else if name == "seeding"@ {
        Some(ValueView::Bool(t.progress.at_least_one()))
    } else if name == "hashedIdentifier"@ {
        Some(ValueView::Text(hashed_identifier(t.hash@)))
    } else {
        None
    }
}

/// A property of a torrent.
pub fn torrent_property(t: &TorrentData, name: &str) -> (r: Option<ScriptValue>)
    ensures
        value_view(r) == torrent_value(*t, name@),
{
    if str_eq(name, "id") || str_eq(name, "hash") {
        Some(ScriptValue::Text(t.hash.clone()))
    } else if str_eq(name, "name") {
        Some(ScriptValue::Text(t.name.clone()))
    } else if str_eq(name, "progress") {
        Some(ScriptValue::Number(t.progress))
    } else if str_eq(name, "size") {
        Some(ScriptValue::Int(t.total_size))
    } else if str_eq(name, "rt_upload_speed") || str_eq(name, "rtUploadSpeed") {
        Some(ScriptValue::Int(t.upspeed))
    } else if str_eq(name, "rt_download_speed") || str_eq(name, "rtDownloadSpeed") {
        Some(ScriptValue::Int(t.dlspeed))
    } else if str_eq(name, "completedSize") {
        Some(ScriptValue::Int(t.completed_size()))
    } else if str_eq(name, "private") {
        Some(ScriptValue::Bool(t.is_private()))
    } else if str_eq(name, "seeding") {
        Some(ScriptValue::Bool(t.is_seeding()))
    } else if str_eq(name, "hashedIdentifier") {
        Some(ScriptValue::Text(get_hashed_identifier(t.hash.as_str())))
    } else {
        None
    }
}

/// The properties of a downloader.
pub open spec fn downloader_value(d: ScriptDownloader, name: Seq<char>) -> Option<ValueView> {
    if name == "id"@ {
        Some(ValueView::Text(d.id@))
    } else if name == "name"@ {
        Some(ValueView::Text(d.name@))
    } else {
        None
    }
}

/// A property of a downloader.
pub fn downloader_property(d: &ScriptDownloader, name: &str) -> (r: Option<ScriptValue>)
    ensures
        value_view(r) == downloader_value(*d, name@),
{
    if str_eq(name, "id") {
        Some(ScriptValue::Text(d.id.clone()))
    } else if str_eq(name, "name") {
        Some(ScriptValue::Text(d.name.clone()))
    } else {
        None
    }
}

/// Two names of one property give the same value.
pub proof fn both_names_agree(p: PeerData, t: TorrentData)
    ensures
        peer_value(p, "peer_id"@) == peer_value(p, "peerId"@),
        peer_value(p, "client_name"@) == peer_value(p, "clientName"@),
        peer_value(p, "download_speed"@) == peer_value(p, "downloadSpeed"@),
        peer_value(p, "upload_speed"@) == peer_value(p, "uploadSpeed"@),
        torrent_value(t, "rt_upload_speed"@) == torrent_value(t, "rtUploadSpeed"@),
        torrent_value(t, "rt_download_speed"@) == torrent_value(t, "rtDownloadSpeed"@),
{
    reveal_strlit("ip");
    reveal_strlit("port");
    reveal_strlit("peer_id");
    reveal_strlit("peerId");
    reveal_strlit("client_name");
    reveal_strlit("clientName");
    reveal_strlit("download_speed");
    reveal_strlit("downloadSpeed");
    reveal_strlit("upload_speed");
    reveal_strlit("uploadSpeed");
    reveal_strlit("id");
    reveal_strlit("hash");
    reveal_strlit("name");
    reveal_strlit("progress");
    reveal_strlit("size");
    reveal_strlit("rt_upload_speed");
    reveal_strlit("rtUploadSpeed");
    reveal_strlit("rt_download_speed");
    reveal_strlit("rtDownloadSpeed");
    assert("ip"@.len() == 2);
    assert("port"@.len() == 4);
    assert("peer_id"@.len() == 7);
    assert("peerId"@.len() == 6);
    assert("client_name"@.len() == 11);
    assert("clientName"@.len() == 10);
    assert("download_speed"@.len() == 14);
    assert("downloadSpeed"@.len() == 13);
    assert("upload_speed"@.len() == 12);
    assert("uploadSpeed"@.len() == 11);
    assert("id"@.len() == 2);
    assert("hash"@.len() == 4);
    assert("name"@.len() == 4);
    assert("progress"@.len() == 8);
    assert("size"@.len() == 4);
    assert("rt_upload_speed"@.len() == 15);
    assert("rtUploadSpeed"@.len() == 13);
    assert("rt_download_speed"@.len() == 17);
    assert("rtDownloadSpeed"@.len() == 15);
    assert("client_name"@[0] == 'c' && "uploadSpeed"@[0] == 'u');
    assert("rt_upload_speed"@[2] == '_' && "rtDownloadSpeed"@[2] == 'D');
}

// ------------------------------------------------------------------- functions
/// Whether a value counts as blank: nothing, or a text of white space.
pub open spec fn counts_blank(v: ValueView) -> bool {
    match v {
        ValueView::Unit => true,
        ValueView::Text(t) => blank(t),
        _ => false,
    }
}

/// Whether a value counts as not blank: a text with something in it.
pub open spec fn counts_not_blank(v: ValueView) -> bool {
    v matches ValueView::Text(t) && !blank(t)
}

/// Whether a value counts as blank.
pub fn is_blank(v: &ScriptValue) -> (yes: bool)
    ensures
        yes == counts_blank(v@),
{
    match v {
        ScriptValue::Unit => true,
        ScriptValue::Text(t) => is_blank_text(t.as_str()),
        _ => false,
    }
}

/// Whether a value counts as not blank.
pub fn is_not_blank(v: &ScriptValue) -> (yes: bool)
    ensures
        yes == counts_not_blank(v@),
{
    match v {
        ScriptValue::Text(t) => !is_blank_text(t.as_str()),
        _ => false,
    }
}

/// A text, or nothing, is either blank or not; any other value is neither.
pub proof fn blank_or_not(v: ValueView)
    ensures
        !(counts_blank(v) && counts_not_blank(v)),
        (v is Unit || v is Text) == (counts_blank(v) || counts_not_blank(v)),
{
}

/// The positions of the keys in a list of keys and values: every other one, from the first on.
pub fn av_keys(len: usize) -> (positions: Vec<usize>)
    ensures
        positions@.len() == (len as int + 1) / 2,
        forall|i: int| 0 <= i < positions@.len() ==> #[trigger] positions@[i] == 2 * i,
{
    let mut positions: Vec<usize> = Vec::new();
    let mut i: usize = 0;
    while i < len
        invariant
            i <= len || i == len + 1,
            i % 2 == 0,
            positions@.len() == i as int / 2,
            forall|k: int| 0 <= k < positions@.len() ==> #[trigger] positions@[k] == 2 * k,
        decreases len + 1 - i,
    {
        positions.push(i);
        if len - i < 2 {
            return positions;
        }
        i += 2;
    }
    positions
}

/// The position of the value that stands behind the first key with a text, from a pair on.
pub open spec fn value_position(items: Seq<Seq<char>>, key: Seq<char>, pair: int) -> Option<int>
    decreases items.len() - 2 * pair,
{
    if pair < 0 || 2 * pair + 1 >= items.len() {
        None
    } else if items[2 * pair] == key {
        Some(2 * pair + 1)
    } else {
        value_position(items, key, pair + 1)
    }
}

/// The position of the value that stands behind the first key with a text, in a list of keys and
/// values. A key without a value does not count.
pub fn av_get(items: &Vec<String>, key: &str) -> (r: Option<usize>)
    ensures
        match r {
            Some(i) => value_position(texts(items@), key@, 0) == Some(i as int) && i < items.len(),
            None => value_position(texts(items@), key@, 0) is None,
        },
{
    let ghost all = texts(items@);
    let n = items.len();
    let mut i: usize = 0;
    while i < n && n - i >= 2
        invariant
            n == items.len(),
            i <= n,
            i % 2 == 0,
            all == texts(items@),
            value_position(all, key@, 0) == value_position(all, key@, i as int / 2),
        decreases n - i,
    {
        assert(all[i as int] == items@[i as int]@);
        assert(2 * (i as int / 2) == i);
        if str_eq(items[i].as_str(), key) {
            return Some(i + 1);
        }
        assert((i as int + 2) / 2 == i as int / 2 + 1);
        i += 2;
    }
    None
}

/// How a value is turned into a whole number.
#[derive(Clone, Copy, PartialEq, Eq, Structural, Debug)]
pub enum LongOutcome {
    Value(i64),
    /// The number is to be cut off towards zero.
    Truncate(Double),
    /// The value is no number and no text.
    NotText,
    /// The text spells no number.
    Unreadable,
}

/// How a value is turned into a whole number.
pub open spec fn long_of(v: ValueView) -> LongOutcome {
    match v {
        ValueView::Int(n) => LongOutcome::Value(n),
        ValueView::Number(d) => LongOutcome::Truncate(d),
        ValueView::Text(t) => match i64_of(trim_of(t)) {
            Some(n) => LongOutcome::Value(n),
            None => LongOutcome::Unreadable,
        },
        _ => LongOutcome::NotText,
    }
}

/// Turns a value into a whole number.
pub fn av_long(v: &ScriptValue) -> (r: LongOutcome)
    ensures
        r == long_of(v@),
{
    match v {
        ScriptValue::Int(n) => LongOutcome::Value(*n),
        ScriptValue::Number(d) => LongOutcome::Truncate(*d),
        ScriptValue::Text(t) => {
            let t = trim(t.as_str());
            match read_i64(t.as_str()) {
                Some(n) => LongOutcome::Value(n),
                None => LongOutcome::Unreadable,
            }
        },
        _ => LongOutcome::NotText,
    }
}

/// Whether a script that started at some time has run too long. Without a start it has not.
pub open spec fn timed_out(start_ms: i64, now_ms: i64) -> bool {
    start_ms != 0 && now_ms.wrapping_sub(start_ms) > MAX_SCRIPT_EXECUTE_MS
}

/// Whether a script that started at some time has run too long.
pub fn script_timed_out(start_ms: i64, now_ms: i64) -> (yes: bool)
    ensures
        yes == timed_out(start_ms, now_ms),
{
    start_ms != 0 && now_ms.wrapping_sub(start_ms) > MAX_SCRIPT_EXECUTE_MS
}

/// A script may run for its full time, and no longer.
pub proof fn scripts_get_their_time(start_ms: i64, now_ms: i64)
    requires
        0 < start_ms <= now_ms,
    ensures
        timed_out(start_ms, now_ms) == (now_ms - start_ms > MAX_SCRIPT_EXECUTE_MS),
{
}

/// Each property of a peer that a script sees is the value of that name, in both spellings.
pub proof fn peers_show_what_their_names_say(p: PeerData)
    ensures
        peer_value(p, "ip"@) == Some(ValueView::Text(p.ip@)),
        peer_value(p, "port"@) == Some(ValueView::Int(p.port as i64)),
        peer_value(p, "peer_id"@) == Some(ValueView::Text(match p.peer_id { Some(t) => t@, None => Seq::empty() })),
        peer_value(p, "peerId"@) == Some(ValueView::Text(match p.peer_id { Some(t) => t@, None => Seq::empty() })),
        peer_value(p, "client_name"@) == Some(ValueView::Text(match p.client_name { Some(t) => t@, None => Seq::empty() })),
        peer_value(p, "clientName"@) == Some(ValueView::Text(match p.client_name { Some(t) => t@, None => Seq::empty() })),
        peer_value(p, "download_speed"@) == Some(ValueView::Int(p.dl_speed)),
        peer_value(p, "downloadSpeed"@) == Some(ValueView::Int(p.dl_speed)),
        peer_value(p, "upload_speed"@) == Some(ValueView::Int(p.up_speed)),
        peer_value(p, "uploadSpeed"@) == Some(ValueView::Int(p.up_speed)),
        peer_value(p, "downloaded"@) == Some(ValueView::Int(p.downloaded)),
        peer_value(p, "uploaded"@) == Some(ValueView::Int(p.uploaded)),
        peer_value(p, "progress"@) == Some(ValueView::Number(p.progress)),
        peer_value(p, "flags"@) == Some(ValueView::Text(match p.flags { Some(t) => t@, None => Seq::empty() })),
        peer_value(p, "peerAddress"@) == Some(ValueView::Address(p.ip@, p.port as i64)),
{
    reveal_strlit("ip");
    reveal_strlit("port");
    reveal_strlit("peer_id");
    reveal_strlit("peerId");
    reveal_strlit("client_name");
    reveal_strlit("clientName");
    reveal_strlit("download_speed");
    reveal_strlit("downloadSpeed");
    reveal_strlit("upload_speed");
    reveal_strlit("uploadSpeed");
    reveal_strlit("downloaded");
    reveal_strlit("uploaded");
    reveal_strlit("progress");
    reveal_strlit("flags");
    reveal_strlit("peerAddress");
    assert("ip"@.len() == 2);
    assert("port"@.len() == 4);
    assert("peer_id"@.len() == 7);
    assert("peerId"@.len() == 6);
    assert("client_name"@.len() == 11 && "client_name"@[0] == 'c');
    assert("uploadSpeed"@.len() == 11 && "uploadSpeed"@[0] == 'u');
    assert("peerAddress"@.len() == 11 && "peerAddress"@[0] == 'p');
    assert("clientName"@.len() == 10 && "clientName"@[0] == 'c');
    assert("downloaded"@.len() == 10 && "downloaded"@[0] == 'd');
    assert("download_speed"@.len() == 14);
    assert("downloadSpeed"@.len() == 13);
    assert("upload_speed"@.len() == 12);
    assert("uploaded"@.len() == 8 && "uploaded"@[0] == 'u');
    assert("progress"@.len() == 8 && "progress"@[0] == 'p');
    assert("flags"@.len() == 5);
}

/// Each property of a torrent that a script sees is the value of that name, in both spellings.
pub proof fn torrents_show_what_their_names_say(t: TorrentData)
    ensures
        torrent_value(t, "id"@) == Some(ValueView::Text(t.hash@)),
        torrent_value(t, "hash"@) == Some(ValueView::Text(t.hash@)),
        torrent_value(t, "name"@) == Some(ValueView::Text(t.name@)),
        torrent_value(t, "progress"@) == Some(ValueView::Number(t.progress)),
        torrent_value(t, "size"@) == Some(ValueView::Int(t.total_size)),
        torrent_value(t, "rt_upload_speed"@) == Some(ValueView::Int(t.upspeed)),
        torrent_value(t, "rtUploadSpeed"@) == Some(ValueView::Int(t.upspeed)),
        torrent_value(t, "rt_download_speed"@) == Some(ValueView::Int(t.dlspeed)),
        torrent_value(t, "rtDownloadSpeed"@) == Some(ValueView::Int(t.dlspeed)),
        torrent_value(t, "completedSize"@) == Some(ValueView::Int(t.completed())),
        torrent_value(t, "private"@) == Some(ValueView::Bool(t.is_private == Some(true))),
        torrent_value(t, "seeding"@) == Some(ValueView::Bool(t.progress.at_least_one())),
        torrent_value(t, "hashedIdentifier"@) == Some(ValueView::Text(hashed_identifier(t.hash@))),
{
    reveal_strlit("id");
    reveal_strlit("hash");
    reveal_strlit("name");
    reveal_strlit("progress");
    reveal_strlit("size");
    reveal_strlit("rt_upload_speed");
    reveal_strlit("rtUploadSpeed");
    reveal_strlit("rt_download_speed");
    reveal_strlit("rtDownloadSpeed");
    reveal_strlit("completedSize");
    reveal_strlit("private");
    reveal_strlit("seeding");
    reveal_strlit("hashedIdentifier");
    assert("id"@.len() == 2);
    assert("hash"@.len() == 4 && "hash"@[0] == 'h');
    assert("name"@.len() == 4 && "name"@[0] == 'n');
    assert("size"@.len() == 4 && "size"@[0] == 's');
    assert("progress"@.len() == 8);
    assert("rt_upload_speed"@.len() == 15 && "rt_upload_speed"@[2] == '_');
    assert("rtDownloadSpeed"@.len() == 15 && "rtDownloadSpeed"@[2] == 'D');
    assert("rtUploadSpeed"@.len() == 13 && "rtUploadSpeed"@[0] == 'r');
    assert("completedSize"@.len() == 13 && "completedSize"@[0] == 'c');
    assert("rt_download_speed"@.len() == 17);
    assert("private"@.len() == 7 && "private"@[0] == 'p');
    assert("seeding"@.len() == 7 && "seeding"@[0] == 's');
    assert("hashedIdentifier"@.len() == 16);
}

/// Each property of an address that a script sees is the value of that name.
pub proof fn addresses_show_what_their_names_say(ip: Seq<char>, port: i64)
    ensures
        address_value(ip, port, "ip"@) == Some(ValueView::Text(ip)),
        address_value(ip, port, "port"@) == Some(ValueView::Int(port)),
        address_value(ip, port, "address"@) == Some(ValueView::Text(canonical(ip))),
{
    reveal_strlit("ip");
    reveal_strlit("port");
    reveal_strlit("address");
    assert("ip"@.len() == 2);
    assert("port"@.len() == 4);
    assert("address"@.len() == 7);
}

/// Each property of a downloader that a script sees is the value of that name.
pub proof fn downloaders_show_what_their_names_say(d: ScriptDownloader)
    ensures
        downloader_value(d, "id"@) == Some(ValueView::Text(d.id@)),
        downloader_value(d, "name"@) == Some(ValueView::Text(d.name@)),
{
    reveal_strlit("id");
    reveal_strlit("name");
    assert("id"@.len() == 2);
    assert("name"@.len() == 4);
}

/// The value of a key in a flat list of keys and values is the item behind the first place with the
/// key that is a place of keys; where no such place has the key, there is none.
pub proof fn value_stands_behind_the_first_key(items: Seq<Seq<char>>, key: Seq<char>, pair: int)
    requires
        0 <= pair,
    ensures
        match value_position(items, key, pair) {
            Some(at) => {
                &&& at % 2 == 1
                &&& 2 * pair < at < items.len()
                &&& items[at - 1] == key
                &&& forall|k: int| 2 * pair <= k < at - 1 && k % 2 == 0 ==> items[k] != key
            },
            None => forall|k: int|
                2 * pair <= k && k % 2 == 0 && k + 1 < items.len() ==> items[k] != key,
        },
    decreases items.len() - 2 * pair,
{
    if 2 * pair + 1 < items.len() && items[2 * pair] != key {
        value_stands_behind_the_first_key(items, key, pair + 1);
        assert forall|k: int|
            2 * pair <= k && k % 2 == 0 && k + 1 < items.len() && (value_position(
                items,
                key,
                pair,
            ) matches Some(at) ==> k < at - 1) implies items[k] != key by {
            if k >= 2 * pair + 2 {
                assert(2 * (pair + 1) <= k);
            } else {
                assert(k == 2 * pair);
            }
        }
    }
}

/// A script is over its time exactly when more than 1500 milliseconds have passed since it started.
pub proof fn scripts_have_one_and_a_half_seconds(start_ms: i64, now_ms: i64)
    requires
        0 < start_ms <= now_ms,
    ensures
        timed_out(start_ms, now_ms) == (now_ms - start_ms > 1500),
{
}

/// A number is read from whole numbers as they are, and from texts that spell one, white space aside.
pub proof fn whole_numbers_are_read_back(n: i64)
    ensures
        long_of(ValueView::Int(n)) == LongOutcome::Value(n),
        long_of(ValueView::Text(decimal_int(n as int))) == LongOutcome::Value(n),
{
    let t = decimal_int(n as int);
    crate::text::decimal_round_trips(n as int);
    crate::text::lemma_decimal_digits(if n < 0 {
        (-n) as nat
    } else {
        n as nat
    });
    assert(!is_ws(t[0]) && !is_ws(t.last()));
    let none = Seq::<char>::empty();
    crate::text::trimming_takes_the_white_space_around(none, t, none);
    assert(none + t + none =~= t);
}

} // verus!
