//! The ban list and the choice between sending all of it and sending what changed.

use vstd::prelude::*;
use crate::i18n::TranslationComponent;
use crate::model::{Double, PeerData, TorrentData};
use crate::text::{clone_opt, digit, digit_char, opt_view, push_range, string_of, text_le};
use crate::textmap::TextMap;
use crate::wire::random_u64;

verus! {

/// A downloader, as a ban remembers it.
#[derive(Debug, Clone, PartialEq, Eq)]
pub struct DownloaderBasicInfo {
    pub id: String,
    pub name: String,
    pub kind: String,
}

impl Default for DownloaderBasicInfo {
    fn default() -> (d: Self)
        ensures
            d.id@.len() == 0,
            d.name@.len() == 0,
            d.kind@.len() == 0,
    {
        DownloaderBasicInfo { id: String::new(), name: String::new(), kind: String::new() }
    }
}

/// The address of a banned peer.
#[derive(Debug, Clone, PartialEq, Eq)]
pub struct BannedPeerAddress {
    pub downloader_raw_ip: String,
    pub downloader_raw_port: u16,
    pub teredo_client_udp_port: u16,
    pub natted_client_port: u16,
    pub ip: String,
    pub port: u16,
    pub nat_translated: bool,
    pub teredo_translated: bool,
}

impl Default for BannedPeerAddress {
    fn default() -> (a: Self)
        ensures
            a.downloader_raw_ip@.len() == 0,
            a.downloader_raw_port == 0,
            a.teredo_client_udp_port == 0,
            a.natted_client_port == 0,
            a.ip@.len() == 0,
            a.port == 0,
            !a.nat_translated,
            !a.teredo_translated,
    {
        BannedPeerAddress {
            downloader_raw_ip: String::new(),
            downloader_raw_port: 0,
            teredo_client_udp_port: 0,
            natted_client_port: 0,
            ip: String::new(),
            port: 0,
            nat_translated: false,
            teredo_translated: false,
        }
    }
}

/// A banned peer.
#[derive(Debug, Clone, PartialEq, Eq)]
pub struct BannedPeer {
    pub address: BannedPeerAddress,
    pub raw_ip: String,
    pub id: String,
    pub client_name: String,
    pub downloaded: i64,
    pub download_speed: i64,
    pub uploaded: i64,
    pub upload_speed: i64,
    pub progress: Double,
    pub flags: Option<String>,
}

impl Default for BannedPeer {
    fn default() -> (p: Self)
        ensures
            is_unknown_peer(p, Seq::empty()),
    {
        let address = BannedPeerAddress::default();
        assert(address.ip@ =~= Seq::empty());
        BannedPeer {
            address,
            raw_ip: String::new(),
            id: String::new(),
            client_name: String::new(),
            downloaded: 0,
            download_speed: 0,
            uploaded: 0,
            upload_speed: 0,
            progress: Double::zero(),
            flags: None,
        }
    }
}

/// A peer of which only the address is known.
pub open spec fn is_unknown_peer(p: BannedPeer, ip: Seq<char>) -> bool {
    &&& p.address.downloader_raw_ip@.len() == 0
    &&& p.address.downloader_raw_port == 0
    &&& p.address.teredo_client_udp_port == 0
    &&& p.address.natted_client_port == 0
    &&& p.address.ip@ == ip
    &&& p.address.port == 0
    &&& !p.address.nat_translated
    &&& !p.address.teredo_translated
    &&& p.raw_ip@ == ip
    &&& p.id@.len() == 0
    &&& p.client_name@.len() == 0
    &&& p.downloaded == 0
    &&& p.download_speed == 0
    &&& p.uploaded == 0
    &&& p.upload_speed == 0
    &&& p.progress.bits == 0
    &&& p.flags is None
}

/// The text of an optional text: nothing counts as empty.
pub open spec fn text_or_empty(o: Option<String>) -> Seq<char> {
    match o {
        Some(s) => s@,
        None => Seq::empty(),
    }
}

fn or_empty(o: &Option<String>) -> (s: String)
    ensures
        s@ == text_or_empty(*o),
{
    match o {
        Some(s) => s.clone(),
        None => String::new(),
    }
}

impl BannedPeer {
    /// What a ban remembers of an observed peer; its address counts as not translated.
    pub fn from_peer(peer: &PeerData) -> (p: Self)
        ensures
            p.address == (BannedPeerAddress {
                downloader_raw_ip: peer.raw_ip,
                downloader_raw_port: peer.port,
                teredo_client_udp_port: 0,
                natted_client_port: 0,
                ip: peer.ip,
                port: peer.port,
                nat_translated: false,
                teredo_translated: false,
            }),
            p.raw_ip == peer.raw_ip,
            p.id@ == text_or_empty(peer.peer_id),
            p.client_name@ == text_or_empty(peer.client_name),
            p.downloaded == peer.downloaded,
            p.download_speed == peer.dl_speed,
            p.uploaded == peer.uploaded,
            p.upload_speed == peer.up_speed,
            p.progress == peer.progress,
            p.flags == peer.flags,
    {
        BannedPeer {
            address: BannedPeerAddress {
                downloader_raw_ip: peer.raw_ip.clone(),
                downloader_raw_port: peer.port,
                teredo_client_udp_port: 0,
                natted_client_port: 0,
                ip: peer.ip.clone(),
                port: peer.port,
                nat_translated: false,
                teredo_translated: false,
            },
            raw_ip: peer.raw_ip.clone(),
            id: or_empty(&peer.peer_id),
            client_name: or_empty(&peer.client_name),
            downloaded: peer.downloaded,
            download_speed: peer.dl_speed,
            uploaded: peer.uploaded,
            upload_speed: peer.up_speed,
            progress: peer.progress,
            flags: clone_opt(&peer.flags),
        }
    }
}

/// The torrent of a banned peer.
#[derive(Debug, Clone, PartialEq, Eq)]
pub struct BannedTorrent {
    pub id: String,
    pub size: i64,
    pub completed_size: i64,
    pub name: String,
    pub hash: String,
    pub private_torrent: bool,
    pub progress: Double,
    pub rt_upload_speed: i64,
    pub rt_download_speed: i64,
}

impl Default for BannedTorrent {
    fn default() -> (t: Self)
        ensures
            t.id@.len() == 0,
            t.size == 0,
            t.completed_size == 0,
            t.name@.len() == 0,
            t.hash@.len() == 0,
            !t.private_torrent,
            t.progress.bits == 0,
            t.rt_upload_speed == 0,
            t.rt_download_speed == 0,
    {
        BannedTorrent {
            id: String::new(),
            size: 0,
            completed_size: 0,
            name: String::new(),
            hash: String::new(),
            private_torrent: false,
            progress: Double::zero(),
            rt_upload_speed: 0,
            rt_download_speed: 0,
        }
    }
}

impl BannedTorrent {
    /// What a ban remembers of an observed torrent. `scaled_size` is the size times the progress;
    /// it counts where the downloader gives no positive completed size.
    pub fn from_torrent(torrent: &TorrentData, scaled_size: i64) -> (t: Self)
        ensures
            t == (BannedTorrent {
                id: torrent.hash,
                size: torrent.total_size,
                completed_size: match torrent.completed_override {
                    Some(v) => if v > 0 {
                        v
                    } else {
                        scaled_size
                    },
                    None => scaled_size,
                },
                name: torrent.name,
                hash: torrent.hash,
                private_torrent: torrent.is_private == Some(true),
                progress: torrent.progress,
                rt_upload_speed: torrent.upspeed,
                rt_download_speed: torrent.dlspeed,
            }),
    {
        let completed_size = match torrent.completed_override {
            Some(v) => if v > 0 {
                v
            } else {
                scaled_size
            },
            None => scaled_size,
        };
        BannedTorrent {
            id: torrent.hash.clone(),
            size: torrent.total_size,
            completed_size,
            name: torrent.name.clone(),
            hash: torrent.hash.clone(),
            private_torrent: torrent.is_private(),
            progress: torrent.progress,
            rt_upload_speed: torrent.upspeed,
            rt_download_speed: torrent.dlspeed,
        }
    }
}

/// What is known of a ban.
#[derive(Debug)]
pub struct BanMetadata {
    pub context: String,
    pub random_id: String,
    pub ban_at_ms: i64,
    pub unban_at_ms: i64,
    pub ban_for_disconnect: bool,
    pub exclude_from_report: bool,
    pub exclude_from_display: bool,
    pub rule: TranslationComponent,
    pub description: TranslationComponent,
    /// A JSON document, by its text.
    pub structured_data: Option<String>,
    pub downloader: DownloaderBasicInfo,
    pub torrent: BannedTorrent,
    pub peer: BannedPeer,
    pub reverse_lookup: String,
}

/// Whether a translatable text is a bare key.
pub open spec fn is_key(c: TranslationComponent, key: Seq<char>) -> bool {
    c.key@ == key && c.params@.len() == 0
}

/// Whether metadata say no more than an address, a context and two times.
pub open spec fn is_minimal(
    m: BanMetadata,
    ip: Seq<char>,
    context: Seq<char>,
    ban_at_ms: int,
    unban_at_ms: int,
) -> bool {
    &&& m.context@ == context
    &&& m.ban_at_ms == ban_at_ms
    &&& m.unban_at_ms == unban_at_ms
    &&& !m.ban_for_disconnect
    &&& !m.exclude_from_report
    &&& !m.exclude_from_display
    &&& is_key(m.rule, context)
    &&& is_key(m.description, context)
    &&& m.structured_data is None
    &&& m.downloader.id@.len() == 0 && m.downloader.name@.len() == 0 && m.downloader.kind@.len()
        == 0
    &&& m.torrent.id@.len() == 0 && m.torrent.size == 0 && m.torrent.completed_size == 0
    &&& m.torrent.name@.len() == 0 && m.torrent.hash@.len() == 0 && !m.torrent.private_torrent
    &&& m.torrent.progress.bits == 0 && m.torrent.rt_upload_speed == 0
        && m.torrent.rt_download_speed == 0
    &&& is_unknown_peer(m.peer, ip)
    &&& m.reverse_lookup@ == "N/A"@
}

impl Default for BanMetadata {
    fn default() -> (m: Self)
        ensures
            is_minimal(m, Seq::empty(), Seq::empty(), 0, 0),
            m.random_id@.len() == 0,
    {
        proof {
            reveal_strlit("");
            assert(""@ =~= Seq::empty());
        }
        BanMetadata {
            context: String::new(),
            random_id: String::new(),
            ban_at_ms: 0,
            unban_at_ms: 0,
            ban_for_disconnect: false,
            exclude_from_report: false,
            exclude_from_display: false,
            rule: TranslationComponent::new(""),
            description: TranslationComponent::new(""),
            structured_data: None,
            downloader: DownloaderBasicInfo::default(),
            torrent: BannedTorrent::default(),
            peer: BannedPeer::default(),
            reverse_lookup: "N/A".to_string(),
        }
    }
}

impl BanMetadata {
    /// The metadata of a ban of which only the address, the context and the times are known.
    pub fn minimal(ip: &str, context: &str, ban_at_ms: i64, unban_at_ms: i64) -> (m: Self)
        ensures
            is_minimal(m, ip@, context@, ban_at_ms as int, unban_at_ms as int),
            is_identifier(m.random_id@),
    {
        let mut peer = BannedPeer::default();
        peer.address.ip = ip.to_string();
        peer.raw_ip = ip.to_string();
        BanMetadata {
            context: context.to_string(),
            random_id: random_id(),
            ban_at_ms,
            unban_at_ms,
            ban_for_disconnect: false,
            exclude_from_report: false,
            exclude_from_display: false,
            rule: TranslationComponent::new(context),
            description: TranslationComponent::new(context),
            structured_data: None,
            downloader: DownloaderBasicInfo::default(),
            torrent: BannedTorrent::default(),
            peer,
            reverse_lookup: "N/A".to_string(),
        }
    }
}

// ----------------------------------------------------------------- identifiers
/// The last `n` hexadecimal digits of a number, the most significant first.
pub open spec fn hex_digits(v: nat, n: nat) -> Seq<char>
    decreases n,
{
    if n == 0 {
        Seq::empty()
    } else {
        hex_digits(v / 16, (n - 1) as nat).push(digit_char((v % 16) as int))
    }
}

/// Whether a text is an identifier: 32 hexadecimal digits in lower case.
pub open spec fn is_identifier(s: Seq<char>) -> bool {
    &&& s.len() == 32
    &&& forall|i: int|
        0 <= i < s.len() ==> '0' <= #[trigger] s[i] <= '9' || 'a' <= s[i] <= 'f'
}

proof fn lemma_hex_digits(v: nat, n: nat)
    ensures
        hex_digits(v, n).len() == n,
        forall|i: int|
            0 <= i < n ==> '0' <= #[trigger] hex_digits(v, n)[i] <= '9' || 'a' <= hex_digits(
                v,
                n,
            )[i] <= 'f',
    decreases n,
{
    if n > 0 {
        lemma_hex_digits(v / 16, (n - 1) as nat);
        let head = hex_digits(v / 16, (n - 1) as nat);
        assert forall|i: int| 0 <= i < n implies '0' <= #[trigger] hex_digits(v, n)[i] <= '9'
            || 'a' <= hex_digits(v, n)[i] <= 'f' by {
            if i < n - 1 {
                assert(hex_digits(v, n)[i] == head[i]);
            }
        }
    }
}

fn push_hex(out: &mut Vec<char>, v: u64, n: u8)
    ensures
        final(out)@ == old(out)@ + hex_digits(v as nat, n as nat),
    decreases n,
{
    let ghost before = out@;
    if n > 0 {
        push_hex(out, v / 16, n - 1);
        out.push(digit((v % 16) as u8));
    }
    assert(out@ =~= before + hex_digits(v as nat, n as nat));
}

/// The identifier made of two numbers: 16 hexadecimal digits each.
pub fn identifier_of(a: u64, b: u64) -> (id: String)
    ensures
        id@ == hex_digits(a as nat, 16) + hex_digits(b as nat, 16),
        is_identifier(id@),
{
    let mut out: Vec<char> = Vec::new();
    push_hex(&mut out, a, 16);
    push_hex(&mut out, b, 16);
    proof {
        lemma_hex_digits(a as nat, 16);
        lemma_hex_digits(b as nat, 16);
        let first = hex_digits(a as nat, 16);
        let second = hex_digits(b as nat, 16);
        assert(out@ =~= first + second);
        assert forall|i: int| 0 <= i < out@.len() implies '0' <= #[trigger] out@[i] <= '9' || 'a'
            <= out@[i] <= 'f' by {
            if i < 16 {
                assert(out@[i] == first[i]);
            } else {
                assert(out@[i] == second[i - 16]);
            }
        }
    }
    string_of(out.as_slice())
}

/// A random identifier of 32 hexadecimal digits.
pub fn random_id() -> (id: String)
    ensures
        is_identifier(id@),
{
    let a = random_u64(0);
    let b = random_u64(1);
    identifier_of(a, b)
}

// -------------------------------------------------------------------- the list
/// One ban.
#[derive(Debug)]
pub struct BannedRecord {
    pub ip: String,
    /// When the ban ends, in milliseconds since the epoch; 0 stands for never.
    pub unban_at_ms: i64,
    pub module: String,
    pub ban_for_disconnect: bool,
    pub metadata: BanMetadata,
}

/// Whether a record is a ban of which only the address, the module and the end are known.
pub open spec fn is_minimal_record(
    r: BannedRecord,
    ip: Seq<char>,
    unban_at_ms: int,
    module: Seq<char>,
    ban_for_disconnect: bool,
) -> bool {
    &&& r.ip@ == ip
    &&& r.unban_at_ms == unban_at_ms
    &&& r.module@ == module
    &&& r.ban_for_disconnect == ban_for_disconnect
    &&& is_minimal(r.metadata, ip, module, 0, unban_at_ms)
}

impl BannedRecord {
    /// A ban of which only the address, the module and the end are known.
    pub fn minimal(ip: &str, unban_at_ms: i64, module: &str, ban_for_disconnect: bool) -> (r: Self)
        ensures
            is_minimal_record(r, ip@, unban_at_ms as int, module@, ban_for_disconnect),
    {
        BannedRecord {
            ip: ip.to_string(),
            unban_at_ms,
            module: module.to_string(),
            ban_for_disconnect,
            metadata: BanMetadata::minimal(ip, module, 0, unban_at_ms),
        }
    }

    /// Whether the ban is over: it has an end, and that lies before the given time.
    pub open spec fn expired(self, now_ms: i64) -> bool {
        self.unban_at_ms > 0 && now_ms > self.unban_at_ms
    }
}

/// A ban without an end never expires; one with an end has not expired at its end, and once it has
/// expired it stays so.
pub proof fn expiry_is_strict_and_final(r: BannedRecord, now_ms: i64, later_ms: i64)
    requires
        now_ms <= later_ms,
    ensures
        r.unban_at_ms <= 0 ==> !r.expired(now_ms),
        !r.expired(r.unban_at_ms),
        r.expired(now_ms) ==> r.expired(later_ms),
{
}

/// A ban with an end is over at every time behind that end, and at no other time, whatever else its
/// record says.
pub proof fn ban_is_over_just_behind_its_end(r: BannedRecord, now_ms: i64)
    ensures
        r.unban_at_ms > 0 && now_ms > r.unban_at_ms ==> r.expired(now_ms),
        now_ms <= r.unban_at_ms ==> !r.expired(now_ms),
{
}

/// The bans by address, and whether the whole list has to be sent again.
#[derive(Debug)]
pub struct BanList {
    entries: TextMap<BannedRecord>,
    need_reapply: bool,
}

/// A ban list as a value.
pub ghost struct BanListView {
    pub records: Map<Seq<char>, BannedRecord>,
    pub need_reapply: bool,
}

/// The records with more of them entered in turn; later ones win.
pub open spec fn with_records(
    records: Map<Seq<char>, BannedRecord>,
    items: Seq<BannedRecord>,
) -> Map<Seq<char>, BannedRecord>
    decreases items.len(),
{
    if items.len() == 0 {
        records
    } else {
        with_records(records, items.drop_last()).insert(items.last().ip@, items.last())
    }
}

impl Default for BanList {
    fn default() -> (v: Self)
        ensures
            v.wf(),
            v@ == (BanListView { records: Map::empty(), need_reapply: false }),
    {
        BanList::new()
    }
}

impl BanList {
    /// The list as a value.
    pub closed spec fn view(&self) -> BanListView {
        BanListView { records: self.entries@, need_reapply: self.need_reapply }
    }

    /// Every record stands under its own address.
    pub open spec fn wf(&self) -> bool {
        forall|ip: Seq<char>| #[trigger]
            self@.records.contains_key(ip) ==> self@.records[ip].ip@ == ip
    }

    /// An empty list.
    pub fn new() -> (l: BanList)
        ensures
            l.wf(),
            l@ == (BanListView { records: Map::empty(), need_reapply: false }),
    {
        BanList { entries: TextMap::new(), need_reapply: false }
    }

    /// Enters stored records; a later record replaces an earlier one of its address.
    pub fn load(&mut self, items: Vec<BannedRecord>)
        requires
            old(self).wf(),
        ensures
            final(self).wf(),
            final(self)@ == (BanListView {
                records: with_records(old(self)@.records, items@),
                ..old(self)@
            }),
    {
        let ghost all = items@;
        assert(all.take(0) =~= Seq::empty());
        for item in iter: items
            invariant
                iter.seq() == all,
                self.wf(),
                self.need_reapply == old(self).need_reapply,
                self.entries@ == with_records(old(self)@.records, all.take(iter.index() as int)),
        {
            proof {
                let n = iter.index() as int;
                assert(all.take(n + 1).drop_last() =~= all.take(n));
                assert(all.take(n + 1).last() == item);
            }
            let key = item.ip.clone();
            let _ = self.entries.insert(key, item);
        }
        assert(all.take(all.len() as int) =~= all);
    }

    /// Bans an address of which no more is known; tells whether it was banned already. A ban of a
    /// banned address replaces the older one and calls for the whole list to be sent again.
    pub fn add(&mut self, ip: &str, unban_at_ms: i64, module: &str, ban_for_disconnect: bool) -> (
    duplicate: bool)
        requires
            old(self).wf(),
        ensures
            final(self).wf(),
            duplicate == old(self)@.records.contains_key(ip@),
            final(self)@.need_reapply == (old(self)@.need_reapply || duplicate),
            exists|r: BannedRecord|
                {
                    &&& #[trigger] is_minimal_record(
                        r,
                        ip@,
                        unban_at_ms as int,
                        module@,
                        ban_for_disconnect,
                    )
                    &&& final(self)@.records == old(self)@.records.insert(ip@, r)
                },
    {
        let record = BannedRecord::minimal(ip, unban_at_ms, module, ban_for_disconnect);
        self.add_record(record)
    }

    /// Enters a ban; tells whether its address was banned already. A ban of a banned address
    /// replaces the older one and calls for the whole list to be sent again.
    pub fn add_record(&mut self, record: BannedRecord) -> (duplicate: bool)
        requires
            old(self).wf(),
        ensures
            final(self).wf(),
            duplicate == old(self)@.records.contains_key(record.ip@),
            final(self)@ == (BanListView {
                records: old(self)@.records.insert(record.ip@, record),
                need_reapply: old(self)@.need_reapply || duplicate,
            }),
    {
        let key = record.ip.clone();
        let duplicate = self.entries.insert(key, record);
        if duplicate {
            self.need_reapply = true;
        }
        duplicate
    }

    /// The records in the order of their addresses.
    pub fn records_sorted(&self) -> (v: Vec<&BannedRecord>)
        requires
            self.wf(),
        ensures
            v.len() == self@.records.dom().len(),
            forall|i: int, j: int|
                0 <= i < j < v.len() ==> text_le((#[trigger] v@[i]).ip@, (#[trigger] v@[j]).ip@)
                    && v@[i].ip@ != v@[j].ip@,
            forall|i: int|
                0 <= i < v.len() ==> self@.records.contains_key((#[trigger] v@[i]).ip@)
                    && *v@[i] == self@.records[v@[i].ip@],
    {
        let n = self.entries.len();
        let keys = self.entries.keys_sorted();
        let mut v: Vec<&BannedRecord> = Vec::new();
        let mut i: usize = 0;
        while i < keys.len()
            invariant
                self.wf(),
                i <= keys.len(),
                v.len() == i,
                forall|k: int|
                    0 <= k < keys.len() ==> self.entries@.contains_key((#[trigger] keys@[k])@),
                forall|k: int|
                    0 <= k < i ==> (#[trigger] v@[k]).ip@ == keys@[k]@ && *v@[k]
                        == self.entries@[keys@[k]@],
            decreases keys.len() - i,
        {
            assert(self.entries@.contains_key(keys@[i as int]@));
            assert(self@.records.contains_key(keys@[i as int]@));
            match self.entries.get(keys[i].as_str()) {
                Some(record) => {
                    v.push(record);
                },
                None => {
                    assert(false);
                },
            }
            i += 1;
        }
        v
    }

    /// Whether an address is banned.
    pub fn contains(&self, ip: &str) -> (yes: bool)
        ensures
            yes == self@.records.contains_key(ip@),
    {
        self.entries.contains_key(ip)
    }

    /// The record of an address.
    pub fn get(&self, ip: &str) -> (r: Option<&BannedRecord>)
        ensures
            match r {
                Some(record) => self@.records.contains_key(ip@) && *record == self@.records[ip@],
                None => !self@.records.contains_key(ip@),
            },
    {
        self.entries.get(ip)
    }

    /// How many addresses are banned.
    pub fn len(&self) -> (n: usize)
        ensures
            self@.records.dom().finite(),
            n == self@.records.dom().len(),
    {
        self.entries.len()
    }

    /// Whether no address is banned.
    pub fn is_empty(&self) -> (yes: bool)
        ensures
            self@.records.dom().finite(),
            yes == (self@.records.dom().len() == 0),
    {
        self.entries.len() == 0
    }

    fn expired_keys(&self, now_ms: i64) -> (keys: Vec<String>)
        ensures
            forall|i: int|
                0 <= i < keys.len() ==> self@.records.contains_key((#[trigger] keys@[i])@)
                    && self@.records[keys@[i]@].expired(now_ms),
            forall|i: int, j: int|
                0 <= i < j < keys.len() ==> (#[trigger] keys@[i])@ != (#[trigger] keys@[j])@,
            forall|ip: Seq<char>| #[trigger]
                self@.records.contains_key(ip) && self@.records[ip].expired(now_ms)
                    ==> exists|i: int| 0 <= i < keys.len() && (#[trigger] keys@[i])@ == ip,
    {
        let mut keys: Vec<String> = Vec::new();
        let n = self.entries.len();
        let ghost all = self.entries.keys();
        let mut i: usize = 0;
        while i < n
            invariant
                i <= n,
                n == all.len(),
                all == self.entries.keys(),
                all.no_duplicates(),
                forall|k: int|
                    0 <= k < keys.len() ==> self@.records.contains_key((#[trigger] keys@[k])@)
                        && self@.records[keys@[k]@].expired(now_ms),
                forall|k: int|
                    0 <= k < keys.len() ==> exists|x: int|
                        0 <= x < i && #[trigger] all[x] == (#[trigger] keys@[k])@,
                forall|a: int, b: int|
                    0 <= a < b < keys.len() ==> (#[trigger] keys@[a])@ != (#[trigger] keys@[b])@,
                forall|x: int|
                    0 <= x < i && self@.records[#[trigger] all[x]].expired(now_ms) ==> exists|k: int|
                        0 <= k < keys.len() && (#[trigger] keys@[k])@ == all[x],
            decreases n - i,
        {
            let ghost before = keys@;
            let (key, record) = self.entries.at(i);
            if record.unban_at_ms > 0 && now_ms > record.unban_at_ms {
                proof {
                    assert forall|k: int| 0 <= k < before.len() implies (#[trigger] before[k])@
                        != key@ by {
                        let x = choose|x: int|
                            0 <= x < i && #[trigger] all[x] == before[k]@;
                        assert(all[x] != all[i as int]);
                    }
                }
                keys.push(key.clone());
                proof {
                    assert forall|x: int|
                        0 <= x < i + 1 && self@.records[#[trigger] all[x]].expired(
                            now_ms,
                        ) implies exists|k: int|
                        0 <= k < keys.len() && (#[trigger] keys@[k])@ == all[x] by {
                        if x < i {
                            let k = choose|k: int|
                                0 <= k < before.len() && (#[trigger] before[k])@ == all[x];
                            assert(keys@[k]@ == all[x]);
                        } else {
                            assert(keys@[keys.len() - 1]@ == all[x]);
                        }
                    }
                    assert forall|k: int| 0 <= k < keys.len() implies exists|x: int|
                        0 <= x < i + 1 && #[trigger] all[x] == (#[trigger] keys@[k])@ by {
                        if k < before.len() {
                            let x = choose|x: int|
                                0 <= x < i && #[trigger] all[x] == before[k]@;
                            assert(all[x] == keys@[k]@);
                        } else {
                            assert(all[i as int] == keys@[k]@);
                        }
                    }
                }
            }
            i += 1;
        }
        proof {
            assert forall|ip: Seq<char>| #[trigger]
                self@.records.contains_key(ip) && self@.records[ip].expired(now_ms) implies exists|
                i: int,
            | 0 <= i < keys.len() && (#[trigger] keys@[i])@ == ip by {
                assert(all.contains(ip));
                let x = choose|x: int| 0 <= x < all.len() && all[x] == ip;
                assert(self@.records[all[x]].expired(now_ms));
            }
        }
        keys
    }

    /// Removes the bans that are over and gives them: those with an end that lies before the given
    /// time.
    pub fn remove_expired(&mut self, now_ms: i64) -> (removed: Vec<BannedRecord>)
        requires
            old(self).wf(),
        ensures
            final(self).wf(),
            final(self)@.need_reapply == old(self)@.need_reapply,
            forall|ip: Seq<char>| #[trigger]
                final(self)@.records.contains_key(ip) == (old(self)@.records.contains_key(ip)
                    && !old(self)@.records[ip].expired(now_ms)),
            forall|ip: Seq<char>| #[trigger]
                final(self)@.records.contains_key(ip) ==> final(self)@.records[ip]
                    == old(self)@.records[ip],
            forall|i: int|
                0 <= i < removed.len() ==> old(self)@.records.contains_key(
                    (#[trigger] removed@[i]).ip@,
                ) && removed@[i] == old(self)@.records[removed@[i].ip@]
                    && removed@[i].expired(now_ms),
            forall|i: int, j: int|
                0 <= i < j < removed.len() ==> (#[trigger] removed@[i]).ip@ != (
                #[trigger] removed@[j]).ip@,
            forall|ip: Seq<char>| #[trigger]
                old(self)@.records.contains_key(ip) && old(self)@.records[ip].expired(now_ms)
                    ==> exists|i: int|
                    0 <= i < removed.len() && (#[trigger] removed@[i]).ip@ == ip,
    {
        let ghost start = self.entries@;
        let keys = self.expired_keys(now_ms);
        let mut removed: Vec<BannedRecord> = Vec::new();
        let mut i: usize = 0;
        while i < keys.len()
            invariant
                i <= keys.len(),
                removed.len() == i,
                start == old(self)@.records,
                old(self).wf(),
                self.need_reapply == old(self).need_reapply,
                forall|k: int|
                    0 <= k < keys.len() ==> start.contains_key((#[trigger] keys@[k])@)
                        && start[keys@[k]@].expired(now_ms),
                forall|a: int, b: int|
                    0 <= a < b < keys.len() ==> (#[trigger] keys@[a])@ != (#[trigger] keys@[b])@,
                forall|k: int|
                    0 <= k < i ==> (#[trigger] removed@[k]) == start[keys@[k]@]
                        && removed@[k].ip@ == keys@[k]@,
                forall|ip: Seq<char>| #[trigger]
                    self.entries@.contains_key(ip) == (start.contains_key(ip) && forall|k: int|
                        0 <= k < i ==> (#[trigger] keys@[k])@ != ip),
                forall|ip: Seq<char>| #[trigger]
                    self.entries@.contains_key(ip) ==> self.entries@[ip] == start[ip],
            decreases keys.len() - i,
        {
            let ghost before = self.entries@;
            assert(start.contains_key(keys@[i as int]@));
            assert(before.contains_key(keys@[i as int]@));
            match self.entries.remove(keys[i].as_str()) {
                Some(record) => {
                    removed.push(record);
                },
                None => {
                    assert(false);
                },
            }
            proof {
                assert forall|ip: Seq<char>| #[trigger]
                    self.entries@.contains_key(ip) == (start.contains_key(ip) && forall|k: int|
                        0 <= k < i + 1 ==> (#[trigger] keys@[k])@ != ip) by {
                    if self.entries@.contains_key(ip) {
                        assert(before.contains_key(ip));
                    } else if start.contains_key(ip) {
                        if before.contains_key(ip) {
                            assert(keys@[i as int]@ == ip);
                        }
                    }
                }
            }
            i += 1;
        }
        proof {
            assert forall|ip: Seq<char>| #[trigger]
                self@.records.contains_key(ip) == (start.contains_key(ip) && !start[ip].expired(
                    now_ms,
                )) by {
                if start.contains_key(ip) && start[ip].expired(now_ms) {
                    let k = choose|k: int| 0 <= k < keys.len() && (#[trigger] keys@[k])@ == ip;
                    assert(keys@[k]@ == ip);
                }
            }
            assert forall|ip: Seq<char>| #[trigger]
                old(self)@.records.contains_key(ip) && old(self)@.records[ip].expired(
                    now_ms,
                ) implies exists|i: int|
                0 <= i < removed.len() && (#[trigger] removed@[i]).ip@ == ip by {
                let k = choose|k: int| 0 <= k < keys.len() && (#[trigger] keys@[k])@ == ip;
                assert(removed@[k].ip@ == ip);
            }
        }
        removed
    }

    /// Removes the ban of an address and gives it.
    pub fn remove(&mut self, ip: &str) -> (r: Option<BannedRecord>)
        requires
            old(self).wf(),
        ensures
            final(self).wf(),
            final(self)@ == (BanListView { records: old(self)@.records.remove(ip@), ..old(self)@ }),
            match r {
                Some(record) => old(self)@.records.contains_key(ip@) && record
                    == old(self)@.records[ip@],
                None => !old(self)@.records.contains_key(ip@),
            },
    {
        self.entries.remove(ip)
    }

    /// The banned addresses in dictionary order.
    pub fn keys_sorted(&self) -> (v: Vec<String>)
        ensures
            v.len() == self@.records.dom().len(),
            forall|i: int, j: int|
                0 <= i < j < v.len() ==> text_le((#[trigger] v@[i])@, (#[trigger] v@[j])@)
                    && v@[i]@ != v@[j]@,
            forall|i: int| 0 <= i < v.len() ==> self@.records.contains_key((#[trigger] v@[i])@),
            forall|ip: Seq<char>| #[trigger]
                self@.records.contains_key(ip) ==> exists|i: int|
                    0 <= i < v.len() && (#[trigger] v@[i])@ == ip,
    {
        let n = self.entries.len();
        self.entries.keys_sorted()
    }

    /// Whether the whole list has to be sent again.
    pub fn need_reapply(&self) -> (yes: bool)
        ensures
            yes == self@.need_reapply,
    {
        self.need_reapply
    }

    /// Notes that the whole list was sent.
    pub fn clear_need_reapply(&mut self)
        ensures
            final(self)@ == (BanListView { need_reapply: false, ..old(self)@ }),
    {
        self.need_reapply = false;
    }

    /// Calls for the whole list to be sent again.
    pub fn mark_reapply(&mut self)
        ensures
            final(self)@ == (BanListView { need_reapply: true, ..old(self)@ }),
    {
        self.need_reapply = true;
    }

    /// Removes every ban and calls for the whole list to be sent again.
    pub fn clear(&mut self)
        ensures
            final(self).wf(),
            final(self)@ == (BanListView { records: Map::empty(), need_reapply: true }),
    {
        self.entries.clear();
        self.need_reapply = true;
    }
}

/// Whether the downloader gets the whole list: when asked for, when bans were removed, or when it
/// cannot take single bans.
pub fn needs_full_ban_list(removed_count: usize, increment_ban: bool, apply_full: bool) -> (yes:
    bool)
    ensures
        yes == (apply_full || removed_count > 0 || !increment_ban),
{
    apply_full || removed_count > 0 || !increment_ban
}

/// Of the records of a list the last of each address counts, and no other address is affected.
pub proof fn last_record_counts(
    records: Map<Seq<char>, BannedRecord>,
    items: Seq<BannedRecord>,
    r: BannedRecord,
    other: Seq<char>,
)
    requires
        other != r.ip@,
    ensures
        with_records(records, items.push(r))[r.ip@] == r,
        with_records(records, items.push(r)).contains_key(r.ip@),
        with_records(records, items.push(r)).contains_key(other) == with_records(
            records,
            items,
        ).contains_key(other),
        with_records(records, items.push(r)).contains_key(other) ==> with_records(
            records,
            items.push(r),
        )[other] == with_records(records, items)[other],
        with_records(records, Seq::empty()) == records,
{
    assert(items.push(r).drop_last() =~= items);
}

/// Hexadecimal digits stand for the value that they spell, the highest first.
pub proof fn hex_digits_spell_the_value(v: nat, n: nat)
    ensures
        hex_digits(v, n).len() == n,
        hex_digits(v, n + 1) == hex_digits(v / 16, n).push("0123456789abcdef"@[(v % 16) as int]),
    decreases n,
{
    reveal_strlit("0123456789abcdef");
    if n > 0 {
        hex_digits_spell_the_value(v / 16, (n - 1) as nat);
    }
}

/// A record that was made from an address alone tells nothing of the peer but the address, nothing
/// of a torrent or a downloader, and its module as the rule and as the reason.
pub proof fn records_of_an_address_tell_no_more(
    r: BannedRecord,
    ip: Seq<char>,
    unban_at_ms: int,
    module: Seq<char>,
    ban_for_disconnect: bool,
)
    requires
        is_minimal_record(r, ip, unban_at_ms, module, ban_for_disconnect),
    ensures
        r.ip@ == ip,
        r.unban_at_ms == unban_at_ms,
        r.module@ == module,
        r.ban_for_disconnect == ban_for_disconnect,
        ({
            let m = r.metadata;
            let p = m.peer;
            &&& m.context@ == module
            &&& m.ban_at_ms == 0 && m.unban_at_ms == unban_at_ms
            &&& !m.ban_for_disconnect && !m.exclude_from_report && !m.exclude_from_display
            &&& m.rule.key@ == module && m.rule.params@.len() == 0
            &&& m.description.key@ == module && m.description.params@.len() == 0
            &&& m.structured_data is None
            &&& m.reverse_lookup@ == "N/A"@
            &&& m.downloader.id@.len() == 0 && m.downloader.name@.len() == 0
                && m.downloader.kind@.len() == 0
            &&& m.torrent.id@.len() == 0 && m.torrent.name@.len() == 0 && m.torrent.hash@.len()
                == 0
            &&& m.torrent.size == 0 && m.torrent.completed_size == 0 && !m.torrent.private_torrent
            &&& m.torrent.rt_upload_speed == 0 && m.torrent.rt_download_speed == 0
                && m.torrent.progress.bits == 0
            &&& p.raw_ip@ == ip && p.address.ip@ == ip
            &&& p.address.port == 0 && p.address.downloader_raw_port == 0
                && p.address.teredo_client_udp_port == 0 && p.address.natted_client_port == 0
            &&& p.address.downloader_raw_ip@.len() == 0
            &&& !p.address.nat_translated && !p.address.teredo_translated
            &&& p.id@.len() == 0 && p.client_name@.len() == 0 && p.flags is None
            &&& p.downloaded == 0 && p.download_speed == 0 && p.uploaded == 0 && p.upload_speed
                == 0
            &&& p.progress.bits == 0
        }),
{
}

/// An identifier is 32 hexadecimal digits in lower case.
pub proof fn identifiers_are_hexadecimal(s: Seq<char>, i: int)
    requires
        is_identifier(s),
        0 <= i < s.len(),
    ensures
        s.len() == 32,
        "0123456789abcdef"@.contains(s[i]),
{
    reveal_strlit("0123456789abcdef");
    let all = "0123456789abcdef"@;
    let c = s[i];
    let k = if '0' <= c <= '9' {
        c as int - '0' as int
    } else {
        c as int - 'a' as int + 10
    };
    assert(all[k] == c);
}

} // verus!
