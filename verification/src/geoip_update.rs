//! Keeping the GeoIP databases up to date: when one is stale, where it is downloaded from, and what
//! becomes of a download.

use vstd::prelude::*;
use crate::btn_codec::{crc32, crc32_of};
use crate::config::IpDatabaseConfig;
use crate::geoip::{ASN_MMDB, CITY_MMDB, GEOCN_MMDB, GEOIP_DIR};
use crate::geoip_db::{mmdb_problem, open_problem};
use crate::text::{chars_of, concat2, concat3, decimal, decimal_int, i64_text, opt_view, push_range, push_text, string_of, texts, u64_text};
use crate::wire::{now_millis, sub_bytes};

verus! {

/// The directory of everything about places.
pub const IPDB_DIR: &'static str = "ipdb";

/// How old a database may get, in milliseconds: 45 days.
pub const MMDB_UPDATE_INTERVAL_MS: i64 = 3_888_000_000;

pub const XZ_SUFFIX: &'static str = ".mmdb.xz";

pub const MMDB_SUFFIX: &'static str = ".mmdb";

pub const DEFAULT_USER_AGENT: &'static str = "PeerBanHelper-RS";

/// How long connecting may take, in milliseconds.
pub const CONNECT_TIMEOUT: u64 = 15_000;

/// How long a download may take, in milliseconds.
pub const READ_TIMEOUT: u64 = 180_000;

pub const LANG_IPDB_UPDATING: &'static str = "IPDB_UPDATING";

pub const LANG_IPDB_UPDATE_SUCCESS: &'static str = "IPDB_UPDATE_SUCCESS";

pub const LANG_IPDB_UPDATE_FAILED: &'static str = "IPDB_UPDATE_FAILED";

pub const LANG_IPDB_EXISTS_UPDATE_FAILED: &'static str = "IPDB_EXISTS_UPDATE_FAILED";

pub const LANG_IPDB_RETRY_WITH_BACKUP_SOURCE: &'static str = "IPDB_RETRY_WITH_BACKUP_SOURCE";

pub const LANG_IPDB_UNGZIP_FAILED: &'static str = "IPDB_UNGZIP_FAILED";

pub const LANG_IPDB_DOWNLOAD_MMDB: &'static str = "IPDB_DOWNLOAD_MMDB";

pub const LANG_IPDB_DOWNLOAD_MMDB_DESCRIPTION: &'static str = "IPDB_DOWNLOAD_MMDB_DESCRIPTION";

pub const LANG_IPDB_INVALID: &'static str = "IPDB_INVALID";

pub const LANG_DOWNLOAD_PROGRESS: &'static str = "DOWNLOAD_PROGRESS";

/// How much of a reply is shown, in characters.
pub const BODY_PREVIEW_LIMIT: usize = 256;

// --------------------------------------------------------------------- sources
/// A place to download a database from.
#[derive(Debug, PartialEq, Eq)]
pub struct IpdbDownloadSource {
    pub base_url: String,
    pub database_name: String,
    pub support_xzip: bool,
}

/// A place to download from, as a value.
pub ghost struct SourceView {
    pub base_url: Seq<char>,
    pub database_name: Seq<char>,
    pub support_xzip: bool,
}

impl SourceView {
    /// The address of the file.
    pub open spec fn url(self) -> Seq<char> {
        self.base_url + self.database_name + (if self.support_xzip {
            XZ_SUFFIX@
        } else {
            MMDB_SUFFIX@
        })
    }
}

impl IpdbDownloadSource {
    /// The place as a value.
    pub open spec fn view(&self) -> SourceView {
        SourceView {
            base_url: self.base_url@,
            database_name: self.database_name@,
            support_xzip: self.support_xzip,
        }
    }

    /// A place with plain files.
    pub fn new(base_url: &str, database_name: &str) -> (s: Self)
        ensures
            s@ == (SourceView {
                base_url: base_url@,
                database_name: database_name@,
                support_xzip: false,
            }),
    {
        IpdbDownloadSource {
            base_url: base_url.to_string(),
            database_name: database_name.to_string(),
            support_xzip: false,
        }
    }

    /// A place with compressed files.
    pub fn with_xzip(base_url: &str, database_name: &str) -> (s: Self)
        ensures
            s@ == (SourceView {
                base_url: base_url@,
                database_name: database_name@,
                support_xzip: true,
            }),
    {
        IpdbDownloadSource {
            base_url: base_url.to_string(),
            database_name: database_name.to_string(),
            support_xzip: true,
        }
    }

    /// The address of the file.
    pub fn url(&self) -> (url: String)
        ensures
            url@ == self@.url(),
    {
        let suffix = if self.support_xzip {
            XZ_SUFFIX
        } else {
            MMDB_SUFFIX
        };
        concat3(self.base_url.as_str(), self.database_name.as_str(), suffix)
    }
}

/// Places as values.
pub open spec fn source_views(v: Seq<IpdbDownloadSource>) -> Seq<SourceView> {
    Seq::new(v.len(), |i: int| v[i]@)
}

/// The places that are used unless others are given, in the order in which they are tried.
pub open spec fn mirror_bases() -> Seq<Seq<char>> {
    seq![
        "https://github.com/PBH-BTN/GeoLite.mmdb/releases/latest/download/"@,
        "https://pbh-static.paulzzh.com/ipdb/"@,
        "https://pbh-static.ghostchu.com/ipdb/"@,
    ]
}

/// Places with compressed files of a database.
pub open spec fn mirrors_at(bases: Seq<Seq<char>>, database_name: Seq<char>) -> Seq<SourceView> {
    Seq::new(
        bases.len(),
        |i: int| SourceView { base_url: bases[i], database_name, support_xzip: true },
    )
}

/// The places that are used for a database unless others are given.
pub fn default_mirrors(database_name: &str) -> (v: Vec<IpdbDownloadSource>)
    ensures
        source_views(v@) == mirrors_at(mirror_bases(), database_name@),
{
    let mut v: Vec<IpdbDownloadSource> = Vec::new();
    v.push(
        IpdbDownloadSource::with_xzip(
            "https://github.com/PBH-BTN/GeoLite.mmdb/releases/latest/download/",
            database_name,
        ),
    );
    v.push(IpdbDownloadSource::with_xzip("https://pbh-static.paulzzh.com/ipdb/", database_name));
    v.push(IpdbDownloadSource::with_xzip("https://pbh-static.ghostchu.com/ipdb/", database_name));
    assert(source_views(v@) =~= mirrors_at(mirror_bases(), database_name@));
    v
}

// ------------------------------------------------------------------------ HTTP
/// A request for a download, with an account where it carries one.
#[derive(Debug, PartialEq, Eq)]
pub struct GeoIpHttpRequest {
    pub url: String,
    pub basic: Option<(String, String)>,
}

/// A request as a value.
pub ghost struct GeoRequestView {
    pub url: Seq<char>,
    pub basic: Option<(Seq<char>, Seq<char>)>,
}

impl GeoIpHttpRequest {
    /// The request as a value.
    pub open spec fn view(&self) -> GeoRequestView {
        GeoRequestView {
            url: self.url@,
            basic: match self.basic {
                Some((user, password)) => Some((user@, password@)),
                None => None,
            },
        }
    }

    /// A request without an account.
    pub fn get(url: &str) -> (r: Self)
        ensures
            r@ == (GeoRequestView { url: url@, basic: None }),
    {
        GeoIpHttpRequest { url: url.to_string(), basic: None }
    }

    /// A request with an account.
    pub fn with_basic(url: &str, account_id: &str, license_key: &str) -> (r: Self)
        ensures
            r@ == (GeoRequestView { url: url@, basic: Some((account_id@, license_key@)) }),
    {
        GeoIpHttpRequest {
            url: url.to_string(),
            basic: Some((account_id.to_string(), license_key.to_string())),
        }
    }
}

/// A reply.
#[derive(Debug, PartialEq, Eq)]
pub struct GeoIpHttpResponse {
    pub status: u16,
    pub body: Vec<u8>,
}

impl GeoIpHttpResponse {
    /// A reply.
    pub fn new(status: u16, body: Vec<u8>) -> (r: Self)
        ensures
            r.status == status,
            r.body == body,
    {
        GeoIpHttpResponse { status, body }
    }

    /// Whether the reply brings the file; no other status of success counts.
    pub fn is_ok(&self) -> (yes: bool)
        ensures
            yes == (self.status == 200),
    {
        self.status == 200
    }
}

/// Whatever downloads files. An error tells why no reply came.
pub trait GeoIpHttpClient {
    /// Whether a reply may come to a request: any, where nothing else is said.
    open spec fn answers(
        &self,
        request: GeoRequestView,
        reply: Result<GeoIpHttpResponse, String>,
    ) -> bool {
        true
    }

    /// Sends a request and gives the reply.
    fn execute(&self, request: GeoIpHttpRequest) -> (r: Result<GeoIpHttpResponse, String>)
        ensures
            self.answers(request@, r),
    ;
}

/// Downloads with a function.
pub struct ClosureHttpClient<F: Fn(&GeoIpHttpRequest) -> Result<GeoIpHttpResponse, String>> {
    f: F,
}

impl<F: Fn(&GeoIpHttpRequest) -> Result<GeoIpHttpResponse, String>> ClosureHttpClient<F> {
    #[verifier::type_invariant]
    spec fn inv(&self) -> bool {
        forall|r: &GeoIpHttpRequest| self.f.requires((r,))
    }

    /// The function.
    pub closed spec fn function(&self) -> F {
        self.f
    }

    /// Downloads with the function.
    pub fn new(f: F) -> (c: Self)
        requires
            forall|r: &GeoIpHttpRequest| f.requires((r,)),
        ensures
            c.function() == f,
    {
        ClosureHttpClient { f }
    }
}

impl<F: Fn(&GeoIpHttpRequest) -> Result<GeoIpHttpResponse, String>> GeoIpHttpClient for ClosureHttpClient<F> {
    open spec fn answers(
        &self,
        request: GeoRequestView,
        reply: Result<GeoIpHttpResponse, String>,
    ) -> bool {
        exists|r: GeoIpHttpRequest|
            r@ == request && #[trigger] self.function().ensures((&r,), reply)
    }

    fn execute(&self, request: GeoIpHttpRequest) -> (r: Result<GeoIpHttpResponse, String>) {
        proof {
            use_type_invariant(self);
        }
        let r = (self.f)(&request);
        assert(self.function().ensures((&request,), r));
        r
    }
}

// ------------------------------------------------------------------------- age
/// Whether a database is to be downloaded, given when it last changed: one that is missing is; one
/// that is there only if it is kept up to date and too old.
pub open spec fn is_stale(modified_ms: Option<i64>, auto_update: bool, now_ms: i64) -> bool {
    match modified_ms {
        None => true,
        Some(modified) => auto_update && now_ms.wrapping_sub(modified) > MMDB_UPDATE_INTERVAL_MS,
    }
}

/// Whether a database is to be downloaded at some time, given when it last changed.
pub fn need_update_mmdb_at(modified_ms: Option<i64>, auto_update: bool, now_ms: i64) -> (yes: bool)
    ensures
        yes == is_stale(modified_ms, auto_update, now_ms),
{
    match modified_ms {
        None => true,
        Some(modified) => auto_update && now_ms.wrapping_sub(modified) > MMDB_UPDATE_INTERVAL_MS,
    }
}

/// Whether a database is to be downloaded now, given when it last changed.
pub fn need_update_mmdb(modified_ms: Option<i64>, auto_update: bool) -> (yes: bool)
    ensures
        modified_ms is None ==> yes,
        modified_ms is Some && !auto_update ==> !yes,
        exists|now_ms: i64| yes == #[trigger] is_stale(modified_ms, auto_update, now_ms),
{
    let now_ms = now_millis();
    need_update_mmdb_at(modified_ms, auto_update, now_ms)
}

/// A database that was just downloaded is not downloaded again before 45 days have passed.
pub proof fn fresh_database_is_kept(modified_ms: i64, auto_update: bool, now_ms: i64)
    requires
        modified_ms <= now_ms <= modified_ms + MMDB_UPDATE_INTERVAL_MS,
    ensures
        !is_stale(Some(modified_ms), auto_update, now_ms),
{
}

// --------------------------------------------------------------------- reports
/// Why nothing was looked at.
#[derive(Clone, Copy, PartialEq, Eq, Structural, Debug)]
pub enum SkipReason {
    /// Places are switched off.
    ForceDisabled,
    /// Databases are not kept up to date.
    AutoUpdateDisabled,
}

/// What became of a database.
#[derive(Debug, PartialEq, Eq)]
pub enum DatabaseUpdate {
    UpToDate,
    Updated,
    /// No place had it; an older copy may still be there.
    Failed { message: String, kept_local_copy: bool },
}

/// What became of a database, and where it came from.
#[derive(Debug, PartialEq, Eq)]
pub struct DatabaseReport {
    pub database: String,
    pub target: String,
    pub source: Option<String>,
    pub update: DatabaseUpdate,
}

/// What became of the databases.
#[derive(Debug, PartialEq, Eq)]
pub enum UpdateReport {
    Skipped(SkipReason),
    Performed(Vec<DatabaseReport>),
}

/// The reports that say one thing: a download, or a failure.
pub open spec fn reports_of(v: Seq<DatabaseReport>, updated: bool) -> Seq<DatabaseReport>
    decreases v.len(),
{
    if v.len() == 0 {
        v
    } else {
        let rest = reports_of(v.drop_last(), updated);
        if (updated && v.last().update is Updated) || (!updated && v.last().update is Failed) {
            rest.push(v.last())
        } else {
            rest
        }
    }
}

/// Reports behind references.
pub open spec fn report_refs(v: Seq<&DatabaseReport>) -> Seq<DatabaseReport> {
    Seq::new(v.len(), |i: int| *v[i])
}

impl UpdateReport {
    /// The single reports.
    pub open spec fn entries(self) -> Seq<DatabaseReport> {
        match self {
            UpdateReport::Skipped(_) => Seq::empty(),
            UpdateReport::Performed(v) => v@,
        }
    }

    /// Whether nothing was looked at.
    pub fn is_skipped(&self) -> (yes: bool)
        ensures
            yes == (self is Skipped),
    {
        matches!(self, UpdateReport::Skipped(_))
    }

    fn select(&self, updated: bool) -> (v: Vec<&DatabaseReport>)
        ensures
            report_refs(v@) == reports_of(self.entries(), updated),
    {
        let mut v: Vec<&DatabaseReport> = Vec::new();
        assert(report_refs(v@) =~= Seq::empty());
        if let UpdateReport::Performed(all) = self {
            let mut i: usize = 0;
            assert(all@.take(0) =~= Seq::empty());
            while i < all.len()
                invariant
                    i <= all.len(),
                    report_refs(v@) == reports_of(all@.take(i as int), updated),
                decreases all.len() - i,
            {
                let ghost done = report_refs(v@);
                assert(all@.take(i + 1).drop_last() =~= all@.take(i as int));
                let hit = match &all[i].update {
                    DatabaseUpdate::Updated => updated,
                    DatabaseUpdate::Failed { .. } => !updated,
                    DatabaseUpdate::UpToDate => false,
                };
                if hit {
                    v.push(&all[i]);
                    assert(report_refs(v@) =~= done.push(all@[i as int]));
                }
                i += 1;
            }
            assert(all@.take(i as int) =~= all@);
        }
        v
    }

    /// The databases that were downloaded.
    pub fn updated(&self) -> (v: Vec<&DatabaseReport>)
        ensures
            report_refs(v@) == reports_of(self.entries(), true),
    {
        self.select(true)
    }

    /// The databases that could not be downloaded.
    pub fn failures(&self) -> (v: Vec<&DatabaseReport>)
        ensures
            report_refs(v@) == reports_of(self.entries(), false),
    {
        self.select(false)
    }
}

// ------------------------------------------------------------------- downloads
/// What compressed bytes hold, or why they cannot be read.
pub uninterp spec fn xz(input: Seq<u8>) -> Result<Seq<u8>, Seq<char>>;

/// The number at a place, seven bits a byte and the lowest first, and the place behind it. Every
/// byte but the last has its highest bit set, and there are at most `bytes` of them.
pub open spec fn xz_number(s: Seq<u8>, at: int, bytes: nat) -> Option<(int, int)>
    decreases bytes,
{
    if bytes == 0 || at < 0 || at >= s.len() {
        None
    } else if s[at] < 128 {
        Some((s[at] as int, at + 1))
    } else {
        match xz_number(s, at + 1, (bytes - 1) as nat) {
            Some((rest, next)) => Some((s[at] - 128 + 128 * rest, next)),
            None => None,
        }
    }
}

/// The place behind as many records as `count`, each of two numbers.
pub open spec fn xz_records_end(s: Seq<u8>, at: int, count: int) -> Option<int>
    decreases count,
{
    if count <= 0 {
        Some(at)
    } else {
        match xz_number(s, at, 9) {
            Some((_, second)) => match xz_number(s, second, 9) {
                Some((_, next)) => xz_records_end(s, next, count - 1),
                None => None,
            },
            None => None,
        }
    }
}

/// The place behind the index that begins at a place: a mark, the number of records, the records,
/// and filling up to a multiple of four bytes.
pub open spec fn xz_index_end(s: Seq<u8>, at: int) -> Option<int> {
    match xz_number(s, at + 1, 9) {
        Some((count, records)) => match xz_records_end(s, records, count) {
            Some(end) => Some(end + (4 - (end - at) % 4) % 4),
            None => None,
        },
        None => None,
    }
}

/// The number of four bytes, the lowest first.
pub open spec fn le32(s: Seq<u8>, at: int) -> int {
    s[at] + 256 * s[at + 1] + 65536 * s[at + 2] + 16777216 * s[at + 3]
}

/// A number below 2^32 as four bytes, the lowest first.
pub open spec fn le_bytes(v: int) -> Seq<u8> {
    seq![
        (v % 256) as u8,
        ((v / 256) % 256) as u8,
        ((v / 65536) % 256) as u8,
        ((v / 16777216) % 256) as u8,
    ]
}

/// Whether what begins at a place reads as an index with its checksum behind it, and is followed by
/// what reads as a footer whose size field has all bits set. The checksum of a footer stands before
/// its size field.
#[verifier::opaque]
pub open spec fn xz_oversized_at(s: Seq<u8>, at: int) -> bool {
    &&& s[at] == 0
    &&& xz_index_end(s, at) matches Some(end)
    &&& end + 12 <= s.len()
    &&& le32(s, end) == crc32(s.subrange(at, end))
    &&& le32(s, end + 8) == u32::MAX
}

/// How many bytes an index takes with its checksum.
pub open spec fn xz_index_size(s: Seq<u8>, at: int) -> int {
    xz_index_end(s, at)->0 + 4 - at
}

/// The size field and the flags of the footer that belongs behind an index: a quarter of the size,
/// less one, and the flags of the header.
pub open spec fn xz_footer_fields(s: Seq<u8>, at: int) -> Seq<u8> {
    le_bytes((xz_index_size(s, at) / 4 - 1) % 0x4000_0000) + s.subrange(6, 8)
}

/// The bytes up to the end of an index, with the footer that belongs behind it.
#[verifier::opaque]
pub open spec fn xz_mended(s: Seq<u8>, at: int) -> Seq<u8> {
    let fields = xz_footer_fields(s, at);
    s.take(xz_index_end(s, at)->0 + 4) + le_bytes(crc32(fields) as int) + fields + seq![
        0x59u8,
        0x5Au8,
    ]
}

/// The place from `at` on, in steps of four bytes, where the index of the stream begins, if a footer
/// with all bits of its size field set follows it. What merely reads like that within compressed
/// data is told apart by the footer: with one that belongs there the stream up to it can be unpacked
/// just if its blocks do end where that index begins. Only indexes that end below `bound` count.
pub open spec fn xz_oversized_from(s: Seq<u8>, at: int, bound: nat) -> Option<int>
    decreases bound, s.len() + 4 - at,
{
    if at < 12 || at >= s.len() {
        None
    } else {
        let end = xz_index_end(s, at)->0;
        if xz_oversized_at(s, at) && 0 <= end < bound && xz_oversized_from(
            xz_mended(s, at),
            12,
            end as nat,
        ) is None && xz(xz_mended(s, at)) is Ok {
            Some(at)
        } else {
            xz_oversized_from(s, at + 4, bound)
        }
    }
}

/// The place where the index of a stream begins, if a footer with all bits of its size field set
/// follows it.
pub open spec fn xz_oversized(s: Seq<u8>) -> Option<int> {
    xz_oversized_from(s, 12, s.len())
}

/// `lzma_rs::xz_decompress` from memory to memory: the bytes, or the text of the error. The result
/// depends on the input alone. Having checked the blocks and the index of a stream, it adds one to
/// the size field of the footer, so streams that it reads up to such a field with all bits set are
/// left out. It reads a stream from front to back: it comes to a footer exactly if it unpacks the
/// stream that has a right footer at that place and ends with it.
#[verifier::external_body]
fn unpack_xz(input: &[u8]) -> (r: Result<Vec<u8>, String>)
    requires
        xz_oversized(input@) is None,
    ensures
        match r {
            Ok(bytes) => xz(input@) == Ok::<Seq<u8>, Seq<char>>(bytes@),
            Err(e) => xz(input@) == Err::<Seq<u8>, Seq<char>>(e@),
        },
{
    let mut output = Vec::new();
    let mut reader = std::io::BufReader::new(input);
    lzma_rs::xz_decompress(&mut reader, &mut output).map_err(|e| e.to_string())?;
    Ok(output)
}

/// One more than the largest number of as many bytes, seven bits a byte.
spec fn seven_bits(bytes: nat) -> int
    decreases bytes,
{
    if bytes == 0 {
        1
    } else {
        128 * seven_bits((bytes - 1) as nat)
    }
}

proof fn lemma_seven_bits(bytes: nat)
    requires
        bytes <= 9,
    ensures
        1 <= seven_bits(bytes) <= 0x8000_0000_0000_0000,
{
    reveal_with_fuel(seven_bits, 10);
    assert(seven_bits(9) == 0x8000_0000_0000_0000);
}

fn number_at(s: &[u8], at: usize, bytes: usize) -> (r: Option<(u64, usize)>)
    requires
        bytes <= 9,
        at <= s.len(),
    ensures
        match r {
            Some((v, next)) => {
                &&& xz_number(s@, at as int, bytes as nat) == Some((v as int, next as int))
                &&& v < seven_bits(bytes as nat)
                &&& at < next <= s.len()
            },
            None => xz_number(s@, at as int, bytes as nat) is None,
        },
    decreases bytes,
{
    if bytes == 0 || at >= s.len() {
        return None;
    }
    proof {
        lemma_seven_bits(bytes as nat);
        lemma_seven_bits((bytes - 1) as nat);
    }
    let b = s[at];
    if b < 128 {
        return Some((b as u64, at + 1));
    }
    match number_at(s, at + 1, bytes - 1) {
        Some((rest, next)) => Some(((b - 128) as u64 + 128 * rest, next)),
        None => None,
    }
}

fn index_end(s: &[u8], at: usize) -> (r: Option<usize>)
    requires
        at < s.len(),
    ensures
        match r {
            Some(end) => xz_index_end(s@, at as int) == Some(end as int) && at < end <= s.len(),
            None => xz_index_end(s@, at as int) is None || xz_index_end(s@, at as int)->0 > s.len(),
        },
{
    let (count, records) = match number_at(s, at + 1, 9) {
        Some(found) => found,
        None => return None,
    };
    let mut left: u64 = count;
    let mut end: usize = records;
    while left > 0
        invariant
            at < end <= s.len(),
            xz_number(s@, at + 1, 9) == Some((count as int, records as int)),
            xz_records_end(s@, records as int, count as int) == xz_records_end(
                s@,
                end as int,
                left as int,
            ),
        decreases left,
    {
        match number_at(s, end, 9) {
            None => return None,
            Some((_, second)) => match number_at(s, second, 9) {
                None => return None,
                Some((_, next)) => {
                    end = next;
                },
            },
        }
        left -= 1;
    }
    let filling: usize = (4 - (end - at) % 4) % 4;
    if filling > s.len() - end {
        return None;
    }
    Some(end + filling)
}

fn read_le32(s: &[u8], at: usize) -> (v: u32)
    requires
        at + 4 <= s.len(),
    ensures
        v == le32(s@, at as int),
{
    (s[at] as u32) + 256 * (s[at + 1] as u32) + 65536 * (s[at + 2] as u32) + 16777216 * (s[at
        + 3] as u32)
}

fn push_le32(out: &mut Vec<u8>, v: u32)
    ensures
        final(out)@ == old(out)@ + le_bytes(v as int),
{
    let ghost before = out@;
    out.push((v % 256) as u8);
    out.push(((v / 256) % 256) as u8);
    out.push(((v / 65536) % 256) as u8);
    out.push(((v / 16777216) % 256) as u8);
    assert(out@ =~= before + le_bytes(v as int));
}

/// The end of the index at a place, if it is one that a footer with all bits of its size field set
/// follows.
fn oversized_end(s: &[u8], at: usize) -> (r: Option<usize>)
    requires
        at < s.len(),
    ensures
        (r is Some) == xz_oversized_at(s@, at as int),
        r matches Some(end) ==> xz_index_end(s@, at as int) == Some(end as int) && at < end
            && end + 12 <= s.len(),
{
    proof {
        reveal(xz_oversized_at);
    }
    if s[at] != 0 {
        return None;
    }
    let end = match index_end(s, at) {
        Some(end) => end,
        None => return None,
    };
    if s.len() - end < 12 || read_le32(s, end + 8) != u32::MAX {
        return None;
    }
    if read_le32(s, end) == crc32_of(sub_bytes(s, at, end).as_slice()) {
        Some(end)
    } else {
        None
    }
}

fn mend(s: &[u8], at: usize, end: usize) -> (out: Vec<u8>)
    requires
        12 <= at < end,
        end + 12 <= s.len(),
        xz_index_end(s@, at as int) == Some(end as int),
    ensures
        out@ == xz_mended(s@, at as int),
{
    let size: u32 = (((end + 4 - at) / 4 - 1) % 0x4000_0000) as u32;
    let mut fields: Vec<u8> = Vec::new();
    push_le32(&mut fields, size);
    fields.push(s[6]);
    fields.push(s[7]);
    assert(fields@ =~= xz_footer_fields(s@, at as int));
    let sum = crc32_of(fields.as_slice());
    let mut out = sub_bytes(s, 0, end + 4);
    assert(s@.subrange(0, end + 4) =~= s@.take(end + 4));
    push_le32(&mut out, sum);
    push_le32(&mut out, size);
    out.push(s[6]);
    out.push(s[7]);
    out.push(0x59);
    out.push(0x5A);
    proof {
        reveal(xz_mended);
    }
    assert(out@ =~= xz_mended(s@, at as int));
    out
}

proof fn lemma_index_end_aligned(s: Seq<u8>, at: int)
    requires
        xz_index_end(s, at) is Some,
    ensures
        (xz_index_end(s, at)->0 - at) % 4 == 0,
{
}

/// In a mended stream every index that an oversized footer follows ends before the last one.
proof fn lemma_mended_at(s: Seq<u8>, at: int, from: int)
    requires
        12 <= at < xz_index_end(s, at)->0,
        at % 4 == 0,
        12 <= from,
        from % 4 == 0,
        xz_oversized_at(s, at),
        xz_oversized_at(xz_mended(s, at), from),
    ensures
        xz_index_end(xz_mended(s, at), from)->0 < xz_index_end(s, at)->0,
{
    reveal(xz_oversized_at);
    reveal(xz_mended);
    let m = xz_mended(s, at);
    let end = xz_index_end(s, at)->0;
    let other = xz_index_end(m, from)->0;
    let size = (xz_index_size(s, at) / 4 - 1) % 0x4000_0000;
    let fields = xz_footer_fields(s, at);
    lemma_index_end_aligned(m, from);
    lemma_index_end_aligned(s, at);
    assert(m.len() == end + 16);
    assert(m[end + 11] == fields[3]);
    assert(size / 16777216 < 64);
    assert(fields[3] == ((size / 16777216) % 256) as u8);
    assert(m[end + 15] == 0x5A);
    assert(other != end);
    assert(other != end + 4);
}

proof fn lemma_mended(s: Seq<u8>, at: int, from: int)
    requires
        12 <= at < xz_index_end(s, at)->0,
        at % 4 == 0,
        12 <= from,
        from % 4 == 0,
        xz_oversized_at(s, at),
    ensures
        ({
            let m = xz_mended(s, at);
            let end = xz_index_end(s, at)->0;
            xz_oversized_from(m, from, m.len()) == xz_oversized_from(m, from, end as nat)
        }),
    decreases xz_mended(s, at).len() + 4 - from,
{
    let m = xz_mended(s, at);
    let end = xz_index_end(s, at)->0;
    assert(m.len() == end + 16) by {
        reveal(xz_oversized_at);
        reveal(xz_mended);
    }
    if from < m.len() {
        lemma_mended(s, at, from + 4);
        if xz_oversized_at(m, from) {
            lemma_mended_at(s, at, from);
        }
    }
}

/// The place where the index of a stream begins and that where it ends, if a footer with all bits of
/// its size field set follows it.
fn oversized(s: &[u8], bound: usize) -> (r: Option<(usize, usize)>)
    ensures
        match r {
            Some((at, end)) => {
                &&& xz_oversized_from(s@, 12, bound as nat) == Some(at as int)
                &&& xz_index_end(s@, at as int) == Some(end as int)
                &&& at < end
                &&& end + 12 <= s.len()
            },
            None => xz_oversized_from(s@, 12, bound as nat) is None,
        },
    decreases bound,
{
    let mut at: usize = 12;
    while at < s.len()
        invariant
            12 <= at,
            at % 4 == 0,
            xz_oversized_from(s@, 12, bound as nat) == xz_oversized_from(
                s@,
                at as int,
                bound as nat,
            ),
        decreases s.len() - at,
    {
        if let Some(end) = oversized_end(s, at) {
            if end < bound {
                let mended = mend(s, at, end);
                proof {
                    lemma_mended(s@, at as int, 12);
                }
                if oversized(mended.as_slice(), end).is_none() {
                    if unpack_xz(mended.as_slice()).is_ok() {
                        return Some((at, end));
                    }
                }
            }
        }
        assert(xz_oversized_from(s@, at as int, bound as nat) == xz_oversized_from(
            s@,
            at + 4,
            bound as nat,
        ));
        if s.len() - at <= 4 {
            assert(xz_oversized_from(s@, at + 4, bound as nat) is None);
            return None;
        }
        at += 4;
    }
    None
}

/// What is said of bytes that cannot be unpacked.
pub open spec fn xz_error(e: Seq<char>) -> Seq<char> {
    "xz decompress failed: "@ + e
}

/// What is said of a stream whose footer has all bits of its size field set, where the index takes
/// some bytes.
pub open spec fn xz_size_error(size: int) -> Seq<char> {
    "xz error: Invalid index size: expected 0 but got "@ + decimal(size as nat)
}

/// What compressed bytes hold, or why they cannot be read.
pub open spec fn unpacked(input: Seq<u8>) -> Result<Seq<u8>, Seq<char>> {
    match xz_oversized(input) {
        Some(at) => Err(xz_size_error(xz_index_size(input, at))),
        None => xz(input),
    }
}

/// Unpacks bytes.
pub fn decompress_xz(input: &[u8]) -> (r: Result<Vec<u8>, String>)
    ensures
        match unpacked(input@) {
            Ok(bytes) => r matches Ok(out) && out@ == bytes,
            Err(e) => r matches Err(text) && text@ == xz_error(e),
        },
{
    if let Some((at, end)) = oversized(input, input.len()) {
        let size = u64_text((end - at) as u64 + 4);
        let e = concat2("xz error: Invalid index size: expected 0 but got ", size.as_str());
        return Err(concat2("xz decompress failed: ", e.as_str()));
    }
    match unpack_xz(input) {
        Ok(bytes) => Ok(bytes),
        Err(e) => Err(concat2("xz decompress failed: ", e.as_str())),
    }
}

/// Bytes as a text, with what is no text replaced.
pub uninterp spec fn lossy(bytes: Seq<u8>) -> Seq<char>;

/// `String::from_utf8_lossy`: the text of bytes, which depends on the bytes alone. Bytes that are
/// the UTF-8 form of a text give that text.
#[verifier::external_body]
fn lossy_text(bytes: &[u8]) -> (out: String)
    ensures
        out@ == lossy(bytes@),
        forall|s: Seq<char>| bytes@ == #[trigger] vstd::utf8::encode_utf8(s) ==> out@ == s,
{
    String::from_utf8_lossy(bytes).to_string()
}

/// The beginning of a text, with a mark where there is more.
pub open spec fn shortened(text: Seq<char>) -> Seq<char> {
    if text.len() <= BODY_PREVIEW_LIMIT {
        text
    } else {
        text.take(BODY_PREVIEW_LIMIT as int).push('…')
    }
}

/// The beginning of a text, with a mark where there is more.
pub fn shorten(text: &str) -> (out: String)
    ensures
        out@ == shortened(text@),
{
    let chars = chars_of(text);
    if chars.len() <= BODY_PREVIEW_LIMIT {
        string_of(chars.as_slice())
    } else {
        let mut out: Vec<char> = Vec::new();
        push_range(&mut out, chars.as_slice(), 0, BODY_PREVIEW_LIMIT);
        out.push('…');
        assert(out@ =~= shortened(text@));
        string_of(out.as_slice())
    }
}

/// The beginning of a reply.
pub fn body_preview(body: &[u8]) -> (out: String)
    ensures
        out@ == shortened(lossy(body@)),
        forall|s: Seq<char>| body@ == #[trigger] vstd::utf8::encode_utf8(s) ==> out@ == shortened(s),
{
    let text = lossy_text(body);
    shorten(text.as_str())
}

/// A text is shown in full, or its first 256 characters and a mark.
pub proof fn preview_is_short(text: Seq<char>)
    ensures
        shortened(text).len() <= BODY_PREVIEW_LIMIT + 1,
        text.len() <= BODY_PREVIEW_LIMIT ==> shortened(text) == text,
{
}

/// What is said of a reply that does not bring the file.
pub open spec fn download_error(status: u16, body: Seq<u8>) -> Seq<char> {
    "HTTP "@ + decimal_int(status as int) + " - "@ + shortened(lossy(body))
}

/// Whether a reply asks for an account that the settings have.
pub open spec fn asks_account(
    reply: Result<GeoIpHttpResponse, String>,
    config: IpDatabaseConfig,
) -> bool {
    &&& reply matches Ok(response)
    &&& response.status == 401
    &&& config.account_id@.len() > 0
    &&& config.license_key@.len() > 0
}

/// Whether `r` is what the last reply of a download comes to: the file, unpacked where it is
/// compressed, or what went wrong.
pub open spec fn fetched(
    reply: Result<GeoIpHttpResponse, String>,
    support_xzip: bool,
    r: Result<Vec<u8>, String>,
) -> bool {
    match reply {
        Err(e) => r == Err::<Vec<u8>, String>(e),
        Ok(response) => if response.status != 200 {
            r matches Err(e) && e@ == download_error(response.status, response.body@)
        } else if support_xzip {
            match unpacked(response.body@) {
                Ok(bytes) => r matches Ok(out) && out@ == bytes,
                Err(e) => r matches Err(text) && text@ == xz_error(e),
            }
        } else {
            r == Ok::<Vec<u8>, String>(response.body)
        },
    }
}

/// The file that the last reply of a download brings, or what went wrong.
pub fn take_download(reply: Result<GeoIpHttpResponse, String>, support_xzip: bool) -> (r: Result<
    Vec<u8>,
    String,
>)
    ensures
        fetched(reply, support_xzip, r),
{
    match reply {
        Err(e) => Err(e),
        Ok(response) => if !response.is_ok() {
            let mut out = chars_of("HTTP ");
            let code = i64_text(response.status as i64);
            let preview = body_preview(response.body.as_slice());
            push_text(&mut out, code.as_str());
            push_text(&mut out, " - ");
            push_text(&mut out, preview.as_str());
            Err(string_of(out.as_slice()))
        } else if support_xzip {
            decompress_xz(response.body.as_slice())
        } else {
            Ok(response.body)
        },
    }
}

/// Whether `r` is what became of a file that was written next to its place: a compressed one has to
/// open as a database, a plain one is taken as it is.
pub open spec fn settled(
    tmp: Seq<char>,
    support_xzip: bool,
    bytes: Seq<u8>,
    written: Result<(), String>,
    r: Result<(), String>,
) -> bool {
    match written {
        Err(e) => r matches Err(text) && text@ == "write "@ + tmp + " failed: "@ + e@,
        Ok(_) => if support_xzip && mmdb_problem(bytes) is Some {
            r matches Err(text) && text@ == "validate "@ + tmp + " failed: "@ + mmdb_problem(
                bytes,
            )->0
        } else {
            r is Ok
        },
    }
}

fn failure_text(what: &str, path: &str, e: &str) -> (out: String)
    ensures
        out@ == what@ + path@ + " failed: "@ + e@,
{
    let mut out = chars_of(what);
    push_text(&mut out, path);
    push_text(&mut out, " failed: ");
    push_text(&mut out, e);
    string_of(out.as_slice())
}

/// What became of a file that was written next to its place.
pub fn settle_download(
    tmp: &str,
    support_xzip: bool,
    bytes: &Vec<u8>,
    written: Result<(), String>,
) -> (r: Result<(), String>)
    ensures
        settled(tmp@, support_xzip, bytes@, written, r),
{
    match written {
        Err(e) => Err(failure_text("write ", tmp, e.as_str())),
        Ok(_) => if support_xzip {
            match open_problem(bytes.as_slice()) {
                Some(e) => Err(failure_text("validate ", tmp, e.as_str())),
                None => Ok(()),
            }
        } else {
            Ok(())
        },
    }
}

/// What is said of a file that could not be put into its place.
pub open spec fn move_text(tmp: Seq<char>, target: Seq<char>, e: Seq<char>) -> Seq<char> {
    "move "@ + tmp + " to "@ + target + " failed: "@ + e
}

/// What is said of a file that could not be put into its place.
pub fn move_failure(tmp: &str, target: &str, e: &str) -> (out: String)
    ensures
        out@ == move_text(tmp@, target@, e@),
{
    let mut out = chars_of("move ");
    push_text(&mut out, tmp);
    push_text(&mut out, " to ");
    push_text(&mut out, target);
    push_text(&mut out, " failed: ");
    push_text(&mut out, e);
    string_of(out.as_slice())
}

/// The name of the file that is written next to a database before it takes its place.
pub open spec fn temp_name_of(file_name: Seq<char>, process: nat, sequence: nat) -> Seq<char> {
    "."@ + file_name + "."@ + decimal(process) + "."@ + decimal(sequence) + ".tmp"@
}

/// The name of the file that is written next to a database before it takes its place.
pub fn temp_name(file_name: &str, process: u32, sequence: u64) -> (name: String)
    ensures
        name@ == temp_name_of(file_name@, process as nat, sequence as nat),
{
    let mut out = chars_of(".");
    push_text(&mut out, file_name);
    push_text(&mut out, ".");
    let p = u64_text(process as u64);
    push_text(&mut out, p.as_str());
    push_text(&mut out, ".");
    let s = u64_text(sequence);
    push_text(&mut out, s.as_str());
    push_text(&mut out, ".tmp");
    string_of(out.as_slice())
}

/// The path of a file in a directory.
pub open spec fn joined(directory: Seq<char>, name: Seq<char>) -> Seq<char> {
    if directory.len() == 0 || directory.last() == '/' {
        directory + name
    } else {
        directory + "/"@ + name
    }
}

/// The path of a file in a directory.
pub fn join_path(directory: &str, name: &str) -> (path: String)
    ensures
        path@ == joined(directory@, name@),
{
    let chars = chars_of(directory);
    if chars.len() == 0 || chars[chars.len() - 1] == '/' {
        concat2(directory, name)
    } else {
        concat3(directory, "/", name)
    }
}

// --------------------------------------------------------------------- updater
/// Keeps the databases of a directory up to date.
pub struct GeoIpUpdater<'a, H> {
    pub ipdb_dir: String,
    pub config: IpDatabaseConfig,
    pub http: &'a H,
    pub mirrors: Vec<IpdbDownloadSource>,
    pub download_missing: bool,
}

/// Places with the name of a database filled in.
pub open spec fn named_mirrors(mirrors: Seq<SourceView>, database_name: Seq<char>) -> Seq<SourceView> {
    Seq::new(mirrors.len(), |i: int| SourceView { database_name, ..mirrors[i] })
}

/// The files that an update works on.
pub struct UpdateFiles<T, W, D, R, X, N> {
    /// When a file last changed, in milliseconds, if it is there.
    pub modified: T,
    /// Writes a file.
    pub write: W,
    /// Removes a file.
    pub remove: D,
    /// Puts the first file into the place of the second in one step.
    pub rename: R,
    /// Whether a file is there.
    pub present: X,
    /// A number that was not given before.
    pub sequence: N,
    /// The number of the process.
    pub process: u32,
}

/// Whether files may be worked on in every way.
pub open spec fn files_ready<
    T: Fn(&String) -> Option<i64>,
    W: Fn(&String, &Vec<u8>) -> Result<(), String>,
    D: Fn(&String) -> Result<(), String>,
    R: Fn(&String, &String) -> Result<(), String>,
    X: Fn(&String) -> bool,
    N: Fn() -> u64,
>(files: UpdateFiles<T, W, D, R, X, N>) -> bool {
    &&& forall|t: &String| files.modified.requires((t,))
    &&& forall|t: &String, bytes: &Vec<u8>| files.write.requires((t, bytes))
    &&& forall|t: &String| files.remove.requires((t,))
    &&& forall|t: &String, u: &String| files.rename.requires((t, u))
    &&& forall|t: &String| files.present.requires((t,))
    &&& files.sequence.requires(())
}

/// Whether a file was removed, as far as it was there.
pub open spec fn removed<D: Fn(&String) -> Result<(), String>>(remove: D, path: String) -> bool {
    exists|outcome: Result<(), String>| #[trigger] remove.ensures((&path,), outcome)
}

/// Whether a report says what became of a database, given what the places came to, how putting the
/// file into its place ended, and whether a file is there afterwards.
pub open spec fn reported(
    database_name: Seq<char>,
    target: Seq<char>,
    tmp: Seq<char>,
    mirrors: Seq<SourceView>,
    tries: Seq<Result<(), String>>,
    moved: Result<(), String>,
    there: bool,
    r: DatabaseReport,
) -> bool {
    &&& r.database@ == database_name
    &&& r.target@ == target
    &&& if tries.len() > 0 && tries.last() is Ok {
        match moved {
            Ok(_) => {
                &&& r.update is Updated
                &&& opt_view(r.source) == Some(mirrors[tries.len() - 1].url())
            },
            Err(e) => {
                &&& r.source is None
                &&& r.update matches DatabaseUpdate::Failed { message, kept_local_copy }
                &&& message@ == move_text(tmp, target, e@)
                &&& kept_local_copy == there
            },
        }
    } else {
        &&& r.source is None
        &&& r.update matches DatabaseUpdate::Failed { message, kept_local_copy }
        &&& kept_local_copy == there
        &&& message@ == (if tries.len() > 0 {
            tries.last()->Err_0@
        } else {
            "no download mirror configured"@
        })
    }
}

impl<'a, H: GeoIpHttpClient> GeoIpUpdater<'a, H> {
    /// Keeps the databases of a directory up to date, from the usual places.
    pub fn new(ipdb_dir: &str, config: IpDatabaseConfig, http: &'a H) -> (u: Self)
        ensures
            u.ipdb_dir@ == ipdb_dir@,
            u.config == config,
            *u.http == *http,
            source_views(u.mirrors@) == mirrors_at(mirror_bases(), config.database_city@),
            !u.download_missing,
    {
        let mirrors = default_mirrors(config.database_city.as_str());
        GeoIpUpdater { ipdb_dir: ipdb_dir.to_string(), config, http, mirrors, download_missing: false }
    }

    /// Downloads from other places, with compressed files.
    pub fn with_mirror_bases(self, bases: Vec<String>) -> (u: Self)
        ensures
            u == (GeoIpUpdater { mirrors: u.mirrors, ..self }),
            source_views(u.mirrors@) == mirrors_at(texts(bases@), Seq::empty()),
    {
        let mut mirrors: Vec<IpdbDownloadSource> = Vec::new();
        let mut i: usize = 0;
        let ghost all = mirrors_at(texts(bases@), Seq::empty());
        assert("".view() =~= Seq::empty()) by {
            reveal_strlit("");
        }
        assert(source_views(mirrors@) =~= all.take(0));
        while i < bases.len()
            invariant
                i <= bases.len(),
                all == mirrors_at(texts(bases@), Seq::empty()),
                ""@ == Seq::<char>::empty(),
                source_views(mirrors@) == all.take(i as int),
            decreases bases.len() - i,
        {
            let ghost done = source_views(mirrors@);
            let m = IpdbDownloadSource::with_xzip(bases[i].as_str(), "");
            mirrors.push(m);
            assert(source_views(mirrors@) =~= done.push(m@));
            i += 1;
            assert(source_views(mirrors@) =~= all.take(i as int));
        }
        assert(source_views(mirrors@) =~= all);
        GeoIpUpdater {
            ipdb_dir: self.ipdb_dir,
            config: self.config,
            http: self.http,
            mirrors,
            download_missing: self.download_missing,
        }
    }

    /// Downloads from other places.
    pub fn with_mirrors(self, mirrors: Vec<IpdbDownloadSource>) -> (u: Self)
        ensures
            u == (GeoIpUpdater { mirrors, ..self }),
    {
        GeoIpUpdater {
            ipdb_dir: self.ipdb_dir,
            config: self.config,
            http: self.http,
            mirrors,
            download_missing: self.download_missing,
        }
    }

    /// Downloads databases that are missing whatever the settings. Those that are there are
    /// refreshed only where the settings keep them up to date.
    pub fn with_download_missing(self, download_missing: bool) -> (u: Self)
        ensures
            u == (GeoIpUpdater { download_missing, ..self }),
    {
        GeoIpUpdater {
            ipdb_dir: self.ipdb_dir,
            config: self.config,
            http: self.http,
            mirrors: self.mirrors,
            download_missing,
        }
    }

    /// The directory of the databases.
    pub fn geoip_dir(&self) -> (path: String)
        ensures
            path@ == joined(self.ipdb_dir@, GEOIP_DIR@),
    {
        join_path(self.ipdb_dir.as_str(), GEOIP_DIR)
    }

    /// Why nothing is to be looked at, if so. `force_disabled` tells whether places are switched
    /// off.
    pub fn skip_reason(&self, force_disabled: bool) -> (r: Option<SkipReason>)
        ensures
            r == (if force_disabled {
                Some(SkipReason::ForceDisabled)
            } else if !self.config.auto_update && !self.download_missing {
                Some(SkipReason::AutoUpdateDisabled)
            } else {
                None
            }),
    {
        if force_disabled {
            Some(SkipReason::ForceDisabled)
        } else if !self.config.auto_update && !self.download_missing {
            Some(SkipReason::AutoUpdateDisabled)
        } else {
            None
        }
    }

    /// The places for a database.
    pub fn mirrors_for(&self, database_name: &str) -> (v: Vec<IpdbDownloadSource>)
        ensures
            source_views(v@) == named_mirrors(source_views(self.mirrors@), database_name@),
    {
        let mut v: Vec<IpdbDownloadSource> = Vec::new();
        let ghost all = named_mirrors(source_views(self.mirrors@), database_name@);
        let mut i: usize = 0;
        assert(source_views(v@) =~= all.take(0));
        while i < self.mirrors.len()
            invariant
                i <= self.mirrors.len(),
                all == named_mirrors(source_views(self.mirrors@), database_name@),
                source_views(v@) == all.take(i as int),
            decreases self.mirrors.len() - i,
        {
            let ghost done = source_views(v@);
            let m = IpdbDownloadSource {
                base_url: self.mirrors[i].base_url.clone(),
                database_name: database_name.to_string(),
                support_xzip: self.mirrors[i].support_xzip,
            };
            v.push(m);
            assert(source_views(v@) =~= done.push(m@));
            i += 1;
            assert(source_views(v@) =~= all.take(i as int));
        }
        assert(source_views(v@) =~= all);
        v
    }

    /// Whether a download from a place may end so. Where the place asks for an account, the request
    /// is made once more with that of the settings.
    pub open spec fn downloads(
        &self,
        mirror: IpdbDownloadSource,
        r: Result<Vec<u8>, String>,
    ) -> bool {
        exists|
            first: Result<GeoIpHttpResponse, String>,
            last: Result<GeoIpHttpResponse, String>,
        |
            {
                &&& #[trigger] self.http.answers(
                    GeoRequestView { url: mirror@.url(), basic: None },
                    first,
                )
                &&& if asks_account(first, self.config) {
                    self.http.answers(
                        GeoRequestView {
                            url: mirror@.url(),
                            basic: Some((self.config.account_id@, self.config.license_key@)),
                        },
                        last,
                    )
                } else {
                    last == first
                }
                &&& #[trigger] fetched(last, mirror.support_xzip, r)
            }
    }

    /// Downloads a database from a place: its bytes, unpacked where they are compressed. Where the
    /// place asks for an account, the request is made once more with that of the settings.
    pub fn download(&self, mirror: &IpdbDownloadSource) -> (r: Result<Vec<u8>, String>)
        ensures
            self.downloads(*mirror, r),
    {
        let url = mirror.url();
        let first = self.http.execute(GeoIpHttpRequest::get(url.as_str()));
        let ghost first_ = first;
        let retry = match &first {
            Ok(response) => response.status == 401 && self.config.account_id.as_str().unicode_len()
                > 0 && self.config.license_key.as_str().unicode_len() > 0,
            Err(_) => false,
        };
        let last = if retry {
            self.http.execute(
                GeoIpHttpRequest::with_basic(
                    url.as_str(),
                    self.config.account_id.as_str(),
                    self.config.license_key.as_str(),
                ),
            )
        } else {
            first
        };
        let ghost last_ = last;
        let r = take_download(last, mirror.support_xzip);
        proof {
            assert(self.http.answers(GeoRequestView { url: mirror@.url(), basic: None }, first_));
            assert(fetched(last_, mirror.support_xzip, r));
        }
        r
    }

    /// Whether an attempt at a place may end so: what it brings is written next to where the
    /// database belongs, and a compressed one has to open as a database.
    pub open spec fn attempts<W: Fn(&String, &Vec<u8>) -> Result<(), String>>(
        &self,
        mirror: IpdbDownloadSource,
        tmp: String,
        write: W,
        r: Result<(), String>,
    ) -> bool {
        exists|file: Result<Vec<u8>, String>| #[trigger]
            self.downloads(mirror, file) && match file {
                Err(e) => r == Err::<(), String>(e),
                Ok(bytes) => exists|written: Result<(), String>| #[trigger]
                    write.ensures((&tmp, &bytes), written) && settled(
                        tmp@,
                        mirror.support_xzip,
                        bytes@,
                        written,
                        r,
                    ),
            }
    }

    /// Downloads a database from a place and writes it next to where it belongs. A compressed one
    /// has to open as a database.
    pub fn download_and_decompress<W: Fn(&String, &Vec<u8>) -> Result<(), String>>(
        &self,
        mirror: &IpdbDownloadSource,
        tmp: &String,
        write: &W,
    ) -> (r: Result<(), String>)
        requires
            forall|path: &String, bytes: &Vec<u8>| write.requires((path, bytes)),
        ensures
            self.attempts(*mirror, *tmp, *write, r),
    {
        let file = self.download(mirror);
        let ghost file_ = file;
        assert(self.downloads(*mirror, file_));
        match file {
            Err(e) => Err(e),
            Ok(bytes) => {
                let written = write(tmp, &bytes);
                assert(write.ensures((tmp, &bytes), written));
                settle_download(tmp.as_str(), mirror.support_xzip, &bytes, written)
            },
        }
    }

    /// Whether an attempt at a place, told by its value, may end so.
    pub open spec fn attempted<W: Fn(&String, &Vec<u8>) -> Result<(), String>>(
        &self,
        mirror: SourceView,
        tmp: String,
        write: W,
        r: Result<(), String>,
    ) -> bool {
        exists|m: IpdbDownloadSource| m@ == mirror && #[trigger] self.attempts(m, tmp, write, r)
    }

    /// What the places came to, one after the other: `tries[i]` is what the place `i` came to. All
    /// but the last failed; only where all places are used up the last may have failed too. What a
    /// failed attempt left behind was removed.
    pub open spec fn tried<
        W: Fn(&String, &Vec<u8>) -> Result<(), String>,
        D: Fn(&String) -> Result<(), String>,
    >(
        &self,
        mirrors: Seq<SourceView>,
        tmp: String,
        write: W,
        remove: D,
        tries: Seq<Result<(), String>>,
    ) -> bool {
        &&& tries.len() <= mirrors.len()
        &&& forall|i: int|
            0 <= i < tries.len() ==> self.attempted(mirrors[i], tmp, write, #[trigger] tries[i])
        &&& forall|i: int| 0 <= i < tries.len() - 1 ==> (#[trigger] tries[i]) is Err
        &&& forall|i: int|
            0 <= i < tries.len() && (#[trigger] tries[i]) is Err ==> removed(remove, tmp)
        &&& tries.len() < mirrors.len() ==> tries.len() > 0 && tries.last() is Ok
    }

    /// Whether a report may be that of an update. After a successful attempt the file that was
    /// written takes the place of the database in one step, or is removed where that fails.
    pub open spec fn updates<
        T: Fn(&String) -> Option<i64>,
        W: Fn(&String, &Vec<u8>) -> Result<(), String>,
        D: Fn(&String) -> Result<(), String>,
        R: Fn(&String, &String) -> Result<(), String>,
        X: Fn(&String) -> bool,
        N: Fn() -> u64,
    >(
        &self,
        database_name: Seq<char>,
        target: String,
        tmp: String,
        files: UpdateFiles<T, W, D, R, X, N>,
        r: DatabaseReport,
    ) -> bool {
        let mirrors = named_mirrors(source_views(self.mirrors@), database_name);
        exists|tries: Seq<Result<(), String>>, moved: Result<(), String>, there: bool|
            {
                &&& self.tried(mirrors, tmp, files.write, files.remove, tries)
                &&& (tries.len() > 0 && tries.last() is Ok) ==> {
                    &&& files.rename.ensures((&tmp, &target), moved)
                    &&& moved is Err ==> removed(files.remove, tmp)
                }
                &&& r.update is Failed ==> files.present.ensures((&target,), there)
                &&& #[trigger] reported(
                    database_name,
                    target@,
                    tmp@,
                    mirrors,
                    tries,
                    moved,
                    there,
                    r,
                )
            }
    }

    /// Updates a database: the places are tried in order until one attempt succeeds, and the file
    /// `tmp` that it wrote then takes the place of `target`. Otherwise what was there stays, and
    /// `tmp` is removed.
    pub fn update_mmdb<
        T: Fn(&String) -> Option<i64>,
        W: Fn(&String, &Vec<u8>) -> Result<(), String>,
        D: Fn(&String) -> Result<(), String>,
        R: Fn(&String, &String) -> Result<(), String>,
        X: Fn(&String) -> bool,
        N: Fn() -> u64,
    >(
        &self,
        database_name: &str,
        target: &String,
        tmp: &String,
        files: &UpdateFiles<T, W, D, R, X, N>,
    ) -> (r: DatabaseReport)
        requires
            files_ready(*files),
        ensures
            self.updates(database_name@, *target, *tmp, *files, r),
    {
        let mirrors = self.mirrors_for(database_name);
        let ghost all = source_views(mirrors@);
        let ghost mut tries: Seq<Result<(), String>> = Seq::empty();
        let mut last_error: Option<String> = None;
        let mut i: usize = 0;
        while i < mirrors.len()
            invariant
                i <= mirrors.len(),
                all == source_views(mirrors@),
                all == named_mirrors(source_views(self.mirrors@), database_name@),
                files_ready(*files),
                tries.len() == i,
                forall|k: int|
                    0 <= k < i ==> self.attempted(all[k], *tmp, files.write, #[trigger] tries[k]),
                forall|k: int| 0 <= k < i ==> (#[trigger] tries[k]) is Err,
                i > 0 ==> removed(files.remove, *tmp),
                i == 0 ==> last_error is None,
                i > 0 ==> last_error is Some && last_error->0 == tries.last()->Err_0,
            decreases mirrors.len() - i,
        {
            let outcome = self.download_and_decompress(&mirrors[i], tmp, &files.write);
            let ghost before = tries;
            proof {
                tries = tries.push(outcome);
                assert(all[i as int] == mirrors@[i as int]@);
                assert(self.attempts(mirrors@[i as int], *tmp, files.write, outcome));
                assert(self.attempted(all[i as int], *tmp, files.write, outcome));
                assert forall|k: int| 0 <= k < i + 1 implies self.attempted(
                    all[k],
                    *tmp,
                    files.write,
                    #[trigger] tries[k],
                ) by {
                    if k < i {
                        assert(tries[k] == before[k]);
                    }
                }
            }
            match outcome {
                Ok(_) => {
                    let moved = (files.rename)(tmp, target);
                    let ghost moved_ = moved;
                    assert(self.tried(all, *tmp, files.write, files.remove, tries));
                    match moved {
                        Ok(_) => {
                            let r = DatabaseReport {
                                database: database_name.to_string(),
                                target: target.clone(),
                                source: Some(mirrors[i].url()),
                                update: DatabaseUpdate::Updated,
                            };
                            assert(reported(
                                database_name@,
                                target@,
                                tmp@,
                                all,
                                tries,
                                moved_,
                                true,
                                r,
                            ));
                            return r;
                        },
                        Err(e) => {
                            let outcome = (files.remove)(tmp);
                            assert(files.remove.ensures((tmp,), outcome));
                            let message = move_failure(tmp.as_str(), target.as_str(), e.as_str());
                            let there = (files.present)(target);
                            let r = DatabaseReport {
                                database: database_name.to_string(),
                                target: target.clone(),
                                source: None,
                                update: DatabaseUpdate::Failed { message, kept_local_copy: there },
                            };
                            assert(reported(
                                database_name@,
                                target@,
                                tmp@,
                                all,
                                tries,
                                moved_,
                                there,
                                r,
                            ));
                            return r;
                        },
                    }
                },
                Err(e) => {
                    let outcome = (files.remove)(tmp);
                    assert(files.remove.ensures((tmp,), outcome));
                    last_error = Some(e);
                },
            }
            i += 1;
        }
        let message = match last_error {
            Some(e) => e,
            None => "no download mirror configured".to_string(),
        };
        let there = (files.present)(target);
        let r = DatabaseReport {
            database: database_name.to_string(),
            target: target.clone(),
            source: None,
            update: DatabaseUpdate::Failed { message, kept_local_copy: there },
        };
        proof {
            let moved = Ok::<(), String>(());
            assert(self.tried(all, *tmp, files.write, files.remove, tries));
            assert(reported(database_name@, target@, tmp@, all, tries, moved, there, r));
        }
        r
    }

    /// Whether a database is to be downloaded, given when it last changed.
    pub open spec fn wants(self, modified_ms: Option<i64>, now_ms: i64) -> bool {
        is_stale(modified_ms, self.config.auto_update, now_ms)
    }

    /// Whether a report may be that of a database which is looked at. An update writes a file with
    /// a name of its own next to the database first.
    pub open spec fn looks_at<
        T: Fn(&String) -> Option<i64>,
        W: Fn(&String, &Vec<u8>) -> Result<(), String>,
        D: Fn(&String) -> Result<(), String>,
        R: Fn(&String, &String) -> Result<(), String>,
        X: Fn(&String) -> bool,
        N: Fn() -> u64,
    >(
        &self,
        database_name: Seq<char>,
        file_name: Seq<char>,
        now_ms: i64,
        files: UpdateFiles<T, W, D, R, X, N>,
        r: DatabaseReport,
    ) -> bool {
        let directory = joined(self.ipdb_dir@, GEOIP_DIR@);
        exists|target: String, modified_ms: Option<i64>|
            {
                &&& target@ == joined(directory, file_name)
                &&& #[trigger] files.modified.ensures((&target,), modified_ms)
                &&& if self.wants(modified_ms, now_ms) {
                    exists|tmp: String, sequence: u64|
                        {
                            &&& #[trigger] files.sequence.ensures((), sequence)
                            &&& tmp@ == joined(
                                directory,
                                temp_name_of(file_name, files.process as nat, sequence as nat),
                            )
                            &&& #[trigger] self.updates(database_name, target, tmp, files, r)
                        }
                } else {
                    &&& r.database@ == database_name
                    &&& r.target == target
                    &&& r.source is None
                    &&& r.update is UpToDate
                }
            }
    }

    fn look_at<
        T: Fn(&String) -> Option<i64>,
        W: Fn(&String, &Vec<u8>) -> Result<(), String>,
        D: Fn(&String) -> Result<(), String>,
        R: Fn(&String, &String) -> Result<(), String>,
        X: Fn(&String) -> bool,
        N: Fn() -> u64,
    >(
        &self,
        database_name: &str,
        file_name: &str,
        now_ms: i64,
        files: &UpdateFiles<T, W, D, R, X, N>,
    ) -> (r: DatabaseReport)
        requires
            files_ready(*files),
        ensures
            self.looks_at(database_name@, file_name@, now_ms, *files, r),
    {
        let directory = self.geoip_dir();
        let target = join_path(directory.as_str(), file_name);
        let modified_ms = (files.modified)(&target);
        let wanted = need_update_mmdb_at(modified_ms, self.config.auto_update, now_ms);
        assert(files.modified.ensures((&target,), modified_ms));
        if wanted {
            let sequence = (files.sequence)();
            assert(files.sequence.ensures((), sequence));
            let name = temp_name(file_name, files.process, sequence);
            let tmp = join_path(directory.as_str(), name.as_str());
            let r = self.update_mmdb(database_name, &target, &tmp, files);
            assert(self.updates(database_name@, target, tmp, *files, r));
            r
        } else {
            DatabaseReport {
                database: database_name.to_string(),
                target,
                source: None,
                update: DatabaseUpdate::UpToDate,
            }
        }
    }

    /// Looks at the databases of cities, autonomous systems and Chinese places in turn and downloads
    /// those that are wanted, unless everything is skipped.
    pub fn update_if_needed_at<
        T: Fn(&String) -> Option<i64>,
        W: Fn(&String, &Vec<u8>) -> Result<(), String>,
        D: Fn(&String) -> Result<(), String>,
        R: Fn(&String, &String) -> Result<(), String>,
        X: Fn(&String) -> bool,
        N: Fn() -> u64,
    >(&self, force_disabled: bool, now_ms: i64, files: &UpdateFiles<T, W, D, R, X, N>) -> (r:
        UpdateReport)
        requires
            files_ready(*files),
        ensures
            force_disabled ==> r == UpdateReport::Skipped(SkipReason::ForceDisabled),
            !force_disabled && !self.config.auto_update && !self.download_missing ==> r
                == UpdateReport::Skipped(SkipReason::AutoUpdateDisabled),
            !force_disabled && (self.config.auto_update || self.download_missing) ==> {
                &&& r matches UpdateReport::Performed(v)
                &&& v@.len() == 3
                &&& self.looks_at(self.config.database_city@, CITY_MMDB@, now_ms, *files, v@[0])
                &&& self.looks_at(self.config.database_asn@, ASN_MMDB@, now_ms, *files, v@[1])
                &&& self.looks_at(self.config.database_geocn@, GEOCN_MMDB@, now_ms, *files, v@[2])
            },
    {
        if let Some(reason) = self.skip_reason(force_disabled) {
            return UpdateReport::Skipped(reason);
        }
        let city = self.look_at(self.config.database_city.as_str(), CITY_MMDB, now_ms, files);
        let asn = self.look_at(self.config.database_asn.as_str(), ASN_MMDB, now_ms, files);
        let geo_cn = self.look_at(self.config.database_geocn.as_str(), GEOCN_MMDB, now_ms, files);
        let mut reports: Vec<DatabaseReport> = Vec::new();
        reports.push(city);
        reports.push(asn);
        reports.push(geo_cn);
        UpdateReport::Performed(reports)
    }

    /// Looks at the databases now and downloads those that are wanted, unless everything is skipped.
    pub fn update_if_needed<
        T: Fn(&String) -> Option<i64>,
        W: Fn(&String, &Vec<u8>) -> Result<(), String>,
        D: Fn(&String) -> Result<(), String>,
        R: Fn(&String, &String) -> Result<(), String>,
        X: Fn(&String) -> bool,
        N: Fn() -> u64,
    >(&self, force_disabled: bool, files: &UpdateFiles<T, W, D, R, X, N>) -> (r: UpdateReport)
        requires
            files_ready(*files),
        ensures
            force_disabled ==> r == UpdateReport::Skipped(SkipReason::ForceDisabled),
            !force_disabled && !self.config.auto_update && !self.download_missing ==> r
                == UpdateReport::Skipped(SkipReason::AutoUpdateDisabled),
            !force_disabled && (self.config.auto_update || self.download_missing) ==> {
                &&& r matches UpdateReport::Performed(v)
                &&& v@.len() == 3
                &&& exists|now_ms: i64|
                    {
                        &&& #[trigger] self.looks_at(
                            self.config.database_city@,
                            CITY_MMDB@,
                            now_ms,
                            *files,
                            v@[0],
                        )
                        &&& self.looks_at(
                            self.config.database_asn@,
                            ASN_MMDB@,
                            now_ms,
                            *files,
                            v@[1],
                        )
                        &&& self.looks_at(
                            self.config.database_geocn@,
                            GEOCN_MMDB@,
                            now_ms,
                            *files,
                            v@[2],
                        )
                    }
            },
    {
        let now_ms = now_millis();
        self.update_if_needed_at(force_disabled, now_ms, files)
    }
}

/// Where the first place succeeds no other is tried, and the report names that place.
pub proof fn first_success_ends_the_search<
    H: GeoIpHttpClient,
    W: Fn(&String, &Vec<u8>) -> Result<(), String>,
    D: Fn(&String) -> Result<(), String>,
>(
    updater: GeoIpUpdater<'_, H>,
    mirrors: Seq<SourceView>,
    tmp: String,
    write: W,
    remove: D,
    tries: Seq<Result<(), String>>,
    i: int,
)
    requires
        updater.tried(mirrors, tmp, write, remove, tries),
        0 <= i < tries.len(),
        tries[i] is Ok,
    ensures
        i == tries.len() - 1,
{
}

/// A database that could not be downloaded is never reported as downloaded: without a successful
/// attempt the report is one of failure that names no place.
pub proof fn no_success_no_update(
    database_name: Seq<char>,
    target: Seq<char>,
    tmp: Seq<char>,
    mirrors: Seq<SourceView>,
    tries: Seq<Result<(), String>>,
    moved: Result<(), String>,
    there: bool,
    r: DatabaseReport,
)
    requires
        reported(database_name, target, tmp, mirrors, tries, moved, there, r),
        forall|i: int| 0 <= i < tries.len() ==> (#[trigger] tries[i]) is Err,
    ensures
        r.update is Failed,
        r.source is None,
{
}

/// Whether bytes that a place gave were written next to a database, opened as one if they came
/// compressed, and took its place.
pub open spec fn installed<
    H: GeoIpHttpClient,
    T: Fn(&String) -> Option<i64>,
    W: Fn(&String, &Vec<u8>) -> Result<(), String>,
    D: Fn(&String) -> Result<(), String>,
    R: Fn(&String, &String) -> Result<(), String>,
    X: Fn(&String) -> bool,
    N: Fn() -> u64,
>(
    updater: GeoIpUpdater<'_, H>,
    mirror: IpdbDownloadSource,
    bytes: Vec<u8>,
    target: String,
    tmp: String,
    files: UpdateFiles<T, W, D, R, X, N>,
) -> bool {
    &&& updater.downloads(mirror, Ok(bytes))
    &&& files.write.ensures((&tmp, &bytes), Ok(()))
    &&& mirror.support_xzip ==> mmdb_problem(bytes@) is None
    &&& files.rename.ensures((&tmp, &target), Ok(()))
}

/// A database that is reported as downloaded is what one of the places gave: it was written next
/// to its place, checked if it came compressed, and then put there in one step.
pub proof fn update_installs_what_was_checked<
    H: GeoIpHttpClient,
    T: Fn(&String) -> Option<i64>,
    W: Fn(&String, &Vec<u8>) -> Result<(), String>,
    D: Fn(&String) -> Result<(), String>,
    R: Fn(&String, &String) -> Result<(), String>,
    X: Fn(&String) -> bool,
    N: Fn() -> u64,
>(
    updater: GeoIpUpdater<'_, H>,
    database_name: Seq<char>,
    target: String,
    tmp: String,
    files: UpdateFiles<T, W, D, R, X, N>,
    r: DatabaseReport,
)
    requires
        updater.updates(database_name, target, tmp, files, r),
        r.update is Updated,
    ensures
        exists|mirror: IpdbDownloadSource, bytes: Vec<u8>|
            {
                &&& #[trigger] installed(updater, mirror, bytes, target, tmp, files)
                &&& named_mirrors(source_views(updater.mirrors@), database_name).contains(mirror@)
                &&& opt_view(r.source) == Some(mirror@.url())
            },
{
    let mirrors = named_mirrors(source_views(updater.mirrors@), database_name);
    let (tries, moved, there) = choose|
        tries: Seq<Result<(), String>>,
        moved: Result<(), String>,
        there: bool,
    |
        {
            &&& updater.tried(mirrors, tmp, files.write, files.remove, tries)
            &&& (tries.len() > 0 && tries.last() is Ok) ==> {
                &&& files.rename.ensures((&tmp, &target), moved)
                &&& moved is Err ==> removed(files.remove, tmp)
            }
            &&& r.update is Failed ==> files.present.ensures((&target,), there)
            &&& #[trigger] reported(
                database_name,
                target@,
                tmp@,
                mirrors,
                tries,
                moved,
                there,
                r,
            )
        };
    let last = tries.len() - 1;
    assert(updater.attempted(mirrors[last], tmp, files.write, tries[last]));
    let mirror = choose|m: IpdbDownloadSource|
        m@ == mirrors[last] && #[trigger] updater.attempts(m, tmp, files.write, tries[last]);
    let file = choose|file: Result<Vec<u8>, String>| #[trigger]
        updater.downloads(mirror, file) && match file {
            Err(e) => tries[last] == Err::<(), String>(e),
            Ok(bytes) => exists|written: Result<(), String>| #[trigger]
                files.write.ensures((&tmp, &bytes), written) && settled(
                    tmp@,
                    mirror.support_xzip,
                    bytes@,
                    written,
                    tries[last],
                ),
        };
    assert(file is Ok);
    let bytes = file->Ok_0;
    assert(mirrors[last] == mirror@);
    let written = choose|written: Result<(), String>| #[trigger]
        files.write.ensures((&tmp, &bytes), written) && settled(
            tmp@,
            mirror.support_xzip,
            bytes@,
            written,
            tries[last],
        );
    assert(moved is Ok && moved->Ok_0 == ());
    assert(written is Ok && written->Ok_0 == ());
    assert(file == Ok::<Vec<u8>, String>(bytes));
    assert(installed(updater, mirror, bytes, target, tmp, files));
}

/// An update that fails after an attempt leaves no temporary file behind.
pub proof fn failed_update_clears_up<
    H: GeoIpHttpClient,
    T: Fn(&String) -> Option<i64>,
    W: Fn(&String, &Vec<u8>) -> Result<(), String>,
    D: Fn(&String) -> Result<(), String>,
    R: Fn(&String, &String) -> Result<(), String>,
    X: Fn(&String) -> bool,
    N: Fn() -> u64,
>(
    updater: GeoIpUpdater<'_, H>,
    database_name: Seq<char>,
    target: String,
    tmp: String,
    files: UpdateFiles<T, W, D, R, X, N>,
    r: DatabaseReport,
)
    requires
        updater.updates(database_name, target, tmp, files, r),
        r.update is Failed,
        updater.mirrors@.len() > 0,
    ensures
        removed(files.remove, tmp),
{
    let mirrors = named_mirrors(source_views(updater.mirrors@), database_name);
    let (tries, moved, there) = choose|
        tries: Seq<Result<(), String>>,
        moved: Result<(), String>,
        there: bool,
    |
        {
            &&& updater.tried(mirrors, tmp, files.write, files.remove, tries)
            &&& (tries.len() > 0 && tries.last() is Ok) ==> {
                &&& files.rename.ensures((&tmp, &target), moved)
                &&& moved is Err ==> removed(files.remove, tmp)
            }
            &&& r.update is Failed ==> files.present.ensures((&target,), there)
            &&& #[trigger] reported(
                database_name,
                target@,
                tmp@,
                mirrors,
                tries,
                moved,
                there,
                r,
            )
        };
    assert(tries.len() > 0);
    assert(tries.last() == tries[tries.len() - 1]);
}

/// The file that is written first is never the database itself, so writing it leaves the database
/// as it was.
pub proof fn temporary_file_is_another(
    directory: Seq<char>,
    file_name: Seq<char>,
    process: nat,
    sequence: nat,
)
    ensures
        joined(directory, temp_name_of(file_name, process, sequence)) != joined(
            directory,
            file_name,
        ),
{
    reveal_strlit(".");
    reveal_strlit(".tmp");
    let tmp = temp_name_of(file_name, process, sequence);
    assert(tmp.len() > file_name.len());
    assert(joined(directory, tmp).len() > joined(directory, file_name).len());
}

// ------------------------------------------------------------------ laws of updates
/// A database is fetched from a mirror by its name and the ending of its form.
pub proof fn mirrors_are_asked_by_name(base: Seq<char>, name: Seq<char>)
    ensures
        (SourceView { base_url: base, database_name: name, support_xzip: true }).url() == base + name
            + ".mmdb.xz"@,
        (SourceView { base_url: base, database_name: name, support_xzip: false }).url() == base
            + name + ".mmdb"@,
        mirrors_at(mirror_bases(), name).len() == 3,
        mirrors_at(mirror_bases(), name)[0].url()
            == "https://github.com/PBH-BTN/GeoLite.mmdb/releases/latest/download/"@ + name
            + ".mmdb.xz"@,
        mirrors_at(mirror_bases(), name)[1].url() == "https://pbh-static.paulzzh.com/ipdb/"@ + name
            + ".mmdb.xz"@,
        mirrors_at(mirror_bases(), name)[2].url() == "https://pbh-static.ghostchu.com/ipdb/"@ + name
            + ".mmdb.xz"@,
{
}

/// A database grows stale 45 days after it was written, where it is to be updated; one that is not
/// there is always wanted.
pub proof fn databases_last_forty_five_days(modified_ms: i64, now_ms: i64)
    requires
        0 <= modified_ms,
        0 <= now_ms,
    ensures
        is_stale(Some(modified_ms), true, now_ms) == (now_ms - modified_ms > 45 * 24 * 60 * 60
            * 1000),
        !is_stale(Some(modified_ms), false, now_ms),
        is_stale(None, true, now_ms),
        is_stale(None, false, now_ms),
{
}

/// Reports are picked by their outcome and keep their order.
pub proof fn reports_are_picked_in_order(a: Seq<DatabaseReport>, r: DatabaseReport)
    ensures
        r.update is Updated ==> reports_of(a.push(r), true) == reports_of(a, true).push(r)
            && reports_of(a.push(r), false) == reports_of(a, false),
        r.update is Failed ==> reports_of(a.push(r), false) == reports_of(a, false).push(r)
            && reports_of(a.push(r), true) == reports_of(a, true),
        r.update is UpToDate ==> reports_of(a.push(r), false) == reports_of(a, false) && reports_of(
            a.push(r),
            true,
        ) == reports_of(a, true),
{
    assert(a.push(r).drop_last() =~= a);
}

/// A long reply is shown by its first 256 characters and an ellipsis, a shorter one whole.
pub proof fn replies_are_shown_shortened(text: Seq<char>, more: Seq<char>)
    requires
        text.len() == 256,
    ensures
        more.len() > 0 ==> shortened(text + more) == text + "…"@,
        shortened(text) == text,
        more.len() < 256 ==> shortened(more) == more,
{
    reveal_strlit("…");
    assert((text + more).take(256) =~= text);
    assert(text.push('…') =~= text + "…"@);
}

/// A name stands behind its directory with one slash between them.
pub proof fn paths_have_one_slash(directory: Seq<char>, name: Seq<char>)
    requires
        directory.len() > 0,
        directory.last() != '/',
    ensures
        joined(directory, name) == directory + "/"@ + name,
        joined(directory + "/"@, name) == directory + "/"@ + name,
        joined(Seq::empty(), name) == name,
{
    reveal_strlit("/");
    assert((directory + "/"@).last() == '/');
    assert(Seq::<char>::empty() + name =~= name);
}

/// A plain reply with the code 200 is the file; any other code is an error that tells it, and a
/// failed request is its own error.
pub proof fn replies_decide_the_download(
    status: u16,
    body: Vec<u8>,
    xz: bool,
    e: String,
    r: Result<Vec<u8>, String>,
)
    requires
        fetched(Ok(GeoIpHttpResponse { status, body }), xz, r),
    ensures
        status == 200 && !xz ==> r == Ok::<Vec<u8>, String>(body),
        status == 200 && xz ==> (r is Ok) == (unpacked(body@) is Ok),
        status == 200 && xz && r is Ok ==> unpacked(body@) == Ok::<Seq<u8>, Seq<char>>(r->Ok_0@),
        status != 200 ==> r is Err && r->Err_0@ == "HTTP "@ + decimal(status as nat) + " - "@
            + shortened(lossy(body@)),
        fetched(Err(e), xz, Err(e)),
{
}

/// The account is used exactly where the mirror answers 401 and the settings name one.
pub proof fn accounts_are_used_when_asked_for(
    status: u16,
    body: Vec<u8>,
    config: IpDatabaseConfig,
    e: String,
)
    ensures
        asks_account(Ok(GeoIpHttpResponse { status, body }), config) == (status == 401
            && config.account_id@ != Seq::<char>::empty() && config.license_key@
            != Seq::<char>::empty()),
        !asks_account(Err(e), config),
{
    if config.account_id@.len() == 0 {
        assert(config.account_id@ =~= Seq::<char>::empty());
    }
    if config.license_key@.len() == 0 {
        assert(config.license_key@ =~= Seq::<char>::empty());
    }
}

/// Four bytes hold a number with the lowest byte first.
pub proof fn little_endian_round_trips(v: u32, before: Seq<u8>, after: Seq<u8>)
    ensures
        le_bytes(v as int).len() == 4,
        le_bytes(v as int)[0] == v % 256,
        le32(before + le_bytes(v as int) + after, before.len() as int) == v,
{
    let s = before + le_bytes(v as int) + after;
    let n = before.len() as int;
    let b = le_bytes(v as int);
    assert(s[n] == b[0] && s[n + 1] == b[1] && s[n + 2] == b[2] && s[n + 3] == b[3]);
}

/// A number of seven bits a byte is read with its lowest part first.
pub proof fn xz_numbers_have_the_lowest_part_first(
    before: Seq<u8>,
    low: u8,
    rest: Seq<u8>,
    bytes: nat,
)
    requires
        low < 128,
    ensures
        xz_number(before + seq![low] + rest, before.len() as int, bytes + 1) == Some(
            (low as int, 1int + before.len()),
        ),
        match xz_number(
            before + seq![(low + 128) as u8] + rest,
            1int + before.len(),
            bytes,
        ) {
            Some((high, next)) => xz_number(
                before + seq![(low + 128) as u8] + rest,
                before.len() as int,
                bytes + 1,
            ) == Some((low + 128 * high, next)),
            None => xz_number(
                before + seq![(low + 128) as u8] + rest,
                before.len() as int,
                bytes + 1,
            ) is None,
        },
{
    let n = before.len() as int;
    assert((before + seq![low] + rest)[n] == low);
    assert((before + seq![(low + 128) as u8] + rest)[n] == low + 128);
}

/// A download that was written counts unless its mirror packs its files and the file is no database;
/// what went wrong is told with the path.
pub proof fn downloads_are_checked(
    tmp: Seq<char>,
    packed: bool,
    bytes: Seq<u8>,
    written: Result<(), String>,
    r: Result<(), String>,
)
    requires
        settled(tmp, packed, bytes, written, r),
    ensures
        written is Ok && mmdb_problem(bytes) is None ==> r is Ok,
        written is Ok && !packed ==> r is Ok,
        written is Ok && packed ==> (mmdb_problem(bytes) matches Some(p) ==> r is Err && r->Err_0@
            == "validate "@ + tmp + " failed: "@ + p),
        written matches Err(e) ==> r is Err && r->Err_0@ == "write "@ + tmp + " failed: "@ + e@,
{
}

/// The report of an update names the database and its file; it succeeds with the mirror that
/// succeeded and its file in place, and else tells the last error and whether an older file is
/// there.
pub proof fn updates_are_reported(
    name: Seq<char>,
    target: Seq<char>,
    tmp: Seq<char>,
    mirrors: Seq<SourceView>,
    tries: Seq<Result<(), String>>,
    moved: Result<(), String>,
    there: bool,
    r: DatabaseReport,
)
    requires
        reported(name, target, tmp, mirrors, tries, moved, there, r),
        tries.len() <= mirrors.len(),
    ensures
        r.database@ == name,
        r.target@ == target,
        tries.len() > 0 && tries.last() is Ok && moved is Ok ==> r.update is Updated && (
        r.source matches Some(s) && s@ == mirrors[tries.len() - 1].url()),
        tries.len() > 0 && tries.last() is Err ==> (
        r.update matches DatabaseUpdate::Failed { message, kept_local_copy } && message@
            == tries.last()->Err_0@ && kept_local_copy == there && r.source is None),
        tries.len() == 0 ==> (
        r.update matches DatabaseUpdate::Failed { message, kept_local_copy } && message@
            == "no download mirror configured"@ && kept_local_copy == there),
        tries.len() > 0 && tries.last() is Ok && moved is Err ==> (
        r.update matches DatabaseUpdate::Failed { message, kept_local_copy } && message@ == "move "@
            + tmp + " to "@ + target + " failed: "@ + moved->Err_0@ && kept_local_copy == there),
{
}

/// A temporary file is hidden and is named after its database, the process and a number.
pub proof fn temporary_files_are_hidden(file_name: Seq<char>, process: nat, sequence: nat)
    ensures
        temp_name_of(file_name, process, sequence) == "."@ + file_name + "."@ + decimal(process)
            + "."@ + decimal(sequence) + ".tmp"@,
        xz_error(file_name) == "xz decompress failed: "@ + file_name,
{
}

/// Each mirror is asked for the database by its name, in the mirrors' order.
pub proof fn mirrors_keep_their_order(mirrors: Seq<SourceView>, name: Seq<char>, i: int)
    requires
        0 <= i < mirrors.len(),
    ensures
        named_mirrors(mirrors, name).len() == mirrors.len(),
        named_mirrors(mirrors, name)[i].base_url == mirrors[i].base_url,
        named_mirrors(mirrors, name)[i].database_name == name,
        named_mirrors(mirrors, name)[i].support_xzip == mirrors[i].support_xzip,
{
}

/// The records of an index stand one behind the other, two numbers each, and the index ends at a
/// multiple of four bytes from its start.
pub proof fn index_records_stand_in_a_row(s: Seq<u8>, at: int, count: int)
    requires
        0 <= at,
        0 <= count,
    ensures
        xz_records_end(s, at, 0) == Some(at),
        match xz_number(s, at, 9) {
            None => xz_records_end(s, at, count + 1) is None,
            Some((_, middle)) => match xz_number(s, middle, 9) {
                None => xz_records_end(s, at, count + 1) is None,
                Some((_, next)) => xz_records_end(s, at, count + 1) == xz_records_end(
                    s,
                    next,
                    count,
                ),
            },
        },
        xz_index_end(s, at) matches Some(end) ==> (end - at) % 4 == 0 && (exists|n: int, records: int|
            xz_number(s, at + 1, 9) == Some((n, records)) && (#[trigger] xz_records_end(
                s,
                records,
                n,
            ) matches Some(last) && last <= end < last + 4)),
{
    if let Some(end) = xz_index_end(s, at) {
        match xz_number(s, at + 1, 9) {
            Some((n, records)) => {
                let last = xz_records_end(s, records, n)->0;
                assert((end - at) % 4 == 0);
            },
            None => {},
        }
    }
}

/// Reading a stream gives what its decoder gives, unless the stream ends with an index whose size
/// does not fit the footer, which is told.
pub proof fn streams_are_unpacked(input: Seq<u8>)
    ensures
        xz_oversized(input) is None ==> unpacked(input) == xz(input),
        xz_oversized(input) matches Some(at) ==> unpacked(input) == Err::<Seq<u8>, Seq<char>>(
            "xz error: Invalid index size: expected 0 but got "@ + decimal(
                (xz_index_end(input, at)->0 + 4 - at) as nat,
            ),
        ),
{
}

/// An index that is too large for its footer begins with a zero byte, ends with its checksum, and
/// its footer has the greatest size; mending it writes the right size and its checksum.
pub proof fn oversized_indexes_are_known_by_their_footer(s: Seq<u8>, at: int)
    requires
        0 <= at < s.len(),
        xz_oversized_at(s, at),
    ensures
        s[at] == 0,
        xz_index_end(s, at) matches Some(end) && end + 12 <= s.len() && le32(s, end) == crc32(
            s.subrange(at, end),
        ) && s[end + 8] == 255 && s[end + 9] == 255 && s[end + 10] == 255 && s[end + 11] == 255,
        xz_index_end(s, at) matches Some(end) && xz_mended(s, at).len() >= 2 && ({
            let m = xz_mended(s, at);
            m[m.len() - 2] == 0x59 && m[m.len() - 1] == 0x5A
        }),
{
    reveal(xz_oversized_at);
    reveal(xz_mended);
}

} // verus!
