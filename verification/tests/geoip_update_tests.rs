//! Keeping the databases up to date.

use std::cell::{Cell, RefCell};
use std::collections::HashSet;
use std::io::BufReader;
use std::rc::Rc;

use pbh_core::config::IpDatabaseConfig;
use pbh_core::geoip::{GeoCnRecord, ASN_MMDB, CITY_MMDB, GEOCN_MMDB};
use pbh_core::geoip_db::GeoIpDb;
use pbh_core::geoip_update::{
    body_preview, decompress_xz, default_mirrors, move_failure, need_update_mmdb,
    need_update_mmdb_at, shorten, temp_name, ClosureHttpClient, DatabaseReport, DatabaseUpdate, GeoIpHttpClient,
    GeoIpHttpRequest, GeoIpHttpResponse, GeoIpUpdater, IpdbDownloadSource, SkipReason,
    UpdateFiles, UpdateReport, BODY_PREVIEW_LIMIT, MMDB_SUFFIX, MMDB_UPDATE_INTERVAL_MS, XZ_SUFFIX,
};
use pbh_core::iputil::parse_addr;
use pbh_core::net::IpAddr;
use pbh_core::wire::now_millis;

const TEST_MIRROR: &str = "https://mirror.test/ipdb/";

fn mirror_url(name: &str) -> String {
    format!("{TEST_MIRROR}{name}{XZ_SUFFIX}")
}

#[derive(Clone, Debug)]
enum Script {
    Body(Vec<u8>),
    Status(u16),
    Transport(String),
}

#[derive(Default)]
struct MockHttpClient {
    scripts: RefCell<Vec<(String, Option<bool>, Script)>>,
    calls: RefCell<Vec<(String, Option<(String, String)>)>>,
}

#[derive(Clone)]
struct Client(Rc<MockHttpClient>);

impl MockHttpClient {
    fn serve(self, url: &str, script: Script) -> Self {
        self.scripts.borrow_mut().push((url.to_string(), None, script));
        self
    }

    fn serve_with_basic(self, url: &str, basic: bool, script: Script) -> Self {
        self.scripts.borrow_mut().push((url.to_string(), Some(basic), script));
        self
    }

    fn client(self) -> Client {
        Client(Rc::new(self))
    }
}

impl Client {
    fn call_count(&self) -> usize {
        self.0.calls.borrow().len()
    }

    fn urls(&self) -> Vec<String> {
        self.0.calls.borrow().iter().map(|(url, _)| url.clone()).collect()
    }
}

impl GeoIpHttpClient for Client {
    fn execute(&self, request: GeoIpHttpRequest) -> Result<GeoIpHttpResponse, String> {
        let with = request.basic.is_some();
        self.0.calls.borrow_mut().push((request.url.clone(), request.basic.clone()));
        let scripts = self.0.scripts.borrow();
        let found = scripts
            .iter()
            .find(|(url, basic, _)| *url == request.url && basic.map_or(true, |b| b == with));
        match found.map(|(_, _, script)| script) {
            Some(Script::Body(body)) => Ok(GeoIpHttpResponse::new(200, body.clone())),
            Some(Script::Status(status)) => Ok(GeoIpHttpResponse::new(*status, Vec::new())),
            Some(Script::Transport(message)) => Err(message.clone()),
            None => Err("no route".to_string()),
        }
    }
}

/// Files by their paths, with the time when they last changed.
#[derive(Default)]
struct Files(RefCell<Vec<(String, Vec<u8>, i64)>>);

impl Files {
    fn write(&self, path: &str, bytes: &[u8], modified_ms: i64) {
        let mut files = self.0.borrow_mut();
        files.retain(|(p, _, _)| p != path);
        files.push((path.to_string(), bytes.to_vec(), modified_ms));
    }

    fn read(&self, path: &str) -> Option<Vec<u8>> {
        let files = self.0.borrow();
        let found = files.iter().find(|(p, _, _)| p == path);
        found.map(|(_, bytes, _)| bytes.clone())
    }

    fn remove(&self, path: &str) {
        self.0.borrow_mut().retain(|(p, _, _)| p != path);
    }

    fn names(&self) -> HashSet<String> {
        let files = self.0.borrow();
        files.iter().map(|(p, _, _)| p.rsplit('/').next().unwrap().to_string()).collect()
    }
}

fn path(name: &str) -> String {
    format!("data/ipdb/geoip/{name}")
}

/// Runs an updater over files in memory.
fn run(files: &Files, updater: GeoIpUpdater<Client>, now_ms: i64) -> UpdateReport {
    run_with(files, updater, now_ms, true)
}

fn run_with(
    files: &Files,
    updater: GeoIpUpdater<Client>,
    now_ms: i64,
    movable: bool,
) -> UpdateReport {
    let given = Cell::new(0u64);
    let update = UpdateFiles {
        modified: |target: &String| {
            let files = files.0.borrow();
            files.iter().find(|(p, _, _)| p == target).map(|(_, _, time)| *time)
        },
        write: |path: &String, bytes: &Vec<u8>| {
            files.write(path, bytes, now_ms);
            Ok(())
        },
        remove: |path: &String| {
            files.remove(path);
            Ok(())
        },
        rename: |tmp: &String, target: &String| match files.read(tmp) {
            Some(bytes) if movable => {
                files.remove(tmp);
                files.write(target, &bytes, now_ms);
                Ok(())
            }
            _ => Err("denied".to_string()),
        },
        present: |target: &String| files.read(target).is_some(),
        sequence: || {
            given.set(given.get() + 1);
            given.get()
        },
        process: 7,
    };
    updater.update_if_needed_at(false, now_ms, &update)
}

fn updater(config: IpDatabaseConfig, http: &Client) -> GeoIpUpdater<'_, Client> {
    GeoIpUpdater::new("data/ipdb", config, http).with_mirror_bases(vec![TEST_MIRROR.to_string()])
}

fn auto_update_config() -> IpDatabaseConfig {
    IpDatabaseConfig { auto_update: true, ..IpDatabaseConfig::default() }
}

fn entries(report: &UpdateReport) -> &Vec<DatabaseReport> {
    match report {
        UpdateReport::Performed(entries) => entries,
        other => panic!("{other:?}"),
    }
}

// -------------------------------------------------------------- small databases

fn mmdb_ctrl(type_num: u8, size: usize) -> Vec<u8> {
    assert!(size < 29);
    if type_num < 8 {
        vec![(type_num << 5) | size as u8]
    } else {
        vec![size as u8, type_num - 7]
    }
}

fn mmdb_str(value: &str) -> Vec<u8> {
    let mut out = mmdb_ctrl(2, value.len());
    out.extend_from_slice(value.as_bytes());
    out
}

fn mmdb_uint(type_num: u8, value: u64) -> Vec<u8> {
    let bytes = value.to_be_bytes();
    let start = bytes.iter().position(|byte| *byte != 0).unwrap_or(bytes.len());
    let payload = &bytes[start..];
    let mut out = mmdb_ctrl(type_num, payload.len());
    out.extend_from_slice(payload);
    out
}

fn metadata_map(database_type: &str, node_count: u64, record_size: u64) -> Vec<u8> {
    let mut out = mmdb_ctrl(7, 9);
    out.extend(mmdb_str("binary_format_major_version"));
    out.extend(mmdb_uint(5, 2));
    out.extend(mmdb_str("binary_format_minor_version"));
    out.extend(mmdb_uint(5, 0));
    out.extend(mmdb_str("build_epoch"));
    out.extend(mmdb_uint(9, 1_700_000_000));
    out.extend(mmdb_str("database_type"));
    out.extend(mmdb_str(database_type));
    out.extend(mmdb_str("description"));
    out.extend(mmdb_ctrl(7, 1));
    out.extend(mmdb_str("en"));
    out.extend(mmdb_str("PBH-RS GeoIP update fixture"));
    out.extend(mmdb_str("ip_version"));
    out.extend(mmdb_uint(5, 4));
    out.extend(mmdb_str("languages"));
    out.extend(mmdb_ctrl(11, 1));
    out.extend(mmdb_str("en"));
    out.extend(mmdb_str("node_count"));
    out.extend(mmdb_uint(6, node_count));
    out.extend(mmdb_str("record_size"));
    out.extend(mmdb_uint(5, record_size));
    out
}

/// A database whose only record is empty.
fn minimal_mmdb(database_type: &str) -> Vec<u8> {
    let mut file = Vec::new();
    let data_pointer: u64 = 1 + 16;
    for _ in 0..2 {
        file.extend_from_slice(&data_pointer.to_be_bytes()[5..]);
    }
    file.extend_from_slice(&[0u8; 16]);
    file.push(0xE0);
    file.extend_from_slice(b"\xab\xcd\xefMaxMind.com");
    file.extend_from_slice(&metadata_map(database_type, 1, 24));
    file
}

fn xz_of(bytes: &[u8]) -> Vec<u8> {
    let mut xz = Vec::new();
    lzma_rs::xz_compress(&mut BufReader::new(bytes), &mut xz).unwrap();
    xz
}

fn fixtures() -> [(&'static str, Vec<u8>, Vec<u8>); 3] {
    ["GeoLite2-City", "GeoLite2-ASN", "GeoCN"].map(|name| {
        let mmdb = minimal_mmdb(name);
        let xz = xz_of(&mmdb);
        (name, mmdb, xz)
    })
}

fn serve_all(fixtures: &[(&str, Vec<u8>, Vec<u8>); 3]) -> Client {
    let mut mock = MockHttpClient::default();
    for (name, _, xz) in fixtures {
        mock = mock.serve(&mirror_url(name), Script::Body(xz.clone()));
    }
    mock.client()
}

type Records = fn(&Vec<u8>, IpAddr) -> Option<GeoCnRecord>;

fn load(files: &Files) -> GeoIpDb<Records> {
    let none: Records = |_, _| None;
    let read = |path: &String| files.read(path).ok_or("no such file".to_string());
    let text = |_: &String| None;
    GeoIpDb::load_with_locales("data/ipdb", Vec::new(), &read, &text, none).unwrap()
}

// ------------------------------------------------------------------------ tests

#[test]
fn upstream_mirrors_and_url_shape() {
    let mirrors = default_mirrors("GeoLite2-City");
    assert_eq!(mirrors.len(), 3);
    assert_eq!(
        mirrors[0].url(),
        "https://github.com/PBH-BTN/GeoLite.mmdb/releases/latest/download/GeoLite2-City.mmdb.xz"
    );
    assert_eq!(mirrors[1].url(), "https://pbh-static.paulzzh.com/ipdb/GeoLite2-City.mmdb.xz");
    assert_eq!(mirrors[2].url(), "https://pbh-static.ghostchu.com/ipdb/GeoLite2-City.mmdb.xz");
    assert!(mirrors.iter().all(|mirror| mirror.support_xzip));
    assert_eq!(
        IpdbDownloadSource::new("https://example.test/", "GeoCN").url(),
        "https://example.test/GeoCN.mmdb"
    );
}

#[test]
fn need_update_mmdb_matches_upstream_branches() {
    let now = now_millis();
    assert!(need_update_mmdb_at(None, true, now));
    assert!(need_update_mmdb_at(None, false, now));
    let modified = Some(now);
    assert!(!need_update_mmdb_at(modified, false, now));
    assert!(!need_update_mmdb_at(modified, false, now + MMDB_UPDATE_INTERVAL_MS * 10));
    assert!(!need_update_mmdb_at(modified, true, now));
    assert!(!need_update_mmdb_at(modified, true, now + MMDB_UPDATE_INTERVAL_MS));
    assert!(need_update_mmdb_at(modified, true, now + MMDB_UPDATE_INTERVAL_MS + 1));
    assert!(need_update_mmdb(Some(0), true));
    assert!(!need_update_mmdb(modified, true));
}

#[test]
fn auto_update_disabled_is_strict_no_op() {
    let files = Files::default();
    let now = now_millis();
    files.write(&path(CITY_MMDB), b"existing-city", now);
    let http = serve_all(&fixtures());
    let report = run(&files, updater(IpDatabaseConfig::default(), &http), now);
    assert_eq!(report, UpdateReport::Skipped(SkipReason::AutoUpdateDisabled));
    assert!(report.is_skipped());
    assert_eq!(http.call_count(), 0);
    assert!(report.updated().is_empty());
    assert!(report.failures().is_empty());
    assert_eq!(files.read(&path(CITY_MMDB)).unwrap(), b"existing-city");
    assert_eq!(files.names(), HashSet::from([CITY_MMDB.to_string()]));
}

#[test]
fn places_that_are_switched_off_are_not_updated() {
    let http = serve_all(&fixtures());
    let updater = updater(auto_update_config(), &http);
    let update = UpdateFiles {
        modified: |_: &String| None,
        write: |_: &String, _: &Vec<u8>| panic!("nothing is written"),
        remove: |_: &String| panic!("nothing is removed"),
        rename: |_: &String, _: &String| panic!("nothing is moved"),
        present: |_: &String| false,
        sequence: || 0,
        process: 7,
    };
    let report = updater.update_if_needed(true, &update);
    assert_eq!(report, UpdateReport::Skipped(SkipReason::ForceDisabled));
}

#[test]
fn missing_databases_are_downloaded_and_loadable() {
    let files = Files::default();
    let fixtures = fixtures();
    let http = serve_all(&fixtures);
    let report = run(&files, updater(auto_update_config(), &http), now_millis());

    let entries = entries(&report);
    assert_eq!(entries.len(), 3);
    assert_eq!(entries[0].database, "GeoLite2-City");
    assert_eq!(entries[1].database, "GeoLite2-ASN");
    assert_eq!(entries[2].database, "GeoCN");
    for entry in entries {
        assert_eq!(entry.update, DatabaseUpdate::Updated);
        assert_eq!(entry.source, Some(mirror_url(&entry.database)));
    }
    assert_eq!(
        http.urls(),
        vec![mirror_url("GeoLite2-City"), mirror_url("GeoLite2-ASN"), mirror_url("GeoCN")]
    );
    for (name, mmdb, _) in &fixtures {
        let file_name = match *name {
            "GeoLite2-City" => CITY_MMDB,
            "GeoLite2-ASN" => ASN_MMDB,
            _ => GEOCN_MMDB,
        };
        assert_eq!(&files.read(&path(file_name)).unwrap(), mmdb);
    }
    assert_eq!(
        files.names(),
        HashSet::from([CITY_MMDB.to_string(), ASN_MMDB.to_string(), GEOCN_MMDB.to_string()])
    );
    let data = load(&files).query_geo(parse_addr("1.2.3.4").unwrap());
    assert_eq!(data.country.and_then(|country| country.iso), None);
    assert!(data.as_data.is_some());
}

#[test]
fn download_missing_reproduces_upstream_forced_download() {
    let files = Files::default();
    let now = now_millis();
    files.write(&path(CITY_MMDB), b"stale-city", now - MMDB_UPDATE_INTERVAL_MS * 2);
    let http = serve_all(&fixtures());
    let updater = updater(IpDatabaseConfig::default(), &http).with_download_missing(true);
    let report = run(&files, updater, now);

    let entries = entries(&report);
    assert_eq!(entries.len(), 3);
    assert_eq!(entries[0].update, DatabaseUpdate::UpToDate);
    assert_eq!(entries[1].update, DatabaseUpdate::Updated);
    assert_eq!(entries[2].update, DatabaseUpdate::Updated);
    assert_eq!(http.urls(), vec![mirror_url("GeoLite2-ASN"), mirror_url("GeoCN")]);
    assert_eq!(files.read(&path(CITY_MMDB)).unwrap(), b"stale-city");
}

#[test]
fn download_missing_still_refreshes_what_is_kept_up_to_date() {
    let files = Files::default();
    let now = now_millis();
    files.write(&path(CITY_MMDB), b"stale-city", now - MMDB_UPDATE_INTERVAL_MS * 2);
    files.write(&path(ASN_MMDB), b"fresh-asn", now);
    let http = serve_all(&fixtures());
    let updater = updater(auto_update_config(), &http).with_download_missing(true);
    let report = run(&files, updater, now);

    let entries = entries(&report);
    assert_eq!(entries[0].update, DatabaseUpdate::Updated);
    assert_eq!(entries[1].update, DatabaseUpdate::UpToDate);
    assert_eq!(entries[2].update, DatabaseUpdate::Updated);
    assert_eq!(http.urls(), vec![mirror_url("GeoLite2-City"), mirror_url("GeoCN")]);
    assert_eq!(files.read(&path(ASN_MMDB)).unwrap(), b"fresh-asn");
}

#[test]
fn http_failure_keeps_existing_files_and_leaves_no_temp_files() {
    let files = Files::default();
    let now = now_millis();
    files.write(&path(CITY_MMDB), b"existing-city", now - MMDB_UPDATE_INTERVAL_MS * 2);
    let http = MockHttpClient::default()
        .serve(&mirror_url("GeoLite2-City"), Script::Status(500))
        .serve(&mirror_url("GeoLite2-ASN"), Script::Transport("network unreachable".into()))
        .serve(&mirror_url("GeoCN"), Script::Status(404))
        .client();
    let report = run(&files, updater(auto_update_config(), &http), now);

    let failures = report.failures();
    assert_eq!(failures.len(), 3);
    let expected = [
        ("HTTP 500 - ", true),
        ("network unreachable", false),
        ("HTTP 404 - ", false),
    ];
    for (failure, (message, kept_local_copy)) in failures.iter().zip(expected) {
        assert_eq!(
            failure.update,
            DatabaseUpdate::Failed { message: message.to_string(), kept_local_copy }
        );
    }
    assert_eq!(files.read(&path(CITY_MMDB)).unwrap(), b"existing-city");
    assert_eq!(files.names(), HashSet::from([CITY_MMDB.to_string()]));
}

#[test]
fn transport_error_falls_back_to_backup_mirror() {
    let files = Files::default();
    let fixtures = fixtures();
    let backup = "https://backup.test/ipdb/";
    let http = MockHttpClient::default()
        .serve(&format!("{TEST_MIRROR}GeoLite2-City{XZ_SUFFIX}"), Script::Status(503))
        .serve(
            &format!("{backup}GeoLite2-City{XZ_SUFFIX}"),
            Script::Body(fixtures[0].2.clone()),
        )
        .serve(
            &format!("{TEST_MIRROR}GeoLite2-ASN{XZ_SUFFIX}"),
            Script::Transport("timeout".into()),
        )
        .serve(&format!("{backup}GeoLite2-ASN{XZ_SUFFIX}"), Script::Body(fixtures[1].2.clone()))
        .serve(&format!("{TEST_MIRROR}GeoCN{XZ_SUFFIX}"), Script::Status(500))
        .serve(&format!("{backup}GeoCN{XZ_SUFFIX}"), Script::Body(fixtures[2].2.clone()))
        .client();
    let updater = GeoIpUpdater::new("data/ipdb", auto_update_config(), &http)
        .with_mirror_bases(vec![TEST_MIRROR.to_string(), backup.to_string()]);
    let report = run(&files, updater, now_millis());

    assert!(report.failures().is_empty());
    assert_eq!(report.updated().len(), 3);
    assert_eq!(
        report.updated()[0].source,
        Some(format!("{backup}GeoLite2-City{XZ_SUFFIX}"))
    );
    assert_eq!(http.call_count(), 6);
    assert_eq!(files.read(&path(CITY_MMDB)).unwrap(), fixtures[0].1);
    assert_eq!(files.names().len(), 3);
}

#[test]
fn corrupt_xz_body_never_replaces_database() {
    let files = Files::default();
    let now = now_millis();
    files.write(&path(CITY_MMDB), b"existing-city", now - MMDB_UPDATE_INTERVAL_MS * 2);
    let http = MockHttpClient::default()
        .serve(&mirror_url("GeoLite2-City"), Script::Body(b"not an xz stream".to_vec()))
        .serve(
            &mirror_url("GeoLite2-ASN"),
            Script::Body(vec![0xFD, 0x37, 0x7A, 0x58, 0x5A, 0x00]),
        )
        .serve(&mirror_url("GeoCN"), Script::Body(Vec::new()))
        .client();
    let report = run(&files, updater(auto_update_config(), &http), now);

    assert_eq!(report.failures().len(), 3);
    assert_eq!(files.read(&path(CITY_MMDB)).unwrap(), b"existing-city");
    assert_eq!(files.names(), HashSet::from([CITY_MMDB.to_string()]));
}

#[test]
fn xz_of_non_mmdb_is_rejected_by_validation() {
    let files = Files::default();
    let garbage = xz_of(b"definitely not a mmdb");
    let http = MockHttpClient::default()
        .serve(&mirror_url("GeoLite2-City"), Script::Body(garbage.clone()))
        .serve(&mirror_url("GeoLite2-ASN"), Script::Body(garbage.clone()))
        .serve(&mirror_url("GeoCN"), Script::Body(garbage))
        .client();
    let report = run(&files, updater(auto_update_config(), &http), now_millis());

    assert_eq!(report.failures().len(), 3);
    for failure in report.failures() {
        match &failure.update {
            DatabaseUpdate::Failed { message, kept_local_copy } => {
                assert!(
                    message.starts_with("validate ") && message.contains("invalid database"),
                    "{message}"
                );
                assert!(!kept_local_copy);
            }
            other => panic!("{other:?}"),
        }
    }
    assert!(files.names().is_empty());
}

#[test]
fn plain_mmdb_mirror_skips_decompression() {
    let files = Files::default();
    let fixtures = fixtures();
    let http = MockHttpClient::default()
        .serve(
            &format!("{TEST_MIRROR}GeoLite2-City{MMDB_SUFFIX}"),
            Script::Body(fixtures[0].1.clone()),
        )
        .serve(
            &format!("{TEST_MIRROR}GeoLite2-ASN{MMDB_SUFFIX}"),
            Script::Body(fixtures[1].1.clone()),
        )
        .serve(&format!("{TEST_MIRROR}GeoCN{MMDB_SUFFIX}"), Script::Body(fixtures[2].1.clone()))
        .client();
    let updater = GeoIpUpdater::new("data/ipdb", auto_update_config(), &http)
        .with_mirrors(vec![IpdbDownloadSource::new(TEST_MIRROR, "")]);
    let report = run(&files, updater, now_millis());

    assert_eq!(report.updated().len(), 3);
    assert_eq!(files.read(&path(CITY_MMDB)).unwrap(), fixtures[0].1);
    load(&files);
}

#[test]
fn stale_database_is_refreshed_but_fresh_one_is_skipped() {
    let files = Files::default();
    let fixtures = fixtures();
    let now = now_millis();
    files.write(&path(CITY_MMDB), b"stale-city", now - MMDB_UPDATE_INTERVAL_MS * 2);
    files.write(&path(ASN_MMDB), b"fresh-asn", now);
    let http = MockHttpClient::default()
        .serve(&mirror_url("GeoLite2-City"), Script::Body(fixtures[0].2.clone()))
        .serve(&mirror_url("GeoCN"), Script::Body(fixtures[2].2.clone()))
        .client();
    let report = run(&files, updater(auto_update_config(), &http), now);

    let entries = entries(&report);
    assert_eq!(entries[0].update, DatabaseUpdate::Updated);
    assert_eq!(entries[1].update, DatabaseUpdate::UpToDate);
    assert_eq!(entries[2].update, DatabaseUpdate::Updated);
    assert_eq!(files.read(&path(CITY_MMDB)).unwrap(), fixtures[0].1);
    assert_eq!(files.read(&path(ASN_MMDB)).unwrap(), b"fresh-asn");
    assert_eq!(http.urls(), vec![mirror_url("GeoLite2-City"), mirror_url("GeoCN")]);
}

#[test]
fn auth_retry_uses_account_credentials_on_401() {
    let files = Files::default();
    let fixtures = fixtures();
    let mut mock = MockHttpClient::default();
    for (name, _, xz) in &fixtures {
        mock = mock
            .serve_with_basic(&mirror_url(name), false, Script::Status(401))
            .serve_with_basic(&mirror_url(name), true, Script::Body(xz.clone()));
    }
    let http = mock.client();
    let config = IpDatabaseConfig {
        auto_update: true,
        account_id: "account".to_string(),
        license_key: "license".to_string(),
        ..IpDatabaseConfig::default()
    };
    let report = run(&files, updater(config, &http), now_millis());

    assert_eq!(report.updated().len(), 3);
    let calls = http.0.calls.borrow();
    assert_eq!(calls.len(), 6);
    assert_eq!(calls[0].1, None);
    assert_eq!(calls[1].1, Some(("account".to_string(), "license".to_string())));
}

#[test]
fn without_credentials_401_is_a_failure() {
    let files = Files::default();
    let http = MockHttpClient::default()
        .serve(&mirror_url("GeoLite2-City"), Script::Status(401))
        .serve(&mirror_url("GeoLite2-ASN"), Script::Status(401))
        .serve(&mirror_url("GeoCN"), Script::Status(401))
        .client();
    let report = run(&files, updater(auto_update_config(), &http), now_millis());
    assert_eq!(report.failures().len(), 3);
    assert_eq!(http.call_count(), 3);
}

#[test]
fn decompress_xz_rejects_non_xz_body() {
    assert!(decompress_xz(b"not an xz stream").is_err());
    assert!(decompress_xz(&[]).is_err());
    let fixtures = fixtures();
    assert_eq!(decompress_xz(&fixtures[0].2).unwrap(), fixtures[0].1);
}

#[test]
fn footer_with_a_size_that_no_index_has_is_an_error() {
    let mut xz = fixtures()[0].2.clone();
    let size = xz.len() - 8;
    let field = u32::from_le_bytes([xz[size], xz[size + 1], xz[size + 2], xz[size + 3]]);
    let index_size = (field + 1) * 4;
    xz[size..size + 4].fill(0xFF);
    let refused = format!(
        "xz decompress failed: xz error: Invalid index size: expected 0 but got {index_size}"
    );
    assert_eq!(decompress_xz(&xz).unwrap_err(), refused);
    xz.extend_from_slice(b"more behind it");
    assert_eq!(decompress_xz(&xz).unwrap_err(), refused);
    // With another checksum of the index the field is never looked at.
    xz[size - 8] ^= 1;
    let message = decompress_xz(&xz).unwrap_err();
    assert!(message.contains("CRC32"), "{message}");
}

#[test]
fn compressed_bytes_may_read_like_an_index() {
    // An empty index, its checksum, and a footer with all bits of its size field set, at each
    // offset, as the data of a sound stream: it is stored as it is.
    let mut index = vec![0u8; 4];
    index.extend_from_slice(&crc32fast::hash(&[0; 4]).to_le_bytes());
    index.extend_from_slice(&[0xAB; 4]);
    index.extend_from_slice(&[0xFF; 4]);
    for offset in 0..4 {
        let mut data = vec![b'x'; offset];
        for _ in 0..3 {
            data.extend_from_slice(&index);
        }
        let xz = xz_of(&data);
        assert!(xz.windows(index.len()).any(|w| w == index.as_slice()));
        assert_eq!(decompress_xz(&xz).unwrap(), data);
    }
}

#[test]
fn database_that_cannot_be_put_into_its_place_leaves_the_old_one() {
    let files = Files::default();
    let now = now_millis();
    files.write(&path(CITY_MMDB), b"existing-city", now - MMDB_UPDATE_INTERVAL_MS * 2);
    let http = serve_all(&fixtures());
    let report = run_with(&files, updater(auto_update_config(), &http), now, false);
    let tmp = path(&temp_name(CITY_MMDB, 7, 1));
    assert_eq!(
        entries(&report)[0].update,
        DatabaseUpdate::Failed {
            message: move_failure(&tmp, &path(CITY_MMDB), "denied"),
            kept_local_copy: true,
        }
    );
    assert_eq!(files.read(&path(CITY_MMDB)).unwrap(), b"existing-city");
    assert_eq!(files.names(), HashSet::from([CITY_MMDB.to_string()]));
}

#[test]
fn body_preview_is_truncated() {
    assert_eq!(body_preview(b"ok"), "ok");
    assert_eq!(body_preview(&[0xFF, 0xFE]), "\u{fffd}\u{fffd}");
    let long = "a".repeat(BODY_PREVIEW_LIMIT + 10);
    let preview = body_preview(long.as_bytes());
    assert_eq!(preview.chars().count(), BODY_PREVIEW_LIMIT + 1);
    assert!(preview.ends_with('…'));
    assert_eq!(shorten("abc"), "abc");
}

#[test]
fn functions_may_send_requests() {
    let client = ClosureHttpClient::new(|request: &GeoIpHttpRequest| {
        Ok(GeoIpHttpResponse::new(200, request.url.as_bytes().to_vec()))
    });
    let reply = client.execute(GeoIpHttpRequest::get("u")).unwrap();
    assert_eq!(reply.body, b"u");
    assert!(reply.is_ok());
}

#[test]
fn temporary_files_are_hidden_and_numbered() {
    assert_eq!(temp_name("GeoCN.mmdb", 12, 3), ".GeoCN.mmdb.12.3.tmp");
    assert_eq!(move_failure("a", "b", "denied"), "move a to b failed: denied");
}
