//! The BTN client: its codes, its handshake, its updates and its reports.

use std::cell::{Cell, RefCell};
use std::io::Read;
use std::rc::Rc;

use pbh_core::banlist::BanList;
use pbh_core::btn_ability::{
    BtnAbilityKind, BtnAbilitySpec, BtnConfigResponse, BtnConfigStatus, BtnNetworkConfig,
    PowCaptchaData, PowCaptchaEndpoint, BTN_PROTOCOL_IMPL_VERSION,
    LANG_BTN_CONFIG_STATUS_UNSUCCESSFUL_HTTP_REQUEST,
};
use pbh_core::btn_codec::{
    append_param, append_url, base64_decode, base64_encode, get_hashed_identifier, gzip_bytes,
    url_encode_query,
};
use pbh_core::btn_http::{BtnHttpClient, BtnHttpMethod, BtnHttpRequest, BtnHttpResponse, ClosureHttpClient};
use pbh_core::btn_pow::{has_leading_zero_bits, solve_pow, PowAlgorithm};
use pbh_core::btn_query::{IpQueryResult, IpQueryTorrents, IpQueryTraffic};
use pbh_core::btn_report::{
    BtnBan, BtnBanHistoryRow, BtnBanPing, LegacyBtnBan, BtnLegacyBanRow, BtnLegacyPeerRow, BtnPeerHistoryRow,
    BtnSwarmHistoryRow, BtnSwarmPeerPing, LegacyBtnBanPing, LegacyBtnPeerHistoryPing,
    LegacyBtnPeerPing, METADATA_KEY_BANS_CURSOR, METADATA_KEY_HISTORY_TIMESTAMP,
    METADATA_KEY_SWARM_CURSOR,
};
use pbh_core::btn_rounds::BtnSubmitSource;
use pbh_core::btn_schedule::{ruleset_rev, AbilityOutcome};
use pbh_core::btn_store::{BtnMetadataStore, InMemoryMetadataStore};
use pbh_core::btn_sync::{apply_all, BtnHooks};
use pbh_core::btn_transport::{
    BtnNetwork, ModuleChange, BTN_USER_AGENT, CACHE_KEY_IP_ALLOWLIST_VERSION,
    CACHE_KEY_IP_DENYLIST_VALUE, CACHE_KEY_RULES, CALL_TIMEOUT, HEADER_AUTHENTICATION,
    HEADER_BTN_APP_ID, HEADER_X_BTN_APP_SECRET, HEADER_X_BTN_CONTENT_VERSION,
    HEADER_X_BTN_INSTALLATION_ID, HEADER_X_BTN_POW_ID, HEADER_X_BTN_POW_SOLUTION, INITIAL_REV,
    RETRY_PERIOD_SECONDS,
};
use pbh_core::model::Double;
use pbh_core::textmap::TextMap;
use pbh_core::wire::now_millis;
use serde_json::Value;

// -------------------------------------------------------------------- scaffold

const CONFIG_URL: &str = "https://btn.test/config";
const RULES_URL: &str = "https://btn.test/rules";
const ALLOW_URL: &str = "https://btn.test/allowlist";
const DENY_URL: &str = "https://btn.test/denylist";
const POW_URL: &str = "https://btn.test/pow";

#[derive(Clone, Debug)]
enum Script {
    Body(u16, String),
    Headers(u16, String, Vec<(String, String)>),
    Transport(String),
}

fn ok(body: impl Into<String>) -> Script {
    Script::Body(200, body.into())
}

/// Answers by exact URL; anything else is not found.
#[derive(Debug, Default)]
struct MockHttpClient {
    scripts: RefCell<Vec<(String, Script)>>,
    requests: RefCell<Vec<BtnHttpRequest>>,
}

#[derive(Debug, Clone)]
struct Client(Rc<MockHttpClient>);

impl MockHttpClient {
    fn serve(self, url: &str, script: Script) -> Self {
        self.scripts.borrow_mut().push((url.to_string(), script));
        self
    }

    fn call_count(&self) -> usize {
        self.requests.borrow().len()
    }

    fn urls(&self) -> Vec<String> {
        self.requests.borrow().iter().map(|r| r.url.clone()).collect()
    }

    fn headers_of(&self, url: &str) -> Vec<(String, String)> {
        let requests = self.requests.borrow();
        let found = requests.iter().find(|r| r.url == url);
        found.map(|r| r.headers.clone()).unwrap_or_default()
    }

    fn body_of(&self, url: &str) -> Vec<u8> {
        let requests = self.requests.borrow();
        let found = requests.iter().find(|r| r.url == url);
        found.and_then(|r| r.body.clone()).unwrap_or_default()
    }
}

impl BtnHttpClient for Client {
    fn execute(&self, request: BtnHttpRequest) -> Result<BtnHttpResponse, String> {
        let url = request.url.clone();
        self.0.requests.borrow_mut().push(request);
        let scripts = self.0.scripts.borrow();
        match scripts.iter().find(|(u, _)| *u == url).map(|(_, s)| s) {
            Some(Script::Body(status, body)) => Ok(BtnHttpResponse::new(*status, body)),
            Some(Script::Headers(status, body, headers)) => {
                let mut response = BtnHttpResponse::new(*status, body);
                for (name, value) in headers {
                    response.headers.insert(name.clone(), value.clone());
                }
                Ok(response)
            }
            Some(Script::Transport(message)) => Err(message.clone()),
            None => Ok(BtnHttpResponse::new(404, "not found")),
        }
    }
}

#[derive(Debug, Default)]
struct StubSubmitSource {
    bans: Vec<BtnBanHistoryRow>,
    swarms: Vec<BtnSwarmHistoryRow>,
    peers: Vec<BtnPeerHistoryRow>,
    legacy_peers: Vec<BtnLegacyPeerRow>,
    legacy_bans: Vec<BtnLegacyBanRow>,
}

impl BtnSubmitSource for StubSubmitSource {
    fn batch_ban_history(&self, cursor_id: i64, limit: usize) -> Vec<BtnBanHistoryRow> {
        let rows = self.bans.iter().filter(|row| row.id > cursor_id);
        rows.take(limit).cloned().collect()
    }

    fn batch_swarm_history(
        &self,
        last_time_seen_ms: i64,
        id_after: i64,
        limit: usize,
    ) -> Vec<BtnSwarmHistoryRow> {
        self.swarms
            .iter()
            .filter(|row| row.last_time_seen_ms >= last_time_seen_ms && row.id > id_after)
            .take(limit)
            .cloned()
            .collect()
    }

    fn batch_peer_history(&self, last_time_seen_ms: i64, limit: usize) -> Vec<BtnPeerHistoryRow> {
        let rows = self.peers.iter().filter(|row| row.last_time_seen_ms >= last_time_seen_ms);
        rows.take(limit).cloned().collect()
    }

    fn legacy_peer_snapshot(&self) -> Vec<BtnLegacyPeerRow> {
        self.legacy_peers.clone()
    }

    fn legacy_ban_snapshot(&self) -> Vec<BtnLegacyBanRow> {
        self.legacy_bans.clone()
    }
}

/// The rules in force, as far as the client sees them.
#[derive(Default)]
struct Module {
    allow_script: Cell<bool>,
    ruleset: RefCell<Option<String>>,
    allow: RefCell<Option<(String, String)>>,
    deny: RefCell<Option<(String, String)>>,
    ban_list: RefCell<Option<BanList>>,
}

impl Module {
    fn ruleset_version(&self) -> Option<String> {
        let text = self.ruleset.borrow();
        let text = text.as_ref()?;
        let value: Value = serde_json::from_str(text).ok()?;
        value["version"].as_str().map(|v| v.to_string())
    }

    fn ip_list_version(&self, allow: bool) -> String {
        let list = if allow { self.allow.borrow() } else { self.deny.borrow() };
        ruleset_rev(&list.as_ref().map(|(_, version)| version.clone()))
    }

    fn apply(&self, change: &ModuleChange) -> bool {
        match change {
            ModuleChange::AllowScript(yes) => self.allow_script.set(*yes),
            ModuleChange::Ruleset(text) => *self.ruleset.borrow_mut() = Some(text.clone()),
            ModuleChange::AllowList { text, version } => {
                *self.allow.borrow_mut() = Some((text.clone(), version.clone()))
            }
            ModuleChange::DenyList { text, version } => {
                *self.deny.borrow_mut() = Some((text.clone(), version.clone()))
            }
            ModuleChange::Unban => {
                let allow = self.allow.borrow();
                if let (Some(list), Some((text, _))) =
                    (self.ban_list.borrow_mut().as_mut(), allow.as_ref())
                {
                    for line in text.lines() {
                        list.remove(line.trim());
                    }
                }
            }
        }
        true
    }
}

fn read_captcha(text: &String) -> Option<PowCaptchaData> {
    let v: Value = serde_json::from_str(text).ok()?;
    Some(PowCaptchaData {
        id: v["id"].as_str()?.to_string(),
        challenge_base64: v["challengeBase64"].as_str()?.to_string(),
        difficulty_bits: v["difficultyBits"].as_i64()? as i32,
        algorithm: v["algorithm"].as_str()?.to_string(),
        expire_at: v["expireAt"].as_i64()?,
    })
}

fn read_config(text: &String) -> Result<BtnConfigResponse, String> {
    let v: Value = serde_json::from_str(text).map_err(|e| e.to_string())?;
    let mut ability = TextMap::new();
    if let Some(all) = v["ability"].as_object() {
        for (key, one) in all {
            let text = |name: &str| one[name].as_str().map(|s| s.to_string());
            ability.insert(
                key.clone(),
                BtnAbilitySpec {
                    endpoint: text("endpoint"),
                    interval: one["interval"].as_i64(),
                    random_initial_delay: one["random_initial_delay"].as_i64(),
                    pow_captcha: one["pow_captcha"].as_bool(),
                    multi_if: one["multi_if"].as_bool(),
                    version: text("version"),
                },
            );
        }
    }
    Ok(BtnConfigResponse {
        min_protocol_version: v["min_protocol_version"].as_i64().map(|n| n as i32),
        max_protocol_version: v["max_protocol_version"].as_i64().map(|n| n as i32),
        proof_of_work_captcha: v["proof_of_work_captcha"]["endpoint"]
            .as_str()
            .map(|s| PowCaptchaEndpoint { endpoint: s.to_string() }),
        ability,
    })
}

fn check_rules(text: &String) -> Option<String> {
    serde_json::from_str::<Value>(text).err().map(|e| e.to_string())
}

fn object(fields: Vec<(&str, Value)>) -> Value {
    let mut map = serde_json::Map::new();
    for (key, value) in fields {
        map.insert(key.to_string(), value);
    }
    Value::Object(map)
}

fn bytes_of(value: Value) -> Option<Vec<u8>> {
    serde_json::to_vec(&value).ok()
}

fn write_bans(ping: &BtnBanPing) -> Option<Vec<u8>> {
    let rows = ping.bans.iter().map(|b| {
        object(vec![
            ("ban_at", Value::from(b.ban_at)),
            ("peer_ip", Value::from(b.peer_ip.clone())),
            ("peer_port", Value::from(b.peer_port)),
            ("peer_progress", Value::from(f64::from_bits(b.peer_progress.bits))),
            ("torrent_identifier", Value::from(b.torrent_identifier.clone())),
            ("torrent_is_private", Value::from(b.torrent_is_private)),
            ("module", Value::from(b.module.clone())),
            ("rule", Value::from(b.rule.clone())),
            ("structured_data", Value::from(b.structured_data.clone())),
        ])
    });
    bytes_of(object(vec![("bans", Value::Array(rows.collect()))]))
}

fn write_swarms(ping: &BtnSwarmPeerPing) -> Option<Vec<u8>> {
    let rows = ping.swarms.iter().map(|b| {
        object(vec![
            ("torrent_identifier", Value::from(b.torrent_identifier.clone())),
            ("torrent_is_private", Value::from(b.torrent_is_private)),
        ])
    });
    bytes_of(object(vec![("swarms", Value::Array(rows.collect()))]))
}

fn write_histories(ping: &LegacyBtnPeerHistoryPing) -> Option<Vec<u8>> {
    let rows = ping.peers.iter().map(|b| {
        object(vec![("torrent_identifier", Value::from(b.torrent_identifier.clone()))])
    });
    let peers = Value::Array(rows.collect());
    bytes_of(object(vec![("populate_time", Value::from(ping.populate_time)), ("peers", peers)]))
}

fn write_peers(ping: &LegacyBtnPeerPing) -> Option<Vec<u8>> {
    let rows = ping.peers.iter().map(|b| {
        object(vec![("torrent_identifier", Value::from(b.torrent_identifier.clone()))])
    });
    let peers = Value::Array(rows.collect());
    bytes_of(object(vec![("populate_time", Value::from(ping.populate_time)), ("peers", peers)]))
}

fn write_legacy_bans(ping: &LegacyBtnBanPing) -> Option<Vec<u8>> {
    let rows = ping.bans.iter().map(|b| {
        object(vec![
            ("ban_unique_id", Value::from(b.ban_unique_id.clone())),
            ("btn_ban", Value::from(b.btn_ban)),
        ])
    });
    let bans = Value::Array(rows.collect());
    bytes_of(object(vec![("populate_time", Value::from(ping.populate_time)), ("bans", bans)]))
}

type Network = BtnNetwork<Client, InMemoryMetadataStore>;

/// Starts the handshake where it is due, and takes over what it brings.
fn retry(network: &mut Network, module: &Module, now_ms: i64) -> bool {
    let (ready, changes) = network.check_if_need_retry_config_at(read_config, now_ms);
    apply_all(|change: &ModuleChange| module.apply(change), &changes);
    ready
}

/// How the texts of the server are read, reports written and changes taken over.
fn hooks(
    module: &Module,
) -> BtnHooks<
    impl Fn(&String) -> Option<PowCaptchaData> + Copy,
    impl Fn(&String) -> Result<BtnConfigResponse, String> + Copy,
    impl Fn(&String) -> Option<String> + Copy,
    impl Fn(BtnAbilityKind) -> Option<String> + Copy + '_,
    impl Fn(&ModuleChange) -> bool + Copy + '_,
    impl Fn(&BtnBanPing) -> Option<Vec<u8>> + Copy,
    impl Fn(&BtnSwarmPeerPing) -> Option<Vec<u8>> + Copy,
    impl Fn(&LegacyBtnPeerHistoryPing) -> Option<Vec<u8>> + Copy,
    impl Fn(&LegacyBtnPeerPing) -> Option<Vec<u8>> + Copy,
    impl Fn(&LegacyBtnBanPing) -> Option<Vec<u8>> + Copy,
> {
    BtnHooks {
        captcha: read_captcha,
        config: read_config,
        rules: check_rules,
        revision: move |kind: BtnAbilityKind| match kind {
            BtnAbilityKind::Rules => module.ruleset_version(),
            kind => Some(module.ip_list_version(kind == BtnAbilityKind::IpAllowList)),
        },
        apply: move |change: &ModuleChange| module.apply(change),
        bans: write_bans,
        swarms: write_swarms,
        histories: write_histories,
        peers: write_peers,
        legacy_bans: write_legacy_bans,
    }
}

/// Updates the rules and both lists.
fn sync(network: &mut Network, module: &Module) -> bool {
    network.sync(&hooks(module))
}

/// Runs what is due: the kind of each ability, whether it changed anything, and its status.
fn sync_due_with(
    network: &mut Network,
    module: &Module,
    source: Option<&StubSubmitSource>,
    ips: Vec<String>,
    under_way: bool,
    now_ms: i64,
) -> Vec<(BtnAbilityKind, bool, bool)> {
    let report = network.sync_due(&hooks(module), source, &ips, under_way, now_ms);
    for said in &report {
        assert_eq!(said.key, said.kind.json_key());
    }
    report.iter().map(|said| (said.kind, said.updated, said.last_status)).collect()
}

fn sync_due(network: &mut Network, module: &Module, now_ms: i64) -> Vec<(BtnAbilityKind, bool, bool)> {
    sync_due_with(network, module, None, Vec::new(), false, now_ms)
}

fn active_config() -> BtnNetworkConfig {
    BtnNetworkConfig {
        enabled: true,
        config_url: CONFIG_URL.to_string(),
        ..Default::default()
    }
}

fn config_body() -> String {
    format!(
        r#"{{"min_protocol_version":20,"max_protocol_version":20,"ability":{{
            "rule_peer_identity":{{"endpoint":"{RULES_URL}","interval":86400000,"random_initial_delay":3600000,"pow_captcha":false}},
            "ip_allowlist":{{"endpoint":"{ALLOW_URL}","interval":86400000,"random_initial_delay":0}},
            "ip_denylist":{{"endpoint":"{DENY_URL}","interval":86400000,"random_initial_delay":0}}}}}}"#
    )
}

/// A configuration with the given abilities.
fn config_with(min: i32, abilities: &str) -> String {
    format!(
        r#"{{"min_protocol_version":{min},"max_protocol_version":20,"submit":true,"ability":{{{abilities}}}}}"#
    )
}

fn ruleset_body(version: &str) -> String {
    format!(
        r#"{{"version":"{version}","peer_id":{{"xunlei":["{{\"method\":\"STARTS_WITH\",\"content\":\"-hp\"}}"]}}}}"#
    )
}

fn make_network(config: BtnNetworkConfig, http: &Rc<MockHttpClient>) -> Network {
    BtnNetwork::new(config, Client(http.clone()), InMemoryMetadataStore::new())
}

fn gunzip(data: &[u8]) -> Vec<u8> {
    let mut decoded = Vec::new();
    flate2::read::GzDecoder::new(data).read_to_end(&mut decoded).unwrap();
    decoded
}

fn payload_of(http: &MockHttpClient, url: &str) -> Value {
    serde_json::from_slice(&gunzip(&http.body_of(url))).unwrap()
}

// ------------------------------------------------------------------- handshake

#[test]
fn unconfigured_btn_issues_no_requests() {
    let http = Rc::new(MockHttpClient::default().serve(CONFIG_URL, ok(config_body())));
    let module = Module::default();
    for config in [
        BtnNetworkConfig::default(),
        BtnNetworkConfig { enabled: true, ..Default::default() },
        BtnNetworkConfig { config_url: CONFIG_URL.to_string(), ..Default::default() },
    ] {
        let mut network = make_network(config, &http);
        assert!(!retry(&mut network, &module, 1_000));
        assert!(!sync(&mut network, &module));
        assert!(sync_due(&mut network, &module, 1_000).is_empty());
    }
    assert_eq!(http.call_count(), 0);
    assert_eq!(module.ruleset_version(), None);
}

#[test]
fn config_fetch_then_ruleset_is_applied() {
    let http = Rc::new(
        MockHttpClient::default()
            .serve(CONFIG_URL, ok(config_body()))
            .serve(&format!("{RULES_URL}?rev=initial"), ok(ruleset_body("v1")))
            .serve(&format!("{ALLOW_URL}?rev=initial"), Script::Body(204, String::new()))
            .serve(&format!("{DENY_URL}?rev=initial"), ok("2.2.2.0/24 # 恶意\n")),
    );
    let module = Module::default();
    let mut network = make_network(active_config(), &http);

    assert!(retry(&mut network, &module, 1_000));
    assert!(network.config_result().is_success());
    assert_eq!(network.abilities().len(), 3);
    assert_eq!(network.abilities()[0].kind, BtnAbilityKind::IpDenyList);
    assert_eq!(network.abilities()[1].kind, BtnAbilityKind::IpAllowList);
    assert_eq!(network.abilities()[2].kind, BtnAbilityKind::Rules);

    assert!(sync(&mut network, &module));
    assert_eq!(module.ruleset_version().as_deref(), Some("v1"));
    assert_eq!(module.ruleset.borrow().as_deref(), Some(ruleset_body("v1").as_str()));
    assert_eq!(module.deny.borrow().as_ref().unwrap().0, "2.2.2.0/24 # 恶意\n");
    assert!(http.urls().contains(&format!("{RULES_URL}?rev=initial")));
}

#[test]
fn unchanged_content_version_uses_cache() {
    let http = Rc::new(
        MockHttpClient::default()
            .serve(CONFIG_URL, ok(config_body()))
            .serve(&format!("{RULES_URL}?rev=initial"), ok(ruleset_body("v1")))
            .serve(&format!("{RULES_URL}?rev=v1"), Script::Body(204, String::new()))
            .serve(
                &format!("{ALLOW_URL}?rev=initial"),
                Script::Headers(
                    200,
                    "3.3.3.3 # 白\n".to_string(),
                    vec![(HEADER_X_BTN_CONTENT_VERSION.to_string(), "cv-1".to_string())],
                ),
            )
            .serve(&format!("{ALLOW_URL}?rev=cv-1"), Script::Body(204, String::new()))
            .serve(&format!("{DENY_URL}?rev=initial"), Script::Body(204, String::new())),
    );
    let module = Module::default();
    let mut network = make_network(active_config(), &http);
    assert!(retry(&mut network, &module, 1_000));
    assert!(sync(&mut network, &module));

    let calls_after_first = http.call_count();
    assert!(!sync(&mut network, &module));
    assert_eq!(module.ruleset_version().as_deref(), Some("v1"));
    assert!(http.urls().contains(&format!("{RULES_URL}?rev=v1")));
    assert!(http.urls().contains(&format!("{ALLOW_URL}?rev=cv-1")));
    assert!(http.call_count() > calls_after_first);
    let allow = module.allow.borrow();
    assert_eq!(
        allow.as_ref().map(|(t, v)| (t.as_str(), v.as_str())),
        Some(("3.3.3.3 # 白\n", "cv-1"))
    );
}

#[test]
fn unreachable_server_keeps_module_inert() {
    let http = Rc::new(
        MockHttpClient::default()
            .serve(CONFIG_URL, Script::Transport("connection refused".to_string())),
    );
    let module = Module::default();
    let mut network = make_network(active_config(), &http);

    assert!(!retry(&mut network, &module, 1_000));
    assert!(matches!(network.config_result(), BtnConfigStatus::Exception { .. }));
    assert!(!sync(&mut network, &module));
    assert_eq!(module.ruleset_version(), None);

    assert!(!retry(&mut network, &module, 1_000 + 1_000));
    assert_eq!(http.call_count(), 1);
    assert!(!retry(&mut network, &module, 1_000 + RETRY_PERIOD_SECONDS * 1000 + 1));
    assert_eq!(http.call_count(), 2);
}

#[test]
fn config_failures_are_reported_with_upstream_keys() {
    let module = Module::default();

    let http = Rc::new(
        MockHttpClient::default().serve(CONFIG_URL, Script::Body(500, "boom".to_string())),
    );
    let mut network = make_network(active_config(), &http);
    assert!(!retry(&mut network, &module, 1_000));
    assert!(matches!(network.config_result(), BtnConfigStatus::HttpError { status: 500, .. }));
    assert_eq!(
        network.config_result().lang_key(),
        LANG_BTN_CONFIG_STATUS_UNSUCCESSFUL_HTTP_REQUEST
    );
    assert_eq!(module.ruleset_version(), None);

    let http = Rc::new(MockHttpClient::default().serve(CONFIG_URL, ok("{}")));
    let mut network = make_network(active_config(), &http);
    assert!(!retry(&mut network, &module, 1_000));
    assert!(matches!(network.config_result(), BtnConfigStatus::Exception { .. }));

    let body = r#"{"min_protocol_version":21,"max_protocol_version":21,"ability":{}}"#;
    let http = Rc::new(MockHttpClient::default().serve(CONFIG_URL, ok(body)));
    let mut network = make_network(active_config(), &http);
    assert!(!retry(&mut network, &module, 1_000));
    assert_eq!(
        *network.config_result(),
        BtnConfigStatus::ClientTooOld { implemented: BTN_PROTOCOL_IMPL_VERSION, min: 21 }
    );

    let body = r#"{"min_protocol_version":1,"max_protocol_version":19,"ability":{}}"#;
    let http = Rc::new(MockHttpClient::default().serve(CONFIG_URL, ok(body)));
    let mut network = make_network(active_config(), &http);
    assert!(!retry(&mut network, &module, 1_000));
    assert!(matches!(network.config_result(), BtnConfigStatus::ServerTooOld { .. }));

    let body = config_with(
        10,
        &format!(r#""rules":{{"endpoint":"{RULES_URL}","interval":1000,"random_initial_delay":0}}"#),
    );
    let http = Rc::new(MockHttpClient::default().serve(CONFIG_URL, ok(body)));
    let mut network = make_network(active_config(), &http);
    assert!(retry(&mut network, &module, 1_000));
    assert_eq!(network.abilities().len(), 1);
    assert_eq!(network.abilities()[0].kind, BtnAbilityKind::Rules);
    assert_eq!(network.abilities()[0].key, "rules");
}

#[test]
fn submit_disabled_by_default_not_registered() {
    let body = config_with(
        20,
        &format!(
            r#""submit_bans":{{"endpoint":"https://btn.test/submit-bans","interval":1000,"random_initial_delay":0}},
               "rule_peer_identity":{{"endpoint":"{RULES_URL}","interval":1000,"random_initial_delay":0}}"#
        ),
    );
    let http = Rc::new(
        MockHttpClient::default()
            .serve(CONFIG_URL, ok(body))
            .serve(&format!("{RULES_URL}?rev=initial"), ok(ruleset_body("v1"))),
    );
    let module = Module::default();
    let mut network = make_network(active_config(), &http);
    assert!(retry(&mut network, &module, 1_000));
    assert_eq!(network.abilities().len(), 1);
    assert!(sync(&mut network, &module));
    assert_eq!(module.ruleset_version().as_deref(), Some("v1"));
    assert!(!http.urls().iter().any(|u| u.contains("submit-bans") || u.contains("/hb")));
}

#[test]
fn request_headers_match_upstream_interceptor() {
    let module = Module::default();
    let http = Rc::new(MockHttpClient::default().serve(CONFIG_URL, ok(config_body())));
    let config = BtnNetworkConfig {
        app_id: "app".to_string(),
        app_secret: "secret".to_string(),
        ..active_config()
    };
    let mut network = make_network(config, &http);
    assert!(retry(&mut network, &module, 1_000));
    let headers = http.headers_of(CONFIG_URL);
    let get = |name: &str| {
        let found = headers.iter().find(|(k, _)| k == name);
        found.map(|(_, v)| v.clone()).unwrap_or_default()
    };
    assert_eq!(get("User-Agent"), BTN_USER_AGENT);
    assert_eq!(get("Content-Type"), "application/json");
    assert_eq!(get(HEADER_BTN_APP_ID), "app");
    assert_eq!(get(HEADER_X_BTN_APP_SECRET), "secret");
    assert_eq!(get(HEADER_AUTHENTICATION), "Bearer app@secret");
    assert!(!headers.iter().any(|(k, _)| k == HEADER_X_BTN_INSTALLATION_ID));

    let http = Rc::new(MockHttpClient::default().serve(CONFIG_URL, ok(config_body())));
    let config = BtnNetworkConfig {
        app_id: "example-app-id".to_string(),
        app_secret: "example-app-secret".to_string(),
        installation_id: "inst-1".to_string(),
        ..active_config()
    };
    let mut network = make_network(config, &http);
    assert!(retry(&mut network, &module, 1_000));
    let headers = http.headers_of(CONFIG_URL);
    assert!(headers.iter().any(|(k, v)| k == HEADER_X_BTN_INSTALLATION_ID && v == "inst-1"));
}

fn pow_config() -> String {
    format!(
        r#"{{"min_protocol_version":20,"max_protocol_version":20,
            "proof_of_work_captcha":{{"endpoint":"{POW_URL}"}},
            "ability":{{"rule_peer_identity":{{"endpoint":"{RULES_URL}","interval":1000,"random_initial_delay":0,"pow_captcha":true}}}}}}"#
    )
}

#[test]
fn pow_captcha_is_solved_and_attached() {
    let challenge = b"challenge-bytes";
    let pow_body = format!(
        r#"{{"id":"pow-1","challengeBase64":"{}","difficultyBits":8,"algorithm":"SHA-256","expireAt":0}}"#,
        base64_encode(challenge)
    );
    let http = Rc::new(
        MockHttpClient::default()
            .serve(CONFIG_URL, ok(pow_config()))
            .serve(&format!("{POW_URL}?type=rule_peer_identity"), ok(pow_body))
            .serve(&format!("{RULES_URL}?rev=initial"), ok(ruleset_body("v1"))),
    );
    let module = Module::default();
    let mut network = make_network(active_config(), &http);
    assert!(retry(&mut network, &module, 1_000));
    assert!(sync(&mut network, &module));

    let headers = http.headers_of(&format!("{RULES_URL}?rev=initial"));
    let get = |name: &str| {
        let found = headers.iter().find(|(k, _)| k == name);
        found.map(|(_, v)| v.clone()).unwrap_or_default()
    };
    assert_eq!(get(HEADER_X_BTN_POW_ID), "pow-1");
    let solution = base64_decode(&get(HEADER_X_BTN_POW_SOLUTION)).unwrap();
    assert_eq!(solution.len(), 8);
    assert!(has_leading_zero_bits(&PowAlgorithm::Sha256.digest(challenge, &solution), 8));
}

#[test]
fn pow_captcha_failure_skips_headers_but_continues() {
    let http = Rc::new(
        MockHttpClient::default()
            .serve(CONFIG_URL, ok(pow_config()))
            .serve(
                &format!("{POW_URL}?type=rule_peer_identity"),
                Script::Body(500, "nope".to_string()),
            )
            .serve(&format!("{RULES_URL}?rev=initial"), ok(ruleset_body("v1"))),
    );
    let module = Module::default();
    let mut network = make_network(active_config(), &http);
    assert!(retry(&mut network, &module, 1_000));
    assert!(sync(&mut network, &module));
    let headers = http.headers_of(&format!("{RULES_URL}?rev=initial"));
    assert!(!headers.iter().any(|(k, _)| k == HEADER_X_BTN_POW_ID));
    assert_eq!(module.ruleset_version().as_deref(), Some("v1"));

    assert!(solve_pow(b"x", 8, "NOT-A-DIGEST").is_none());
}

#[test]
fn cache_is_loaded_on_handshake_and_written_on_update() {
    let module = Module::default();
    let http = Rc::new(
        MockHttpClient::default()
            .serve(CONFIG_URL, ok(config_body()))
            .serve(&format!("{RULES_URL}?rev=initial"), ok(ruleset_body("v1")))
            .serve(&format!("{DENY_URL}?rev=initial"), ok("2.2.2.0/24\n"))
            .serve(&format!("{ALLOW_URL}?rev=initial"), Script::Body(204, String::new())),
    );
    let mut network = make_network(active_config(), &http);
    assert!(retry(&mut network, &module, 1_000));
    assert!(sync(&mut network, &module));
    assert!(network.metadata.get(CACHE_KEY_RULES).is_some());
    assert_eq!(
        network.metadata.get(CACHE_KEY_IP_DENYLIST_VALUE).as_deref(),
        Some("2.2.2.0/24\n")
    );

    let fresh_module = Module::default();
    let http2 = Rc::new(MockHttpClient::default().serve(CONFIG_URL, ok(config_body())));
    let mut network2 =
        BtnNetwork::new(active_config(), Client(http2.clone()), network.metadata);
    assert!(retry(&mut network2, &fresh_module, 1_000));
    assert_eq!(fresh_module.ruleset_version().as_deref(), Some("v1"));
    assert_eq!(fresh_module.deny.borrow().as_ref().unwrap().0, "2.2.2.0/24\n");
    assert_eq!(http2.call_count(), 1);
}

#[test]
fn allowlist_update_unbans_banned_peers() {
    let mut list = BanList::new();
    list.add("3.3.3.3", 0, "btn", false);
    list.add("9.9.9.9", 0, "btn", false);
    let module = Module { ban_list: RefCell::new(Some(list)), ..Default::default() };
    let http = Rc::new(
        MockHttpClient::default()
            .serve(CONFIG_URL, ok(config_body()))
            .serve(
                &format!("{ALLOW_URL}?rev=initial"),
                Script::Headers(
                    200,
                    "3.3.3.3\n".to_string(),
                    vec![(HEADER_X_BTN_CONTENT_VERSION.to_string(), "cv-1".to_string())],
                ),
            )
            .serve(&format!("{DENY_URL}?rev=initial"), Script::Body(204, String::new()))
            .serve(&format!("{RULES_URL}?rev=initial"), Script::Body(204, String::new())),
    );
    let mut network = make_network(active_config(), &http);
    assert!(retry(&mut network, &module, 1_000));
    sync(&mut network, &module);
    let list = module.ban_list.borrow();
    let list = list.as_ref().unwrap();
    assert_eq!(list.len(), 1);
    assert!(list.contains("9.9.9.9"));
}

#[test]
fn sync_due_only_runs_due_abilities() {
    let http = Rc::new(
        MockHttpClient::default()
            .serve(CONFIG_URL, ok(config_body()))
            .serve(&format!("{RULES_URL}?rev=initial"), ok(ruleset_body("v1")))
            .serve(&format!("{DENY_URL}?rev=initial"), Script::Body(204, String::new()))
            .serve(&format!("{ALLOW_URL}?rev=initial"), Script::Body(204, String::new())),
    );
    let module = Module::default();
    let mut network = make_network(active_config(), &http);
    assert!(retry(&mut network, &module, 1_000));

    let now = now_millis();
    let rules_due = network
        .abilities()
        .iter()
        .any(|a| a.kind == BtnAbilityKind::Rules && now >= a.next_due_ms);
    let report = sync_due(&mut network, &module, now);
    assert_eq!(report.len(), if rules_due { 3 } else { 2 });
    assert!(report.iter().all(|r| r.2));
    let abilities = network.abilities();
    let deny = abilities.iter().find(|a| a.kind == BtnAbilityKind::IpDenyList).unwrap();
    assert_eq!(deny.next_due_ms, now + 86_400_000);
    assert!(sync_due(&mut network, &module, now + 1).is_empty());
}

#[test]
fn allow_script_execute_is_propagated_to_module() {
    let module = Module::default();
    assert!(!module.allow_script.get());
    let http = Rc::new(MockHttpClient::default().serve(CONFIG_URL, ok(config_body())));
    let config = BtnNetworkConfig { allow_script_execute: true, ..active_config() };
    let mut network = make_network(config, &http);
    assert!(retry(&mut network, &module, 1_000));
    assert!(module.allow_script.get());
}

#[test]
fn malformed_ruleset_body_keeps_previous_rules() {
    let http = Rc::new(
        MockHttpClient::default()
            .serve(CONFIG_URL, ok(config_body()))
            .serve(&format!("{RULES_URL}?rev=initial"), ok(ruleset_body("v1")))
            .serve(&format!("{RULES_URL}?rev=v1"), ok("not a json"))
            .serve(&format!("{DENY_URL}?rev=initial"), Script::Body(204, String::new()))
            .serve(&format!("{ALLOW_URL}?rev=initial"), Script::Body(204, String::new())),
    );
    let module = Module::default();
    let mut network = make_network(active_config(), &http);
    assert!(retry(&mut network, &module, 1_000));
    assert!(sync(&mut network, &module));
    assert_eq!(module.ruleset_version().as_deref(), Some("v1"));
    assert!(!sync(&mut network, &module));
    assert_eq!(module.ruleset_version().as_deref(), Some("v1"));
    assert_eq!(network.metadata.get(CACHE_KEY_RULES), Some(ruleset_body("v1")));
}

#[test]
fn reload_config_resets_state() {
    let http = Rc::new(
        MockHttpClient::default()
            .serve(CONFIG_URL, ok(config_body()))
            .serve(&format!("{RULES_URL}?rev=initial"), ok(ruleset_body("v1")))
            .serve(&format!("{DENY_URL}?rev=initial"), Script::Body(204, String::new()))
            .serve(&format!("{ALLOW_URL}?rev=initial"), Script::Body(204, String::new())),
    );
    let module = Module::default();
    let mut network = make_network(active_config(), &http);
    assert!(retry(&mut network, &module, 1_000));
    assert!(sync(&mut network, &module));

    network.reload_config(BtnNetworkConfig::default());
    assert!(!network.config_success());
    assert!(network.abilities().is_empty());
    assert!(matches!(network.config_result(), BtnConfigStatus::Pending));
    let before = http.call_count();
    assert!(!retry(&mut network, &module, 1_000_000));
    assert!(!sync(&mut network, &module));
    assert!(sync_due(&mut network, &module, 1_000_000).is_empty());
    assert_eq!(http.call_count(), before);
    assert_eq!(module.ruleset_version().as_deref(), Some("v1"));
}

#[test]
fn constants_match_upstream() {
    assert_eq!(BTN_PROTOCOL_IMPL_VERSION, 20);
    assert_eq!(RETRY_PERIOD_SECONDS, 600);
    assert_eq!(CALL_TIMEOUT, 60 * 1000);
    assert_eq!(CACHE_KEY_RULES, "btn.ability.rules.cache");
    assert_eq!(CACHE_KEY_IP_ALLOWLIST_VERSION, "btn.ability.ip_allowlist.cache.version");
    assert_eq!(CACHE_KEY_IP_DENYLIST_VALUE, "btn.ability.ip_denylist.cache.value");
    assert_eq!(BtnAbilityKind::from_json_key("rules"), BtnAbilityKind::Rules);
    assert_eq!(BtnAbilityKind::from_json_key("rule_peer_identity"), BtnAbilityKind::Rules);
    assert_eq!(BtnAbilityKind::from_json_key("ip_allowlist"), BtnAbilityKind::IpAllowList);
    assert_eq!(BtnAbilityKind::from_json_key("ip_denylist"), BtnAbilityKind::IpDenyList);
    assert_eq!(BtnAbilityKind::from_json_key("submit_bans"), BtnAbilityKind::SubmitBans);
    assert_eq!(BtnAbilityKind::from_json_key("submit_peers"), BtnAbilityKind::LegacySubmitPeers);
    assert!(BtnAbilityKind::SubmitBans.is_implemented());
    assert!(BtnAbilityKind::LegacySubmitBans.is_implemented());
    assert!(!BtnAbilityKind::Other.is_implemented());
    assert_eq!(BtnAbilityKind::Rules.pow_type(), "rule_peer_identity");
    assert_eq!(BtnAbilityKind::SubmitBans.pow_type(), "submit_bans");
    assert_eq!(BtnAbilityKind::LegacySubmitBans.pow_type(), "submit_bans");
    assert_eq!(BtnAbilityKind::SubmitHistories.pow_type(), "submit_history");
    assert_eq!(BtnAbilityKind::IpAllowList.upstream_name(), "BtnAbilityIPAllowList");
    assert_eq!(BtnAbilityKind::LegacySubmitBans.upstream_name(), "LegacyBtnAbilitySubmitBans");
}

// ----------------------------------------------------------------------- codes

#[test]
fn gzip_bytes_roundtrip() {
    let raw = br#"{"hello":"world","pad":"xxxxxxxxxxxxxxxxxxxxxxxxxxxxxxxx"}"#;
    let compressed = gzip_bytes(raw).unwrap();
    assert!(!compressed.is_empty());
    assert_eq!(gunzip(&compressed), raw);
}

#[test]
fn hashed_identifier_matches_upstream_format() {
    let hash = get_hashed_identifier("ABCDEF0123456789ABCDEF0123456789ABCDEF01");
    assert_eq!(hash.len(), 64);
    assert!(hash
        .chars()
        .all(|c| c.is_ascii_hexdigit() && (c.is_ascii_lowercase() || c.is_ascii_digit())));
    assert_eq!(hash, get_hashed_identifier("abcdef0123456789abcdef0123456789abcdef01"));
    assert_ne!(get_hashed_identifier("a"), get_hashed_identifier("b"));
}

#[test]
fn url_encode_query_matches_java_url_encoder() {
    assert_eq!(url_encode_query("1.2.3.4"), "1.2.3.4");
    assert_eq!(url_encode_query("a b+c/d"), "a+b%2Bc%2Fd");
    assert_eq!(url_encode_query("~字符"), "%7E%E5%AD%97%E7%AC%A6");
}

#[test]
fn append_url_uses_question_mark_then_ampersand() {
    assert_eq!(
        append_url("https://x.test/q", &[("ip", "1.2.3.4")]),
        "https://x.test/q?ip=1.2.3.4"
    );
    assert_eq!(
        append_url("https://x.test/q?a=1", &[("ip", "1.2.3.4")]),
        "https://x.test/q?a=1&ip=1.2.3.4"
    );
}

#[test]
fn pairs_are_appended_in_turn() {
    assert_eq!(append_url("u", &[("a", "1"), ("b", "2"), ("c", "")]), "u?a=1&b=2&c=");
    assert_eq!(append_url("u", &[]), "u");
}

#[test]
fn rev_url_appends_rev_like_upstream() {
    assert_eq!(append_param("https://x.test/r", "rev", "v1"), "https://x.test/r?rev=v1");
    assert_eq!(append_param("https://x.test/r?a=b", "rev", "v1"), "https://x.test/r?a=b&rev=v1");
}

#[test]
fn pow_helpers_match_upstream_semantics() {
    assert!(has_leading_zero_bits(&[0x00, 0x01], 0));
    assert!(has_leading_zero_bits(&[0x00, 0x01], 8));
    assert!(!has_leading_zero_bits(&[0x01], 8));
    assert!(has_leading_zero_bits(&[0x00, 0x7F], 9));
    assert!(!has_leading_zero_bits(&[0x00, 0x80], 9));
    assert!(!has_leading_zero_bits(&[], 8));

    let nonce = solve_pow(b"challenge", 8, "SHA-256").unwrap();
    assert_eq!(nonce.len(), 8);
    assert!(has_leading_zero_bits(&PowAlgorithm::Sha256.digest(b"challenge", &nonce), 8));
    assert!(solve_pow(b"challenge", 0, "sha256").is_some());
    assert_eq!(PowAlgorithm::parse("SHA-256"), Some(PowAlgorithm::Sha256));
    assert_eq!(PowAlgorithm::parse("sha512"), Some(PowAlgorithm::Sha512));
    assert_eq!(PowAlgorithm::parse("MD5"), None);

    assert_eq!(base64_encode(b""), "");
    assert_eq!(base64_encode(b"f"), "Zg==");
    assert_eq!(base64_encode(b"fo"), "Zm8=");
    assert_eq!(base64_encode(b"foo"), "Zm9v");
    assert_eq!(base64_decode("Zm9v").as_deref(), Some(b"foo".as_slice()));
    assert_eq!(base64_decode("Zm8=").as_deref(), Some(b"fo".as_slice()));
    assert_eq!(base64_decode("Zg==").as_deref(), Some(b"f".as_slice()));
    assert_eq!(base64_decode("!!!"), None);
}

#[test]
fn digests_are_those_of_the_standard() {
    let sha256 = PowAlgorithm::Sha256.digest(b"a", b"bc");
    assert_eq!(sha256.len(), 32);
    assert_eq!(sha256[..4], [0xba, 0x78, 0x16, 0xbf]);
    let sha512 = PowAlgorithm::Sha512.digest(b"ab", b"c");
    assert_eq!(sha512.len(), 64);
    assert_eq!(sha512[..4], [0xdd, 0xaf, 0x35, 0xa1]);
}

#[test]
fn bytes_survive_base64() {
    let mut bytes: Vec<u8> = Vec::new();
    for b in 0..=255u8 {
        bytes.push(b);
        assert_eq!(base64_decode(&base64_encode(&bytes)), Some(bytes.clone()));
    }
}

#[test]
fn malformed_base64_is_refused() {
    assert_eq!(base64_decode("Zm\n9v").as_deref(), Some(b"foo".as_slice()));
    for text in ["====", "Z===", "=m9v", "Zg=v", "Zg==Zm9v", "Zm9", "Zm-v"] {
        assert_eq!(base64_decode(text), None, "{text}");
    }
}

#[test]
fn content_version_header_lookup() {
    let mut response = BtnHttpResponse::new(200, "body");
    response.headers.insert("x-btn-contentversion".to_string(), "cv-9".to_string());
    assert_eq!(response.header(HEADER_X_BTN_CONTENT_VERSION).map(|s| s.as_str()), Some("cv-9"));
    assert_eq!(BtnHttpResponse::new(200, "").header(HEADER_X_BTN_CONTENT_VERSION), None);
    assert!(BtnHttpResponse::new(204, "").is_no_content());
    assert!(BtnHttpResponse::new(200, "").is_successful());
    assert!(!BtnHttpResponse::new(500, "").is_successful());
}

#[test]
fn anonymous_account_detection() {
    let mut config = BtnNetworkConfig::default();
    assert!(config.is_anonymous());
    config.app_id = "example-app-id".to_string();
    config.app_secret = "x".to_string();
    assert!(config.is_anonymous());
    config.app_id = "a".to_string();
    config.app_secret = "example-app-secret".to_string();
    assert!(config.is_anonymous());
    config.app_secret = "b".to_string();
    assert!(!config.is_anonymous());
    assert!(!BtnNetworkConfig::default().is_active());
    assert!(active_config().is_active());
}

#[test]
fn initial_rev_is_used_when_no_rules_loaded() {
    let module = Module::default();
    assert_eq!(module.ip_list_version(true), INITIAL_REV);
    assert_eq!(module.ip_list_version(false), INITIAL_REV);
    assert_eq!(ruleset_rev(&None), INITIAL_REV);
}

// --------------------------------------------------------------------- reports

fn submit_config() -> BtnNetworkConfig {
    BtnNetworkConfig { submit: true, ..active_config() }
}

#[test]
fn report_that_cannot_be_written_fails_the_round() {
    const SUBMIT_BANS_URL: &str = "https://btn.test/submit-bans";
    let row = BtnBanHistoryRow { id: 1, ..Default::default() };
    let source = StubSubmitSource { bans: vec![row], ..Default::default() };
    let body = config_with(
        20,
        &format!(r#""submit_bans":{{"endpoint":"{SUBMIT_BANS_URL}","interval":86400000}}"#),
    );
    let http = Rc::new(
        MockHttpClient::default()
            .serve(CONFIG_URL, ok(body))
            .serve(SUBMIT_BANS_URL, ok(r#"{"status":"ok"}"#)),
    );
    let module = Module::default();
    let mut network = make_network(BtnNetworkConfig { submit: true, ..active_config() }, &http);
    assert!(retry(&mut network, &module, 1_000));
    let unwritable = |_: &BtnBanPing| None;
    let outcome = network.run_submit_bans(0, Some(&source), unwritable, read_captcha);
    assert_eq!(outcome, AbilityOutcome::Reported { updated: false, status: false });
    assert!(!network.abilities()[0].last_status);
    assert_eq!(network.metadata.get(METADATA_KEY_BANS_CURSOR), None);
    let outcome = network.run_submit_bans(0, Some(&source), write_bans, read_captcha);
    assert_eq!(outcome, AbilityOutcome::Reported { updated: true, status: true });
}

#[test]
fn values_left_out_are_empty() {
    assert_eq!(BtnHttpMethod::default(), BtnHttpMethod::Get);
    assert_eq!(BtnHttpResponse::default().status, 0);
    assert!(BtnBan::default().peer_ip.is_empty());
    assert!(BtnConfigResponse::default().min_protocol_version.is_none());
    assert_eq!(LegacyBtnBan::default().peer.peer_port, 0);
    assert!(IpQueryResult::default().labels.is_empty());
    assert_eq!(InMemoryMetadataStore::default().get("k"), None);
}

#[test]
fn submit_bans_posts_gzip_and_advances_cursor() {
    const SUBMIT_BANS_URL: &str = "https://btn.test/submit-bans";
    let source = StubSubmitSource {
        bans: vec![
            BtnBanHistoryRow {
                id: 1,
                ban_at_ms: 1_614_000_000_000,
                peer_ip: "1.2.3.4".to_string(),
                peer_port: 51413,
                peer_id: Some("-hp001-abcdefghijkl".to_string()),
                peer_client_name: Some("Xunlei".to_string()),
                peer_progress: Double { bits: 0.5f64.to_bits() },
                peer_flag: Some("d u".to_string()),
                torrent_hash: "AA12".to_string(),
                torrent_is_private: true,
                torrent_size: 1024,
                from_peer_traffic: 5000,
                to_peer_traffic: 6000,
                downloader_progress: Double { bits: 0.8f64.to_bits() },
                module: "module-x".to_string(),
                rule: "rule-a".to_string(),
                description: "desc-a".to_string(),
                structured_data: Some("{\"k\":1}".to_string()),
            },
            BtnBanHistoryRow {
                id: 3,
                ban_at_ms: 1_700_000_000_100,
                module: "module-x".to_string(),
                rule: "rule-a".to_string(),
                ..Default::default()
            },
        ],
        ..Default::default()
    };
    let body = config_with(
        20,
        &format!(
            r#""submit_bans":{{"endpoint":"{SUBMIT_BANS_URL}","interval":86400000,"random_initial_delay":0,"pow_captcha":false}}"#
        ),
    );
    let http = Rc::new(
        MockHttpClient::default()
            .serve(CONFIG_URL, ok(body))
            .serve(SUBMIT_BANS_URL, ok(r#"{"status":"ok"}"#)),
    );
    let module = Module::default();
    let mut network = make_network(submit_config(), &http);
    assert!(retry(&mut network, &module, 1_000));
    let now = now_millis();
    let report = sync_due_with(&mut network, &module, Some(&source), Vec::new(), false, now);
    assert_eq!(report, vec![(BtnAbilityKind::SubmitBans, true, true)]);

    let headers = http.headers_of(SUBMIT_BANS_URL);
    assert!(headers.iter().any(|(k, v)| k == "Content-Encoding" && v == "gzip"));
    assert!(headers.iter().any(|(k, v)| k == "Content-Type" && v == "application/json"));

    let payload = payload_of(&http, SUBMIT_BANS_URL);
    let bans = payload["bans"].as_array().unwrap();
    assert_eq!(bans.len(), 2);
    assert_eq!(bans[0]["ban_at"], 1_614_000_000_000_i64);
    assert_eq!(bans[0]["peer_ip"], "1.2.3.4");
    assert_eq!(bans[0]["peer_progress"], 0.5);
    assert_eq!(bans[0]["torrent_identifier"], get_hashed_identifier("AA12").as_str());
    assert_eq!(bans[0]["torrent_is_private"], true);
    assert_eq!(bans[0]["module"], "module-x");
    assert_eq!(bans[0]["structured_data"], "{\"k\":1}");
    assert!(bans[0].get("id").is_none());

    assert_eq!(network.metadata.get(METADATA_KEY_BANS_CURSOR).as_deref(), Some("3"));
    let before = http.call_count();
    let report =
        sync_due_with(&mut network, &module, Some(&source), Vec::new(), false, now + 20_000);
    assert!(report.is_empty());
    assert_eq!(http.call_count(), before);
}

#[test]
fn bans_are_reported_page_by_page() {
    const SUBMIT_BANS_URL: &str = "https://btn.test/submit-bans";
    let mut source = StubSubmitSource::default();
    for id in 1..=250 {
        source.bans.push(BtnBanHistoryRow { id, ..Default::default() });
    }
    let body = config_with(
        20,
        &format!(r#""submit_bans":{{"endpoint":"{SUBMIT_BANS_URL}","interval":1,"random_initial_delay":0}}"#),
    );
    let http = Rc::new(
        MockHttpClient::default()
            .serve(CONFIG_URL, ok(body))
            .serve(SUBMIT_BANS_URL, Script::Body(503, "later".to_string())),
    );
    let module = Module::default();
    let mut network = make_network(submit_config(), &http);
    assert!(retry(&mut network, &module, 1_000));
    let now = now_millis();
    // A page that the server does not take moves nothing.
    let report = sync_due_with(&mut network, &module, Some(&source), Vec::new(), false, now);
    assert_eq!(report, vec![(BtnAbilityKind::SubmitBans, false, false)]);
    assert_eq!(network.metadata.get(METADATA_KEY_BANS_CURSOR), None);
    // Three pages are reported once it does.
    http.scripts.borrow_mut()[1].1 = ok("{}");
    let calls = http.call_count();
    let report = sync_due_with(&mut network, &module, Some(&source), Vec::new(), false, now + 1);
    assert_eq!(report, vec![(BtnAbilityKind::SubmitBans, true, true)]);
    assert_eq!(http.call_count(), calls + 3);
    assert_eq!(network.metadata.get(METADATA_KEY_BANS_CURSOR).as_deref(), Some("250"));
    // Then there is nothing left.
    let report = sync_due_with(&mut network, &module, Some(&source), Vec::new(), false, now + 2);
    assert_eq!(report, vec![(BtnAbilityKind::SubmitBans, false, true)]);
    assert_eq!(http.call_count(), calls + 3);
    // Without a source there is never anything.
    let report = sync_due(&mut network, &module, now + 3);
    assert_eq!(report, vec![(BtnAbilityKind::SubmitBans, false, true)]);
}

#[test]
fn submit_swarm_uses_binary_cursor_and_posts() {
    const SWARM_URL: &str = "https://btn.test/submit-swarm";
    let source = StubSubmitSource {
        swarms: vec![
            BtnSwarmHistoryRow {
                id: 5,
                last_time_seen_ms: 7000,
                torrent_hash: "aaa".to_string(),
                ..Default::default()
            },
            BtnSwarmHistoryRow {
                id: 10,
                last_time_seen_ms: 7000,
                torrent_hash: "bbb".to_string(),
                ..Default::default()
            },
        ],
        ..Default::default()
    };
    let body = config_with(
        20,
        &format!(
            r#""submit_swarm":{{"endpoint":"{SWARM_URL}","interval":86400000,"random_initial_delay":0,"pow_captcha":false}}"#
        ),
    );
    let http = Rc::new(
        MockHttpClient::default()
            .serve(CONFIG_URL, ok(body))
            .serve(SWARM_URL, ok(r#"{"status":"ok"}"#)),
    );
    let module = Module::default();
    let mut network = make_network(submit_config(), &http);
    assert!(retry(&mut network, &module, 1_000));
    let now = now_millis();
    let report = sync_due_with(&mut network, &module, Some(&source), Vec::new(), false, now);
    assert_eq!(report.len(), 1);
    assert_eq!(report[0].0, BtnAbilityKind::SubmitSwarm);

    let payload = payload_of(&http, SWARM_URL);
    let swarms = payload["swarms"].as_array().unwrap();
    assert_eq!(swarms.len(), 2);
    assert_eq!(swarms[1]["torrent_identifier"], get_hashed_identifier("bbb").as_str());
    assert!(swarms[0]["torrent_is_private"].is_null());

    assert_eq!(network.metadata.get(METADATA_KEY_SWARM_CURSOR).as_deref(), Some("7000,10"));
}

#[test]
fn submit_histories_advances_cursor_and_skips_on_lock() {
    const HIST_URL: &str = "https://btn.test/submit-histories";
    let base = now_millis();
    let source = StubSubmitSource {
        peers: vec![
            BtnPeerHistoryRow {
                ip_address: "1.2.3.4".to_string(),
                port: 51413,
                torrent_hash: "ccc".to_string(),
                first_time_seen_ms: base - 20_000,
                last_time_seen_ms: base - 10_000,
                ..Default::default()
            },
            BtnPeerHistoryRow {
                ip_address: "5.6.7.8".to_string(),
                port: 1024,
                torrent_hash: "ccc".to_string(),
                first_time_seen_ms: base - 15_000,
                last_time_seen_ms: base - 5_000,
                ..Default::default()
            },
        ],
        ..Default::default()
    };
    let body = config_with(
        20,
        &format!(
            r#""submit_histories":{{"endpoint":"{HIST_URL}","interval":86400000,"random_initial_delay":0,"pow_captcha":false}}"#
        ),
    );
    let http = Rc::new(
        MockHttpClient::default()
            .serve(CONFIG_URL, ok(body))
            .serve(HIST_URL, ok(r#"{"status":"ok"}"#)),
    );
    let module = Module::default();
    let mut network = make_network(submit_config(), &http);
    assert!(retry(&mut network, &module, 1_000));
    let now = now_millis();
    let report = sync_due_with(&mut network, &module, Some(&source), Vec::new(), false, now);
    assert_eq!(report.len(), 1);
    assert!(!report[0].1);
    assert_eq!(http.urls().iter().filter(|url| url.as_str() == HIST_URL).count(), 0);
    assert!(network.metadata.get(METADATA_KEY_HISTORY_TIMESTAMP).is_some());

    network.metadata.set(METADATA_KEY_HISTORY_TIMESTAMP, &(base - 30_000).to_string());
    let later = now + 86_400_000;
    let report = sync_due_with(&mut network, &module, Some(&source), Vec::new(), false, later);
    assert_eq!(report.len(), 1);
    assert!(report[0].1);
    let payload = payload_of(&http, HIST_URL);
    assert_eq!(payload["peers"].as_array().map(Vec::len), Some(2));
    assert_eq!(
        payload["peers"][0]["torrent_identifier"],
        get_hashed_identifier("ccc").as_str()
    );
    assert!(payload["populate_time"].as_i64().is_some());
    assert_eq!(
        network.metadata.get(METADATA_KEY_HISTORY_TIMESTAMP),
        Some((base - 5_000).to_string())
    );

    let before = http.call_count();
    let later = now + 86_400_000 * 2;
    let report = sync_due_with(&mut network, &module, Some(&source), Vec::new(), true, later);
    assert_eq!(report.len(), 1);
    assert_eq!(http.call_count(), before);
    assert!(network.ability_at(0).unwrap().last_status);
}

#[test]
fn legacy_submit_bans_filters_by_last_report() {
    const LEGACY_BANS_URL: &str = "https://btn.test/lb";
    let source = StubSubmitSource {
        legacy_bans: vec![
            BtnLegacyBanRow {
                ban_at_ms: 1000,
                ban_unique_id: "uid-1".to_string(),
                module: "module".to_string(),
                rule: "rule".to_string(),
                btn_ban: true,
                peer: BtnLegacyPeerRow {
                    ip_address: "9.9.9.9".to_string(),
                    torrent_hash: "ddd".to_string(),
                    ..Default::default()
                },
                structured_data: None,
            },
            BtnLegacyBanRow {
                ban_at_ms: 500,
                ban_unique_id: "uid-0".to_string(),
                ..Default::default()
            },
        ],
        ..Default::default()
    };
    let body = config_with(
        19,
        &format!(
            r#""submit_bans":{{"endpoint":"{LEGACY_BANS_URL}","interval":86400000,"random_initial_delay":0,"pow_captcha":false}},
               "submit_peers":{{"endpoint":"https://btn.test/lp","interval":86400000,"random_initial_delay":0}}"#
        ),
    );
    let http = Rc::new(
        MockHttpClient::default()
            .serve(CONFIG_URL, ok(body))
            .serve(LEGACY_BANS_URL, ok(r#"{"status":"ok"}"#))
            .serve("https://btn.test/lp", ok(r#"{"status":"ok"}"#)),
    );
    let module = Module::default();
    let mut network = make_network(submit_config(), &http);
    assert!(retry(&mut network, &module, 1_000));
    network.legacy_bans_last_report_ms = 500;
    assert_eq!(network.abilities().len(), 2);
    let now = now_millis();
    let report = sync_due_with(&mut network, &module, Some(&source), Vec::new(), false, now);
    assert!(report.iter().any(|r| r.0 == BtnAbilityKind::LegacySubmitBans && r.1));
    let payload = payload_of(&http, LEGACY_BANS_URL);
    let bans = payload["bans"].as_array().unwrap();
    assert_eq!(bans.len(), 1);
    assert_eq!(bans[0]["ban_unique_id"], "uid-1");
    assert_eq!(network.legacy_bans_last_report_ms, 1000);

    let before = http.call_count();
    let later = now + 86_400_000;
    let report = sync_due_with(&mut network, &module, Some(&source), Vec::new(), false, later);
    assert!(network.legacy_bans_last_report_ms >= now);
    assert_eq!(http.call_count(), before);
    assert!(report
        .iter()
        .find(|r| r.0 == BtnAbilityKind::LegacySubmitBans)
        .is_some_and(|r| r.2));
}

#[test]
fn connected_peers_are_reported_to_older_servers() {
    const LP_URL: &str = "https://btn.test/lp";
    let source = StubSubmitSource {
        legacy_peers: vec![BtnLegacyPeerRow {
            torrent_hash: "EEE".to_string(),
            ..Default::default()
        }],
        ..Default::default()
    };
    let body = config_with(
        19,
        &format!(r#""submit_peers":{{"endpoint":"{LP_URL}","interval":1,"random_initial_delay":0}}"#),
    );
    let http =
        Rc::new(MockHttpClient::default().serve(CONFIG_URL, ok(body)).serve(LP_URL, ok("{}")));
    let module = Module::default();
    let mut network = make_network(submit_config(), &http);
    assert!(retry(&mut network, &module, 1_000));
    let now = now_millis();
    let report = sync_due_with(&mut network, &module, Some(&source), Vec::new(), false, now);
    assert_eq!(report, vec![(BtnAbilityKind::LegacySubmitPeers, true, true)]);
    let payload = payload_of(&http, LP_URL);
    assert_eq!(
        payload["peers"][0]["torrent_identifier"],
        get_hashed_identifier("eee").as_str()
    );
}

// ------------------------------------------------------------------ heartbeats

#[test]
fn heartbeat_default_uses_bare_client_multi_if_auth_and_failure_marks_down() {
    const HB_URL: &str = "https://btn.test/hb";
    let body = config_with(
        20,
        &format!(
            r#""heartbeat":{{"endpoint":"{HB_URL}","interval":60000,"random_initial_delay":0,"pow_captcha":false}}"#
        ),
    );
    let http = Rc::new(
        MockHttpClient::default()
            .serve(CONFIG_URL, ok(body))
            .serve(HB_URL, ok(r#"{"external_ip":"203.0.113.1"}"#)),
    );
    let module = Module::default();
    let mut network = make_network(active_config(), &http);
    assert!(retry(&mut network, &module, 1_000));
    let report = sync_due(&mut network, &module, now_millis());
    assert_eq!(report[0].0, BtnAbilityKind::Heartbeat);
    assert!(report[0].2);
    assert_eq!(http.body_of(HB_URL), br#"{"ifaddr":"default"}"#);
    assert!(!http.headers_of(HB_URL).iter().any(|(k, _)| k == HEADER_BTN_APP_ID));

    const HB2_URL: &str = "https://btn.test/hb2";
    let body = config_with(
        20,
        &format!(
            r#""heartbeat":{{"endpoint":"{HB2_URL}","interval":60000,"random_initial_delay":0,"multi_if":true}}"#
        ),
    );
    let http = Rc::new(
        MockHttpClient::default()
            .serve(CONFIG_URL, ok(body.clone()))
            .serve(HB2_URL, ok(r#"{"external_ip":"203.0.113.2"}"#)),
    );
    let mut network = make_network(active_config(), &http);
    let source = StubSubmitSource::default();
    let ips = vec!["192.168.1.5".to_string(), "10.0.0.2".to_string()];
    assert!(retry(&mut network, &module, 1_000));
    let report = sync_due_with(&mut network, &module, Some(&source), ips, false, now_millis());
    assert_eq!(http.urls().iter().filter(|u| u.as_str() == HB2_URL).count(), 2);
    assert!(report[0].2);
    assert!(http.headers_of(HB2_URL).iter().any(|(k, _)| k == HEADER_BTN_APP_ID));
    assert_eq!(http.body_of(HB2_URL), br#"{"ifaddr":"192.168.1.5"}"#);

    let http2 = Rc::new(
        MockHttpClient::default()
            .serve(CONFIG_URL, ok(body))
            .serve(HB2_URL, ok(r#"{"external_ip":"203.0.113.2"}"#)),
    );
    let mut network = make_network(active_config(), &http2);
    assert!(retry(&mut network, &module, 1_000));
    let report = sync_due(&mut network, &module, now_millis());
    assert!(!report[0].2);
}

#[test]
fn interface_names_are_written_as_json() {
    let http = Rc::new(MockHttpClient::default());
    let mut network = make_network(active_config(), &http);
    let body = config_with(
        20,
        r#""heartbeat":{"endpoint":"https://btn.test/hb","interval":1,"random_initial_delay":0,"multi_if":true}"#,
    );
    http.scripts.borrow_mut().push((CONFIG_URL.to_string(), ok(body)));
    let module = Module::default();
    assert!(retry(&mut network, &module, 1_000));
    let ips = vec!["a\"b\\c\n\r\t\u{8}\u{c}\u{1f}\u{7f}/é".to_string()];
    let report = sync_due_with(&mut network, &module, None, ips, false, now_millis());
    assert_eq!(report, vec![(BtnAbilityKind::Heartbeat, false, false)]);
    assert_eq!(
        String::from_utf8(http.body_of("https://btn.test/hb")).unwrap(),
        "{\"ifaddr\":\"a\\\"b\\\\c\\n\\r\\t\\b\\f\\u001f\u{7f}/é\"}"
    );
}

// -------------------------------------------------------------- reconfiguration

#[test]
fn reconfigure_version_change_triggers_rehandshake() {
    const RECONFIGURE_URL: &str = "https://btn.test/reconfigure";
    let config_v1 = |version: &str| {
        config_with(
            20,
            &format!(
                r#""reconfigure":{{"endpoint":"{RECONFIGURE_URL}","interval":60000,"random_initial_delay":0,"version":"{version}","pow_captcha":false}}"#
            ),
        )
    };
    let http = Rc::new(
        MockHttpClient::default()
            .serve(CONFIG_URL, ok(config_v1("v1")))
            .serve(RECONFIGURE_URL, ok(r#"{"status":"ok"}"#)),
    );
    let module = Module::default();
    let mut network = make_network(active_config(), &http);
    assert!(retry(&mut network, &module, 1_000));
    assert_eq!(network.abilities()[0].reconfigure_version.as_deref(), Some("v1"));
    let config_requests_after_handshake = http.call_count();
    let now = now_millis();

    http.scripts.borrow_mut().insert(0, (CONFIG_URL.to_string(), ok(config_v1("v2"))));
    let report = sync_due(&mut network, &module, now + 60_000);
    assert!(report.iter().any(|r| r.0 == BtnAbilityKind::Reconfigure));
    assert_eq!(http.call_count(), config_requests_after_handshake + 2);
    assert_eq!(network.abilities()[0].reconfigure_version.as_deref(), Some("v2"));

    let before = http.call_count();
    sync_due(&mut network, &module, now + 60_000 * 2);
    assert_eq!(http.call_count(), before + 1);
    assert_eq!(network.abilities()[0].reconfigure_version.as_deref(), Some("v2"));
}

#[test]
fn reconfiguration_that_cannot_be_read_is_a_failure() {
    let body = config_with(
        20,
        r#""reconfigure":{"endpoint":"e","interval":1,"random_initial_delay":0,"version":"v1"}"#,
    );
    let http = Rc::new(MockHttpClient::default().serve(CONFIG_URL, ok(body)));
    let module = Module::default();
    let mut network = make_network(active_config(), &http);
    assert!(retry(&mut network, &module, 1_000));
    let now = now_millis();
    for (script, good) in [
        (ok("not a json"), false),
        (Script::Body(500, "boom".to_string()), false),
        (Script::Transport("timeout".to_string()), false),
        (ok("{}"), true),
        (ok(r#"{"ability":{"reconfigure":{"version":5}}}"#), true),
    ] {
        http.scripts.borrow_mut()[0].1 = script;
        let report = sync_due(&mut network, &module, now + 10_000);
        assert_eq!(report, vec![(BtnAbilityKind::Reconfigure, false, good)]);
        network.abilities[0].next_due_ms = 0;
    }
    assert_eq!(network.abilities()[0].reconfigure_version.as_deref(), Some("v1"));
}

// -------------------------------------------------------------------- questions

fn read_answer(text: &String) -> Result<IpQueryResult, String> {
    let v: Value = serde_json::from_str(text).map_err(|e| e.to_string())?;
    let traffic = &v["traffic"];
    Ok(IpQueryResult {
        color: v["color"].as_str().map(|s| s.to_string()),
        labels: Vec::new(),
        bans: None,
        swarms: None,
        traffic: Some(IpQueryTraffic {
            duration: traffic["duration"].as_u64().unwrap_or(0),
            to_peer_traffic: traffic["to_peer_traffic"].as_i64().unwrap_or(0),
            from_peer_traffic: traffic["from_peer_traffic"].as_i64().unwrap_or(0),
            share_ratio: Double { bits: traffic["share_ratio"].as_f64().unwrap_or(0.0).to_bits() },
        }),
        torrents: Some(IpQueryTorrents {
            duration: v["torrents"]["duration"].as_u64().unwrap_or(0),
            count: v["torrents"]["count"].as_u64().unwrap_or(0),
        }),
    })
}

#[test]
fn queries_are_made_only_on_request() {
    let body = config_with(
        20,
        r#""ip_query":{"endpoint":"https://btn.test/q","interval":60000,"random_initial_delay":0}"#,
    );
    let http = Rc::new(MockHttpClient::default().serve(CONFIG_URL, ok(body)));
    let module = Module::default();
    let mut network = make_network(active_config(), &http);
    assert!(retry(&mut network, &module, 1_000));
    assert_eq!(network.abilities().len(), 1);
    assert!(sync_due(&mut network, &module, i64::MAX).is_empty());
}

#[test]
fn query_ip_builds_authed_url_and_parses() {
    const QUERY_URL: &str = "https://btn.test/ip-query";
    let body = config_with(
        20,
        &format!(
            r#""ip_query":{{"endpoint":"{QUERY_URL}","interval":60000,"random_initial_delay":0,"pow_captcha":false}}"#
        ),
    );
    let response_json = r#"{"color":"red","labels":["扫描行为"],
        "bans":{"duration":1,"total":2,"records":[]},
        "swarms":{"duration":1,"total":0,"records":[],"concurrent_download_torrents_count":0,"concurrent_seeding_torrents_count":0},
        "traffic":{"duration":1,"to_peer_traffic":10,"from_peer_traffic":20,"share_ratio":0.5},
        "torrents":{"duration":1,"count":3}}"#;
    let http = Rc::new(
        MockHttpClient::default()
            .serve(CONFIG_URL, ok(body))
            .serve(&format!("{QUERY_URL}?ip=1.2.3.4"), ok(response_json)),
    );
    let module = Module::default();
    let mut network = make_network(active_config(), &http);
    assert!(retry(&mut network, &module, 1_000));
    assert!(network.abilities().is_empty() || !network.abilities()[0].kind.is_scheduled());

    let result = network.query_ip("1.2.3.4", read_captcha, read_answer).unwrap().unwrap();
    assert_eq!(result.color.as_deref(), Some("red"));
    assert_eq!(result.torrents.as_ref().map(|t| t.count), Some(3));
    assert_eq!(result.traffic.as_ref().map(|t| t.to_peer_traffic), Some(10));
    assert!(http
        .headers_of(&format!("{QUERY_URL}?ip=1.2.3.4"))
        .iter()
        .any(|(k, _)| k == HEADER_BTN_APP_ID));
}

#[test]
fn failed_questions_say_why() {
    let http = Rc::new(MockHttpClient::default());
    let mut network = make_network(active_config(), &http);
    assert!(network.query_ip("1.2.3.4", read_captcha, read_answer).unwrap().is_none());
    assert_eq!(http.call_count(), 0);
    let body = config_with(20, r#""ip_query":{"endpoint":"https://btn.test/q"}"#);
    http.scripts.borrow_mut().push((CONFIG_URL.to_string(), ok(body)));
    assert!(retry(&mut network, &Module::default(), 1_000));
    let error = network.query_ip("::1", read_captcha, read_answer).unwrap_err();
    assert_eq!(error, "HTTP 404 - not found");
    assert!(http.urls().contains(&"https://btn.test/q?ip=%3A%3A1".to_string()));
}

#[test]
fn a_handshake_can_be_made_at_once() {
    let http = Rc::new(MockHttpClient::default().serve(CONFIG_URL, ok(config_body())));
    let mut network = make_network(active_config(), &http);
    let (ready, changes) = network.config_btn_network(read_config);
    assert!(ready);
    assert_eq!(changes.len(), 1);
    assert!(matches!(changes[0], ModuleChange::AllowScript(false)));
    assert_eq!(http.call_count(), 1);
    let (ready, changes) = network.check_if_need_retry_config(read_config);
    assert!(ready && changes.is_empty());
    assert_eq!(http.call_count(), 1);
}

#[test]
fn functions_may_send_btn_requests() {
    let client = ClosureHttpClient::new(|request: &BtnHttpRequest| {
        Ok(BtnHttpResponse::new(200, &request.url))
    });
    assert_eq!(client.execute(BtnHttpRequest::get("u")).unwrap().body, "u");
}
