//! The BTN client: the handshake with a server, the abilities it runs from time to time, and the
//! requests they make.

use vstd::prelude::*;
use crate::text::{blank, clone_opt, concat2, concat3, decimal_int, is_blank_text, i64_text, str_eq};
use crate::wire::now_millis;

pub use crate::btn_ability::{
    are_registered, offered, register_abilities, registration, status_message, BtnAbility,
    BtnAbilityKind, BtnAbilitySpec, BtnAbilitySync, BtnConfigResponse, BtnConfigStatus,
    BtnHeartbeatResponse, BtnNetworkConfig, PowCaptchaData, PowCaptchaEndpoint,
    BTN_PROTOCOL_IMPL_VERSION, LANG_MISSING_VERSION_PROTOCOL_FIELD,
};
pub use crate::btn_codec::{
    append_param, append_url, b64, b64_bytes_of, base64_decode, base64_encode,
    get_hashed_identifier, gzip, gzip_bytes, query_bytes, url_encode_query, with_param,
};
pub use crate::btn_http::{
    BtnHttpClient, BtnHttpMethod, BtnHttpRequest, BtnHttpResponse, RequestView,
};
pub use crate::btn_json::{heartbeat_body, heartbeat_text, json_text_at};
pub use crate::btn_pow::{algorithm_of, has_leading_zero_bits, solve_pow, solves, POW_MAX_ITERATIONS};
pub use crate::btn_store::{BtnMetadataStore, InMemoryMetadataStore};

verus! {

/// How long the client waits after a failed handshake, in seconds.
pub const RETRY_PERIOD_SECONDS: i64 = 600;

/// How long a request may take, in milliseconds.
pub const CALL_TIMEOUT: u64 = 60_000;

pub const BTN_USER_AGENT: &'static str = "PeerBanHelper-RS";

pub const HEADER_BTN_APP_ID: &'static str = "BTN-AppID";

pub const HEADER_BTN_APP_SECRET: &'static str = "BTN-AppSecret";

pub const HEADER_X_BTN_APP_ID: &'static str = "X-BTN-AppID";

pub const HEADER_X_BTN_APP_SECRET: &'static str = "X-BTN-AppSecret";

pub const HEADER_AUTHENTICATION: &'static str = "Authentication";

pub const HEADER_X_BTN_INSTALLATION_ID: &'static str = "X-BTN-InstallationID";

pub const HEADER_X_BTN_CONTENT_VERSION: &'static str = "X-BTN-ContentVersion";

pub const HEADER_X_BTN_POW_ID: &'static str = "X-BTN-PowID";

pub const HEADER_X_BTN_POW_SOLUTION: &'static str = "X-BTN-PowSolution";

/// Where the last rules are kept.
pub const CACHE_KEY_RULES: &'static str = "btn.ability.rules.cache";

pub const CACHE_KEY_IP_ALLOWLIST_VERSION: &'static str = "btn.ability.ip_allowlist.cache.version";

pub const CACHE_KEY_IP_ALLOWLIST_VALUE: &'static str = "btn.ability.ip_allowlist.cache.value";

pub const CACHE_KEY_IP_DENYLIST_VERSION: &'static str = "btn.ability.ip_denylist.cache.version";

pub const CACHE_KEY_IP_DENYLIST_VALUE: &'static str = "btn.ability.ip_denylist.cache.value";

pub const LANG_BTN_CONFIG_FAILS: &'static str = "BTN_CONFIG_FAILS";

pub const LANG_BTN_REQUEST_FAILS: &'static str = "BTN_REQUEST_FAILS";

pub const LANG_BTN_POW_CAPTCHA_LOAD_FROM_REMOTE: &'static str = "BTN_POW_CAPTCHA_LOAD_FROM_REMOTE";

pub const LANG_BTN_POW_CAPTCHA_COMPUTING: &'static str = "BTN_POW_CAPTCHA_COMPUTING";

pub const LANG_BTN_POW_CAPTCHA_COMPUTE_COMPLETED: &'static str =
    "BTN_POW_CAPTCHA_COMPUTE_COMPLETED";

pub const LANG_UNABLE_LOAD_BTN_ABILITY: &'static str = "UNABLE_LOAD_BTN_ABILITY";

pub const LANG_BTN_RULES_LOADED_FROM_CACHE: &'static str = "BTN_RULES_LOADED_FROM_CACHE";

pub const LANG_BTN_RULES_LOADED_FROM_REMOTE: &'static str = "BTN_RULES_LOADED_FROM_REMOTE";

pub const LANG_BTN_UPDATE_RULES_SUCCESSES: &'static str = "BTN_UPDATE_RULES_SUCCESSES";

pub const LANG_BTN_ABILITY_ALLOWLIST_LOADED_FROM_REMOTE: &'static str =
    "BTN_ABILITY_IP_ALLOWLIST_LOADED_FROM_REMOTE";

pub const LANG_BTN_ABILITY_DENYLIST_LOADED_FROM_REMOTE: &'static str =
    "BTN_ABILITY_IP_DENYLIST_LOADED_FROM_REMOTE";

/// The version of rules that were never loaded.
pub const INITIAL_REV: &'static str = "initial";

// ----------------------------------------------------------------- the machine
/// The BTN client.
#[derive(Debug)]
pub struct BtnNetwork<H, M> {
    pub config: BtnNetworkConfig,
    pub http: H,
    pub metadata: M,
    /// Where challenges for a proof of work are asked for.
    pub pow_endpoint: Option<String>,
    pub abilities: Vec<BtnAbility>,
    pub config_success: bool,
    pub config_result: BtnConfigStatus,
    pub next_config_attempt_ms: i64,
    /// Whether the list of allowed addresses changed since it was last looked at.
    pub allowlist_changed: bool,
    pub legacy_bans_last_report_ms: i64,
}

/// A change that the rules in force are to take over.
#[derive(Debug)]
pub enum ModuleChange {
    /// Whether scripts may run.
    AllowScript(bool),
    /// A set of rules.
    Ruleset(String),
    /// The allowed addresses.
    AllowList { text: String, version: String },
    /// The denied addresses.
    DenyList { text: String, version: String },
    /// Allowed addresses are to be released from their bans.
    Unban,
}

/// A change as a value.
pub ghost enum ChangeView {
    AllowScript(bool),
    Ruleset(Seq<char>),
    AllowList(Seq<char>, Seq<char>),
    DenyList(Seq<char>, Seq<char>),
    Unban,
}

impl ModuleChange {
    /// The change as a value.
    pub open spec fn view(&self) -> ChangeView {
        match self {
            ModuleChange::AllowScript(yes) => ChangeView::AllowScript(*yes),
            ModuleChange::Ruleset(text) => ChangeView::Ruleset(text@),
            ModuleChange::AllowList { text, version } => ChangeView::AllowList(text@, version@),
            ModuleChange::DenyList { text, version } => ChangeView::DenyList(text@, version@),
            ModuleChange::Unban => ChangeView::Unban,
        }
    }
}

/// Changes as values.
pub open spec fn change_views(v: Seq<ModuleChange>) -> Seq<ChangeView> {
    Seq::new(v.len(), |i: int| v[i]@)
}

/// How a request for the server's configuration ended.
#[derive(Debug)]
pub enum ConfigReply {
    /// No reply came.
    NoReply(String),
    /// The reply was no success.
    Refused { status: u16, body: String },
    /// The reply could not be read.
    Unreadable(String),
    /// The server's configuration.
    Config(BtnConfigResponse),
}

/// What a client is to do about its handshake.
#[derive(Clone, Copy, PartialEq, Eq, Structural, Debug)]
pub enum RetryDecision {
    /// The client is switched off.
    Off,
    /// The handshake was made.
    Done,
    /// The last one failed a short time ago.
    Wait,
    /// It is to be made now.
    Attempt,
}

/// The changes that kept texts call for when an ability of some kind is loaded.
pub open spec fn cached_change(kind: BtnAbilityKind, data: Map<Seq<char>, Seq<char>>) -> Option<
    ChangeView,
> {
    match kind {
        BtnAbilityKind::Rules => if data.contains_key(CACHE_KEY_RULES@) {
            Some(ChangeView::Ruleset(data[CACHE_KEY_RULES@]))
        } else {
            None
        },
        BtnAbilityKind::IpAllowList => if data.contains_key(CACHE_KEY_IP_ALLOWLIST_VALUE@) {
            Some(
                ChangeView::AllowList(
                    data[CACHE_KEY_IP_ALLOWLIST_VALUE@],
                    kept_or(data, CACHE_KEY_IP_ALLOWLIST_VERSION@, INITIAL_REV@),
                ),
            )
        } else {
            None
        },
        BtnAbilityKind::IpDenyList => if data.contains_key(CACHE_KEY_IP_DENYLIST_VALUE@) {
            Some(
                ChangeView::DenyList(
                    data[CACHE_KEY_IP_DENYLIST_VALUE@],
                    kept_or(data, CACHE_KEY_IP_DENYLIST_VERSION@, INITIAL_REV@),
                ),
            )
        } else {
            None
        },
        _ => None,
    }
}

/// The text that is kept under a key, or a default.
pub open spec fn kept_or(
    data: Map<Seq<char>, Seq<char>>,
    key: Seq<char>,
    default: Seq<char>,
) -> Seq<char> {
    if data.contains_key(key) {
        data[key]
    } else {
        default
    }
}

/// The changes that kept texts call for when abilities are loaded, in their order.
pub open spec fn cached_changes(
    abilities: Seq<BtnAbility>,
    data: Map<Seq<char>, Seq<char>>,
) -> Seq<ChangeView>
    decreases abilities.len(),
{
    if abilities.len() == 0 {
        Seq::empty()
    } else {
        let rest = cached_changes(abilities.drop_last(), data);
        match cached_change(abilities.last().kind, data) {
            Some(c) => rest.push(c),
            None => rest,
        }
    }
}

/// Whether loading abilities brings in a list of allowed addresses.
pub open spec fn loads_allowlist(
    abilities: Seq<BtnAbility>,
    data: Map<Seq<char>, Seq<char>>,
) -> bool {
    data.contains_key(CACHE_KEY_IP_ALLOWLIST_VALUE@) && exists|i: int|
        0 <= i < abilities.len() && (#[trigger] abilities[i]).kind == BtnAbilityKind::IpAllowList
}

/// The changes that loading abilities calls for: first what is kept, then the release of allowed
/// addresses where their list changed.
pub open spec fn load_changes(
    abilities: Seq<BtnAbility>,
    data: Map<Seq<char>, Seq<char>>,
    changed_before: bool,
) -> Seq<ChangeView> {
    if changed_before || loads_allowlist(abilities, data) {
        cached_changes(abilities, data).push(ChangeView::Unban)
    } else {
        cached_changes(abilities, data)
    }
}

/// Whether a server's configuration is one that the client can work with.
pub open spec fn acceptable(response: BtnConfigResponse) -> bool {
    &&& response.min_protocol_version matches Some(min)
    &&& min <= BTN_PROTOCOL_IMPL_VERSION
    &&& response.max_protocol_version matches Some(max)
    &&& max >= BTN_PROTOCOL_IMPL_VERSION
}

/// Whether a status tells why a server's configuration was not taken. The lowest version is looked
/// at before the highest.
pub open spec fn tells_refusal(status: BtnConfigStatus, response: BtnConfigResponse) -> bool {
    match response.min_protocol_version {
        None => tells_missing_field(status),
        Some(min) => if BTN_PROTOCOL_IMPL_VERSION < min {
            status == (BtnConfigStatus::ClientTooOld {
                implemented: BTN_PROTOCOL_IMPL_VERSION,
                min,
            })
        } else {
            match response.max_protocol_version {
                None => tells_missing_field(status),
                Some(max) => status == (BtnConfigStatus::ServerTooOld {
                    implemented: BTN_PROTOCOL_IMPL_VERSION,
                    max,
                }),
            }
        },
    }
}

/// Whether a status says that a protocol version is missing.
pub open spec fn tells_missing_field(status: BtnConfigStatus) -> bool {
    status matches BtnConfigStatus::Exception { kind, message } && kind@ == "IllegalStateException"@
        && message@ == LANG_MISSING_VERSION_PROTOCOL_FIELD@
}

/// Whether a status tells how a request for the configuration failed.
pub open spec fn tells_failure(status: BtnConfigStatus, reply: ConfigReply) -> bool {
    match reply {
        ConfigReply::NoReply(message) => status matches BtnConfigStatus::Exception {
            kind,
            message: m,
        } && kind@ == "TransportError"@ && m == message,
        ConfigReply::Refused { status: code, body } => status == (BtnConfigStatus::HttpError {
            status: code,
            body,
        }),
        ConfigReply::Unreadable(message) => status matches BtnConfigStatus::Exception {
            kind,
            message: m,
        } && kind@ == "JsonSyntaxException"@ && m == message,
        ConfigReply::Config(response) => tells_refusal(status, response),
    }
}

/// Whether a reply brings a configuration that is taken.
pub open spec fn succeeds(reply: ConfigReply) -> bool {
    reply matches ConfigReply::Config(response) && acceptable(response)
}

/// When the next handshake may be tried after a failure.
pub open spec fn retry_time(now_ms: i64) -> i64 {
    now_ms.wrapping_add(600_000)
}

/// The endpoint for challenges that a configuration gives.
pub open spec fn captcha_endpoint(response: BtnConfigResponse) -> Option<String> {
    match response.proof_of_work_captcha {
        Some(pow) => Some(pow.endpoint),
        None => None,
    }
}

/// Whether abilities are those that a configuration offers to a client.
pub open spec fn registers(
    abilities: Seq<BtnAbility>,
    response: BtnConfigResponse,
    submit: bool,
    clock_ms: i64,
) -> bool {
    are_registered(
        abilities,
        offered(
            registration(response.min_protocol_version->0 < BTN_PROTOCOL_IMPL_VERSION, submit),
            response.ability@,
        ),
        response.ability@,
        clock_ms,
    )
}

fn missing_field() -> (status: BtnConfigStatus)
    ensures
        tells_missing_field(status),
{
    BtnConfigStatus::Exception {
        kind: "IllegalStateException".to_string(),
        message: LANG_MISSING_VERSION_PROTOCOL_FIELD.to_string(),
    }
}

impl<H: BtnHttpClient, M: BtnMetadataStore> BtnNetwork<H, M> {
    /// A client that made no handshake yet. It is tried at once, unless the client is switched off.
    pub fn new(config: BtnNetworkConfig, http: H, metadata: M) -> (n: Self)
        ensures
            n.config == config,
            n.http == http,
            n.metadata == metadata,
            n.pow_endpoint is None,
            n.abilities@.len() == 0,
            !n.config_success,
            n.config_result is Pending,
            n.next_config_attempt_ms == (if config.active() {
                i64::MIN
            } else {
                i64::MAX
            }),
            !n.allowlist_changed,
            n.legacy_bans_last_report_ms == 0,
    {
        let next: i64 = if config.is_active() {
            i64::MIN
        } else {
            i64::MAX
        };
        BtnNetwork {
            config,
            http,
            metadata,
            pow_endpoint: None,
            abilities: Vec::new(),
            config_success: false,
            config_result: BtnConfigStatus::Pending,
            next_config_attempt_ms: next,
            allowlist_changed: false,
            legacy_bans_last_report_ms: 0,
        }
    }

    /// The settings.
    pub fn config(&self) -> (c: &BtnNetworkConfig)
        ensures
            *c == self.config,
    {
        &self.config
    }

    /// Takes new settings at some time, and forgets the last handshake.
    pub fn reload_config_at(&mut self, config: BtnNetworkConfig, now_ms: i64)
        ensures
            *final(self) == (BtnNetwork {
                config,
                config_success: false,
                config_result: BtnConfigStatus::Pending,
                pow_endpoint: None,
                abilities: final(self).abilities,
                next_config_attempt_ms: if config.active() {
                    now_ms
                } else {
                    i64::MAX
                },
                ..*old(self)
            }),
            final(self).abilities@ == Seq::<BtnAbility>::empty(),
    {
        let next: i64 = if config.is_active() {
            now_ms
        } else {
            i64::MAX
        };
        self.config = config;
        self.config_success = false;
        self.config_result = BtnConfigStatus::Pending;
        self.reset_abilities();
        self.next_config_attempt_ms = next;
    }

    /// Takes new settings now, and forgets the last handshake.
    pub fn reload_config(&mut self, config: BtnNetworkConfig)
        ensures
            *final(self) == (BtnNetwork {
                config,
                config_success: false,
                config_result: BtnConfigStatus::Pending,
                pow_endpoint: None,
                abilities: final(self).abilities,
                next_config_attempt_ms: final(self).next_config_attempt_ms,
                ..*old(self)
            }),
            !config.active() ==> final(self).next_config_attempt_ms == i64::MAX,
            final(self).abilities@ == Seq::<BtnAbility>::empty(),
    {
        let now_ms = now_millis();
        self.reload_config_at(config, now_ms);
    }

    /// Forgets what the server offered.
    pub fn reset_abilities(&mut self)
        ensures
            *final(self) == (BtnNetwork {
                pow_endpoint: None,
                abilities: final(self).abilities,
                ..*old(self)
            }),
            final(self).abilities@ == Seq::<BtnAbility>::empty(),
    {
        self.pow_endpoint = None;
        self.abilities = Vec::new();
    }

    /// Whether the last handshake was made.
    pub fn config_success(&self) -> (yes: bool)
        ensures
            yes == self.config_success,
    {
        self.config_success
    }

    /// How the last handshake ended.
    pub fn config_result(&self) -> (s: &BtnConfigStatus)
        ensures
            *s == self.config_result,
    {
        &self.config_result
    }

    /// The abilities in use.
    pub fn abilities(&self) -> (v: &Vec<BtnAbility>)
        ensures
            *v == self.abilities,
    {
        &self.abilities
    }

    /// What is to be done about the handshake at some time.
    pub open spec fn retry_decision(self, now_ms: i64) -> RetryDecision {
        if !self.config.active() {
            RetryDecision::Off
        } else if self.config_success {
            RetryDecision::Done
        } else if now_ms <= self.next_config_attempt_ms {
            RetryDecision::Wait
        } else {
            RetryDecision::Attempt
        }
    }

    /// Decides about the handshake at some time. A client that is switched off forgets an earlier
    /// one.
    pub fn decide_retry(&mut self, now_ms: i64) -> (d: RetryDecision)
        ensures
            d == old(self).retry_decision(now_ms),
            *final(self) == (BtnNetwork {
                config_success: old(self).config_success && d != RetryDecision::Off,
                ..*old(self)
            }),
    {
        if !self.config.is_active() {
            self.config_success = false;
            return RetryDecision::Off;
        }
        if self.config_success {
            return RetryDecision::Done;
        }
        if now_ms <= self.next_config_attempt_ms {
            return RetryDecision::Wait;
        }
        RetryDecision::Attempt
    }

    /// Notes a failed handshake.
    fn fail_config(&mut self, status: BtnConfigStatus, now_ms: i64)
        ensures
            *final(self) == (BtnNetwork {
                config_success: false,
                config_result: status,
                next_config_attempt_ms: retry_time(now_ms),
                ..*old(self)
            }),
    {
        self.config_success = false;
        self.config_result = status;
        self.next_config_attempt_ms = now_ms.wrapping_add(600_000);
    }

    /// Takes over a server's configuration: its abilities, with those texts that are kept for them,
    /// or the reason why it was refused.
    pub fn apply_config_response(&mut self, response: BtnConfigResponse, clock_ms: i64) -> (r: Result<
        Vec<ModuleChange>,
        BtnConfigStatus,
    >)
        ensures
            match r {
                Ok(changes) => {
                    &&& acceptable(response)
                    &&& registers(
                        final(self).abilities@,
                        response,
                        old(self).config.submit,
                        clock_ms,
                    )
                    &&& *final(self) == (BtnNetwork {
                        pow_endpoint: captcha_endpoint(response),
                        abilities: final(self).abilities,
                        allowlist_changed: false,
                        ..*old(self)
                    })
                    &&& change_views(changes@) == load_changes(
                        final(self).abilities@,
                        old(self).metadata.data(),
                        old(self).allowlist_changed,
                    )
                },
                Err(status) => {
                    &&& !acceptable(response)
                    &&& tells_refusal(status, response)
                    &&& *final(self) == *old(self)
                },
            },
    {
        let min = match response.min_protocol_version {
            Some(min) => min,
            None => return Err(missing_field()),
        };
        if BTN_PROTOCOL_IMPL_VERSION < min {
            return Err(
                BtnConfigStatus::ClientTooOld { implemented: BTN_PROTOCOL_IMPL_VERSION, min },
            );
        }
        let max = match response.max_protocol_version {
            Some(max) => max,
            None => return Err(missing_field()),
        };
        if BTN_PROTOCOL_IMPL_VERSION > max {
            return Err(
                BtnConfigStatus::ServerTooOld { implemented: BTN_PROTOCOL_IMPL_VERSION, max },
            );
        }
        self.reset_abilities();
        self.abilities = register_abilities(
            &response.ability,
            min < BTN_PROTOCOL_IMPL_VERSION,
            self.config.submit,
            clock_ms,
        );
        self.pow_endpoint = match response.proof_of_work_captcha {
            Some(pow) => Some(pow.endpoint),
            None => None,
        };
        Ok(self.load_abilities())
    }

    /// Loads the texts that are kept for the abilities in use.
    pub fn load_abilities(&mut self) -> (changes: Vec<ModuleChange>)
        ensures
            change_views(changes@) == load_changes(
                old(self).abilities@,
                old(self).metadata.data(),
                old(self).allowlist_changed,
            ),
            *final(self) == (BtnNetwork { allowlist_changed: false, ..*old(self) }),
    {
        let mut changes: Vec<ModuleChange> = Vec::new();
        let ghost data = self.metadata.data();
        let ghost abilities = self.abilities@;
        let ghost start = *self;
        let mut i: usize = 0;
        assert(change_views(changes@) =~= cached_changes(abilities.take(0), data));
        while i < self.abilities.len()
            invariant
                i <= self.abilities.len(),
                data == self.metadata.data(),
                abilities == self.abilities@,
                *self == (BtnNetwork { allowlist_changed: self.allowlist_changed, ..start }),
                self.allowlist_changed == (start.allowlist_changed || loads_allowlist(
                    abilities.take(i as int),
                    data,
                )),
                change_views(changes@) == cached_changes(abilities.take(i as int), data),
            decreases self.abilities.len() - i,
        {
            let kind = self.abilities[i].kind;
            let ghost before = change_views(changes@);
            let ghost flag = self.allowlist_changed;
            assert(abilities.take(i + 1).drop_last() =~= abilities.take(i as int));
            proof {
                assert forall|k: int| 0 <= k < i implies abilities.take(i + 1)[k] == abilities.take(
                    i as int,
                )[k] by {}
            }
            if let Some(change) = self.cached_for(kind) {
                if matches!(kind, BtnAbilityKind::IpAllowList) {
                    self.allowlist_changed = true;
                }
                changes.push(change);
                assert(change_views(changes@) =~= before.push(change@));
            }
            assert(change_views(changes@) == cached_changes(abilities.take(i + 1), data));
            proof {
                if loads_allowlist(abilities.take(i + 1), data) {
                    let k = choose|k: int|
                        0 <= k < i + 1 && (#[trigger] abilities.take(i + 1)[k]).kind
                            == BtnAbilityKind::IpAllowList;
                    if k < i {
                        assert(abilities.take(i as int)[k].kind == BtnAbilityKind::IpAllowList);
                    }
                }
                if loads_allowlist(abilities.take(i as int), data) {
                    let k = choose|k: int|
                        0 <= k < i && (#[trigger] abilities.take(i as int)[k]).kind
                            == BtnAbilityKind::IpAllowList;
                    assert(abilities.take(i + 1)[k].kind == BtnAbilityKind::IpAllowList);
                }
                if kind == BtnAbilityKind::IpAllowList {
                    assert(abilities.take(i + 1)[i as int].kind == BtnAbilityKind::IpAllowList);
                }
            }
            i += 1;
        }
        assert(abilities.take(i as int) =~= abilities);
        let ghost before = change_views(changes@);
        if self.take_allowlist_change() {
            changes.push(ModuleChange::Unban);
            assert(change_views(changes@) =~= before.push(ChangeView::Unban));
        }
        changes
    }

    /// The change that kept texts call for when an ability of some kind is loaded.
    fn cached_for(&self, kind: BtnAbilityKind) -> (r: Option<ModuleChange>)
        ensures
            match r {
                Some(c) => cached_change(kind, self.metadata.data()) == Some(c@),
                None => cached_change(kind, self.metadata.data()) is None,
            },
    {
        match kind {
            BtnAbilityKind::Rules => match self.metadata.get(CACHE_KEY_RULES) {
                Some(text) => Some(ModuleChange::Ruleset(text)),
                None => None,
            },
            BtnAbilityKind::IpAllowList => match self.metadata.get(CACHE_KEY_IP_ALLOWLIST_VALUE) {
                Some(text) => {
                    let version = self.kept_version(CACHE_KEY_IP_ALLOWLIST_VERSION);
                    Some(ModuleChange::AllowList { text, version })
                },
                None => None,
            },
            BtnAbilityKind::IpDenyList => match self.metadata.get(CACHE_KEY_IP_DENYLIST_VALUE) {
                Some(text) => {
                    let version = self.kept_version(CACHE_KEY_IP_DENYLIST_VERSION);
                    Some(ModuleChange::DenyList { text, version })
                },
                None => None,
            },
            _ => None,
        }
    }

    fn kept_version(&self, key: &str) -> (version: String)
        ensures
            version@ == kept_or(self.metadata.data(), key@, INITIAL_REV@),
    {
        match self.metadata.get(key) {
            Some(version) => version,
            None => INITIAL_REV.to_string(),
        }
    }

    /// Whether the list of allowed addresses changed since this was last asked.
    pub fn take_allowlist_change(&mut self) -> (changed: bool)
        ensures
            changed == old(self).allowlist_changed,
            *final(self) == (BtnNetwork { allowlist_changed: false, ..*old(self) }),
    {
        let changed = self.allowlist_changed;
        self.allowlist_changed = false;
        changed
    }

    /// Ends a handshake with the reply that came: whether it was made, and the changes it calls for.
    pub fn on_config_reply(&mut self, reply: ConfigReply, now_ms: i64, clock_ms: i64) -> (r: (
        bool,
        Vec<ModuleChange>,
    ))
        ensures
            handshake(*old(self), reply, now_ms, clock_ms, *final(self), r.0, change_views(r.1@)),
    {
        match reply {
            ConfigReply::NoReply(message) => {
                let kind = "TransportError".to_string();
                self.fail_config(BtnConfigStatus::Exception { kind, message }, now_ms);
            },
            ConfigReply::Refused { status, body } => {
                self.fail_config(BtnConfigStatus::HttpError { status, body }, now_ms);
            },
            ConfigReply::Unreadable(message) => {
                let kind = "JsonSyntaxException".to_string();
                self.fail_config(BtnConfigStatus::Exception { kind, message }, now_ms);
            },
            ConfigReply::Config(response) => match self.apply_config_response(response, clock_ms) {
                Ok(changes) => {
                    self.config_success = true;
                    self.config_result = BtnConfigStatus::Success { submit: self.config.submit };
                    return (true, changes);
                },
                Err(status) => {
                    self.fail_config(status, now_ms);
                },
            },
        }
        let changes: Vec<ModuleChange> = Vec::new();
        assert(change_views(changes@) =~= Seq::empty());
        (false, changes)
    }
}

/// What a reply makes of a client: `ok` says whether the handshake was made, `changes` what it
/// calls for.
pub open spec fn handshake<H: BtnHttpClient, M: BtnMetadataStore>(
    before: BtnNetwork<H, M>,
    reply: ConfigReply,
    now_ms: i64,
    clock_ms: i64,
    after: BtnNetwork<H, M>,
    ok: bool,
    changes: Seq<ChangeView>,
) -> bool {
    &&& ok == succeeds(reply)
    &&& if ok {
        &&& registers(after.abilities@, reply->Config_0, before.config.submit, clock_ms)
        &&& after == (BtnNetwork {
            pow_endpoint: captcha_endpoint(reply->Config_0),
            abilities: after.abilities,
            allowlist_changed: false,
            config_success: true,
            config_result: BtnConfigStatus::Success { submit: before.config.submit },
            ..before
        })
        &&& changes == load_changes(
            after.abilities@,
            before.metadata.data(),
            before.allowlist_changed,
        )
    } else {
        &&& tells_failure(after.config_result, reply)
        &&& after == (BtnNetwork {
            config_success: false,
            config_result: after.config_result,
            next_config_attempt_ms: retry_time(now_ms),
            ..before
        })
        &&& changes == Seq::<ChangeView>::empty()
    }
}

/// After a failed handshake none is tried for ten minutes, and one is tried after that.
pub proof fn failed_handshake_waits<H: BtnHttpClient, M: BtnMetadataStore>(
    before: BtnNetwork<H, M>,
    reply: ConfigReply,
    now_ms: i64,
    clock_ms: i64,
    after: BtnNetwork<H, M>,
    changes: Seq<ChangeView>,
    later_ms: i64,
)
    requires
        handshake(before, reply, now_ms, clock_ms, after, false, changes),
        before.config.active(),
        now_ms + RETRY_PERIOD_SECONDS * 1000 <= i64::MAX,
    ensures
        after.retry_decision(later_ms) == (if later_ms <= now_ms + RETRY_PERIOD_SECONDS * 1000 {
            RetryDecision::Wait
        } else {
            RetryDecision::Attempt
        }),
{
}

/// A failed handshake leaves the abilities, the kept texts and the settings as they were.
pub proof fn failed_handshake_keeps_the_rules<H: BtnHttpClient, M: BtnMetadataStore>(
    before: BtnNetwork<H, M>,
    reply: ConfigReply,
    now_ms: i64,
    clock_ms: i64,
    after: BtnNetwork<H, M>,
    changes: Seq<ChangeView>,
)
    requires
        handshake(before, reply, now_ms, clock_ms, after, false, changes),
    ensures
        after.abilities == before.abilities,
        after.metadata == before.metadata,
        after.config == before.config,
        after.pow_endpoint == before.pow_endpoint,
        changes.len() == 0,
{
}

/// After a handshake was made none is tried while the settings stay.
pub proof fn made_handshake_lasts<H: BtnHttpClient, M: BtnMetadataStore>(
    before: BtnNetwork<H, M>,
    reply: ConfigReply,
    now_ms: i64,
    clock_ms: i64,
    after: BtnNetwork<H, M>,
    changes: Seq<ChangeView>,
    later_ms: i64,
)
    requires
        handshake(before, reply, now_ms, clock_ms, after, true, changes),
        before.config.active(),
    ensures
        after.retry_decision(later_ms) == RetryDecision::Done,
{
}

// ------------------------------------------------------------------ laws of the handshake
/// A server is understood where the version 20 of the protocol lies between the least and the
/// greatest that it speaks; else the client is too old or the server is, whichever it is.
pub proof fn version_twenty_is_spoken(response: BtnConfigResponse, min: i32, max: i32)
    requires
        response.min_protocol_version == Some(min),
        response.max_protocol_version == Some(max),
    ensures
        acceptable(response) == (min <= 20 && 20 <= max),
        min > 20 ==> forall|s: BtnConfigStatus| #[trigger]
            tells_refusal(s, response) ==> s == (BtnConfigStatus::ClientTooOld {
                implemented: 20,
                min,
            }),
        min <= 20 && max < 20 ==> forall|s: BtnConfigStatus| #[trigger]
            tells_refusal(s, response) ==> s == (BtnConfigStatus::ServerTooOld {
                implemented: 20,
                max,
            }),
{
}

/// A server that does not tell the versions it speaks is refused for the missing field.
pub proof fn versions_must_be_told(response: BtnConfigResponse, s: BtnConfigStatus)
    requires
        response.min_protocol_version is None || (response.min_protocol_version matches Some(m)
            && m <= 20 && response.max_protocol_version is None),
        tells_refusal(s, response),
    ensures
        !acceptable(response),
        s matches BtnConfigStatus::Exception { kind, message } && kind@ == "IllegalStateException"@
            && message@ == "MISSING_VERSION_PROTOCOL_FIELD"@,
{
}

/// After a failed handshake the next is ten minutes later.
pub proof fn handshakes_are_ten_minutes_apart(now_ms: i64)
    requires
        0 <= now_ms,
        now_ms + 600_000 <= i64::MAX,
    ensures
        retry_time(now_ms) - now_ms == 10 * 60 * 1000,
{
}

/// What was kept of an ability is handed on under the ability's own change, with the revision that
/// was kept for it or the first one.
pub proof fn kept_rules_are_handed_on(data: Map<Seq<char>, Seq<char>>, text: Seq<char>, rev: Seq<char>)
    ensures
        cached_change(
            BtnAbilityKind::Rules,
            data.insert("btn.ability.rules.cache"@, text),
        ) == Some(ChangeView::Ruleset(text)),
        cached_change(
            BtnAbilityKind::IpAllowList,
            data.insert("btn.ability.ip_allowlist.cache.version"@, rev).insert(
                "btn.ability.ip_allowlist.cache.value"@,
                text,
            ),
        ) == Some(ChangeView::AllowList(text, rev)),
        cached_change(
            BtnAbilityKind::IpDenyList,
            data.insert("btn.ability.ip_denylist.cache.version"@, rev).insert(
                "btn.ability.ip_denylist.cache.value"@,
                text,
            ),
        ) == Some(ChangeView::DenyList(text, rev)),
        cached_change(
            BtnAbilityKind::IpDenyList,
            Map::empty().insert("btn.ability.ip_denylist.cache.value"@, text),
        ) == Some(ChangeView::DenyList(text, "initial"@)),
        cached_change(
            BtnAbilityKind::IpAllowList,
            Map::empty().insert("btn.ability.ip_allowlist.cache.value"@, text),
        ) == Some(ChangeView::AllowList(text, "initial"@)),
        cached_change(BtnAbilityKind::Rules, Map::empty()) is None,
        cached_change(BtnAbilityKind::IpAllowList, Map::empty()) is None,
        cached_change(BtnAbilityKind::IpDenyList, Map::empty()) is None,
{
    reveal_strlit("btn.ability.ip_allowlist.cache.version");
    reveal_strlit("btn.ability.ip_allowlist.cache.value");
    reveal_strlit("btn.ability.ip_denylist.cache.version");
    reveal_strlit("btn.ability.ip_denylist.cache.value");
    assert("btn.ability.ip_allowlist.cache.version"@.len()
        != "btn.ability.ip_allowlist.cache.value"@.len());
    assert("btn.ability.ip_denylist.cache.version"@.len()
        != "btn.ability.ip_denylist.cache.value"@.len());
}

/// The changes of a list of abilities come in the order of the abilities.
pub proof fn kept_rules_come_in_order(
    abilities: Seq<BtnAbility>,
    a: BtnAbility,
    data: Map<Seq<char>, Seq<char>>,
)
    ensures
        cached_changes(abilities.push(a), data) == cached_changes(abilities, data) + (
        match cached_change(a.kind, data) {
            Some(c) => seq![c],
            None => Seq::empty(),
        }),
{
    assert(abilities.push(a).drop_last() =~= abilities);
}

/// A change of the allowed addresses asks for the bans to be looked at again, after all else.
pub proof fn allowed_addresses_are_let_go(
    abilities: Seq<BtnAbility>,
    data: Map<Seq<char>, Seq<char>>,
    changed_before: bool,
    i: int,
)
    requires
        0 <= i < abilities.len(),
        abilities[i].kind == BtnAbilityKind::IpAllowList,
    ensures
        data.contains_key("btn.ability.ip_allowlist.cache.value"@) ==> load_changes(
            abilities,
            data,
            changed_before,
        ).last() == ChangeView::Unban,
        changed_before ==> load_changes(abilities, data, changed_before).last()
            == ChangeView::Unban,
        !changed_before && !data.contains_key("btn.ability.ip_allowlist.cache.value"@)
            ==> load_changes(abilities, data, changed_before) == cached_changes(abilities, data),
{
}

/// A client that is off does nothing; one whose handshake was made has nothing to do; else it waits
/// for its time and then tries.
pub proof fn handshakes_are_tried_in_time<H: BtnHttpClient, M: BtnMetadataStore>(
    n: BtnNetwork<H, M>,
    now_ms: i64,
)
    ensures
        !n.config.active() ==> n.retry_decision(now_ms) == RetryDecision::Off,
        n.config.active() && n.config_success ==> n.retry_decision(now_ms) == RetryDecision::Done,
        n.config.active() && !n.config_success && now_ms <= n.next_config_attempt_ms
            ==> n.retry_decision(now_ms) == RetryDecision::Wait,
        n.config.active() && !n.config_success && now_ms > n.next_config_attempt_ms
            ==> n.retry_decision(now_ms) == RetryDecision::Attempt,
{
}

/// A failed handshake tells why: the request's own error, the code and text of the refusal, or what
/// is wrong with the document.
pub proof fn failures_are_told(s: BtnConfigStatus, message: String, code: u16, body: String)
    ensures
        tells_failure(s, ConfigReply::NoReply(message)) ==> (
        s matches BtnConfigStatus::Exception { kind, message: m } && kind@ == "TransportError"@ && m@
            == message@),
        tells_failure(s, ConfigReply::Refused { status: code, body }) ==> (
        s matches BtnConfigStatus::HttpError { status, body: b } && status == code && b@ == body@),
        tells_failure(s, ConfigReply::Unreadable(message)) ==> (
        s matches BtnConfigStatus::Exception { kind, message: m } && kind@ == "JsonSyntaxException"@
            && m@ == message@),
        !succeeds(ConfigReply::NoReply(message)),
        !succeeds(ConfigReply::Refused { status: code, body }),
        !succeeds(ConfigReply::Unreadable(message)),
{
}

/// A server whose least version is below 20 is an older one, and is registered with as such.
pub proof fn older_servers_get_older_abilities(
    abilities: Seq<BtnAbility>,
    response: BtnConfigResponse,
    min: i32,
    submit: bool,
    clock_ms: i64,
)
    requires
        response.min_protocol_version == Some(min),
        registers(abilities, response, submit, clock_ms),
    ensures
        min < 20 ==> abilities.len() == offered(
            registration(true, submit),
            response.ability@,
        ).len() && (forall|i: int|
            0 <= i < abilities.len() ==> (#[trigger] abilities[i]).kind == offered(
                registration(true, submit),
                response.ability@,
            )[i].1),
        min >= 20 ==> abilities.len() == offered(
            registration(false, submit),
            response.ability@,
        ).len() && (forall|i: int|
            0 <= i < abilities.len() ==> (#[trigger] abilities[i]).kind == offered(
                registration(false, submit),
                response.ability@,
            )[i].1),
{
}

} // verus!
