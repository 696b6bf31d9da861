//! What a BTN server offers: its settings, the kinds of abilities and how they are registered.

use vstd::prelude::*;
use crate::banlist::text_or_empty;
use crate::text::{blank, chars_of, clone_opt, concat3, decimal_int, i64_text, is_blank_text, push_text, str_eq, string_of};
use crate::textmap::TextMap;

verus! {

/// The version of the BTN protocol that is spoken.
pub const BTN_PROTOCOL_IMPL_VERSION: i32 = 20;

pub const LANG_MISSING_VERSION_PROTOCOL_FIELD: &'static str = "MISSING_VERSION_PROTOCOL_FIELD";

pub const LANG_BTN_PROTOCOL_VERSION_CLIENT: &'static str =
    "BTN_CONFIG_STATUS_UNSUCCESSFUL_INCOMPATIBLE_BTN_PROTOCOL_VERSION_CLIENT";

pub const LANG_BTN_PROTOCOL_VERSION_SERVER: &'static str =
    "BTN_CONFIG_STATUS_UNSUCCESSFUL_INCOMPATIBLE_BTN_PROTOCOL_VERSION_SERVER";

pub const LANG_BTN_CONFIGURE_SYNC_SERVER: &'static str = "BTN_CONFIGURE_SYNC_SERVER";

pub const LANG_BTN_CONFIG_STATUS_SUCCESSFUL: &'static str = "BTN_CONFIG_STATUS_SUCCESSFUL";

pub const LANG_BTN_CONFIG_STATUS_SUCCESSFUL_READ_ONLY: &'static str =
    "BTN_CONFIG_STATUS_SUCCESSFUL_READ_ONLY";

pub const LANG_BTN_CONFIG_STATUS_UNSUCCESSFUL_HTTP_REQUEST: &'static str =
    "BTN_CONFIG_STATUS_UNSUCCESSFUL_HTTP_REQUEST";

pub const LANG_BTN_CONFIG_STATUS_EXCEPTION: &'static str = "BTN_CONFIG_STATUS_EXCEPTION";

/// Settings of the BTN client.
#[derive(Debug, Clone, PartialEq, Eq)]
pub struct BtnNetworkConfig {
    pub enabled: bool,
    pub config_url: String,
    pub submit: bool,
    pub app_id: String,
    pub app_secret: String,
    pub allow_script_execute: bool,
    pub installation_id: String,
}

impl Default for BtnNetworkConfig {
    fn default() -> (c: Self)
        ensures
            !c.enabled,
            c.config_url@.len() == 0,
            !c.submit,
            c.app_id@.len() == 0,
            c.app_secret@.len() == 0,
            !c.allow_script_execute,
            c.installation_id@.len() == 0,
    {
        BtnNetworkConfig {
            enabled: false,
            config_url: String::new(),
            submit: false,
            app_id: String::new(),
            app_secret: String::new(),
            allow_script_execute: false,
            installation_id: String::new(),
        }
    }
}

impl BtnNetworkConfig {
    /// Whether the client does anything at all: it is switched on and has a server.
    pub open spec fn active(self) -> bool {
        self.enabled && !blank(self.config_url@)
    }

    /// Whether the client does anything at all.
    pub fn is_active(&self) -> (yes: bool)
        ensures
            yes == self.active(),
    {
        self.enabled && !is_blank_text(self.config_url.as_str())
    }

    /// Whether the account is anonymous: its identifier or secret is blank or a placeholder.
    pub open spec fn anonymous(self) -> bool {
        ||| blank(self.app_id@)
        ||| self.app_id@ == "example-app-id"@
        ||| blank(self.app_secret@)
        ||| self.app_secret@ == "example-app-secret"@
    }

    /// Whether the account is anonymous.
    pub fn is_anonymous(&self) -> (yes: bool)
        ensures
            yes == self.anonymous(),
    {
        let id_ok = !is_blank_text(self.app_id.as_str()) && !str_eq(
            self.app_id.as_str(),
            "example-app-id",
        );
        let secret_ok = !is_blank_text(self.app_secret.as_str()) && !str_eq(
            self.app_secret.as_str(),
            "example-app-secret",
        );
        !(id_ok && secret_ok)
    }
}

// ----------------------------------------------------------------------- kinds
/// The kinds of abilities.
#[derive(Clone, Copy, PartialEq, Eq, Structural, Debug)]
pub enum BtnAbilityKind {
    Rules,
    IpAllowList,
    IpDenyList,
    SubmitBans,
    SubmitSwarm,
    SubmitHistories,
    Heartbeat,
    Reconfigure,
    IpQuery,
    LegacySubmitPeers,
    LegacySubmitBans,
    Other,
}

impl BtnAbilityKind {
    /// The kind of a key, whatever the protocol version.
    pub open spec fn of_key(key: Seq<char>) -> BtnAbilityKind {
        if key == "rules"@ || key == "rule_peer_identity"@ {
            BtnAbilityKind::Rules
        } else if key == "ip_allowlist"@ {
            BtnAbilityKind::IpAllowList
        } else if key == "ip_denylist"@ {
            BtnAbilityKind::IpDenyList
        } else if key == "submit_bans"@ {
            BtnAbilityKind::SubmitBans
        } else if key == "submit_swarm"@ {
            BtnAbilityKind::SubmitSwarm
        } else if key == "submit_histories"@ {
            BtnAbilityKind::SubmitHistories
        } else if key == "heartbeat"@ {
            BtnAbilityKind::Heartbeat
        } else if key == "reconfigure"@ {
            BtnAbilityKind::Reconfigure
        } else if key == "ip_query"@ {
            BtnAbilityKind::IpQuery
        } else if key == "submit_peers"@ {
            BtnAbilityKind::LegacySubmitPeers
        } else {
            BtnAbilityKind::Other
        }
    }

    /// The kind of a key, whatever the protocol version.
    pub fn from_json_key(key: &str) -> (kind: Self)
        ensures
            kind == BtnAbilityKind::of_key(key@),
    {
        if str_eq(key, "rules") || str_eq(key, "rule_peer_identity") {
            BtnAbilityKind::Rules
        } else if str_eq(key, "ip_allowlist") {
            BtnAbilityKind::IpAllowList
        } else if str_eq(key, "ip_denylist") {
            BtnAbilityKind::IpDenyList
        } else if str_eq(key, "submit_bans") {
            BtnAbilityKind::SubmitBans
        } else if str_eq(key, "submit_swarm") {
            BtnAbilityKind::SubmitSwarm
        } else if str_eq(key, "submit_histories") {
            BtnAbilityKind::SubmitHistories
        } else if str_eq(key, "heartbeat") {
            BtnAbilityKind::Heartbeat
        } else if str_eq(key, "reconfigure") {
            BtnAbilityKind::Reconfigure
        } else if str_eq(key, "ip_query") {
            BtnAbilityKind::IpQuery
        } else if str_eq(key, "submit_peers") {
            BtnAbilityKind::LegacySubmitPeers
        } else {
            BtnAbilityKind::Other
        }
    }

    /// The key of a kind in the current protocol.
    pub open spec fn key_text(self) -> Seq<char> {
        match self {
            BtnAbilityKind::Rules => "rule_peer_identity"@,
            BtnAbilityKind::IpAllowList => "ip_allowlist"@,
            BtnAbilityKind::IpDenyList => "ip_denylist"@,
            BtnAbilityKind::SubmitBans => "submit_bans"@,
            BtnAbilityKind::SubmitSwarm => "submit_swarm"@,
            BtnAbilityKind::SubmitHistories => "submit_histories"@,
            BtnAbilityKind::Heartbeat => "heartbeat"@,
            BtnAbilityKind::Reconfigure => "reconfigure"@,
            BtnAbilityKind::IpQuery => "ip_query"@,
            BtnAbilityKind::LegacySubmitPeers => "submit_peers"@,
            BtnAbilityKind::LegacySubmitBans => "submit_bans"@,
            BtnAbilityKind::Other => "unknown"@,
        }
    }

    /// The key of the kind in the current protocol.
    pub fn json_key(self) -> (key: &'static str)
        ensures
            key@ == self.key_text(),
    {
        match self {
            BtnAbilityKind::Rules => "rule_peer_identity",
            BtnAbilityKind::IpAllowList => "ip_allowlist",
            BtnAbilityKind::IpDenyList => "ip_denylist",
            BtnAbilityKind::SubmitBans => "submit_bans",
            BtnAbilityKind::SubmitSwarm => "submit_swarm",
            BtnAbilityKind::SubmitHistories => "submit_histories",
            BtnAbilityKind::Heartbeat => "heartbeat",
            BtnAbilityKind::Reconfigure => "reconfigure",
            BtnAbilityKind::IpQuery => "ip_query",
            BtnAbilityKind::LegacySubmitPeers => "submit_peers",
            BtnAbilityKind::LegacySubmitBans => "submit_bans",
            BtnAbilityKind::Other => "unknown",
        }
    }

    /// The name under which a proof of work is asked for: the key, but for histories.
    pub open spec fn pow_text(self) -> Seq<char> {
        if self == BtnAbilityKind::SubmitHistories {
            "submit_history"@
        } else {
            self.key_text()
        }
    }

    /// The name under which a proof of work is asked for.
    pub fn pow_type(self) -> (name: &'static str)
        ensures
            name@ == self.pow_text(),
    {
        match self {
            BtnAbilityKind::SubmitHistories => "submit_history",
            _ => self.json_key(),
        }
    }

    /// Whether the kind is known.
    pub fn is_implemented(self) -> (yes: bool)
        ensures
            yes == (self != BtnAbilityKind::Other),
    {
        !matches!(self, BtnAbilityKind::Other)
    }

    /// Whether abilities of the kind are run from time to time: queries are made only on request.
    pub open spec fn scheduled(self) -> bool {
        self != BtnAbilityKind::IpQuery && self != BtnAbilityKind::Other
    }

    /// Whether abilities of the kind are run from time to time.
    pub fn is_scheduled(self) -> (yes: bool)
        ensures
            yes == self.scheduled(),
    {
        !matches!(self, BtnAbilityKind::IpQuery | BtnAbilityKind::Other)
    }

    /// The display name of a kind.
    pub open spec fn display_name(self) -> Seq<char> {
        match self {
            BtnAbilityKind::Rules => "BtnAbilityRules"@,
            BtnAbilityKind::IpAllowList => "BtnAbilityIPAllowList"@,
            BtnAbilityKind::IpDenyList => "BtnAbilityIPDenyList"@,
            BtnAbilityKind::SubmitBans => "BtnAbilitySubmitBans"@,
            BtnAbilityKind::SubmitSwarm => "BtnAbilitySubmitSwarm"@,
            BtnAbilityKind::SubmitHistories => "BtnAbilitySubmitHistory"@,
            BtnAbilityKind::Heartbeat => "BtnAbilityHeartBeat"@,
            BtnAbilityKind::Reconfigure => "BtnAbilityReconfigure"@,
            BtnAbilityKind::IpQuery => "BtnAbilityIpQuery"@,
            BtnAbilityKind::LegacySubmitPeers => "LegacyBtnAbilitySubmitPeers"@,
            BtnAbilityKind::LegacySubmitBans => "LegacyBtnAbilitySubmitBans"@,
            BtnAbilityKind::Other => "BtnAbility(Unsupported)"@,
        }
    }

    /// The display name of the kind.
    pub fn upstream_name(self) -> (name: &'static str)
        ensures
            name@ == self.display_name(),
    {
        match self {
            BtnAbilityKind::Rules => "BtnAbilityRules",
            BtnAbilityKind::IpAllowList => "BtnAbilityIPAllowList",
            BtnAbilityKind::IpDenyList => "BtnAbilityIPDenyList",
            BtnAbilityKind::SubmitBans => "BtnAbilitySubmitBans",
            BtnAbilityKind::SubmitSwarm => "BtnAbilitySubmitSwarm",
            BtnAbilityKind::SubmitHistories => "BtnAbilitySubmitHistory",
            BtnAbilityKind::Heartbeat => "BtnAbilityHeartBeat",
            BtnAbilityKind::Reconfigure => "BtnAbilityReconfigure",
            BtnAbilityKind::IpQuery => "BtnAbilityIpQuery",
            BtnAbilityKind::LegacySubmitPeers => "LegacyBtnAbilitySubmitPeers",
            BtnAbilityKind::LegacySubmitBans => "LegacyBtnAbilitySubmitBans",
            BtnAbilityKind::Other => "BtnAbility(Unsupported)",
        }
    }
}

/// The key of a kind leads back to it, but for the older report of bans, which shares its key with
/// the current one.
pub proof fn key_leads_back_to_its_kind(kind: BtnAbilityKind)
    requires
        kind != BtnAbilityKind::LegacySubmitBans,
    ensures
        BtnAbilityKind::of_key(kind.key_text()) == kind,
{
    reveal_strlit("rules");
    reveal_strlit("rule_peer_identity");
    reveal_strlit("ip_allowlist");
    reveal_strlit("ip_denylist");
    reveal_strlit("submit_bans");
    reveal_strlit("submit_swarm");
    reveal_strlit("submit_histories");
    reveal_strlit("heartbeat");
    reveal_strlit("reconfigure");
    reveal_strlit("ip_query");
    reveal_strlit("submit_peers");
    reveal_strlit("unknown");
    assert("rules"@.len() == 5);
    assert("rule_peer_identity"@.len() == 18);
    assert("ip_allowlist"@.len() == 12);
    assert("ip_denylist"@.len() == 11);
    assert("submit_bans"@.len() == 11);
    assert("submit_swarm"@.len() == 12);
    assert("submit_histories"@.len() == 16);
    assert("heartbeat"@.len() == 9);
    assert("reconfigure"@.len() == 11);
    assert("ip_query"@.len() == 8);
    assert("submit_peers"@.len() == 12);
    assert("unknown"@.len() == 7);
    assert("ip_allowlist"@[0] == 'i');
    assert("submit_swarm"@[0] == 's' && "submit_swarm"@[7] == 's');
    assert("submit_peers"@[0] == 's' && "submit_peers"@[7] == 'p');
    assert("submit_bans"@[0] == 's');
    assert("ip_denylist"@[0] == 'i');
    assert("reconfigure"@[0] == 'r');
}

// ---------------------------------------------------------------- server's offer
/// A challenge for a proof of work.
#[derive(Debug, Clone, PartialEq, Eq)]
pub struct PowCaptchaData {
    pub id: String,
    pub challenge_base64: String,
    pub difficulty_bits: i32,
    pub algorithm: String,
    pub expire_at: i64,
}

impl Default for PowCaptchaData {
    fn default() -> (v: Self)
        ensures
            v.id@.len() == 0,
            v.challenge_base64@.len() == 0,
            v.difficulty_bits == 0,
            v.algorithm@.len() == 0,
            v.expire_at == 0,
    {
        PowCaptchaData {
            id: String::new(),
            challenge_base64: String::new(),
            difficulty_bits: 0,
            algorithm: String::new(),
            expire_at: 0,
        }
    }
}

/// Where challenges are asked for.
#[derive(Debug, Clone, PartialEq, Eq)]
pub struct PowCaptchaEndpoint {
    pub endpoint: String,
}

impl Default for PowCaptchaEndpoint {
    fn default() -> (v: Self)
        ensures
            v.endpoint@.len() == 0,
    {
        PowCaptchaEndpoint {
            endpoint: String::new(),
        }
    }
}

/// An ability as the server describes it.
#[derive(Debug, Clone, PartialEq, Eq)]
pub struct BtnAbilitySpec {
    pub endpoint: Option<String>,
    pub interval: Option<i64>,
    pub random_initial_delay: Option<i64>,
    pub pow_captcha: Option<bool>,
    pub multi_if: Option<bool>,
    pub version: Option<String>,
}

impl Default for BtnAbilitySpec {
    fn default() -> (v: Self)
        ensures
            v.endpoint is None,
            v.interval is None,
            v.random_initial_delay is None,
            v.pow_captcha is None,
            v.multi_if is None,
            v.version is None,
    {
        BtnAbilitySpec {
            endpoint: None,
            interval: None,
            random_initial_delay: None,
            pow_captcha: None,
            multi_if: None,
            version: None,
        }
    }
}

/// What a server answers to the request for its configuration.
#[derive(Debug)]
pub struct BtnConfigResponse {
    pub min_protocol_version: Option<i32>,
    pub max_protocol_version: Option<i32>,
    pub proof_of_work_captcha: Option<PowCaptchaEndpoint>,
    pub ability: TextMap<BtnAbilitySpec>,
}

impl Default for BtnConfigResponse {
    fn default() -> (v: Self)
        ensures
            v.min_protocol_version is None,
            v.max_protocol_version is None,
            v.proof_of_work_captcha is None,
            v.ability@ == Map::<Seq<char>, BtnAbilitySpec>::empty(),
    {
        BtnConfigResponse {
            min_protocol_version: None,
            max_protocol_version: None,
            proof_of_work_captcha: None,
            ability: TextMap::new(),
        }
    }
}

/// What a server answers to a heartbeat.
#[derive(Debug, Clone, PartialEq, Eq)]
pub struct BtnHeartbeatResponse {
    pub external_ip: Option<String>,
}

impl Default for BtnHeartbeatResponse {
    fn default() -> (v: Self)
        ensures
            v.external_ip is None,
    {
        BtnHeartbeatResponse {
            external_ip: None,
        }
    }
}

/// An ability in use.
#[derive(Debug, Clone, PartialEq, Eq)]
pub struct BtnAbility {
    pub kind: BtnAbilityKind,
    pub key: String,
    pub endpoint: String,
    pub interval_ms: i64,
    pub random_initial_delay_ms: i64,
    pub pow_captcha: bool,
    pub multi_if: bool,
    pub reconfigure_version: Option<String>,
    pub last_status: bool,
    pub last_status_at_ms: i64,
    pub next_due_ms: i64,
}

/// Whether an ability is as its description says, not run yet, of the given kind and due.
pub open spec fn is_ability(
    a: BtnAbility,
    key: Seq<char>,
    kind: BtnAbilityKind,
    described: BtnAbilitySpec,
    due_ms: i64,
) -> bool {
    &&& a.kind == kind
    &&& a.key@ == key
    &&& a.endpoint@ == text_or_empty(described.endpoint)
    &&& a.interval_ms == number_or(described.interval, 0)
    &&& a.random_initial_delay_ms == number_or(described.random_initial_delay, 0)
    &&& a.pow_captcha == (described.pow_captcha == Some(true))
    &&& a.multi_if == (described.multi_if == Some(true))
    &&& a.reconfigure_version == described.version
    &&& a.last_status
    &&& a.last_status_at_ms == 0
    &&& a.next_due_ms == due_ms
}

/// A number, or `default` where there is none.
pub open spec fn number_or(o: Option<i64>, default: i64) -> i64 {
    match o {
        Some(v) => v,
        None => default,
    }
}

impl BtnAbility {
    /// The ability of a description, never due so far.
    pub fn from_spec(key: &str, ability: &BtnAbilitySpec) -> (a: Self)
        ensures
            is_ability(a, key@, BtnAbilityKind::of_key(key@), *ability, i64::MAX),
    {
        let endpoint = match &ability.endpoint {
            Some(e) => e.clone(),
            None => String::new(),
        };
        BtnAbility {
            kind: BtnAbilityKind::from_json_key(key),
            key: key.to_string(),
            endpoint,
            interval_ms: ability.interval.unwrap_or(0),
            random_initial_delay_ms: ability.random_initial_delay.unwrap_or(0),
            pow_captcha: ability.pow_captcha.unwrap_or(false),
            multi_if: ability.multi_if.unwrap_or(false),
            reconfigure_version: clone_opt(&ability.version),
            last_status: true,
            last_status_at_ms: 0,
            next_due_ms: i64::MAX,
        }
    }
}

// -------------------------------------------------------------- initial delays
/// The FNV-1a hash of bytes.
pub open spec fn fnv(b: Seq<u8>) -> u64
    decreases b.len(),
{
    if b.len() == 0 {
        0xCBF2_9CE4_8422_2325
    } else {
        (fnv(b.drop_last()) ^ (b.last() as u64)).wrapping_mul(0x100_0000_01B3)
    }
}

/// A number below the bound that a text determines; zero where the bound is not positive.
pub open spec fn pseudo_random_of(seed: Seq<char>, bound: i64) -> i64 {
    if bound <= 0 {
        0
    } else {
        (fnv(vstd::utf8::encode_utf8(seed)) as int % (bound as int)) as i64
    }
}

/// A number below the bound that a text determines; zero where the bound is not positive.
pub fn pseudo_random(seed: &str, bound: i64) -> (v: i64)
    ensures
        v == pseudo_random_of(seed@, bound),
        bound > 0 ==> 0 <= v < bound,
        bound <= 0 ==> v == 0,
{
    if bound <= 0 {
        return 0;
    }
    let bytes = seed.as_bytes();
    let mut hash: u64 = 0xCBF2_9CE4_8422_2325;
    let mut i: usize = 0;
    assert(bytes@.take(0) =~= Seq::empty());
    while i < bytes.len()
        invariant
            i <= bytes.len(),
            hash == fnv(bytes@.take(i as int)),
        decreases bytes.len() - i,
    {
        assert(bytes@.take(i + 1).drop_last() =~= bytes@.take(i as int));
        hash = (hash ^ (bytes[i] as u64)).wrapping_mul(0x100_0000_01B3);
        i += 1;
    }
    assert(bytes@.take(i as int) =~= bytes@);
    (hash % (bound as u64)) as i64
}

// ---------------------------------------------------------------- registration
/// The keys that are looked for in a server's offer and the kinds they have there, in order. An
/// older server (`legacy`) has other abilities; reports are made only where `submit` is set.
pub open spec fn registration(legacy: bool, submit: bool) -> Seq<(Seq<char>, BtnAbilityKind)> {
    let reports = if !submit {
        Seq::empty()
    } else if legacy {
        seq![
            ("submit_peers"@, BtnAbilityKind::LegacySubmitPeers),
            ("submit_bans"@, BtnAbilityKind::LegacySubmitBans),
        ]
    } else {
        seq![
            ("submit_bans"@, BtnAbilityKind::SubmitBans),
            ("submit_swarm"@, BtnAbilityKind::SubmitSwarm),
        ]
    };
    let rules = if legacy {
        seq![("rules"@, BtnAbilityKind::Rules)]
    } else {
        seq![
            ("ip_denylist"@, BtnAbilityKind::IpDenyList),
            ("ip_allowlist"@, BtnAbilityKind::IpAllowList),
            ("rule_peer_identity"@, BtnAbilityKind::Rules),
        ]
    };
    let histories = if submit {
        seq![("submit_histories"@, BtnAbilityKind::SubmitHistories)]
    } else {
        Seq::empty()
    };
    reports + rules + histories + seq![
        ("reconfigure"@, BtnAbilityKind::Reconfigure),
        ("heartbeat"@, BtnAbilityKind::Heartbeat),
        ("ip_query"@, BtnAbilityKind::IpQuery),
    ]
}

/// Keys and kinds by their views.
pub open spec fn key_views(v: Seq<(&'static str, BtnAbilityKind)>) -> Seq<
    (Seq<char>, BtnAbilityKind),
> {
    Seq::new(v.len(), |i: int| (v[i].0@, v[i].1))
}

fn registration_keys(legacy: bool, submit: bool) -> (v: Vec<(&'static str, BtnAbilityKind)>)
    ensures
        key_views(v@) == registration(legacy, submit),
{
    let mut v: Vec<(&'static str, BtnAbilityKind)> = Vec::new();
    if submit {
        if legacy {
            v.push(("submit_peers", BtnAbilityKind::LegacySubmitPeers));
            v.push(("submit_bans", BtnAbilityKind::LegacySubmitBans));
        } else {
            v.push(("submit_bans", BtnAbilityKind::SubmitBans));
            v.push(("submit_swarm", BtnAbilityKind::SubmitSwarm));
        }
    }
    if legacy {
        v.push(("rules", BtnAbilityKind::Rules));
    } else {
        v.push(("ip_denylist", BtnAbilityKind::IpDenyList));
        v.push(("ip_allowlist", BtnAbilityKind::IpAllowList));
        v.push(("rule_peer_identity", BtnAbilityKind::Rules));
    }
    if submit {
        v.push(("submit_histories", BtnAbilityKind::SubmitHistories));
    }
    v.push(("reconfigure", BtnAbilityKind::Reconfigure));
    v.push(("heartbeat", BtnAbilityKind::Heartbeat));
    v.push(("ip_query", BtnAbilityKind::IpQuery));
    assert(key_views(v@) =~= registration(legacy, submit));
    v
}

/// Those keys that the server offers.
pub open spec fn offered(
    list: Seq<(Seq<char>, BtnAbilityKind)>,
    specs: Map<Seq<char>, BtnAbilitySpec>,
) -> Seq<(Seq<char>, BtnAbilityKind)>
    decreases list.len(),
{
    if list.len() == 0 {
        list
    } else {
        let rest = offered(list.drop_last(), specs);
        if specs.contains_key(list.last().0) {
            rest.push(list.last())
        } else {
            rest
        }
    }
}

/// When an ability is first due: after its initial delay.
pub open spec fn first_due(clock_ms: i64, key: Seq<char>, ability: BtnAbilitySpec) -> i64 {
    clock_ms.wrapping_add(pseudo_random_of(key, number_or(ability.random_initial_delay, 0)))
}

/// Whether abilities are those offered, in order, each first due after its initial delay.
pub open spec fn are_registered(
    abilities: Seq<BtnAbility>,
    keys: Seq<(Seq<char>, BtnAbilityKind)>,
    specs: Map<Seq<char>, BtnAbilitySpec>,
    clock_ms: i64,
) -> bool {
    &&& abilities.len() == keys.len()
    &&& forall|i: int|
        0 <= i < keys.len() ==> is_ability(
            #[trigger] abilities[i],
            keys[i].0,
            keys[i].1,
            specs[keys[i].0],
            first_due(clock_ms, keys[i].0, specs[keys[i].0]),
        )
}

/// Registers what a server offers.
pub fn register_abilities(
    offer: &TextMap<BtnAbilitySpec>,
    legacy: bool,
    submit: bool,
    clock_ms: i64,
) -> (abilities: Vec<BtnAbility>)
    ensures
        are_registered(
            abilities@,
            offered(registration(legacy, submit), offer@),
            offer@,
            clock_ms,
        ),
{
    let keys = registration_keys(legacy, submit);
    let ghost list = key_views(keys@);
    let mut abilities: Vec<BtnAbility> = Vec::new();
    let mut i: usize = 0;
    assert(list.take(0) =~= Seq::empty());
    while i < keys.len()
        invariant
            i <= keys.len(),
            list == key_views(keys@),
            are_registered(
                abilities@,
                offered(list.take(i as int), offer@),
                offer@,
                clock_ms,
            ),
        decreases keys.len() - i,
    {
        let ghost before = abilities@;
        let ghost old_keys = offered(list.take(i as int), offer@);
        assert(list.take(i + 1).drop_last() =~= list.take(i as int));
        let (key, kind) = keys[i];
        if let Some(description) = offer.get(key) {
            let mut ability = BtnAbility::from_spec(key, description);
            ability.kind = kind;
            let delay = pseudo_random(key, ability.random_initial_delay_ms);
            ability.next_due_ms = clock_ms.wrapping_add(delay);
            abilities.push(ability);
            proof {
                let new_keys = offered(list.take(i + 1), offer@);
                assert(new_keys == old_keys.push(list[i as int]));
                assert forall|k: int| 0 <= k < new_keys.len() implies is_ability(
                    #[trigger] abilities@[k],
                    new_keys[k].0,
                    new_keys[k].1,
                    offer@[new_keys[k].0],
                    first_due(clock_ms, new_keys[k].0, offer@[new_keys[k].0]),
                ) by {
                    if k < before.len() {
                        assert(abilities@[k] == before[k]);
                        assert(new_keys[k] == old_keys[k]);
                    }
                }
            }
        }
        i += 1;
    }
    assert(list.take(i as int) =~= list);
    abilities
}

/// An older server's offer never gives address lists, and without leave to report no ability
/// reports anything.
pub proof fn registration_respects_the_switches(legacy: bool, submit: bool, i: int)
    requires
        0 <= i < registration(legacy, submit).len(),
    ensures
        legacy ==> registration(legacy, submit)[i].1 != BtnAbilityKind::IpAllowList
            && registration(legacy, submit)[i].1 != BtnAbilityKind::IpDenyList,
        !submit ==> {
            let kind = registration(legacy, submit)[i].1;
            &&& kind != BtnAbilityKind::SubmitBans
            &&& kind != BtnAbilityKind::SubmitSwarm
            &&& kind != BtnAbilityKind::SubmitHistories
            &&& kind != BtnAbilityKind::LegacySubmitPeers
            &&& kind != BtnAbilityKind::LegacySubmitBans
        },
{
}

// ---------------------------------------------------------------------- status
/// How the request for a server's configuration ended.
#[derive(Debug, Clone, PartialEq, Eq)]
pub enum BtnConfigStatus {
    /// None was made yet.
    Pending,
    Success { submit: bool },
    /// The reply was no success.
    HttpError { status: u16, body: String },
    /// The server wants a newer client.
    ClientTooOld { implemented: i32, min: i32 },
    /// The server is older than the client can speak to.
    ServerTooOld { implemented: i32, max: i32 },
    /// Anything else.
    Exception { kind: String, message: String },
}

impl BtnConfigStatus {
    /// Whether the configuration was taken.
    pub fn is_success(&self) -> (yes: bool)
        ensures
            yes == (self is Success),
    {
        matches!(self, BtnConfigStatus::Success { .. })
    }

    /// The message key of a status.
    pub open spec fn lang_text(self) -> Seq<char> {
        match self {
            BtnConfigStatus::Pending => LANG_BTN_CONFIGURE_SYNC_SERVER@,
            BtnConfigStatus::Success { submit } => if submit {
                LANG_BTN_CONFIG_STATUS_SUCCESSFUL@
            } else {
                LANG_BTN_CONFIG_STATUS_SUCCESSFUL_READ_ONLY@
            },
            BtnConfigStatus::HttpError { status, body } =>
                LANG_BTN_CONFIG_STATUS_UNSUCCESSFUL_HTTP_REQUEST@,
            BtnConfigStatus::ClientTooOld { implemented, min } => LANG_BTN_PROTOCOL_VERSION_CLIENT@,
            BtnConfigStatus::ServerTooOld { implemented, max } => LANG_BTN_PROTOCOL_VERSION_SERVER@,
            BtnConfigStatus::Exception { kind, message } => LANG_BTN_CONFIG_STATUS_EXCEPTION@,
        }
    }

    /// The message key of the status.
    pub fn lang_key(&self) -> (key: &'static str)
        ensures
            key@ == self.lang_text(),
    {
        match self {
            BtnConfigStatus::Pending => LANG_BTN_CONFIGURE_SYNC_SERVER,
            BtnConfigStatus::Success { submit } => if *submit {
                LANG_BTN_CONFIG_STATUS_SUCCESSFUL
            } else {
                LANG_BTN_CONFIG_STATUS_SUCCESSFUL_READ_ONLY
            },
            BtnConfigStatus::HttpError { .. } => LANG_BTN_CONFIG_STATUS_UNSUCCESSFUL_HTTP_REQUEST,
            BtnConfigStatus::ClientTooOld { .. } => LANG_BTN_PROTOCOL_VERSION_CLIENT,
            BtnConfigStatus::ServerTooOld { .. } => LANG_BTN_PROTOCOL_VERSION_SERVER,
            BtnConfigStatus::Exception { .. } => LANG_BTN_CONFIG_STATUS_EXCEPTION,
        }
    }
}

/// The details of a status for the log.
pub open spec fn status_text(status: BtnConfigStatus) -> Seq<char> {
    match status {
        BtnConfigStatus::Pending => "pending"@,
        BtnConfigStatus::Success { submit } => if submit {
            "submit=true"@
        } else {
            "submit=false"@
        },
        BtnConfigStatus::HttpError { status, body } => decimal_int(status as int) + " - "@ + body@,
        BtnConfigStatus::ClientTooOld { implemented, min } => "client "@ + decimal_int(
            implemented as int,
        ) + " < min "@ + decimal_int(min as int),
        BtnConfigStatus::ServerTooOld { implemented, max } => "client "@ + decimal_int(
            implemented as int,
        ) + " > max "@ + decimal_int(max as int),
        BtnConfigStatus::Exception { kind, message } => kind@ + ": "@ + message@,
    }
}

fn version_text(implemented: i32, relation: &str, bound: i32) -> (out: String)
    ensures
        out@ == "client "@ + decimal_int(implemented as int) + relation@ + decimal_int(
            bound as int,
        ),
{
    let mut out = chars_of("client ");
    let a = i64_text(implemented as i64);
    let b = i64_text(bound as i64);
    push_text(&mut out, a.as_str());
    push_text(&mut out, relation);
    push_text(&mut out, b.as_str());
    string_of(out.as_slice())
}

/// The details of a status for the log.
pub fn status_message(status: &BtnConfigStatus) -> (out: String)
    ensures
        out@ == status_text(*status),
{
    match status {
        BtnConfigStatus::Pending => "pending".to_string(),
        BtnConfigStatus::Success { submit } => if *submit {
            "submit=true".to_string()
        } else {
            "submit=false".to_string()
        },
        BtnConfigStatus::HttpError { status, body } => {
            let code = i64_text(*status as i64);
            concat3(code.as_str(), " - ", body.as_str())
        },
        BtnConfigStatus::ClientTooOld { implemented, min } => version_text(
            *implemented,
            " < min ",
            *min,
        ),
        BtnConfigStatus::ServerTooOld { implemented, max } => version_text(
            *implemented,
            " > max ",
            *max,
        ),
        BtnConfigStatus::Exception { kind, message } => concat3(
            kind.as_str(),
            ": ",
            message.as_str(),
        ),
    }
}

/// What became of an ability that was due.
#[derive(Debug, Clone, PartialEq, Eq)]
pub struct BtnAbilitySync {
    pub key: String,
    pub kind: BtnAbilityKind,
    pub updated: bool,
    pub last_status: bool,
}

// ------------------------------------------------------------------ laws of abilities
/// Each key of the protocol names its own ability, and no other text names one.
pub proof fn keys_name_their_abilities(other: Seq<char>)
    ensures
        BtnAbilityKind::of_key("rules"@) == BtnAbilityKind::Rules,
        BtnAbilityKind::of_key("rule_peer_identity"@) == BtnAbilityKind::Rules,
        BtnAbilityKind::of_key("ip_allowlist"@) == BtnAbilityKind::IpAllowList,
        BtnAbilityKind::of_key("ip_denylist"@) == BtnAbilityKind::IpDenyList,
        BtnAbilityKind::of_key("submit_bans"@) == BtnAbilityKind::SubmitBans,
        BtnAbilityKind::of_key("submit_swarm"@) == BtnAbilityKind::SubmitSwarm,
        BtnAbilityKind::of_key("submit_histories"@) == BtnAbilityKind::SubmitHistories,
        BtnAbilityKind::of_key("heartbeat"@) == BtnAbilityKind::Heartbeat,
        BtnAbilityKind::of_key("reconfigure"@) == BtnAbilityKind::Reconfigure,
        BtnAbilityKind::of_key("ip_query"@) == BtnAbilityKind::IpQuery,
        BtnAbilityKind::of_key("submit_peers"@) == BtnAbilityKind::LegacySubmitPeers,
        other != "rules"@ && other != "rule_peer_identity"@ && other != "ip_allowlist"@ && other != "ip_denylist"@ && other != "submit_bans"@ && other != "submit_swarm"@ && other != "submit_histories"@ && other != "heartbeat"@ && other != "reconfigure"@ && other != "ip_query"@ && other != "submit_peers"@ ==> BtnAbilityKind::of_key(other) == BtnAbilityKind::Other,
{
    reveal_strlit("rules");
    reveal_strlit("rule_peer_identity");
    reveal_strlit("ip_allowlist");
    reveal_strlit("ip_denylist");
    reveal_strlit("submit_bans");
    reveal_strlit("submit_swarm");
    reveal_strlit("submit_histories");
    reveal_strlit("heartbeat");
    reveal_strlit("reconfigure");
    reveal_strlit("ip_query");
    reveal_strlit("submit_peers");
    assert("rules"@.len() == 5);
    assert("rule_peer_identity"@.len() == 18);
    assert("ip_allowlist"@.len() == 12 && "ip_allowlist"@[7] == 'w');
    assert("submit_swarm"@.len() == 12 && "submit_swarm"@[7] == 's');
    assert("submit_peers"@.len() == 12 && "submit_peers"@[7] == 'p');
    assert("ip_denylist"@.len() == 11 && "ip_denylist"@[0] == 'i');
    assert("submit_bans"@.len() == 11 && "submit_bans"@[0] == 's');
    assert("reconfigure"@.len() == 11 && "reconfigure"@[0] == 'r');
    assert("submit_histories"@.len() == 16);
    assert("heartbeat"@.len() == 9);
    assert("ip_query"@.len() == 8);
}

/// An ability is asked for under the name that the protocol has for it; the histories have another
/// name where a proof of work is asked for.
pub proof fn abilities_are_asked_for_by_name(kind: BtnAbilityKind)
    ensures
        kind == BtnAbilityKind::SubmitHistories ==> kind.pow_text() == "submit_history"@
            && kind.key_text() == "submit_histories"@,
        kind != BtnAbilityKind::SubmitHistories ==> kind.pow_text() == kind.key_text(),
        kind == BtnAbilityKind::LegacySubmitBans || kind == BtnAbilityKind::SubmitBans
            ==> kind.key_text() == "submit_bans"@,
        kind == BtnAbilityKind::Other ==> kind.key_text() == "unknown"@,
        kind != BtnAbilityKind::Other && kind != BtnAbilityKind::LegacySubmitBans
            ==> BtnAbilityKind::of_key(kind.key_text()) == kind,
        kind.scheduled() == (kind != BtnAbilityKind::IpQuery && kind != BtnAbilityKind::Other),
{
    if kind != BtnAbilityKind::LegacySubmitBans {
        key_leads_back_to_its_kind(kind);
    }
}

/// A client is on where it is switched on and has the address of a server.
pub proof fn clients_are_on_with_a_server(c: BtnNetworkConfig)
    ensures
        !c.enabled ==> !c.active(),
        blank(c.config_url@) ==> !c.active(),
        c.enabled && !blank(c.config_url@) ==> c.active(),
{
}

/// A client is anonymous unless it has both an identifier and a secret that are not those of the
/// example.
pub proof fn clients_are_known_by_two_words(c: BtnNetworkConfig)
    ensures
        blank(c.app_id@) || blank(c.app_secret@) ==> c.anonymous(),
        c.app_id@ == "example-app-id"@ || c.app_secret@ == "example-app-secret"@ ==> c.anonymous(),
        !blank(c.app_id@) && !blank(c.app_secret@) && c.app_id@ != "example-app-id"@
            && c.app_secret@ != "example-app-secret"@ ==> !c.anonymous(),
{
}

/// The reports are sent only where they are allowed, those of the older protocol to older servers
/// and the others to newer ones; the rules come as one list from older servers and as three from
/// newer ones; the histories, the reconfiguration, the heartbeat and the queries are the same.
pub proof fn abilities_are_those_of_the_protocol(legacy: bool, submit: bool, kind: BtnAbilityKind)
    ensures
        ({
            let list = registration(legacy, submit);
            let here = exists|i: int| 0 <= i < list.len() && (#[trigger] list[i]).1 == kind;
            match kind {
                BtnAbilityKind::LegacySubmitPeers => here == (submit && legacy),
                BtnAbilityKind::LegacySubmitBans => here == (submit && legacy),
                BtnAbilityKind::SubmitBans => here == (submit && !legacy),
                BtnAbilityKind::SubmitSwarm => here == (submit && !legacy),
                BtnAbilityKind::SubmitHistories => here == submit,
                BtnAbilityKind::IpDenyList => here == !legacy,
                BtnAbilityKind::IpAllowList => here == !legacy,
                BtnAbilityKind::Rules => here,
                BtnAbilityKind::Reconfigure => here,
                BtnAbilityKind::Heartbeat => here,
                BtnAbilityKind::IpQuery => here,
                BtnAbilityKind::Other => !here,
            }
        }),
        registration(true, true).map_values(|e: (Seq<char>, BtnAbilityKind)| e.0) == seq![
            "submit_peers"@,
            "submit_bans"@,
            "rules"@,
            "submit_histories"@,
            "reconfigure"@,
            "heartbeat"@,
            "ip_query"@,
        ],
        registration(false, true).map_values(|e: (Seq<char>, BtnAbilityKind)| e.0) == seq![
            "submit_bans"@,
            "submit_swarm"@,
            "ip_denylist"@,
            "ip_allowlist"@,
            "rule_peer_identity"@,
            "submit_histories"@,
            "reconfigure"@,
            "heartbeat"@,
            "ip_query"@,
        ],
{
    let list = registration(legacy, submit);
    let n = list.len();
    if submit && legacy {
        assert(list[0].1 == BtnAbilityKind::LegacySubmitPeers);
        assert(list[1].1 == BtnAbilityKind::LegacySubmitBans);
        assert(list[2].1 == BtnAbilityKind::Rules);
        assert(list[3].1 == BtnAbilityKind::SubmitHistories);
    } else if submit {
        assert(list[0].1 == BtnAbilityKind::SubmitBans);
        assert(list[1].1 == BtnAbilityKind::SubmitSwarm);
        assert(list[2].1 == BtnAbilityKind::IpDenyList);
        assert(list[3].1 == BtnAbilityKind::IpAllowList);
        assert(list[4].1 == BtnAbilityKind::Rules);
        assert(list[5].1 == BtnAbilityKind::SubmitHistories);
    } else if legacy {
        assert(list[0].1 == BtnAbilityKind::Rules);
    } else {
        assert(list[0].1 == BtnAbilityKind::IpDenyList);
        assert(list[1].1 == BtnAbilityKind::IpAllowList);
        assert(list[2].1 == BtnAbilityKind::Rules);
    }
    assert(list[n - 3].1 == BtnAbilityKind::Reconfigure);
    assert(list[n - 2].1 == BtnAbilityKind::Heartbeat);
    assert(list[n - 1].1 == BtnAbilityKind::IpQuery);
}

/// Of a list of abilities those that the server offers stay, in their order.
pub proof fn offered_abilities_keep_their_order(
    list: Seq<(Seq<char>, BtnAbilityKind)>,
    entry: (Seq<char>, BtnAbilityKind),
    specs: Map<Seq<char>, BtnAbilitySpec>,
)
    ensures
        specs.contains_key(entry.0) ==> offered(list.push(entry), specs) == offered(
            list,
            specs,
        ).push(entry),
        !specs.contains_key(entry.0) ==> offered(list.push(entry), specs) == offered(list, specs),
{
    assert(list.push(entry).drop_last() =~= list);
}

/// The number that a text stands for is its FNV-1a checksum, cut to the range asked for.
pub proof fn delays_come_from_the_checksum(b: Seq<u8>, x: u8, seed: Seq<char>, bound: i64)
    ensures
        fnv(Seq::empty()) == 14695981039346656037,
        fnv(b.push(x)) == (fnv(b) ^ (x as u64)).wrapping_mul(1099511628211),
        bound > 0 ==> 0 <= pseudo_random_of(seed, bound) < bound,
        bound > 0 ==> (fnv(vstd::utf8::encode_utf8(seed)) - pseudo_random_of(seed, bound)) % (
        bound as int) == 0,
        bound <= 0 ==> pseudo_random_of(seed, bound) == 0,
{
    assert(b.push(x).drop_last() =~= b);
    if bound > 0 {
        let f = fnv(vstd::utf8::encode_utf8(seed)) as int;
        let d = bound as int;
        vstd::arithmetic::div_mod::lemma_fundamental_div_mod(f, d);
        vstd::arithmetic::div_mod::lemma_mod_bound(f, d);
        vstd::arithmetic::div_mod::lemma_mod_multiples_basic(f / d, d);
        assert(f - f % d == (f / d) * d) by (nonlinear_arith)
            requires
                f == d * (f / d) + f % d,
        ;
    }
}

/// What a server leaves open about an ability is nothing, no wait and no proof.
pub proof fn abilities_are_modest_by_default(
    a: BtnAbility,
    key: Seq<char>,
    kind: BtnAbilityKind,
    described: BtnAbilitySpec,
    due_ms: i64,
)
    requires
        is_ability(a, key, kind, described, due_ms),
    ensures
        described.interval matches Some(v) ==> a.interval_ms == v,
        described.interval is None ==> a.interval_ms == 0,
        described.random_initial_delay matches Some(v) ==> a.random_initial_delay_ms == v,
        described.random_initial_delay is None ==> a.random_initial_delay_ms == 0,
        described.pow_captcha matches Some(v) ==> a.pow_captcha == v,
        described.pow_captcha is None ==> !a.pow_captcha,
        described.multi_if matches Some(v) ==> a.multi_if == v,
        described.multi_if is None ==> !a.multi_if,
        described.endpoint matches Some(v) ==> a.endpoint@ == v@,
        described.endpoint is None ==> a.endpoint@.len() == 0,
        a.last_status,
        a.next_due_ms == due_ms,
        a.key@ == key,
        a.kind == kind,
{
}

/// Abilities are shown under names of their own.
pub proof fn abilities_are_shown_by_name(kind: BtnAbilityKind)
    ensures
        kind == BtnAbilityKind::Rules ==> kind.display_name() == "BtnAbilityRules"@,
        kind == BtnAbilityKind::IpAllowList ==> kind.display_name() == "BtnAbilityIPAllowList"@,
        kind == BtnAbilityKind::IpDenyList ==> kind.display_name() == "BtnAbilityIPDenyList"@,
        kind == BtnAbilityKind::SubmitBans ==> kind.display_name() == "BtnAbilitySubmitBans"@,
        kind == BtnAbilityKind::SubmitSwarm ==> kind.display_name() == "BtnAbilitySubmitSwarm"@,
        kind == BtnAbilityKind::SubmitHistories ==> kind.display_name() == "BtnAbilitySubmitHistory"@,
        kind == BtnAbilityKind::Heartbeat ==> kind.display_name() == "BtnAbilityHeartBeat"@,
        kind == BtnAbilityKind::Reconfigure ==> kind.display_name() == "BtnAbilityReconfigure"@,
        kind == BtnAbilityKind::IpQuery ==> kind.display_name() == "BtnAbilityIpQuery"@,
        kind == BtnAbilityKind::LegacySubmitPeers ==> kind.display_name() == "LegacyBtnAbilitySubmitPeers"@,
        kind == BtnAbilityKind::LegacySubmitBans ==> kind.display_name() == "LegacyBtnAbilitySubmitBans"@,
        kind == BtnAbilityKind::Other ==> kind.display_name() == "BtnAbility(Unsupported)"@,
{
}

/// The state of the handshake is told by a message of its own and, in words, by what went wrong: the
/// code and the text of a reply, the versions that do not fit, or the kind of a failure and its
/// message.
pub proof fn states_are_told(
    submit: bool,
    code: u16,
    text: String,
    version: i32,
    bound: i32,
    kind: String,
)
    ensures
        BtnConfigStatus::Pending.lang_text() == "BTN_CONFIGURE_SYNC_SERVER"@,
        (BtnConfigStatus::Success { submit: true }).lang_text() == "BTN_CONFIG_STATUS_SUCCESSFUL"@,
        (BtnConfigStatus::Success { submit: false }).lang_text()
            == "BTN_CONFIG_STATUS_SUCCESSFUL_READ_ONLY"@,
        (BtnConfigStatus::HttpError { status: code, body: text }).lang_text()
            == "BTN_CONFIG_STATUS_UNSUCCESSFUL_HTTP_REQUEST"@,
        (BtnConfigStatus::Exception { kind, message: text }).lang_text()
            == "BTN_CONFIG_STATUS_EXCEPTION"@,
        (BtnConfigStatus::ClientTooOld { implemented: version, min: bound }).lang_text()
            == LANG_BTN_PROTOCOL_VERSION_CLIENT@,
        (BtnConfigStatus::ServerTooOld { implemented: version, max: bound }).lang_text()
            == LANG_BTN_PROTOCOL_VERSION_SERVER@,
        status_text((BtnConfigStatus::Success { submit: true })) == "submit=true"@,
        status_text((BtnConfigStatus::Success { submit: false })) == "submit=false"@,
        status_text((BtnConfigStatus::HttpError { status: code, body: text })) == decimal_int(
            code as int,
        ) + " - "@ + text@,
        status_text((BtnConfigStatus::ClientTooOld { implemented: version, min: bound })) == "client "@
            + decimal_int(version as int) + " < min "@ + decimal_int(bound as int),
        status_text((BtnConfigStatus::ServerTooOld { implemented: version, max: bound })) == "client "@
            + decimal_int(version as int) + " > max "@ + decimal_int(bound as int),
        status_text((BtnConfigStatus::Exception { kind, message: text })) == kind@ + ": "@ + text@,
{
}

} // verus!
