//! The profile: which modules check peers, in which order, and with which settings.

use vstd::prelude::*;
use crate::auto_stun::clone_texts;
use crate::defaults::{
    banned_client_name_rules, banned_peer_id_rules, ignored_networks, BTN_BAN_DURATION_MS,
    DEFAULT_BAN_DURATION_MS, DEFAULT_CHECK_INTERVAL_MS, PCB_BAN_DURATION_MS,
};
use crate::defaults::pcb::{
    EXCESSIVE_THRESHOLD, FAST_PCB_TEST_BLOCK_DURATION_MS, FAST_PCB_TEST_PERCENTAGE,
    IPV4_PREFIX_LENGTH, IPV6_PREFIX_LENGTH, MAXIMUM_DIFFERENCE, MAX_WAIT_DURATION_MS, MINIMUM_SIZE,
    PERSIST_DURATION_MS, REWIND_MAXIMUM_DIFFERENCE,
};
use crate::geoip::{
    i64_of, number_set, read_i64, GeoIpConfig, NET_TYPE_BACKBONE_NETWORK, NET_TYPE_BASE_STATION,
    NET_TYPE_BUSINESS_PLATFORM, NET_TYPE_DATACENTER, NET_TYPE_GOVERNMENT_AND_ENTERPRISE_LINE,
    NET_TYPE_INTERNET_CAFE, NET_TYPE_IOT, NET_TYPE_IP_PRIVATE_NETWORK, NET_TYPE_WIDEBAND,
};
use crate::iputil::{nets_of, IpSet};
use crate::model::Double;
use crate::text::{
    ascii_lower_of, blank, chars_of, decimal_int, decimal_round_trips, eq_ignore_ascii_case,
    int_of_text, is_ws, lemma_decimal_digits, string_of, texts, trim, trim_of,
    trimming_takes_the_white_space_around,
};
use crate::textmap::TextMap;
use crate::textset::text_set;

verus! {

// ------------------------------------------------------------------ the values
/// How long a ban lasts by a text, in milliseconds: nothing, or `default` in any case, stands for
/// zero, which means the duration of the profile; anything else has to be a number.
pub open spec fn duration_of(text: Seq<char>) -> Option<i64> {
    let t = trim_of(text);
    if t.len() == 0 || ascii_lower_of(t) == ascii_lower_of("default"@) {
        Some(0)
    } else {
        i64_of(t)
    }
}

/// How long a ban lasts by a text, in milliseconds.
pub fn ban_duration_from_text(text: &str) -> (r: Option<i64>)
    ensures
        r == duration_of(text@),
{
    let t = trim(text);
    let chars = chars_of(t.as_str());
    let word = chars_of("default");
    if chars.len() == 0 || eq_ignore_ascii_case(chars.as_slice(), word.as_slice()) {
        Some(0)
    } else {
        read_i64(t.as_str())
    }
}

/// An entry of a list of numbers that may hold anything.
#[derive(Debug)]
pub enum LenientNumber {
    /// A number, if it is a whole one that fits.
    Number(Option<i64>),
    Text(String),
    Other,
}

impl LenientNumber {
    /// The number that an entry stands for, if any.
    pub open spec fn number(self) -> Option<i64> {
        match self {
            LenientNumber::Number(n) => n,
            LenientNumber::Text(t) => i64_of(trim_of(t@)),
            LenientNumber::Other => None,
        }
    }
}

/// The numbers of a list of entries, in order.
pub open spec fn numbers_of(entries: Seq<LenientNumber>) -> Seq<i64>
    decreases entries.len(),
{
    if entries.len() == 0 {
        Seq::empty()
    } else {
        let rest = numbers_of(entries.drop_last());
        match entries.last().number() {
            Some(n) => rest.push(n),
            None => rest,
        }
    }
}

/// The numbers of a list of entries; entries that are none are left out.
pub fn lenient_numbers(entries: &Vec<LenientNumber>) -> (numbers: Vec<i64>)
    ensures
        numbers@ == numbers_of(entries@),
{
    let mut numbers: Vec<i64> = Vec::new();
    let mut i: usize = 0;
    assert(entries@.take(0) =~= Seq::empty());
    while i < entries.len()
        invariant
            i <= entries.len(),
            numbers@ == numbers_of(entries@.take(i as int)),
        decreases entries.len() - i,
    {
        assert(entries@.take(i + 1).drop_last() =~= entries@.take(i as int));
        match &entries[i] {
            LenientNumber::Number(Some(n)) => numbers.push(*n),
            LenientNumber::Text(t) => {
                let t = trim(t.as_str());
                if let Some(n) = read_i64(t.as_str()) {
                    numbers.push(n);
                }
            },
            _ => {},
        }
        i += 1;
    }
    assert(entries@.take(i as int) =~= entries@);
    numbers
}

/// Whether a module is on: its section has to say so.
pub fn enabled_or_disabled(v: &Option<bool>) -> (yes: bool)
    ensures
        yes == (*v == Some(true)),
{
    match v {
        Some(b) => *b,
        None => false,
    }
}

// -------------------------------------------------------------- default values
/// How often peers are checked where the profile does not say.
pub fn default_check_interval() -> (v: u64)
    ensures
        v == DEFAULT_CHECK_INTERVAL_MS,
{
    DEFAULT_CHECK_INTERVAL_MS
}

/// How long a ban lasts where the profile does not say.
pub fn default_global_ban_duration() -> (v: i64)
    ensures
        v == DEFAULT_BAN_DURATION_MS,
{
    DEFAULT_BAN_DURATION_MS
}

/// How long a ban by reverse names lasts where the section does not say.
pub fn default_ptr_ban_duration() -> (v: i64)
    ensures
        v == 259_200_000,
{
    259_200_000
}

/// How long a ban for idling lasts where the section does not say.
pub fn default_idle_ban_duration() -> (v: i64)
    ensures
        v == 900_000,
{
    900_000
}

/// How long a peer may idle where the section does not say.
pub fn default_idle_max() -> (v: i64)
    ensures
        v == 300_000,
{
    300_000
}

/// The speed below which a peer idles where the section does not say.
pub fn default_idle_speed() -> (v: i64)
    ensures
        v == 64,
{
    64
}

/// How long a ban by a list of networks lasts where the section does not say.
pub fn default_ip_rule_ban_duration() -> (v: i64)
    ensures
        v == 259_200_000,
{
    259_200_000
}

/// How often lists of networks are loaded where the section does not say.
pub fn default_ip_rule_check_interval() -> (v: i64)
    ensures
        v == 14_400_000,
{
    14_400_000
}

/// How long a ban by presets lasts where the section does not say.
pub fn default_anti_vampire_duration() -> (v: i64)
    ensures
        v == 14_400_000,
{
    14_400_000
}

/// The IPv4 prefix for counting peers where the section does not say.
pub fn default_mdb_subnet_v4() -> (v: u8)
    ensures
        v == 24,
{
    24
}

/// The IPv6 prefix for counting peers where the section does not say.
pub fn default_mdb_subnet_v6() -> (v: u8)
    ensures
        v == 56,
{
    56
}

/// How many peers of an IPv4 network are let be where the section does not say.
pub fn default_mdb_tolerate_v4() -> (v: i64)
    ensures
        v == 2,
{
    2
}

/// How many peers of an IPv6 network are let be where the section does not say.
pub fn default_mdb_tolerate_v6() -> (v: i64)
    ensures
        v == 5,
{
    5
}

/// How long peers are counted, in seconds, where the section does not say.
pub fn default_mdb_cache_lifespan() -> (v: i64)
    ensures
        v == 86_400,
{
    86_400
}

/// How long networks are hunted, in seconds, where the section does not say.
pub fn default_mdb_keep_hunting_time() -> (v: i64)
    ensures
        v == 2_592_000,
{
    2_592_000
}

/// The IPv4 prefix of a range ban where the section does not say.
pub fn default_arb_ipv4() -> (v: u8)
    ensures
        v == 30,
{
    30
}

/// The IPv6 prefix of a range ban where the section does not say.
pub fn default_arb_ipv6() -> (v: u8)
    ensures
        v == 48,
{
    48
}

/// How long a ban for cheating lasts where the section does not say.
pub fn default_pcb_ban_duration() -> (v: i64)
    ensures
        v == PCB_BAN_DURATION_MS,
{
    PCB_BAN_DURATION_MS
}

/// The least size of a torrent to check where the section does not say.
pub fn default_pcb_minimum_size() -> (v: i64)
    ensures
        v == MINIMUM_SIZE,
{
    MINIMUM_SIZE
}

/// The IPv4 prefix of a cheater where the section does not say.
pub fn default_pcb_ipv4_prefix() -> (v: u8)
    ensures
        v == IPV4_PREFIX_LENGTH,
{
    IPV4_PREFIX_LENGTH
}

/// The IPv6 prefix of a cheater where the section does not say.
pub fn default_pcb_ipv6_prefix() -> (v: u8)
    ensures
        v == IPV6_PREFIX_LENGTH,
{
    IPV6_PREFIX_LENGTH
}

/// How long the state is kept where the section does not say.
pub fn default_pcb_persist_duration() -> (v: i64)
    ensures
        v == PERSIST_DURATION_MS,
{
    PERSIST_DURATION_MS
}

/// How long a peer is waited for where the section does not say.
pub fn default_pcb_max_wait() -> (v: i64)
    ensures
        v == MAX_WAIT_DURATION_MS,
{
    MAX_WAIT_DURATION_MS
}

/// How long a quick test blocks where the section does not say.
pub fn default_pcb_fast_block_duration() -> (v: i64)
    ensures
        v == FAST_PCB_TEST_BLOCK_DURATION_MS,
{
    FAST_PCB_TEST_BLOCK_DURATION_MS
}

/// How long a ban by the BTN network lasts where the section does not say.
pub fn default_btn_ban_duration() -> (v: i64)
    ensures
        v == BTN_BAN_DURATION_MS,
{
    BTN_BAN_DURATION_MS
}

/// The daily traffic that raises an alarm where the section does not say: none does.
pub fn default_daily_traffic_capping() -> (v: i64)
    ensures
        v == -1,
{
    -1
}

/// How long records of peers are kept where the section does not say: always.
pub fn default_peer_recording_retention() -> (v: i64)
    ensures
        v == -1,
{
    -1
}

/// How often records of peers are cleaned up where the section does not say: never.
pub fn default_peer_recording_cleanup() -> (v: i64)
    ensures
        v == -1,
{
    -1
}

/// How often records of peers are written where the section does not say.
pub fn default_peer_recording_flush() -> (v: i64)
    ensures
        v == 20_000,
{
    20_000
}

/// The change of the progress that counts where the section does not say.
pub fn default_idle_status_change() -> (v: Double)
    ensures
        v.bits == 0x3F50_624D_D2F1_A9FC,
{
    Double { bits: 0x3F50_624D_D2F1_A9FC }
}

/// The excess that counts as cheating where the section does not say.
pub fn default_pcb_excessive_threshold() -> (v: Double)
    ensures
        v.bits == EXCESSIVE_THRESHOLD,
{
    Double { bits: EXCESSIVE_THRESHOLD }
}

/// The difference that counts as cheating where the section does not say.
pub fn default_pcb_maximum_difference() -> (v: Double)
    ensures
        v.bits == MAXIMUM_DIFFERENCE,
{
    Double { bits: MAXIMUM_DIFFERENCE }
}

/// The rewinding that counts as cheating where the section does not say.
pub fn default_pcb_rewind_maximum_difference() -> (v: Double)
    ensures
        v.bits == REWIND_MAXIMUM_DIFFERENCE,
{
    Double { bits: REWIND_MAXIMUM_DIFFERENCE }
}

/// The share at which the quick test starts where the section does not say.
pub fn default_pcb_fast_percentage() -> (v: Double)
    ensures
        v.bits == FAST_PCB_TEST_PERCENTAGE,
{
    Double { bits: FAST_PCB_TEST_PERCENTAGE }
}

/// Rules on reverse names where the section does not say.
pub fn default_ptr_rules() -> (v: Vec<String>)
    ensures
        texts(v@) == seq!["{\"method\":\"EQUALS\",\"content\":\"example.com\"}"@],
{
    let mut v: Vec<String> = Vec::new();
    v.push("{\"method\":\"EQUALS\",\"content\":\"example.com\"}".to_string());
    assert(texts(v@) =~= seq!["{\"method\":\"EQUALS\",\"content\":\"example.com\"}"@]);
    v
}

/// Rules on peer identifiers where the section does not say.
pub fn default_banned_peer_id() -> (v: Vec<String>)
    ensures
        texts(v@) == banned_peer_id_rules(),
{
    crate::defaults::default_banned_peer_id()
}

/// Rules on client names where the section does not say.
pub fn default_banned_client_name() -> (v: Vec<String>)
    ensures
        texts(v@) == banned_client_name_rules(),
{
    crate::defaults::default_banned_client_name()
}

/// Networks that are not checked where the profile does not say.
pub fn default_ignore_addresses() -> (v: Vec<String>)
    ensures
        texts(v@) == ignored_networks(),
{
    crate::defaults::default_ignore_addresses()
}

/// The name of the database of cities where the section does not say.
pub fn default_database_city() -> (s: String)
    ensures
        s@ == "GeoLite2-City"@,
{
    "GeoLite2-City".to_string()
}

/// The name of the database of autonomous systems where the section does not say.
pub fn default_database_asn() -> (s: String)
    ensures
        s@ == "GeoLite2-ASN"@,
{
    "GeoLite2-ASN".to_string()
}

/// The name of the database of Chinese places where the section does not say.
pub fn default_database_geocn() -> (s: String)
    ensures
        s@ == "GeoCN"@,
{
    "GeoCN".to_string()
}

// -------------------------------------------------------------------- sections
/// A profile.
#[derive(Debug)]
pub struct ProfileConfig {
    pub check_interval: u64,
    pub ban_duration: i64,
    pub ignore_peers_from_addresses: Vec<String>,
    pub module: ModulesSection,
}

impl Default for ProfileConfig {
    fn default() -> (c: Self)
        ensures
            c.check_interval == DEFAULT_CHECK_INTERVAL_MS,
            c.ban_duration == DEFAULT_BAN_DURATION_MS,
            texts(c.ignore_peers_from_addresses@) == ignored_networks(),
            c.module == no_modules(),
    {
        ProfileConfig {
            check_interval: default_check_interval(),
            ban_duration: default_global_ban_duration(),
            ignore_peers_from_addresses: default_ignore_addresses(),
            module: ModulesSection::default(),
        }
    }
}

/// The sections of the modules. A module without one is off.
#[derive(Debug)]
pub struct ModulesSection {
    pub peer_id_blacklist: Option<PeerIdBlacklistConfig>,
    pub client_name_blacklist: Option<ClientNameBlacklistConfig>,
    pub ip_address_blocker: Option<IpAddressBlockerConfig>,
    pub progress_cheat_blocker: Option<ProgressCheatBlockerConfig>,
    pub multi_dialing_blocker: Option<MultiDialingBlockerConfig>,
    pub auto_range_ban: Option<AutoRangeBanConfig>,
    pub anti_vampire: Option<AntiVampireConfig>,
    pub ip_rule_list: Option<IpRuleListConfig>,
    pub expression_engine: Option<ExpressionEngineConfig>,
    pub ptr_blacklist: Option<PtrBlacklistConfig>,
    pub idle_connection_dos_protection: Option<IdleProtectionConfig>,
    pub btn: Option<BtnConfig>,
    pub active_monitoring: Option<ActiveMonitoringConfig>,
    pub peer_analyse_service: Option<PeerAnalyseServiceConfig>,
}

/// No sections.
pub open spec fn no_modules() -> ModulesSection {
    ModulesSection {
        peer_id_blacklist: None,
        client_name_blacklist: None,
        ip_address_blocker: None,
        progress_cheat_blocker: None,
        multi_dialing_blocker: None,
        auto_range_ban: None,
        anti_vampire: None,
        ip_rule_list: None,
        expression_engine: None,
        ptr_blacklist: None,
        idle_connection_dos_protection: None,
        btn: None,
        active_monitoring: None,
        peer_analyse_service: None,
    }
}

impl Default for ModulesSection {
    fn default() -> (c: Self)
        ensures
            c == no_modules(),
    {
        ModulesSection {
            peer_id_blacklist: None,
            client_name_blacklist: None,
            ip_address_blocker: None,
            progress_cheat_blocker: None,
            multi_dialing_blocker: None,
            auto_range_ban: None,
            anti_vampire: None,
            ip_rule_list: None,
            expression_engine: None,
            ptr_blacklist: None,
            idle_connection_dos_protection: None,
            btn: None,
            active_monitoring: None,
            peer_analyse_service: None,
        }
    }
}

/// Rules on the reverse names of peers.
#[derive(Debug)]
pub struct PtrBlacklistConfig {
    pub enabled: Option<bool>,
    pub ban_duration_ms: i64,
    pub ptr_rules: Vec<String>,
    pub dns_servers: Vec<String>,
}

/// Protection from idle connections.
#[derive(Debug)]
pub struct IdleProtectionConfig {
    pub enabled: Option<bool>,
    pub ban_duration_ms: i64,
    pub max_allowed_idle_time_ms: i64,
    pub idle_speed_threshold: i64,
    pub min_status_change_percentage: Double,
    pub reset_on_status_change: bool,
    pub protect_mode: i64,
}

/// Rules that are scripts.
#[derive(Debug)]
pub struct ExpressionEngineConfig {
    pub enabled: Option<bool>,
    pub ban_duration_ms: i64,
    pub scripts_dir: Option<String>,
}

impl Default for ExpressionEngineConfig {
    fn default() -> (v: Self)
        ensures
            v.enabled is None,
            v.ban_duration_ms == 0,
            v.scripts_dir is None,
    {
        ExpressionEngineConfig {
            enabled: None,
            ban_duration_ms: 0,
            scripts_dir: None,
        }
    }
}

/// Lists of networks that are loaded from elsewhere.
#[derive(Debug)]
pub struct IpRuleListConfig {
    pub enabled: Option<bool>,
    pub ban_duration_ms: i64,
    pub check_interval_ms: i64,
    pub preload_banlist: bool,
    pub rules: TextMap<IpRuleSubscriptionConfig>,
}

impl Default for IpRuleListConfig {
    fn default() -> (v: Self)
        ensures
            v.enabled is None,
            v.ban_duration_ms == 0,
            v.check_interval_ms == 0,
            !v.preload_banlist,
            v.rules@ == Map::<Seq<char>, IpRuleSubscriptionConfig>::empty(),
    {
        IpRuleListConfig {
            enabled: None,
            ban_duration_ms: 0,
            check_interval_ms: 0,
            preload_banlist: false,
            rules: TextMap::new(),
        }
    }
}

impl IpRuleListConfig {
    /// Whether the lists are on.
    pub fn enabled(&self) -> (yes: bool)
        ensures
            yes == (self.enabled == Some(true)),
    {
        enabled_or_disabled(&self.enabled)
    }
}

/// A list of networks.
#[derive(Debug)]
pub struct IpRuleSubscriptionConfig {
    pub enabled: bool,
    pub name: String,
    pub url: String,
}

/// Presets against certain clients.
#[derive(Debug)]
pub struct AntiVampireConfig {
    pub enabled: Option<bool>,
    pub ban_duration_ms: i64,
    pub presets: AntiVampirePresets,
}

/// The presets.
#[derive(Debug)]
pub struct AntiVampirePresets {
    pub xunlei: AntiVampireXunleiPreset,
}

impl Default for AntiVampirePresets {
    fn default() -> (v: Self)
        ensures
            !v.xunlei.enabled,
    {
        AntiVampirePresets {
            xunlei: AntiVampireXunleiPreset::default(),
        }
    }
}

/// A preset.
#[derive(Debug)]
pub struct AntiVampireXunleiPreset {
    pub enabled: bool,
}

impl Default for AntiVampireXunleiPreset {
    fn default() -> (v: Self)
        ensures
            !v.enabled,
    {
        AntiVampireXunleiPreset {
            enabled: false,
        }
    }
}

/// Protection from many peers of one network.
#[derive(Debug)]
pub struct MultiDialingBlockerConfig {
    pub enabled: Option<bool>,
    pub ban_duration_ms: i64,
    pub subnet_mask_length: u8,
    pub subnet_mask_v6_length: u8,
    pub tolerate_num_ipv4: i64,
    pub tolerate_num_ipv6: i64,
    pub cache_lifespan_secs: i64,
    pub keep_hunting: bool,
    pub keep_hunting_time_secs: i64,
}

/// The settings of the protection from many peers of one network, in milliseconds.
#[derive(Clone, Copy, PartialEq, Eq, Structural, Debug)]
pub struct MultiDialingSettings {
    pub ban_duration_ms: i64,
    pub subnet_mask_length: u8,
    pub subnet_mask_v6_length: u8,
    pub tolerate_num_ipv4: i64,
    pub tolerate_num_ipv6: i64,
    pub cache_lifespan_ms: i64,
    pub keep_hunting: bool,
    pub keep_hunting_time_ms: i64,
}

impl MultiDialingBlockerConfig {
    /// The settings of a section.
    pub open spec fn settings(self) -> MultiDialingSettings {
        MultiDialingSettings {
            ban_duration_ms: self.ban_duration_ms,
            subnet_mask_length: self.subnet_mask_length,
            subnet_mask_v6_length: self.subnet_mask_v6_length,
            tolerate_num_ipv4: self.tolerate_num_ipv4,
            tolerate_num_ipv6: self.tolerate_num_ipv6,
            cache_lifespan_ms: self.cache_lifespan_secs.wrapping_mul(1000),
            keep_hunting: self.keep_hunting,
            keep_hunting_time_ms: self.keep_hunting_time_secs.wrapping_mul(1000),
        }
    }

    /// The settings of the section.
    pub fn to_settings(&self) -> (s: MultiDialingSettings)
        ensures
            s == self.settings(),
    {
        MultiDialingSettings {
            ban_duration_ms: self.ban_duration_ms,
            subnet_mask_length: self.subnet_mask_length,
            subnet_mask_v6_length: self.subnet_mask_v6_length,
            tolerate_num_ipv4: self.tolerate_num_ipv4,
            tolerate_num_ipv6: self.tolerate_num_ipv6,
            cache_lifespan_ms: self.cache_lifespan_secs.wrapping_mul(1000),
            keep_hunting: self.keep_hunting,
            keep_hunting_time_ms: self.keep_hunting_time_secs.wrapping_mul(1000),
        }
    }
}

/// Bans of the networks round banned peers.
#[derive(Debug)]
pub struct AutoRangeBanConfig {
    pub enabled: Option<bool>,
    pub ban_duration_ms: i64,
    pub ipv4: u8,
    pub ipv6: u8,
}

/// Rules on peer identifiers.
#[derive(Debug)]
pub struct PeerIdBlacklistConfig {
    pub enabled: Option<bool>,
    pub ban_duration_ms: i64,
    pub banned_peer_id: Vec<String>,
}

/// Rules on client names.
#[derive(Debug)]
pub struct ClientNameBlacklistConfig {
    pub enabled: Option<bool>,
    pub ban_duration_ms: i64,
    pub banned_client_name: Vec<String>,
}

/// Addresses, ports and places that are banned.
#[derive(Debug)]
pub struct IpAddressBlockerConfig {
    pub enabled: Option<bool>,
    pub ban_duration_ms: i64,
    pub ips: Vec<String>,
    pub ports: Vec<u16>,
    pub asns: Vec<i64>,
    pub regions: Vec<String>,
    pub cities: Vec<String>,
    pub net_type: NetTypeConfig,
}

impl IpAddressBlockerConfig {
    /// The places that are looked for.
    pub fn to_geo_config(&self) -> (c: GeoIpConfig)
        ensures
            c.asns@ == number_set(self.asns@),
            c.regions@ == text_set(texts(self.regions@)),
            c.cities@ == self.cities@,
            c.network_type@ == text_set(self.net_type.tokens()),
    {
        let mut asns: Vec<i64> = Vec::new();
        let mut i: usize = 0;
        while i < self.asns.len()
            invariant
                i <= self.asns.len(),
                asns@ == self.asns@.take(i as int),
            decreases self.asns.len() - i,
        {
            asns.push(self.asns[i]);
            i += 1;
            assert(asns@ =~= self.asns@.take(i as int));
        }
        assert(asns@ =~= self.asns@);
        let regions = clone_texts(&self.regions);
        let cities = clone_texts(&self.cities);
        GeoIpConfig::new(asns, regions, cities, self.net_type.to_tokens())
    }
}

/// The types of networks that are banned: a list of marks, or a switch for each type.
#[derive(Debug)]
pub enum NetTypeConfig {
    List(Vec<String>),
    Flags(NetTypeFlags),
}

/// A switch for each type of network.
#[derive(Clone, Copy, PartialEq, Eq, Structural, Debug)]
pub struct NetTypeFlags {
    pub wideband: bool,
    pub base_station: bool,
    pub government_and_enterprise_line: bool,
    pub business_platform: bool,
    pub backbone_network: bool,
    pub ip_private_network: bool,
    pub internet_cafe: bool,
    pub iot: bool,
    pub datacenter: bool,
}

impl Default for NetTypeFlags {
    fn default() -> (f: Self)
        ensures
            flag_tokens(f) == Seq::<Seq<char>>::empty(),
    {
        NetTypeFlags {
            wideband: false,
            base_station: false,
            government_and_enterprise_line: false,
            business_platform: false,
            backbone_network: false,
            ip_private_network: false,
            internet_cafe: false,
            iot: false,
            datacenter: false,
        }
    }
}

impl Default for NetTypeConfig {
    fn default() -> (c: Self)
        ensures
            c matches NetTypeConfig::List(v) && v@.len() == 0,
    {
        NetTypeConfig::List(Vec::new())
    }
}

/// A list with one more text where a switch is on.
pub open spec fn add_if(v: Seq<Seq<char>>, on: bool, text: Seq<char>) -> Seq<Seq<char>> {
    if on {
        v.push(text)
    } else {
        v
    }
}

/// The marks of switches.
pub open spec fn flag_tokens(f: NetTypeFlags) -> Seq<Seq<char>> {
    let v = add_if(Seq::empty(), f.wideband, NET_TYPE_WIDEBAND@);
    let v = add_if(v, f.base_station, NET_TYPE_BASE_STATION@);
    let v = add_if(v, f.government_and_enterprise_line, NET_TYPE_GOVERNMENT_AND_ENTERPRISE_LINE@);
    let v = add_if(v, f.business_platform, NET_TYPE_BUSINESS_PLATFORM@);
    let v = add_if(v, f.backbone_network, NET_TYPE_BACKBONE_NETWORK@);
    let v = add_if(v, f.ip_private_network, NET_TYPE_IP_PRIVATE_NETWORK@);
    let v = add_if(v, f.internet_cafe, NET_TYPE_INTERNET_CAFE@);
    let v = add_if(v, f.iot, NET_TYPE_IOT@);
    add_if(v, f.datacenter, NET_TYPE_DATACENTER@)
}

/// The texts of a list without the white space round them, but for those that are blank.
pub open spec fn trimmed_texts(list: Seq<Seq<char>>) -> Seq<Seq<char>>
    decreases list.len(),
{
    if list.len() == 0 {
        list
    } else {
        let rest = trimmed_texts(list.drop_last());
        add_if(rest, trim_of(list.last()).len() > 0, trim_of(list.last()))
    }
}

fn push_if(v: &mut Vec<String>, on: bool, text: &str)
    ensures
        texts(final(v)@) == add_if(texts(old(v)@), on, text@),
{
    if on {
        v.push(text.to_string());
        assert(texts(v@) =~= texts(old(v)@).push(text@));
    }
}

impl NetTypeConfig {
    /// The marks.
    pub open spec fn tokens(self) -> Seq<Seq<char>> {
        match self {
            NetTypeConfig::List(list) => trimmed_texts(texts(list@)),
            NetTypeConfig::Flags(flags) => flag_tokens(flags),
        }
    }

    /// The marks.
    pub fn to_tokens(&self) -> (tokens: Vec<String>)
        ensures
            texts(tokens@) == self.tokens(),
    {
        let mut tokens: Vec<String> = Vec::new();
        assert(texts(tokens@) =~= Seq::empty());
        match self {
            NetTypeConfig::List(list) => {
                let ghost all = texts(list@);
                let mut i: usize = 0;
                assert(all.take(0) =~= Seq::empty());
                while i < list.len()
                    invariant
                        i <= list.len(),
                        all == texts(list@),
                        texts(tokens@) == trimmed_texts(all.take(i as int)),
                    decreases list.len() - i,
                {
                    assert(all.take(i + 1).drop_last() =~= all.take(i as int));
                    assert(all.take(i + 1).last() == list@[i as int]@);
                    let t = trim(list[i].as_str());
                    push_if(&mut tokens, t.as_str().unicode_len() > 0, t.as_str());
                    i += 1;
                }
                assert(all.take(i as int) =~= all);
            },
            NetTypeConfig::Flags(f) => {
                push_if(&mut tokens, f.wideband, NET_TYPE_WIDEBAND);
                push_if(&mut tokens, f.base_station, NET_TYPE_BASE_STATION);
                push_if(
                    &mut tokens,
                    f.government_and_enterprise_line,
                    NET_TYPE_GOVERNMENT_AND_ENTERPRISE_LINE,
                );
                push_if(&mut tokens, f.business_platform, NET_TYPE_BUSINESS_PLATFORM);
                push_if(&mut tokens, f.backbone_network, NET_TYPE_BACKBONE_NETWORK);
                push_if(&mut tokens, f.ip_private_network, NET_TYPE_IP_PRIVATE_NETWORK);
                push_if(&mut tokens, f.internet_cafe, NET_TYPE_INTERNET_CAFE);
                push_if(&mut tokens, f.iot, NET_TYPE_IOT);
                push_if(&mut tokens, f.datacenter, NET_TYPE_DATACENTER);
            },
        }
        tokens
    }
}

/// The databases and how they are kept up to date.
#[derive(Debug)]
pub struct IpDatabaseConfig {
    pub account_id: String,
    pub license_key: String,
    pub database_city: String,
    pub database_asn: String,
    pub database_geocn: String,
    pub auto_update: bool,
}

impl Default for IpDatabaseConfig {
    fn default() -> (c: Self)
        ensures
            c.account_id@.len() == 0,
            c.license_key@.len() == 0,
            c.database_city@ == "GeoLite2-City"@,
            c.database_asn@ == "GeoLite2-ASN"@,
            c.database_geocn@ == "GeoCN"@,
            !c.auto_update,
    {
        IpDatabaseConfig {
            account_id: String::new(),
            license_key: String::new(),
            database_city: default_database_city(),
            database_asn: default_database_asn(),
            database_geocn: default_database_geocn(),
            auto_update: false,
        }
    }
}

/// The check for cheating with the progress.
#[derive(Debug)]
pub struct ProgressCheatBlockerConfig {
    pub enabled: Option<bool>,
    pub ban_duration_ms: i64,
    pub minimum_size: i64,
    pub block_excessive_clients: bool,
    pub excessive_threshold: Double,
    pub maximum_difference: Double,
    pub rewind_maximum_difference: Double,
    pub ipv4_prefix_length: u8,
    pub ipv6_prefix_length: u8,
    pub persist_duration_ms: i64,
    pub max_wait_duration_ms: i64,
    pub fast_pcb_test_percentage: Double,
    pub fast_pcb_test_block_duration_ms: i64,
    pub enable_persist: bool,
}

/// The settings of the check for cheating with the progress.
#[derive(Clone, Copy, PartialEq, Eq, Structural, Debug)]
pub struct PcbConfig {
    pub torrent_minimum_size: i64,
    pub block_excessive_clients: bool,
    pub excessive_threshold: Double,
    pub maximum_difference: Double,
    pub rewind_maximum_difference: Double,
    pub ipv4_prefix_length: u8,
    pub ipv6_prefix_length: u8,
    pub ban_duration_ms: i64,
    pub max_wait_duration_ms: i64,
    pub fast_pcb_test_percentage: Double,
    pub fast_pcb_test_block_duration_ms: i64,
    pub persist_enabled: bool,
    pub persist_duration_ms: i64,
}

impl ProgressCheatBlockerConfig {
    /// The settings of a section.
    pub open spec fn settings(self) -> PcbConfig {
        PcbConfig {
            torrent_minimum_size: self.minimum_size,
            block_excessive_clients: self.block_excessive_clients,
            excessive_threshold: self.excessive_threshold,
            maximum_difference: self.maximum_difference,
            rewind_maximum_difference: self.rewind_maximum_difference,
            ipv4_prefix_length: self.ipv4_prefix_length,
            ipv6_prefix_length: self.ipv6_prefix_length,
            ban_duration_ms: self.ban_duration_ms,
            max_wait_duration_ms: self.max_wait_duration_ms,
            fast_pcb_test_percentage: self.fast_pcb_test_percentage,
            fast_pcb_test_block_duration_ms: self.fast_pcb_test_block_duration_ms,
            persist_enabled: self.enable_persist,
            persist_duration_ms: self.persist_duration_ms,
        }
    }

    /// The settings of the section.
    pub fn to_pcb_config(&self) -> (s: PcbConfig)
        ensures
            s == self.settings(),
    {
        PcbConfig {
            torrent_minimum_size: self.minimum_size,
            block_excessive_clients: self.block_excessive_clients,
            excessive_threshold: self.excessive_threshold,
            maximum_difference: self.maximum_difference,
            rewind_maximum_difference: self.rewind_maximum_difference,
            ipv4_prefix_length: self.ipv4_prefix_length,
            ipv6_prefix_length: self.ipv6_prefix_length,
            ban_duration_ms: self.ban_duration_ms,
            max_wait_duration_ms: self.max_wait_duration_ms,
            fast_pcb_test_percentage: self.fast_pcb_test_percentage,
            fast_pcb_test_block_duration_ms: self.fast_pcb_test_block_duration_ms,
            persist_enabled: self.enable_persist,
            persist_duration_ms: self.persist_duration_ms,
        }
    }
}

/// The rules of the BTN network.
#[derive(Debug)]
pub struct BtnConfig {
    pub enabled: Option<bool>,
    pub ban_duration_ms: i64,
}

impl Default for BtnConfig {
    fn default() -> (c: Self)
        ensures
            c.enabled == Some(true),
            c.ban_duration_ms == BTN_BAN_DURATION_MS,
    {
        BtnConfig { enabled: Some(true), ban_duration_ms: default_btn_ban_duration() }
    }
}

/// Watching the traffic.
#[derive(Debug)]
pub struct ActiveMonitoringConfig {
    pub enabled: Option<bool>,
    pub traffic_monitoring: TrafficMonitoringConfig,
    pub traffic_sliding_capping: TrafficSlidingCappingConfig,
}

/// The settings of watching the traffic.
#[derive(Clone, Copy, PartialEq, Eq, Structural, Debug)]
pub struct ActiveMonitoringSettings {
    pub daily_traffic_capping: i64,
    pub use_traffic_sliding_capping: bool,
    pub max_traffic_allowed_in_window_period: i64,
    pub traffic_sliding_capping_max_speed: i64,
    pub traffic_sliding_capping_min_speed: i64,
}

impl ActiveMonitoringConfig {
    /// The settings of a section.
    pub open spec fn settings(self) -> ActiveMonitoringSettings {
        ActiveMonitoringSettings {
            daily_traffic_capping: self.traffic_monitoring.daily,
            use_traffic_sliding_capping: self.traffic_sliding_capping.enabled,
            max_traffic_allowed_in_window_period:
                self.traffic_sliding_capping.daily_max_allowed_upload_traffic,
            traffic_sliding_capping_max_speed: self.traffic_sliding_capping.max_speed,
            traffic_sliding_capping_min_speed: self.traffic_sliding_capping.min_speed,
        }
    }

    /// The settings of the section.
    pub fn to_settings(&self) -> (s: ActiveMonitoringSettings)
        ensures
            s == self.settings(),
    {
        ActiveMonitoringSettings {
            daily_traffic_capping: self.traffic_monitoring.daily,
            use_traffic_sliding_capping: self.traffic_sliding_capping.enabled,
            max_traffic_allowed_in_window_period:
                self.traffic_sliding_capping.daily_max_allowed_upload_traffic,
            traffic_sliding_capping_max_speed: self.traffic_sliding_capping.max_speed,
            traffic_sliding_capping_min_speed: self.traffic_sliding_capping.min_speed,
        }
    }
}

impl Default for ActiveMonitoringConfig {
    fn default() -> (c: Self)
        ensures
            c.enabled is None,
            c.settings() == (ActiveMonitoringSettings {
                daily_traffic_capping: (-1) as i64,
                use_traffic_sliding_capping: false,
                max_traffic_allowed_in_window_period: 0,
                traffic_sliding_capping_max_speed: 0,
                traffic_sliding_capping_min_speed: 0,
            }),
            c.traffic_sliding_capping.profile_yml_max_allowed_upload_traffic is None,
    {
        ActiveMonitoringConfig {
            enabled: None,
            traffic_monitoring: TrafficMonitoringConfig::default(),
            traffic_sliding_capping: TrafficSlidingCappingConfig::default(),
        }
    }
}

/// The daily traffic that raises an alarm.
#[derive(Debug)]
pub struct TrafficMonitoringConfig {
    pub daily: i64,
}

impl Default for TrafficMonitoringConfig {
    fn default() -> (c: Self)
        ensures
            c.daily == -1,
    {
        TrafficMonitoringConfig { daily: default_daily_traffic_capping() }
    }
}

/// Capping the upload over a window of time. The key that only profiles use is read, but counts for
/// nothing.
#[derive(Debug)]
pub struct TrafficSlidingCappingConfig {
    pub enabled: bool,
    pub daily_max_allowed_upload_traffic: i64,
    pub profile_yml_max_allowed_upload_traffic: Option<i64>,
    pub max_speed: i64,
    pub min_speed: i64,
}

impl Default for TrafficSlidingCappingConfig {
    fn default() -> (c: Self)
        ensures
            c == (TrafficSlidingCappingConfig {
                enabled: false,
                daily_max_allowed_upload_traffic: 0,
                profile_yml_max_allowed_upload_traffic: None,
                max_speed: 0,
                min_speed: 0,
            }),
    {
        TrafficSlidingCappingConfig {
            enabled: false,
            daily_max_allowed_upload_traffic: 0,
            profile_yml_max_allowed_upload_traffic: None,
            max_speed: 0,
            min_speed: 0,
        }
    }
}

/// Analysing peers.
#[derive(Debug)]
pub struct PeerAnalyseServiceConfig {
    pub session_analyse: Option<SessionAnalyseConfig>,
    pub swarm_tracking: Option<SwarmTrackingConfig>,
    pub peer_recording: Option<PeerRecordingConfig>,
}

impl Default for PeerAnalyseServiceConfig {
    fn default() -> (v: Self)
        ensures
            v.session_analyse is None,
            v.swarm_tracking is None,
            v.peer_recording is None,
    {
        PeerAnalyseServiceConfig {
            session_analyse: None,
            swarm_tracking: None,
            peer_recording: None,
        }
    }
}

/// Analysing sessions.
#[derive(Debug)]
pub struct SessionAnalyseConfig {
    pub enabled: Option<bool>,
    pub data_flush_interval_ms: i64,
    pub cleanup_interval_ms: i64,
    pub data_retention_time_ms: i64,
}

/// The settings of analysing sessions.
#[derive(Clone, Copy, PartialEq, Eq, Structural, Debug)]
pub struct SessionAnalyseSettings {
    pub cleanup_interval_ms: i64,
    pub data_flush_interval_ms: i64,
    pub data_retention_time_ms: i64,
}

impl Default for SessionAnalyseConfig {
    fn default() -> (c: Self)
        ensures
            c == (SessionAnalyseConfig {
                enabled: None,
                data_flush_interval_ms: 0,
                cleanup_interval_ms: 0,
                data_retention_time_ms: 0,
            }),
    {
        SessionAnalyseConfig {
            enabled: None,
            data_flush_interval_ms: 0,
            cleanup_interval_ms: 0,
            data_retention_time_ms: 0,
        }
    }
}

impl SessionAnalyseConfig {
    /// The settings of a section.
    pub open spec fn settings(self) -> SessionAnalyseSettings {
        SessionAnalyseSettings {
            cleanup_interval_ms: self.cleanup_interval_ms,
            data_flush_interval_ms: self.data_flush_interval_ms,
            data_retention_time_ms: self.data_retention_time_ms,
        }
    }

    /// The settings of the section.
    pub fn to_settings(&self) -> (s: SessionAnalyseSettings)
        ensures
            s == self.settings(),
    {
        SessionAnalyseSettings {
            cleanup_interval_ms: self.cleanup_interval_ms,
            data_flush_interval_ms: self.data_flush_interval_ms,
            data_retention_time_ms: self.data_retention_time_ms,
        }
    }
}

/// Tracking swarms.
#[derive(Debug)]
pub struct SwarmTrackingConfig {
    pub enabled: Option<bool>,
    pub data_flush_interval_ms: i64,
}

/// The settings of tracking swarms.
#[derive(Clone, Copy, PartialEq, Eq, Structural, Debug)]
pub struct SwarmTrackingSettings {
    pub data_flush_interval_ms: i64,
}

impl Default for SwarmTrackingConfig {
    fn default() -> (c: Self)
        ensures
            c == (SwarmTrackingConfig { enabled: None, data_flush_interval_ms: 0 }),
    {
        SwarmTrackingConfig { enabled: None, data_flush_interval_ms: 0 }
    }
}

impl SwarmTrackingConfig {
    /// The settings of a section.
    pub open spec fn settings(self) -> SwarmTrackingSettings {
        SwarmTrackingSettings { data_flush_interval_ms: self.data_flush_interval_ms }
    }

    /// The settings of the section.
    pub fn to_settings(&self) -> (s: SwarmTrackingSettings)
        ensures
            s == self.settings(),
    {
        SwarmTrackingSettings { data_flush_interval_ms: self.data_flush_interval_ms }
    }
}

/// Recording peers.
#[derive(Debug)]
pub struct PeerRecordingConfig {
    pub enabled: Option<bool>,
    pub data_retention_time_ms: i64,
    pub data_cleanup_interval_ms: i64,
    pub data_flush_interval_ms: i64,
}

/// The settings of recording peers.
#[derive(Clone, Copy, PartialEq, Eq, Structural, Debug)]
pub struct PeerRecordingSettings {
    pub data_retention_time_ms: i64,
    pub data_cleanup_interval_ms: i64,
    pub data_flush_interval_ms: i64,
}

impl Default for PeerRecordingConfig {
    fn default() -> (c: Self)
        ensures
            c == (PeerRecordingConfig {
                enabled: None,
                data_retention_time_ms: (-1) as i64,
                data_cleanup_interval_ms: (-1) as i64,
                data_flush_interval_ms: 20_000,
            }),
    {
        PeerRecordingConfig {
            enabled: None,
            data_retention_time_ms: default_peer_recording_retention(),
            data_cleanup_interval_ms: default_peer_recording_cleanup(),
            data_flush_interval_ms: default_peer_recording_flush(),
        }
    }
}

impl PeerRecordingConfig {
    /// The settings of a section.
    pub open spec fn settings(self) -> PeerRecordingSettings {
        PeerRecordingSettings {
            data_retention_time_ms: self.data_retention_time_ms,
            data_cleanup_interval_ms: self.data_cleanup_interval_ms,
            data_flush_interval_ms: self.data_flush_interval_ms,
        }
    }

    /// The settings of the section.
    pub fn to_settings(&self) -> (s: PeerRecordingSettings)
        ensures
            s == self.settings(),
    {
        PeerRecordingSettings {
            data_retention_time_ms: self.data_retention_time_ms,
            data_cleanup_interval_ms: self.data_cleanup_interval_ms,
            data_flush_interval_ms: self.data_flush_interval_ms,
        }
    }
}

// --------------------------------------------------------------------- modules
/// A module that checks peers, with its settings.
#[derive(Debug)]
pub enum ModuleSettings<'a> {
    IpBlacklist { config: &'a IpAddressBlockerConfig, with_geo: bool },
    PeerIdBlacklist { config: &'a PeerIdBlacklistConfig },
    ClientNameBlacklist { config: &'a ClientNameBlacklistConfig },
    ExpressionEngine { config: &'a ExpressionEngineConfig },
    ProgressCheatBlocker(PcbConfig),
    MultiDialingBlocker(MultiDialingSettings),
    AutoRangeBan { ipv4: u8, ipv6: u8, ban_duration_ms: i64 },
    BtnNetworkOnline { ban_duration_ms: i64 },
    IpRuleList { ban_duration_ms: i64 },
    PtrBlacklist { config: &'a PtrBlacklistConfig },
    IdleConnectionDosProtection { config: &'a IdleProtectionConfig },
    AntiVampire { ban_duration_ms: i64, xunlei_preset: bool },
}

impl<'a> ModuleSettings<'a> {
    /// The place of a module in the order of checking.
    pub open spec fn rank(self) -> int {
        match self {
            ModuleSettings::IpBlacklist { config, with_geo } => 0,
            ModuleSettings::PeerIdBlacklist { config } => 1,
            ModuleSettings::ClientNameBlacklist { config } => 2,
            ModuleSettings::ExpressionEngine { config } => 3,
            ModuleSettings::ProgressCheatBlocker(_) => 4,
            ModuleSettings::MultiDialingBlocker(_) => 5,
            ModuleSettings::AutoRangeBan { ipv4, ipv6, ban_duration_ms } => 6,
            ModuleSettings::BtnNetworkOnline { ban_duration_ms } => 7,
            ModuleSettings::IpRuleList { ban_duration_ms } => 8,
            ModuleSettings::PtrBlacklist { config } => 9,
            ModuleSettings::IdleConnectionDosProtection { config } => 10,
            ModuleSettings::AntiVampire { ban_duration_ms, xunlei_preset } => 11,
        }
    }

    /// The name of a module's section.
    pub open spec fn name(self) -> Seq<char> {
        match self {
            ModuleSettings::IpBlacklist { config, with_geo } => "ip-address-blocker"@,
            ModuleSettings::PeerIdBlacklist { config } => "peer-id-blacklist"@,
            ModuleSettings::ClientNameBlacklist { config } => "client-name-blacklist"@,
            ModuleSettings::ExpressionEngine { config } => "expression-engine"@,
            ModuleSettings::ProgressCheatBlocker(_) => "progress-cheat-blocker"@,
            ModuleSettings::MultiDialingBlocker(_) => "multi-dialing-blocker"@,
            ModuleSettings::AutoRangeBan { ipv4, ipv6, ban_duration_ms } => "auto-range-ban"@,
            ModuleSettings::BtnNetworkOnline { ban_duration_ms } => "btn"@,
            ModuleSettings::IpRuleList { ban_duration_ms } => "ip-address-blocker-rules"@,
            ModuleSettings::PtrBlacklist { config } => "ptr-blacklist"@,
            ModuleSettings::IdleConnectionDosProtection { config } =>
                "idle-connection-dos-protection"@,
            ModuleSettings::AntiVampire { ban_duration_ms, xunlei_preset } => "anti-vampire"@,
        }
    }

    /// The name of the module's section.
    pub fn config_name(&self) -> (name: &'static str)
        ensures
            name@ == self.name(),
    {
        match self {
            ModuleSettings::IpBlacklist { .. } => "ip-address-blocker",
            ModuleSettings::PeerIdBlacklist { .. } => "peer-id-blacklist",
            ModuleSettings::ClientNameBlacklist { .. } => "client-name-blacklist",
            ModuleSettings::ExpressionEngine { .. } => "expression-engine",
            ModuleSettings::ProgressCheatBlocker(_) => "progress-cheat-blocker",
            ModuleSettings::MultiDialingBlocker(_) => "multi-dialing-blocker",
            ModuleSettings::AutoRangeBan { .. } => "auto-range-ban",
            ModuleSettings::BtnNetworkOnline { .. } => "btn",
            ModuleSettings::IpRuleList { .. } => "ip-address-blocker-rules",
            ModuleSettings::PtrBlacklist { .. } => "ptr-blacklist",
            ModuleSettings::IdleConnectionDosProtection { .. } => "idle-connection-dos-protection",
            ModuleSettings::AntiVampire { .. } => "anti-vampire",
        }
    }
}

/// The module on addresses and places, if it is on.
pub open spec fn ip_slot<'a>(m: ModulesSection, with_geo: bool) -> Option<ModuleSettings<'a>> {
    match m.ip_address_blocker {
        Some(c) => if c.enabled == Some(true) {
            Some(ModuleSettings::IpBlacklist { config: &c, with_geo })
        } else {
            None
        },
        None => None,
    }
}

/// The module on peer identifiers, if it is on and its rules can be read.
pub open spec fn peer_id_slot<'a>(m: ModulesSection, readable: bool) -> Option<ModuleSettings<'a>> {
    match m.peer_id_blacklist {
        Some(c) => if c.enabled == Some(true) && readable {
            Some(ModuleSettings::PeerIdBlacklist { config: &c })
        } else {
            None
        },
        None => None,
    }
}

/// The module on client names, if it is on and its rules can be read.
pub open spec fn client_name_slot<'a>(m: ModulesSection, readable: bool) -> Option<ModuleSettings<'a>> {
    match m.client_name_blacklist {
        Some(c) => if c.enabled == Some(true) && readable {
            Some(ModuleSettings::ClientNameBlacklist { config: &c })
        } else {
            None
        },
        None => None,
    }
}

/// The module of scripts, if it is on.
pub open spec fn script_slot<'a>(m: ModulesSection) -> Option<ModuleSettings<'a>> {
    match m.expression_engine {
        Some(c) => if c.enabled == Some(true) {
            Some(ModuleSettings::ExpressionEngine { config: &c })
        } else {
            None
        },
        None => None,
    }
}

/// The module on cheating with the progress, if it is on.
pub open spec fn cheat_slot<'a>(m: ModulesSection) -> Option<ModuleSettings<'a>> {
    match m.progress_cheat_blocker {
        Some(c) => if c.enabled == Some(true) {
            Some(ModuleSettings::ProgressCheatBlocker(c.settings()))
        } else {
            None
        },
        None => None,
    }
}

/// The module on many peers of one network, if it is on.
pub open spec fn dialing_slot<'a>(m: ModulesSection) -> Option<ModuleSettings<'a>> {
    match m.multi_dialing_blocker {
        Some(c) => if c.enabled == Some(true) {
            Some(ModuleSettings::MultiDialingBlocker(c.settings()))
        } else {
            None
        },
        None => None,
    }
}

/// The module on networks round banned peers, if it is on.
pub open spec fn range_slot<'a>(m: ModulesSection) -> Option<ModuleSettings<'a>> {
    match m.auto_range_ban {
        Some(c) => if c.enabled == Some(true) {
            Some(ModuleSettings::AutoRangeBan {
                    ipv4: c.ipv4,
                    ipv6: c.ipv6,
                    ban_duration_ms: c.ban_duration_ms,
                })
        } else {
            None
        },
        None => None,
    }
}

/// The module of the BTN network, if it is on.
pub open spec fn btn_slot<'a>(m: ModulesSection) -> Option<ModuleSettings<'a>> {
    match m.btn {
        Some(c) => if c.enabled == Some(true) {
            Some(ModuleSettings::BtnNetworkOnline { ban_duration_ms: c.ban_duration_ms })
        } else {
            None
        },
        None => None,
    }
}

/// The module on lists of networks, if it is on.
pub open spec fn list_slot<'a>(m: ModulesSection) -> Option<ModuleSettings<'a>> {
    match m.ip_rule_list {
        Some(c) => if c.enabled == Some(true) {
            Some(ModuleSettings::IpRuleList { ban_duration_ms: c.ban_duration_ms })
        } else {
            None
        },
        None => None,
    }
}

/// The module on reverse names, if it is on.
pub open spec fn ptr_slot<'a>(m: ModulesSection) -> Option<ModuleSettings<'a>> {
    match m.ptr_blacklist {
        Some(c) => if c.enabled == Some(true) {
            Some(ModuleSettings::PtrBlacklist { config: &c })
        } else {
            None
        },
        None => None,
    }
}

/// The module on idle connections, if it is on.
pub open spec fn idle_slot<'a>(m: ModulesSection) -> Option<ModuleSettings<'a>> {
    match m.idle_connection_dos_protection {
        Some(c) => if c.enabled == Some(true) {
            Some(ModuleSettings::IdleConnectionDosProtection { config: &c })
        } else {
            None
        },
        None => None,
    }
}

/// The module of presets, if it is on.
pub open spec fn vampire_slot<'a>(m: ModulesSection) -> Option<ModuleSettings<'a>> {
    match m.anti_vampire {
        Some(c) => if c.enabled == Some(true) {
            Some(ModuleSettings::AntiVampire {
                    ban_duration_ms: c.ban_duration_ms,
                    xunlei_preset: c.presets.xunlei.enabled,
                })
        } else {
            None
        },
        None => None,
    }
}

/// Modules with one more, if there is one.
pub open spec fn with_module<'a>(v: Seq<ModuleSettings<'a>>, o: Option<ModuleSettings<'a>>) -> Seq<
    ModuleSettings<'a>,
> {
    match o {
        Some(x) => v.push(x),
        None => v,
    }
}

/// The modules of a profile, in the order in which they check. `peer_ids` and `client_names` tell
/// whether these rules can be read.
pub open spec fn planned<'a>(
    m: ModulesSection,
    with_geo: bool,
    peer_ids: bool,
    client_names: bool,
) -> Seq<ModuleSettings<'a>> {
    let v = with_module(Seq::empty(), ip_slot(m, with_geo));
    let v = with_module(v, peer_id_slot(m, peer_ids));
    let v = with_module(v, client_name_slot(m, client_names));
    let v = with_module(v, script_slot(m));
    let v = with_module(v, cheat_slot(m));
    let v = with_module(v, dialing_slot(m));
    let v = with_module(v, range_slot(m));
    let v = with_module(v, btn_slot(m));
    let v = with_module(v, list_slot(m));
    let v = with_module(v, ptr_slot(m));
    let v = with_module(v, idle_slot(m));
    with_module(v, vampire_slot(m))
}

/// What peers go through: those of some networks are not checked, others by each module in turn.
#[derive(Debug)]
pub struct Pipeline<'a> {
    pub modules: Vec<ModuleSettings<'a>>,
    pub ignore: IpSet,
    pub global_ban_duration_ms: i64,
}

/// A module that only watches, with its settings.
#[derive(Clone, Copy, PartialEq, Eq, Structural, Debug)]
pub enum MonitorSettings {
    ActiveMonitoring(ActiveMonitoringSettings),
    SwarmTracking(SwarmTrackingSettings),
    SessionAnalyse(SessionAnalyseSettings),
    PeerRecording(PeerRecordingSettings),
}

impl MonitorSettings {
    /// The name of a module's section.
    pub open spec fn name(self) -> Seq<char> {
        match self {
            MonitorSettings::ActiveMonitoring(_) => "active-monitoring"@,
            MonitorSettings::SwarmTracking(_) => "peer-analyse-service.swarm-tracking"@,
            MonitorSettings::SessionAnalyse(_) => "peer-analyse-service.session-analyse"@,
            MonitorSettings::PeerRecording(_) => "peer-analyse-service.peer-recording"@,
        }
    }

    /// The name of the module's section.
    pub fn config_name(&self) -> (name: &'static str)
        ensures
            name@ == self.name(),
    {
        match self {
            MonitorSettings::ActiveMonitoring(_) => "active-monitoring",
            MonitorSettings::SwarmTracking(_) => "peer-analyse-service.swarm-tracking",
            MonitorSettings::SessionAnalyse(_) => "peer-analyse-service.session-analyse",
            MonitorSettings::PeerRecording(_) => "peer-analyse-service.peer-recording",
        }
    }
}

/// The modules of a profile that only watch, in order.
pub open spec fn monitors(m: ModulesSection) -> Seq<MonitorSettings> {
    let v: Seq<MonitorSettings> = Seq::empty();
    let v = match m.active_monitoring {
        Some(c) => if c.enabled == Some(true) {
            v.push(MonitorSettings::ActiveMonitoring(c.settings()))
        } else {
            v
        },
        None => v,
    };
    match m.peer_analyse_service {
        None => v,
        Some(service) => {
            let v = match service.swarm_tracking {
                Some(c) => if c.enabled == Some(true) {
                    v.push(MonitorSettings::SwarmTracking(c.settings()))
                } else {
                    v
                },
                None => v,
            };
            let v = match service.session_analyse {
                Some(c) => if c.enabled == Some(true) {
                    v.push(MonitorSettings::SessionAnalyse(c.settings()))
                } else {
                    v
                },
                None => v,
            };
            match service.peer_recording {
                Some(c) => if c.enabled == Some(true) {
                    v.push(MonitorSettings::PeerRecording(c.settings()))
                } else {
                    v
                },
                None => v,
            }
        },
    }
}

/// Whether a list of rules may be found readable or not; a module without a section asks nothing.
pub open spec fn found_readable<R: Fn(&Vec<String>) -> bool>(
    readable: R,
    wanted: bool,
    rules: Vec<String>,
    answer: bool,
) -> bool {
    wanted ==> readable.ensures((&rules,), answer)
}

/// Whether modules may be those of a profile, given how the two lists of rules were found.
pub open spec fn builds<'a, R: Fn(&Vec<String>) -> bool>(
    m: ModulesSection,
    with_geo: bool,
    readable: R,
    modules: Seq<ModuleSettings<'a>>,
) -> bool {
    exists|peer_ids: bool, client_names: bool|
        {
            &&& modules == #[trigger] planned(m, with_geo, peer_ids, client_names)
            &&& m.peer_id_blacklist matches Some(c) ==> found_readable(
                readable,
                c.enabled == Some(true),
                c.banned_peer_id,
                peer_ids,
            )
            &&& m.client_name_blacklist matches Some(c) ==> found_readable(
                readable,
                c.enabled == Some(true),
                c.banned_client_name,
                client_names,
            )
        }
}

impl ProfileConfig {
    /// What peers go through, without knowledge of places. `readable` tells whether a list of rules
    /// can be read.
    pub fn build_pipeline<R: Fn(&Vec<String>) -> bool>(&self, readable: R) -> (p: Pipeline<'_>)
        requires
            forall|rules: &Vec<String>| readable.requires((rules,)),
        ensures
            builds(self.module, false, readable, p.modules@),
            p.ignore.wf(),
            p.ignore@ == nets_of(texts(self.ignore_peers_from_addresses@)),
            p.global_ban_duration_ms == self.ban_duration,
    {
        self.build_pipeline_with_geo(false, readable)
    }

    /// What peers go through. `with_geo` tells whether places are known.
    pub fn build_pipeline_with_geo<R: Fn(&Vec<String>) -> bool>(
        &self,
        with_geo: bool,
        readable: R,
    ) -> (p: Pipeline<'_>)
        requires
            forall|rules: &Vec<String>| readable.requires((rules,)),
        ensures
            builds(self.module, with_geo, readable, p.modules@),
            p.ignore.wf(),
            p.ignore@ == nets_of(texts(self.ignore_peers_from_addresses@)),
            p.global_ban_duration_ms == self.ban_duration,
    {
        let mut modules: Vec<ModuleSettings<'_>> = Vec::new();
        let mut peer_ids = false;
        let mut client_names = false;
        let ghost v0 = modules@;
        if let Some(c) = &self.module.ip_address_blocker {
            if enabled_or_disabled(&c.enabled) {
                modules.push(ModuleSettings::IpBlacklist { config: c, with_geo });
            }
        }
        assert(modules@ == with_module(v0, ip_slot(self.module, with_geo)));
        let ghost v1 = modules@;
        if let Some(c) = &self.module.peer_id_blacklist {
            if enabled_or_disabled(&c.enabled) {
                peer_ids = readable(&c.banned_peer_id);
                if peer_ids {
                    modules.push(ModuleSettings::PeerIdBlacklist { config: c });
                }
            }
        }
        assert(modules@ == with_module(v1, peer_id_slot(self.module, peer_ids)));
        let ghost v2 = modules@;
        if let Some(c) = &self.module.client_name_blacklist {
            if enabled_or_disabled(&c.enabled) {
                client_names = readable(&c.banned_client_name);
                if client_names {
                    modules.push(ModuleSettings::ClientNameBlacklist { config: c });
                }
            }
        }
        assert(modules@ == with_module(v2, client_name_slot(self.module, client_names)));
        let ghost v3 = modules@;
        if let Some(c) = &self.module.expression_engine {
            if enabled_or_disabled(&c.enabled) {
                modules.push(ModuleSettings::ExpressionEngine { config: c });
            }
        }
        assert(modules@ == with_module(v3, script_slot(self.module)));
        let ghost v4 = modules@;
        if let Some(c) = &self.module.progress_cheat_blocker {
            if enabled_or_disabled(&c.enabled) {
                modules.push(ModuleSettings::ProgressCheatBlocker(c.to_pcb_config()));
            }
        }
        assert(modules@ == with_module(v4, cheat_slot(self.module)));
        let ghost v5 = modules@;
        if let Some(c) = &self.module.multi_dialing_blocker {
            if enabled_or_disabled(&c.enabled) {
                modules.push(ModuleSettings::MultiDialingBlocker(c.to_settings()));
            }
        }
        assert(modules@ == with_module(v5, dialing_slot(self.module)));
        let ghost v6 = modules@;
        if let Some(c) = &self.module.auto_range_ban {
            if enabled_or_disabled(&c.enabled) {
                modules.push(
                    ModuleSettings::AutoRangeBan {
                        ipv4: c.ipv4,
                        ipv6: c.ipv6,
                        ban_duration_ms: c.ban_duration_ms,
                    },
                );
            }
        }
        assert(modules@ == with_module(v6, range_slot(self.module)));
        let ghost v7 = modules@;
        if let Some(c) = &self.module.btn {
            if enabled_or_disabled(&c.enabled) {
                modules.push(
                    ModuleSettings::BtnNetworkOnline { ban_duration_ms: c.ban_duration_ms },
                );
            }
        }
        assert(modules@ == with_module(v7, btn_slot(self.module)));
        let ghost v8 = modules@;
        if let Some(c) = &self.module.ip_rule_list {
            if enabled_or_disabled(&c.enabled) {
                modules.push(ModuleSettings::IpRuleList { ban_duration_ms: c.ban_duration_ms });
            }
        }
        assert(modules@ == with_module(v8, list_slot(self.module)));
        let ghost v9 = modules@;
        if let Some(c) = &self.module.ptr_blacklist {
            if enabled_or_disabled(&c.enabled) {
                modules.push(ModuleSettings::PtrBlacklist { config: c });
            }
        }
        assert(modules@ == with_module(v9, ptr_slot(self.module)));
        let ghost v10 = modules@;
        if let Some(c) = &self.module.idle_connection_dos_protection {
            if enabled_or_disabled(&c.enabled) {
                modules.push(ModuleSettings::IdleConnectionDosProtection { config: c });
            }
        }
        assert(modules@ == with_module(v10, idle_slot(self.module)));
        let ghost v11 = modules@;
        if let Some(c) = &self.module.anti_vampire {
            if enabled_or_disabled(&c.enabled) {
                modules.push(
                    ModuleSettings::AntiVampire {
                        ban_duration_ms: c.ban_duration_ms,
                        xunlei_preset: c.presets.xunlei.enabled,
                    },
                );
            }
        }
        assert(modules@ == with_module(v11, vampire_slot(self.module)));
        assert(modules@ == planned(self.module, with_geo, peer_ids, client_names));
        Pipeline {
            modules,
            ignore: IpSet::from_cidrs(self.ignore_peers_from_addresses.as_slice()),
            global_ban_duration_ms: self.ban_duration,
        }
    }

    /// The modules that only watch.
    pub fn build_monitor_modules(&self) -> (v: Vec<MonitorSettings>)
        ensures
            v@ == monitors(self.module),
    {
        let mut v: Vec<MonitorSettings> = Vec::new();
        if let Some(c) = &self.module.active_monitoring {
            if enabled_or_disabled(&c.enabled) {
                v.push(MonitorSettings::ActiveMonitoring(c.to_settings()));
            }
        }
        if let Some(service) = &self.module.peer_analyse_service {
            if let Some(c) = &service.swarm_tracking {
                if enabled_or_disabled(&c.enabled) {
                    v.push(MonitorSettings::SwarmTracking(c.to_settings()));
                }
            }
            if let Some(c) = &service.session_analyse {
                if enabled_or_disabled(&c.enabled) {
                    v.push(MonitorSettings::SessionAnalyse(c.to_settings()));
                }
            }
            if let Some(c) = &service.peer_recording {
                if enabled_or_disabled(&c.enabled) {
                    v.push(MonitorSettings::PeerRecording(c.to_settings()));
                }
            }
        }
        v
    }
}

/// The names of the sections of modules.
pub open spec fn module_names<'a>(modules: Seq<ModuleSettings<'a>>) -> Seq<Seq<char>> {
    Seq::new(modules.len(), |i: int| modules[i].name())
}

/// Texts as values.
pub open spec fn str_views(v: Seq<&'static str>) -> Seq<Seq<char>> {
    Seq::new(v.len(), |i: int| v[i]@)
}

/// The names of the sections of the modules that peers go through, in order.
pub fn module_config_names(pipeline: &Pipeline<'_>) -> (names: Vec<&'static str>)
    ensures
        str_views(names@) == module_names(pipeline.modules@),
{
    let mut names: Vec<&'static str> = Vec::new();
    let mut i: usize = 0;
    while i < pipeline.modules.len()
        invariant
            i <= pipeline.modules.len(),
            str_views(names@) == module_names(pipeline.modules@).take(i as int),
        decreases pipeline.modules.len() - i,
    {
        let ghost done = str_views(names@);
        let name = pipeline.modules[i].config_name();
        names.push(name);
        assert(str_views(names@) =~= done.push(name@));
        i += 1;
        assert(str_views(names@) =~= module_names(pipeline.modules@).take(i as int));
    }
    assert(str_views(names@) =~= module_names(pipeline.modules@));
    names
}

/// A module of the pipeline that is used without a profile.
#[derive(Clone, Copy, PartialEq, Eq, Structural, Debug)]
pub enum DefaultModule {
    IpBlacklist,
    PeerIdBlacklist,
    ClientNameBlacklist,
    ExpressionEngine { ban_duration_ms: i64 },
    ProgressCheatBlocker,
    MultiDialingBlocker,
    AutoRangeBan { ipv4: u8, ipv6: u8, ban_duration_ms: i64 },
    IpRuleList { ban_duration_ms: i64 },
    AntiVampire,
}

impl DefaultModule {
    /// The place of a module in the order of checking.
    pub open spec fn rank(self) -> int {
        match self {
            DefaultModule::IpBlacklist => 0,
            DefaultModule::PeerIdBlacklist => 1,
            DefaultModule::ClientNameBlacklist => 2,
            DefaultModule::ExpressionEngine { ban_duration_ms } => 3,
            DefaultModule::ProgressCheatBlocker => 4,
            DefaultModule::MultiDialingBlocker => 5,
            DefaultModule::AutoRangeBan { ipv4, ipv6, ban_duration_ms } => 6,
            DefaultModule::IpRuleList { ban_duration_ms } => 8,
            DefaultModule::AntiVampire => 11,
        }
    }
}

/// The modules that are used without a profile.
pub fn default_pipeline() -> (v: Vec<DefaultModule>)
    ensures
        v@ == seq![
            DefaultModule::IpBlacklist,
            DefaultModule::PeerIdBlacklist,
            DefaultModule::ClientNameBlacklist,
            DefaultModule::ExpressionEngine { ban_duration_ms: 0 },
            DefaultModule::ProgressCheatBlocker,
            DefaultModule::MultiDialingBlocker,
            DefaultModule::AutoRangeBan { ipv4: 30, ipv6: 48, ban_duration_ms: 604_800_000 },
            DefaultModule::IpRuleList { ban_duration_ms: 259_200_000 },
            DefaultModule::AntiVampire,
        ],
        forall|i: int, j: int|
            0 <= i < j < v@.len() ==> (#[trigger] v@[i]).rank() < (#[trigger] v@[j]).rank(),
{
    let mut v: Vec<DefaultModule> = Vec::new();
    v.push(DefaultModule::IpBlacklist);
    v.push(DefaultModule::PeerIdBlacklist);
    v.push(DefaultModule::ClientNameBlacklist);
    v.push(DefaultModule::ExpressionEngine { ban_duration_ms: 0 });
    v.push(DefaultModule::ProgressCheatBlocker);
    v.push(DefaultModule::MultiDialingBlocker);
    v.push(DefaultModule::AutoRangeBan { ipv4: 30, ipv6: 48, ban_duration_ms: 604_800_000 });
    v.push(DefaultModule::IpRuleList { ban_duration_ms: 259_200_000 });
    v.push(DefaultModule::AntiVampire);
    v
}

/// Whether the ranks of modules grow and stay below a bound.
pub open spec fn in_order<'a>(v: Seq<ModuleSettings<'a>>, bound: int) -> bool {
    &&& forall|i: int| 0 <= i < v.len() ==> (#[trigger] v[i]).rank() < bound
    &&& forall|i: int, j: int|
        0 <= i < j < v.len() ==> (#[trigger] v[i]).rank() < (#[trigger] v[j]).rank()
}

proof fn lemma_in_order<'a>(
    v: Seq<ModuleSettings<'a>>,
    o: Option<ModuleSettings<'a>>,
    rank: int,
)
    requires
        in_order(v, rank),
        o matches Some(x) ==> x.rank() == rank,
    ensures
        in_order(with_module(v, o), rank + 1),
{
}

/// Modules stand in a fixed order, each at most once, whatever the profile.
pub proof fn modules_keep_their_order(
    m: ModulesSection,
    with_geo: bool,
    peer_ids: bool,
    client_names: bool,
)
    ensures
        in_order(planned(m, with_geo, peer_ids, client_names), 12),
{
    let v0: Seq<ModuleSettings> = Seq::empty();
    let v1 = with_module(v0, ip_slot(m, with_geo));
    lemma_in_order(v0, ip_slot(m, with_geo), 0);
    let v2 = with_module(v1, peer_id_slot(m, peer_ids));
    lemma_in_order(v1, peer_id_slot(m, peer_ids), 1);
    let v3 = with_module(v2, client_name_slot(m, client_names));
    lemma_in_order(v2, client_name_slot(m, client_names), 2);
    let v4 = with_module(v3, script_slot(m));
    lemma_in_order(v3, script_slot(m), 3);
    let v5 = with_module(v4, cheat_slot(m));
    lemma_in_order(v4, cheat_slot(m), 4);
    let v6 = with_module(v5, dialing_slot(m));
    lemma_in_order(v5, dialing_slot(m), 5);
    let v7 = with_module(v6, range_slot(m));
    lemma_in_order(v6, range_slot(m), 6);
    let v8 = with_module(v7, btn_slot(m));
    lemma_in_order(v7, btn_slot(m), 7);
    let v9 = with_module(v8, list_slot(m));
    lemma_in_order(v8, list_slot(m), 8);
    let v10 = with_module(v9, ptr_slot(m));
    lemma_in_order(v9, ptr_slot(m), 9);
    let v11 = with_module(v10, idle_slot(m));
    lemma_in_order(v10, idle_slot(m), 10);
    lemma_in_order(v11, vampire_slot(m), 11);
}

/// A profile without sections has no module.
pub proof fn no_sections_no_modules(with_geo: bool, peer_ids: bool, client_names: bool)
    ensures
        planned(no_modules(), with_geo, peer_ids, client_names).len() == 0,
        monitors(no_modules()).len() == 0,
{
}

/// Modules that only watch never check peers.
pub proof fn watching_does_not_check(
    m: ModulesSection,
    watching: Option<ActiveMonitoringConfig>,
    analysing: Option<PeerAnalyseServiceConfig>,
    with_geo: bool,
    peer_ids: bool,
    client_names: bool,
)
    ensures
        planned(
            (ModulesSection {
                active_monitoring: watching,
                peer_analyse_service: analysing,
                ..m
            }),
            with_geo,
            peer_ids,
            client_names,
        ) == planned(m, with_geo, peer_ids, client_names),
{
}

proof fn lemma_same_names<'a>(
    a: Seq<ModuleSettings<'a>>,
    b: Seq<ModuleSettings<'a>>,
    o: Option<ModuleSettings<'a>>,
)
    requires
        module_names(a) == module_names(b),
    ensures
        module_names(with_module(a, o)) == module_names(with_module(b, o)),
{
    assert(module_names(a).len() == module_names(b).len());
    if let Some(x) = o {
        assert(module_names(a.push(x)) =~= module_names(a).push(x.name()));
        assert(module_names(b.push(x)) =~= module_names(b).push(x.name()));
    }
}

/// Whether places are known changes no name.
pub proof fn places_change_no_name(m: ModulesSection, peer_ids: bool, client_names: bool)
    ensures
        module_names(planned(m, true, peer_ids, client_names)) == module_names(
            planned(m, false, peer_ids, client_names),
        ),
{
    let v0: Seq<ModuleSettings> = Seq::empty();
    let a1 = with_module(v0, ip_slot(m, true));
    let b1 = with_module(v0, ip_slot(m, false));
    assert(module_names(a1) =~= module_names(b1));
    lemma_same_names(a1, b1, peer_id_slot(m, peer_ids));
    let a2 = with_module(a1, peer_id_slot(m, peer_ids));
    let b2 = with_module(b1, peer_id_slot(m, peer_ids));
    lemma_same_names(a2, b2, client_name_slot(m, client_names));
    let a3 = with_module(a2, client_name_slot(m, client_names));
    let b3 = with_module(b2, client_name_slot(m, client_names));
    lemma_same_names(a3, b3, script_slot(m));
    let a4 = with_module(a3, script_slot(m));
    let b4 = with_module(b3, script_slot(m));
    lemma_same_names(a4, b4, cheat_slot(m));
    let a5 = with_module(a4, cheat_slot(m));
    let b5 = with_module(b4, cheat_slot(m));
    lemma_same_names(a5, b5, dialing_slot(m));
    let a6 = with_module(a5, dialing_slot(m));
    let b6 = with_module(b5, dialing_slot(m));
    lemma_same_names(a6, b6, range_slot(m));
    let a7 = with_module(a6, range_slot(m));
    let b7 = with_module(b6, range_slot(m));
    lemma_same_names(a7, b7, btn_slot(m));
    let a8 = with_module(a7, btn_slot(m));
    let b8 = with_module(b7, btn_slot(m));
    lemma_same_names(a8, b8, list_slot(m));
    let a9 = with_module(a8, list_slot(m));
    let b9 = with_module(b8, list_slot(m));
    lemma_same_names(a9, b9, ptr_slot(m));
    let a10 = with_module(a9, ptr_slot(m));
    let b10 = with_module(b9, ptr_slot(m));
    lemma_same_names(a10, b10, idle_slot(m));
    let a11 = with_module(a10, idle_slot(m));
    let b11 = with_module(b10, idle_slot(m));
    lemma_same_names(a11, b11, vampire_slot(m));
}

// ------------------------------------------------------------------ laws of profiles
proof fn lemma_added(v: Seq<Seq<char>>, on: bool, text: Seq<char>, token: Seq<char>)
    ensures
        add_if(v, on, text).contains(token) == (v.contains(token) || (on && token == text)),
{
    let w = add_if(v, on, text);
    if on {
        assert(w[v.len() as int] == text);
        if v.contains(token) {
            let i = choose|i: int| 0 <= i < v.len() && v[i] == token;
            assert(w[i] == token);
        }
    }
}

/// The switches of the kinds of networks stand for their own tokens and for no others.
pub proof fn switches_stand_for_their_tokens(f: NetTypeFlags, token: Seq<char>)
    ensures
        NetTypeConfig::Flags(f).tokens().contains(token) == {
            ||| f.wideband && token == "wideband"@
            ||| f.base_station && token == "baseStation"@
            ||| f.government_and_enterprise_line && token == "governmentAndEnterpriseLine"@
            ||| f.business_platform && token == "businessPlatform"@
            ||| f.backbone_network && token == "backboneNetwork"@
            ||| f.ip_private_network && token == "ipPrivateNetwork"@
            ||| f.internet_cafe && token == "internetCafe"@
            ||| f.iot && token == "iot"@
            ||| f.datacenter && token == "dataCenter"@
        },
{
    let v0 = Seq::<Seq<char>>::empty();
    let v1 = add_if(v0, f.wideband, "wideband"@);
    lemma_added(v0, f.wideband, "wideband"@, token);
    let v2 = add_if(v1, f.base_station, "baseStation"@);
    lemma_added(v1, f.base_station, "baseStation"@, token);
    let v3 = add_if(v2, f.government_and_enterprise_line, "governmentAndEnterpriseLine"@);
    lemma_added(v2, f.government_and_enterprise_line, "governmentAndEnterpriseLine"@, token);
    let v4 = add_if(v3, f.business_platform, "businessPlatform"@);
    lemma_added(v3, f.business_platform, "businessPlatform"@, token);
    let v5 = add_if(v4, f.backbone_network, "backboneNetwork"@);
    lemma_added(v4, f.backbone_network, "backboneNetwork"@, token);
    let v6 = add_if(v5, f.ip_private_network, "ipPrivateNetwork"@);
    lemma_added(v5, f.ip_private_network, "ipPrivateNetwork"@, token);
    let v7 = add_if(v6, f.internet_cafe, "internetCafe"@);
    lemma_added(v6, f.internet_cafe, "internetCafe"@, token);
    let v8 = add_if(v7, f.iot, "iot"@);
    lemma_added(v7, f.iot, "iot"@, token);
    let v9 = add_if(v8, f.datacenter, "dataCenter"@);
    lemma_added(v8, f.datacenter, "dataCenter"@, token);
}

/// The tokens of a list are its texts without the white space around them, in their order and
/// without the empty ones.
pub proof fn listed_tokens_are_trimmed(list: Seq<Seq<char>>, text: Seq<char>)
    ensures
        trim_of(text).len() > 0 ==> trimmed_texts(list.push(text)) == trimmed_texts(list).push(
            trim_of(text),
        ),
        trim_of(text).len() == 0 ==> trimmed_texts(list.push(text)) == trimmed_texts(list),
{
    assert(list.push(text).drop_last() =~= list);
}

/// A duration is a number of milliseconds, or the word `default` in any case or nothing for none;
/// white space around it does not count, and any other text is no duration.
pub proof fn durations_are_numbers_or_the_default(pre: Seq<char>, t: Seq<char>, post: Seq<char>, n: i64)
    requires
        blank(pre),
        blank(post),
        t.len() > 0,
        !is_ws(t[0]),
        !is_ws(t.last()),
    ensures
        ascii_lower_of(t) == "default"@ ==> duration_of(pre + t + post) == Some(0i64),
        t == decimal_int(n as int) ==> duration_of(pre + t + post) == Some(n),
        ascii_lower_of(t) != "default"@ && int_of_text(t) is None ==> duration_of(pre + t + post)
            is None,
        duration_of(pre) == Some(0i64),
{
    trimming_takes_the_white_space_around(pre, t, post);
    decimal_round_trips(n as int);
    reveal_strlit("default");
    assert(ascii_lower_of("default"@) =~= "default"@);
    if t == decimal_int(n as int) {
        lemma_decimal_digits(if n < 0 { (-n) as nat } else { n as nat });
        let low = ascii_lower_of(t);
        assert(t[0] == '-' || '0' <= t[0] <= '9');
        assert(low[0] == t[0]);
        assert("default"@[0] == 'd');
    }
}

/// Numbers of a list are taken as numbers or as texts that spell one, in their order; what is
/// neither is left out.
pub proof fn lists_of_numbers_are_lenient(
    entries: Seq<LenientNumber>,
    n: i64,
    t: String,
)
    ensures
        numbers_of(entries.push(LenientNumber::Number(Some(n)))) == numbers_of(entries).push(n),
        numbers_of(entries.push(LenientNumber::Number(None))) == numbers_of(entries),
        numbers_of(entries.push(LenientNumber::Other)) == numbers_of(entries),
        trim_of(t@) == decimal_int(n as int) ==> numbers_of(
            entries.push(LenientNumber::Text(t)),
        ) == numbers_of(entries).push(n),
        int_of_text(trim_of(t@)) is None ==> numbers_of(entries.push(LenientNumber::Text(t)))
            == numbers_of(entries),
{
    decimal_round_trips(n as int);
    assert(entries.push(LenientNumber::Number(Some(n))).drop_last() =~= entries);
    assert(entries.push(LenientNumber::Number(None)).drop_last() =~= entries);
    assert(entries.push(LenientNumber::Other).drop_last() =~= entries);
    assert(entries.push(LenientNumber::Text(t)).drop_last() =~= entries);
}

/// The times of the protection from many peers are given in seconds and used in milliseconds; the
/// other settings are used as they are, each in its own place.
pub proof fn dialing_times_are_in_seconds(c: MultiDialingBlockerConfig)
    requires
        0 <= c.cache_lifespan_secs <= 9_000_000_000_000_000,
        0 <= c.keep_hunting_time_secs <= 9_000_000_000_000_000,
    ensures
        c.settings().cache_lifespan_ms == 1000 * c.cache_lifespan_secs,
        c.settings().keep_hunting_time_ms == 1000 * c.keep_hunting_time_secs,
        c.settings().ban_duration_ms == c.ban_duration_ms,
        c.settings().subnet_mask_length == c.subnet_mask_length,
        c.settings().subnet_mask_v6_length == c.subnet_mask_v6_length,
        c.settings().tolerate_num_ipv4 == c.tolerate_num_ipv4,
        c.settings().tolerate_num_ipv6 == c.tolerate_num_ipv6,
        c.settings().keep_hunting == c.keep_hunting,
{
}

proof fn lemma_named<'a>(
    v: Seq<ModuleSettings<'a>>,
    o: Option<ModuleSettings<'a>>,
    name: Seq<char>,
)
    ensures
        module_names(with_module(v, o)).contains(name) == (module_names(v).contains(name) || (
        o matches Some(x) && x.name() == name)),
{
    if let Some(x) = o {
        let w = module_names(v.push(x));
        assert(w =~= module_names(v).push(x.name()));
        assert(w[v.len() as int] == x.name());
        if module_names(v).contains(name) {
            let i = choose|i: int| 0 <= i < v.len() && module_names(v)[i] == name;
            assert(w[i] == name);
        }
    }
}

/// Exactly the modules whose sections are switched on are there, those with rules only where their
/// rules can be read.
pub proof fn modules_are_those_switched_on(
    m: ModulesSection,
    with_geo: bool,
    peer_ids: bool,
    client_names: bool,
    name: Seq<char>,
)
    ensures
        module_names(planned(m, with_geo, peer_ids, client_names)).contains(name) == {
            ||| name == "ip-address-blocker"@ && (m.ip_address_blocker matches Some(c) && c.enabled == Some(true))
            ||| name == "peer-id-blacklist"@ && (m.peer_id_blacklist matches Some(c) && c.enabled == Some(true)) && peer_ids
            ||| name == "client-name-blacklist"@ && (m.client_name_blacklist matches Some(c) && c.enabled == Some(true)) && client_names
            ||| name == "expression-engine"@ && (m.expression_engine matches Some(c) && c.enabled == Some(true))
            ||| name == "progress-cheat-blocker"@ && (m.progress_cheat_blocker matches Some(c) && c.enabled == Some(true))
            ||| name == "multi-dialing-blocker"@ && (m.multi_dialing_blocker matches Some(c) && c.enabled == Some(true))
            ||| name == "auto-range-ban"@ && (m.auto_range_ban matches Some(c) && c.enabled == Some(true))
            ||| name == "btn"@ && (m.btn matches Some(c) && c.enabled == Some(true))
            ||| name == "ip-address-blocker-rules"@ && (m.ip_rule_list matches Some(c) && c.enabled == Some(true))
            ||| name == "ptr-blacklist"@ && (m.ptr_blacklist matches Some(c) && c.enabled == Some(true))
            ||| name == "idle-connection-dos-protection"@ && (m.idle_connection_dos_protection matches Some(c) && c.enabled == Some(true))
            ||| name == "anti-vampire"@ && (m.anti_vampire matches Some(c) && c.enabled == Some(true))
        },
{
    let v0: Seq<ModuleSettings> = Seq::empty();
    assert(!module_names(v0).contains(name));
    let v1 = with_module(v0, ip_slot(m, with_geo));
    lemma_named(v0, ip_slot(m, with_geo), name);
    let v2 = with_module(v1, peer_id_slot(m, peer_ids));
    lemma_named(v1, peer_id_slot(m, peer_ids), name);
    let v3 = with_module(v2, client_name_slot(m, client_names));
    lemma_named(v2, client_name_slot(m, client_names), name);
    let v4 = with_module(v3, script_slot(m));
    lemma_named(v3, script_slot(m), name);
    let v5 = with_module(v4, cheat_slot(m));
    lemma_named(v4, cheat_slot(m), name);
    let v6 = with_module(v5, dialing_slot(m));
    lemma_named(v5, dialing_slot(m), name);
    let v7 = with_module(v6, range_slot(m));
    lemma_named(v6, range_slot(m), name);
    let v8 = with_module(v7, btn_slot(m));
    lemma_named(v7, btn_slot(m), name);
    let v9 = with_module(v8, list_slot(m));
    lemma_named(v8, list_slot(m), name);
    let v10 = with_module(v9, ptr_slot(m));
    lemma_named(v9, ptr_slot(m), name);
    let v11 = with_module(v10, idle_slot(m));
    lemma_named(v10, idle_slot(m), name);
    let v12 = with_module(v11, vampire_slot(m));
    lemma_named(v11, vampire_slot(m), name);
}

/// A module works with the settings of its own section, those of either family of addresses in
/// their own places.
pub proof fn modules_use_their_own_settings(m: ModulesSection)
    ensures
        (m.auto_range_ban matches Some(c) && c.enabled == Some(true)) ==> (range_slot(
            m,
        ) matches Some(ModuleSettings::AutoRangeBan { ipv4, ipv6, ban_duration_ms }) && ipv4
            == m.auto_range_ban->0.ipv4 && ipv6 == m.auto_range_ban->0.ipv6 && ban_duration_ms
            == m.auto_range_ban->0.ban_duration_ms),
        (m.btn matches Some(c) && c.enabled == Some(true)) ==> (btn_slot(
            m,
        ) matches Some(ModuleSettings::BtnNetworkOnline { ban_duration_ms }) && ban_duration_ms
            == m.btn->0.ban_duration_ms),
        (m.ip_rule_list matches Some(c) && c.enabled == Some(true)) ==> (list_slot(
            m,
        ) matches Some(ModuleSettings::IpRuleList { ban_duration_ms }) && ban_duration_ms
            == m.ip_rule_list->0.ban_duration_ms),
        (m.anti_vampire matches Some(c) && c.enabled == Some(true)) ==> (vampire_slot(
            m,
        ) matches Some(ModuleSettings::AntiVampire { ban_duration_ms, xunlei_preset })
            && ban_duration_ms == m.anti_vampire->0.ban_duration_ms && xunlei_preset
            == m.anti_vampire->0.presets.xunlei.enabled),
        (m.progress_cheat_blocker matches Some(c) && c.enabled == Some(true)) ==> (cheat_slot(
            m,
        ) matches Some(ModuleSettings::ProgressCheatBlocker(s)) && {
            let c = m.progress_cheat_blocker->0;
            &&& s.ipv4_prefix_length == c.ipv4_prefix_length
            &&& s.ipv6_prefix_length == c.ipv6_prefix_length
            &&& s.maximum_difference == c.maximum_difference
            &&& s.rewind_maximum_difference == c.rewind_maximum_difference
            &&& s.torrent_minimum_size == c.minimum_size
            &&& s.block_excessive_clients == c.block_excessive_clients
            &&& s.excessive_threshold == c.excessive_threshold
            &&& s.ban_duration_ms == c.ban_duration_ms
            &&& s.max_wait_duration_ms == c.max_wait_duration_ms
            &&& s.fast_pcb_test_percentage == c.fast_pcb_test_percentage
            &&& s.fast_pcb_test_block_duration_ms == c.fast_pcb_test_block_duration_ms
            &&& s.persist_enabled == c.enable_persist
            &&& s.persist_duration_ms == c.persist_duration_ms
        }),
{
}

/// The modules that watch are those switched on, in their order: the watch over the traffic, and of
/// the analysis the swarms, the sessions and the peers.
pub proof fn watchers_are_those_switched_on(m: ModulesSection)
    ensures
        ({
            let service = m.peer_analyse_service;
            let a = m.active_monitoring matches Some(c) && c.enabled == Some(true);
            let b = service matches Some(s) && s.swarm_tracking matches Some(c) && c.enabled
                == Some(true);
            let c = service matches Some(s) && s.session_analyse matches Some(c) && c.enabled
                == Some(true);
            let d = service matches Some(s) && s.peer_recording matches Some(c) && c.enabled
                == Some(true);
            let names = monitors(m).map_values(|s: MonitorSettings| s.name());
            &&& a && b && c && d ==> names == seq![
                "active-monitoring"@,
                "peer-analyse-service.swarm-tracking"@,
                "peer-analyse-service.session-analyse"@,
                "peer-analyse-service.peer-recording"@,
            ]
            &&& monitors(m).len() == (if a { 1int } else { 0 }) + (if b { 1int } else { 0 }) + (
            if c { 1int } else { 0 }) + (if d { 1int } else { 0 })
            &&& a ==> names[0] == "active-monitoring"@
            &&& d ==> names.last() == "peer-analyse-service.peer-recording"@
            &&& !a && b ==> names[0] == "peer-analyse-service.swarm-tracking"@
            &&& !d && c ==> names.last() == "peer-analyse-service.session-analyse"@
        }),
{
}

/// The watchers use their own settings.
pub proof fn watchers_use_their_own_settings(
    a: ActiveMonitoringConfig,
    s: SessionAnalyseConfig,
    t: SwarmTrackingConfig,
    p: PeerRecordingConfig,
)
    ensures
        a.settings().use_traffic_sliding_capping == a.traffic_sliding_capping.enabled,
        a.settings().daily_traffic_capping == a.traffic_monitoring.daily,
        a.settings().max_traffic_allowed_in_window_period
            == a.traffic_sliding_capping.daily_max_allowed_upload_traffic,
        a.settings().traffic_sliding_capping_max_speed == a.traffic_sliding_capping.max_speed,
        a.settings().traffic_sliding_capping_min_speed == a.traffic_sliding_capping.min_speed,
        s.settings().cleanup_interval_ms == s.cleanup_interval_ms,
        s.settings().data_flush_interval_ms == s.data_flush_interval_ms,
        s.settings().data_retention_time_ms == s.data_retention_time_ms,
        t.settings().data_flush_interval_ms == t.data_flush_interval_ms,
        p.settings().data_retention_time_ms == p.data_retention_time_ms,
        p.settings().data_cleanup_interval_ms == p.data_cleanup_interval_ms,
        p.settings().data_flush_interval_ms == p.data_flush_interval_ms,
{
}

} // verus!
