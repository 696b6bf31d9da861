//! Where addresses are: lookups in GeoIP databases, their languages, and the rules on what they
//! find.

use std::collections::HashSet;
use vstd::prelude::*;
use crate::division::{division_path, DivisionTable};
use crate::i18n::{locale_key, normalize_locale};
use crate::net::{ip_text, ip_to_string, IpAddr};
use crate::text::{
    ascii_lower_of, blank, chars_of, clone_opt, concat2, decimal_int, eq_ignore_ascii_case, i64_text,
    int_of_text, is_blank_text, opt_view, parse_i64, push_text, str_eq, string_of, texts,
    trim_chars, trim_of,
};
use crate::textset::{text_set, TextSet};

pub use crate::geo_data::{
    geo_empty, geo_merged, AsData, AsNetwork, AsNetworkView, AsView, CityData, CityView,
    CountryData, CountryView, GeoView, IpGeoData, NetworkData, NetworkView,
};

verus! {

broadcast use vstd::std_specs::hash::group_hash_axioms;

pub const NET_TYPE_WIDEBAND: &'static str = "wideband";

pub const NET_TYPE_BASE_STATION: &'static str = "baseStation";

pub const NET_TYPE_GOVERNMENT_AND_ENTERPRISE_LINE: &'static str = "governmentAndEnterpriseLine";

pub const NET_TYPE_BUSINESS_PLATFORM: &'static str = "businessPlatform";

pub const NET_TYPE_BACKBONE_NETWORK: &'static str = "backboneNetwork";

pub const NET_TYPE_IP_PRIVATE_NETWORK: &'static str = "ipPrivateNetwork";

pub const NET_TYPE_INTERNET_CAFE: &'static str = "internetCafe";

pub const NET_TYPE_IOT: &'static str = "iot";

pub const NET_TYPE_DATACENTER: &'static str = "dataCenter";

pub const NET_TYPE_DATACENTER_ALT: &'static str = "datacenter";

pub const SWITCH_FORCE_DISABLE_IPDB: &'static str = "pbh.forceDisableIPDB";

pub const SWITCH_GEOIP_CACHE_TIMEOUT: &'static str = "pbh.geoIpCache.timeout";

pub const SWITCH_GEOIP_CACHE_SIZE: &'static str = "pbh.geoIpCache.size";

pub const SWITCH_USER_LOCALE: &'static str = "pbh.userLocale";

pub const DEFAULT_GEOIP_CACHE_TIMEOUT_MS: i64 = 300_000;

pub const DEFAULT_GEOIP_CACHE_SIZE: u32 = 300;

/// The directory of the databases.
pub const GEOIP_DIR: &'static str = "geoip";

pub const CITY_MMDB: &'static str = "GeoIP-City.mmdb";

pub const ASN_MMDB: &'static str = "GeoIP-ASN.mmdb";

pub const GEOCN_MMDB: &'static str = "GeoCN.mmdb";

/// The file of the administrative divisions.
pub const GEOIP_DIVISION_CSV: &'static str = "ok_data_level3.csv";

// ---------------------------------------------------------------------- config
/// Which places are looked for.
#[derive(Debug)]
pub struct GeoIpConfig {
    pub asns: HashSet<i64>,
    pub regions: TextSet,
    pub cities: Vec<String>,
    pub network_type: TextSet,
}

/// The mark in a configuration that a type of network in a database stands for, and another
/// spelling of it.
pub open spec fn net_type_marks(net_type: Seq<char>) -> Set<Seq<char>> {
    if net_type == "宽带"@ {
        set![NET_TYPE_WIDEBAND@]
    } else if net_type == "基站"@ {
        set![NET_TYPE_BASE_STATION@]
    } else if net_type == "政企专线"@ || net_type == "专线"@ {
        set![NET_TYPE_GOVERNMENT_AND_ENTERPRISE_LINE@]
    } else if net_type == "业务平台"@ {
        set![NET_TYPE_BUSINESS_PLATFORM@]
    } else if net_type == "骨干网"@ {
        set![NET_TYPE_BACKBONE_NETWORK@]
    } else if net_type == "IP 专网"@ || net_type == "IP专网"@ {
        set![NET_TYPE_IP_PRIVATE_NETWORK@]
    } else if net_type == "网吧"@ {
        set![NET_TYPE_INTERNET_CAFE@]
    } else if net_type == "物联网"@ {
        set![NET_TYPE_IOT@]
    } else if net_type == "数据中心"@ || net_type == "IDC"@ {
        set![NET_TYPE_DATACENTER@, NET_TYPE_DATACENTER_ALT@]
    } else {
        Set::empty()
    }
}

/// Whether a configuration's marks hold one of those that a type of network stands for.
pub open spec fn net_type_hit(marks: Set<Seq<char>>, net_type: Seq<char>) -> bool {
    exists|m: Seq<char>| marks.contains(m) && #[trigger] net_type_marks(net_type).contains(m)
}

/// The numbers of a list as a set.
pub open spec fn number_set(list: Seq<i64>) -> Set<i64> {
    Set::new(|n: i64| list.contains(n))
}

impl Default for GeoIpConfig {
    fn default() -> (c: Self)
        ensures
            c.empty(),
    {
        GeoIpConfig {
            asns: HashSet::new(),
            regions: TextSet::new(),
            cities: Vec::new(),
            network_type: TextSet::new(),
        }
    }
}

impl GeoIpConfig {
    /// The places of four lists.
    pub fn new(
        asns: Vec<i64>,
        regions: Vec<String>,
        cities: Vec<String>,
        network_type: Vec<String>,
    ) -> (c: Self)
        ensures
            c.asns@ == number_set(asns@),
            c.regions@ == text_set(texts(regions@)),
            c.cities == cities,
            c.network_type@ == text_set(texts(network_type@)),
    {
        let mut numbers: HashSet<i64> = HashSet::new();
        let mut i: usize = 0;
        assert(numbers@ =~= number_set(asns@.take(0)));
        while i < asns.len()
            invariant
                i <= asns.len(),
                numbers@ == number_set(asns@.take(i as int)),
            decreases asns.len() - i,
        {
            let _ = numbers.insert(asns[i]);
            proof {
                let short = asns@.take(i as int);
                let long = asns@.take(i + 1);
                assert(long[i as int] == asns@[i as int]);
                assert forall|n: i64| long.contains(n) implies short.contains(n) || n
                    == asns@[i as int] by {
                    let k = choose|k: int| 0 <= k < long.len() && long[k] == n;
                    if k < i {
                        assert(short[k] == n);
                    }
                }
                assert forall|n: i64| short.contains(n) implies long.contains(n) by {
                    let k = choose|k: int| 0 <= k < short.len() && short[k] == n;
                    assert(long[k] == n);
                }
                assert(numbers@ =~= number_set(long));
            }
            i += 1;
        }
        assert(asns@.take(i as int) =~= asns@);
        GeoIpConfig {
            asns: numbers,
            regions: TextSet::from_list(&regions),
            cities,
            network_type: TextSet::from_list(&network_type),
        }
    }

    /// Whether no place is looked for.
    pub open spec fn empty(self) -> bool {
        &&& self.asns@ == Set::<i64>::empty()
        &&& self.regions@ == Set::<Seq<char>>::empty()
        &&& self.cities@.len() == 0
        &&& self.network_type@ == Set::<Seq<char>>::empty()
    }

    /// Whether no place is looked for.
    pub fn is_empty(&self) -> (yes: bool)
        ensures
            yes == self.empty(),
    {
        self.asns.is_empty() && self.regions.is_empty() && self.cities.len() == 0 && self.network_type.is_empty()
    }

    /// Whether a type of network, as a database names it, is looked for.
    pub fn network_type_hit(&self, net_type: &str) -> (yes: bool)
        ensures
            yes == net_type_hit(self.network_type@, net_type@),
    {
        if str_eq(net_type, "宽带") {
            self.has_mark(net_type, NET_TYPE_WIDEBAND)
        } else if str_eq(net_type, "基站") {
            self.has_mark(net_type, NET_TYPE_BASE_STATION)
        } else if str_eq(net_type, "政企专线") || str_eq(net_type, "专线") {
            self.has_mark(net_type, NET_TYPE_GOVERNMENT_AND_ENTERPRISE_LINE)
        } else if str_eq(net_type, "业务平台") {
            self.has_mark(net_type, NET_TYPE_BUSINESS_PLATFORM)
        } else if str_eq(net_type, "骨干网") {
            self.has_mark(net_type, NET_TYPE_BACKBONE_NETWORK)
        } else if str_eq(net_type, "IP 专网") || str_eq(net_type, "IP专网") {
            self.has_mark(net_type, NET_TYPE_IP_PRIVATE_NETWORK)
        } else if str_eq(net_type, "网吧") {
            self.has_mark(net_type, NET_TYPE_INTERNET_CAFE)
        } else if str_eq(net_type, "物联网") {
            self.has_mark(net_type, NET_TYPE_IOT)
        } else if str_eq(net_type, "数据中心") || str_eq(net_type, "IDC") {
            let first = self.network_type.contains(NET_TYPE_DATACENTER);
            let second = self.network_type.contains(NET_TYPE_DATACENTER_ALT);
            proof {
                if first {
                    assert(net_type_marks(net_type@).contains(NET_TYPE_DATACENTER@));
                }
                if second {
                    assert(net_type_marks(net_type@).contains(NET_TYPE_DATACENTER_ALT@));
                }
            }
            first || second
        } else {
            false
        }
    }

    fn has_mark(&self, net_type: &str, mark: &str) -> (yes: bool)
        requires
            net_type_marks(net_type@) == set![mark@],
        ensures
            yes == net_type_hit(self.network_type@, net_type@),
    {
        let yes = self.network_type.contains(mark);
        assert(net_type_marks(net_type@).contains(mark@));
        yes
    }
}

/// Where no place is looked for, no type of network is.
pub proof fn empty_config_hits_nothing(c: GeoIpConfig, net_type: Seq<char>)
    requires
        c.empty(),
    ensures
        !net_type_hit(c.network_type@, net_type),
{
}

// -------------------------------------------------------------------- switches
/// The text in upper case, as Unicode maps it.
pub uninterp spec fn uppercase(s: Seq<char>) -> Seq<char>;

/// `str::to_uppercase`: the text in upper case. The result depends on the text alone, and of ASCII
/// text it is the text with its small letters in upper case.
#[verifier::external_body]
fn to_uppercase(s: &str) -> (out: String)
    ensures
        out@ == uppercase(s@),
        vstd::utf8::is_ascii_chars(s@) ==> out@ == crate::text::ascii_upper_of(s@),
{
    s.to_uppercase()
}

/// A switch's key with an underscore for each dot and hyphen.
pub open spec fn switch_words(key: Seq<char>) -> Seq<char> {
    Seq::new(
        key.len(),
        |i: int|
            if key[i] == '.' || key[i] == '-' {
                '_'
            } else {
                key[i]
            },
    )
}

/// The name of the environment variable of a switch.
pub fn switch_env_key(key: &str) -> (name: String)
    ensures
        name@ == uppercase(switch_words(key@)),
        vstd::utf8::is_ascii_chars(switch_words(key@)) ==> name@ == crate::text::ascii_upper_of(
            switch_words(key@),
        ),
{
    let chars = chars_of(key);
    let mut out: Vec<char> = Vec::new();
    let mut i: usize = 0;
    while i < chars.len()
        invariant
            i <= chars.len(),
            chars@ == key@,
            out@ == switch_words(key@).take(i as int),
        decreases chars.len() - i,
    {
        let c = chars[i];
        if c == '.' || c == '-' {
            out.push('_');
        } else {
            out.push(c);
        }
        i += 1;
        assert(out@ =~= switch_words(key@).take(i as int));
    }
    assert(out@ =~= switch_words(key@));
    let words = string_of(out.as_slice());
    to_uppercase(words.as_str())
}

/// The value of a switch, given that of its variable: one that is empty counts as none.
pub open spec fn switch_value(variable: Option<String>) -> Option<String> {
    if variable is Some && variable->0@.len() > 0 {
        variable
    } else {
        None
    }
}

/// Whether a value may be that of a switch.
pub open spec fn switched<E: Fn(&String) -> Option<String>>(
    env: E,
    key: Seq<char>,
    value: Option<String>,
) -> bool {
    exists|name: String, variable: Option<String>|
        {
            &&& name@ == uppercase(switch_words(key))
            &&& #[trigger] env.ensures((&name,), variable)
            &&& value == switch_value(variable)
        }
}

/// The value of a switch; `env` gives that of a variable.
pub fn external_switch<E: Fn(&String) -> Option<String>>(key: &str, env: &E) -> (r: Option<String>)
    requires
        forall|name: &String| env.requires((name,)),
    ensures
        switched(*env, key@, r),
{
    let name = switch_env_key(key);
    let variable = env(&name);
    assert(env.ensures((&name,), variable));
    match variable {
        Some(value) => if value.as_str().unicode_len() > 0 {
            Some(value)
        } else {
            None
        },
        None => None,
    }
}

/// A switch as a truth value: only `true`, in any case, is true.
pub open spec fn truth_of(value: Option<String>, default: bool) -> bool {
    match value {
        Some(v) => ascii_lower_of(v@) == ascii_lower_of("true"@),
        None => default,
    }
}

/// A switch as a truth value.
pub fn external_switch_bool<E: Fn(&String) -> Option<String>>(key: &str, default: bool, env: &E) -> (yes:
    bool)
    requires
        forall|name: &String| env.requires((name,)),
    ensures
        exists|value: Option<String>| #[trigger]
            switched(*env, key@, value) && yes == truth_of(value, default),
{
    match external_switch(key, env) {
        Some(v) => {
            let a = chars_of(v.as_str());
            let b = chars_of("true");
            eq_ignore_ascii_case(a.as_slice(), b.as_slice())
        },
        None => default,
    }
}

/// The number that a text spells, if it fits.
pub open spec fn i64_of(s: Seq<char>) -> Option<i64> {
    match int_of_text(s) {
        Some(n) => if i64::MIN <= n <= i64::MAX {
            Some(n as i64)
        } else {
            None
        },
        None => None,
    }
}

/// The number that a text spells, if it fits.
pub fn read_i64(s: &str) -> (r: Option<i64>)
    ensures
        r == i64_of(s@),
{
    let chars = chars_of(s);
    parse_i64(chars.as_slice())
}

/// A switch as a number: its text without the white space round it, or the default.
pub open spec fn count_of(value: Option<String>, default: i64) -> i64 {
    match value {
        Some(v) => match i64_of(trim_of(v@)) {
            Some(n) => n,
            None => default,
        },
        None => default,
    }
}

/// A switch as a number.
pub fn external_switch_i64<E: Fn(&String) -> Option<String>>(key: &str, default: i64, env: &E) -> (n:
    i64)
    requires
        forall|name: &String| env.requires((name,)),
    ensures
        exists|value: Option<String>| #[trigger]
            switched(*env, key@, value) && n == count_of(value, default),
{
    match external_switch(key, env) {
        Some(v) => {
            let t = crate::text::trim(v.as_str());
            match read_i64(t.as_str()) {
                Some(n) => n,
                None => default,
            }
        },
        None => default,
    }
}

/// Whether places are switched off.
pub fn geoip_force_disabled<E: Fn(&String) -> Option<String>>(env: &E) -> (yes: bool)
    requires
        forall|name: &String| env.requires((name,)),
    ensures
        exists|value: Option<String>| #[trigger]
            switched(*env, SWITCH_FORCE_DISABLE_IPDB@, value) && yes == truth_of(value, false),
{
    external_switch_bool(SWITCH_FORCE_DISABLE_IPDB, false, env)
}

/// The position of the first character of a locale's encoding or modifier, from a position on.
pub open spec fn tag_end(s: Seq<char>, i: int) -> int
    decreases s.len() - i,
{
    if i < 0 || i >= s.len() || s[i] == '.' || s[i] == '@' {
        i
    } else {
        tag_end(s, i + 1)
    }
}

/// The language of a process's locale, which stands before its encoding and modifier.
pub open spec fn locale_tag(value: Seq<char>) -> Seq<char> {
    trim_of(value.take(tag_end(value, 0)))
}

/// Whether a locale names a language.
pub open spec fn names_language(tag: Seq<char>) -> bool {
    tag.len() > 0 && tag != "C"@ && tag != "POSIX"@
}

/// The language that a variable of the process gives, if any.
pub open spec fn variable_locale(value: Option<Seq<char>>) -> Option<Seq<char>> {
    match value {
        None => None,
        Some(v) => if names_language(locale_tag(v)) && locale_key(locale_tag(v)).len() > 0 {
            Some(locale_key(locale_tag(v)))
        } else {
            None
        },
    }
}

/// The first language that variables give, in order, from a position on.
pub open spec fn first_locale(variables: Seq<Option<Seq<char>>>, i: int) -> Seq<char>
    decreases variables.len() - i,
{
    if i < 0 || i >= variables.len() {
        "en_us"@
    } else {
        match variable_locale(variables[i]) {
            Some(key) => key,
            None => first_locale(variables, i + 1),
        }
    }
}

/// The language of the program: that of the switch, or of the first variable that names one, or
/// American English.
pub open spec fn locale_of(user: Option<Seq<char>>, variables: Seq<Option<Seq<char>>>) -> Seq<char> {
    if user is Some && locale_key(user->0).len() > 0 {
        locale_key(user->0)
    } else {
        first_locale(variables, 0)
    }
}

/// Values, if any, as texts.
pub open spec fn opt_views(v: Seq<Option<String>>) -> Seq<Option<Seq<char>>> {
    Seq::new(v.len(), |i: int| opt_view(v[i]))
}

fn tag_of(value: &str) -> (tag: String)
    ensures
        tag@ == locale_tag(value@),
{
    let chars = chars_of(value);
    let mut i: usize = 0;
    while i < chars.len() && chars[i] != '.' && chars[i] != '@'
        invariant
            i <= chars.len(),
            chars@ == value@,
            tag_end(value@, 0) == tag_end(value@, i as int),
        decreases chars.len() - i,
    {
        i += 1;
    }
    let head = crate::text::substring_of(chars.as_slice(), 0, i);
    assert(head@ =~= value@.take(tag_end(value@, 0)));
    crate::text::trim(head.as_str())
}

/// The language of the program, given the switch and the variables of the process in order.
pub fn choose_locale(user: &Option<String>, variables: &Vec<Option<String>>) -> (key: String)
    ensures
        key@ == locale_of(opt_view(*user), opt_views(variables@)),
{
    if let Some(value) = user {
        let key = normalize_locale(value.as_str());
        if key.as_str().unicode_len() > 0 {
            return key;
        }
    }
    let ghost all = opt_views(variables@);
    let mut i: usize = 0;
    while i < variables.len()
        invariant
            i <= variables.len(),
            all == opt_views(variables@),
            locale_of(opt_view(*user), all) == first_locale(all, 0),
            first_locale(all, 0) == first_locale(all, i as int),
        decreases variables.len() - i,
    {
        assert(all[i as int] == opt_view(variables@[i as int]));
        if let Some(value) = &variables[i] {
            let tag = tag_of(value.as_str());
            if tag.as_str().unicode_len() > 0 && !str_eq(tag.as_str(), "C") && !str_eq(
                tag.as_str(),
                "POSIX",
            ) {
                let key = normalize_locale(tag.as_str());
                if key.as_str().unicode_len() > 0 {
                    return key;
                }
            }
        }
        i += 1;
    }
    "en_us".to_string()
}

/// The language of the program, given the switch and the three variables that are looked at.
pub open spec fn env_locale(
    user: Option<Seq<char>>,
    all: Option<Seq<char>>,
    messages: Option<Seq<char>>,
    lang: Option<Seq<char>>,
) -> Seq<char> {
    locale_of(user, seq![all, messages, lang])
}

/// Whether a language may be that of the program.
pub open spec fn default_locale_of<E: Fn(&String) -> Option<String>>(
    env: E,
    key: Seq<char>,
) -> bool {
    exists|
        user: Option<String>,
        all: Option<String>,
        messages: Option<String>,
        lang: Option<String>,
    |
        {
            &&& switched(env, SWITCH_USER_LOCALE@, user)
            &&& variable(env, "LC_ALL"@, all)
            &&& variable(env, "LC_MESSAGES"@, messages)
            &&& variable(env, "LANG"@, lang)
            &&& key == #[trigger] env_locale(
                opt_view(user),
                opt_view(all),
                opt_view(messages),
                opt_view(lang),
            )
        }
}

/// The language of the program; `env` gives the value of a variable.
pub fn default_locale<E: Fn(&String) -> Option<String>>(env: &E) -> (key: String)
    requires
        forall|name: &String| env.requires((name,)),
    ensures
        default_locale_of(*env, key@),
{
    let user = external_switch(SWITCH_USER_LOCALE, env);
    let all = read_variable("LC_ALL", env);
    let messages = read_variable("LC_MESSAGES", env);
    let lang = read_variable("LANG", env);
    let mut variables: Vec<Option<String>> = Vec::new();
    variables.push(all);
    variables.push(messages);
    variables.push(lang);
    let ghost views = seq![opt_view(all), opt_view(messages), opt_view(lang)];
    assert(opt_views(variables@) =~= views);
    let key = choose_locale(&user, &variables);
    assert(key@ == env_locale(
        opt_view(user),
        opt_view(all),
        opt_view(messages),
        opt_view(lang),
    ));
    key
}

/// Whether a value may be that of a variable.
pub open spec fn variable<E: Fn(&String) -> Option<String>>(
    env: E,
    name: Seq<char>,
    value: Option<String>,
) -> bool {
    exists|n: String| n@ == name && #[trigger] env.ensures((&n,), value)
}

fn read_variable<E: Fn(&String) -> Option<String>>(name: &str, env: &E) -> (value: Option<String>)
    requires
        forall|name: &String| env.requires((name,)),
    ensures
        variable(*env, name@, value),
{
    let n = name.to_string();
    let value = env(&n);
    assert(env.ensures((&n,), value));
    value
}

// ------------------------------------------------------------------- providers
/// Whatever knows where addresses are.
pub trait GeoIpProvider {
    /// What is known of an address.
    fn query(&self, ip: IpAddr) -> (r: Option<IpGeoData>);
}

/// Addresses with what is known of them.
#[derive(Debug)]
pub struct StaticGeoIp {
    entries: Vec<(IpAddr, IpGeoData)>,
}

/// The last entry for an address.
pub open spec fn entry_for(entries: Seq<(IpAddr, IpGeoData)>, ip: IpAddr) -> Option<GeoView>
    decreases entries.len(),
{
    if entries.len() == 0 {
        None
    } else if entries.last().0 == ip {
        Some(entries.last().1@)
    } else {
        entry_for(entries.drop_last(), ip)
    }
}

impl Default for StaticGeoIp {
    fn default() -> (v: Self)
        ensures
            forall|ip: IpAddr| #[trigger] v.known(ip) is None,
    {
        StaticGeoIp::new()
    }
}

impl StaticGeoIp {
    /// What is known, by address.
    pub closed spec fn known(&self, ip: IpAddr) -> Option<GeoView> {
        entry_for(self.entries@, ip)
    }

    /// No addresses.
    pub fn new() -> (s: StaticGeoIp)
        ensures
            forall|ip: IpAddr| #[trigger] s.known(ip) is None,
    {
        StaticGeoIp { entries: Vec::new() }
    }

    /// Sets what is known of an address.
    pub fn insert(&mut self, ip: IpAddr, data: IpGeoData)
        ensures
            forall|other: IpAddr| #[trigger]
                final(self).known(other) == (if other == ip {
                    Some(data@)
                } else {
                    old(self).known(other)
                }),
    {
        let ghost before = self.entries@;
        self.entries.push((ip, data));
        assert(self.entries@.drop_last() =~= before);
    }
}

impl GeoIpProvider for StaticGeoIp {
    fn query(&self, ip: IpAddr) -> (r: Option<IpGeoData>)
        ensures
            match r {
                Some(g) => self.known(ip) == Some(g@),
                None => self.known(ip) is None,
            },
    {
        let mut i: usize = self.entries.len();
        assert(self.entries@.take(i as int) =~= self.entries@);
        while i > 0
            invariant
                i <= self.entries.len(),
                self.known(ip) == entry_for(self.entries@.take(i as int), ip),
            decreases i,
        {
            i -= 1;
            assert(self.entries@.take(i + 1).drop_last() =~= self.entries@.take(i as int));
            if self.entries[i].0 == ip {
                return Some(self.entries[i].1.copy());
            }
        }
        None
    }
}

// ------------------------------------------------------------ names and records
/// Names in the languages of a database: English, simplified Chinese, German, Spanish, French,
/// Japanese, Brazilian Portuguese, Russian.
pub open spec fn name_slot(code: Seq<char>) -> Option<int> {
    if code == "en"@ || code == "en_us"@ || code == "en_gb"@ {
        Some(0)
    } else if code == "zh"@ || code == "zh_cn"@ || code == "zh_hans"@ || code == "zh_hans_cn"@
        || code == "zh_sg"@ {
        Some(1)
    } else if code == "de"@ || code == "de_de"@ {
        Some(2)
    } else if code == "es"@ || code == "es_es"@ {
        Some(3)
    } else if code == "fr"@ || code == "fr_fr"@ {
        Some(4)
    } else if code == "ja"@ || code == "ja_jp"@ {
        Some(5)
    } else if code == "pt_br"@ {
        Some(6)
    } else if code == "ru"@ || code == "ru_ru"@ {
        Some(7)
    } else {
        None
    }
}

fn slot_of(code: &str) -> (r: Option<usize>)
    ensures
        match r {
            Some(i) => name_slot(code@) == Some(i as int),
            None => name_slot(code@) is None,
        },
{
    if str_eq(code, "en") || str_eq(code, "en_us") || str_eq(code, "en_gb") {
        Some(0)
    } else if str_eq(code, "zh") || str_eq(code, "zh_cn") || str_eq(code, "zh_hans") || str_eq(
        code,
        "zh_hans_cn",
    ) || str_eq(code, "zh_sg") {
        Some(1)
    } else if str_eq(code, "de") || str_eq(code, "de_de") {
        Some(2)
    } else if str_eq(code, "es") || str_eq(code, "es_es") {
        Some(3)
    } else if str_eq(code, "fr") || str_eq(code, "fr_fr") {
        Some(4)
    } else if str_eq(code, "ja") || str_eq(code, "ja_jp") {
        Some(5)
    } else if str_eq(code, "pt_br") {
        Some(6)
    } else if str_eq(code, "ru") || str_eq(code, "ru_ru") {
        Some(7)
    } else {
        None
    }
}

/// The name in a language, if there is one.
pub open spec fn name_in(names: Seq<Option<Seq<char>>>, locale: Seq<char>) -> Option<Seq<char>> {
    match name_slot(locale_key(locale)) {
        Some(i) => if i < names.len() {
            names[i]
        } else {
            None
        },
        None => None,
    }
}

/// The name in the first language that has one, from a position on.
pub open spec fn name_from(names: Seq<Option<Seq<char>>>, locales: Seq<Seq<char>>, i: int) -> Option<
    Seq<char>,
>
    decreases locales.len() - i,
{
    if i < 0 || i >= locales.len() {
        None
    } else {
        match name_in(names, locales[i]) {
            Some(name) => Some(name),
            None => name_from(names, locales, i + 1),
        }
    }
}

/// The name in the first language that has one.
pub fn name_for_locales(names: &Vec<Option<String>>, locales: &Vec<String>) -> (r: Option<String>)
    ensures
        opt_view(r) == name_from(opt_views(names@), texts(locales@), 0),
{
    let ghost all = texts(locales@);
    let mut i: usize = 0;
    while i < locales.len()
        invariant
            i <= locales.len(),
            all == texts(locales@),
            name_from(opt_views(names@), all, 0) == name_from(opt_views(names@), all, i as int),
        decreases locales.len() - i,
    {
        assert(all[i as int] == locales@[i as int]@);
        let code = normalize_locale(locales[i].as_str());
        if let Some(slot) = slot_of(code.as_str()) {
            if slot < names.len() {
                assert(opt_views(names@)[slot as int] == opt_view(names@[slot as int]));
                if let Some(name) = &names[slot] {
                    return Some(name.clone());
                }
            }
        }
        i += 1;
    }
    None
}

/// Whether a code is one of some, whatever its case.
pub open spec fn one_of(code: Seq<char>, codes: Seq<Seq<char>>) -> bool {
    exists|i: int| 0 <= i < codes.len() && ascii_lower_of(#[trigger] codes[i]) == ascii_lower_of(code)
}

/// The codes of Taiwan, Hong Kong and Macao.
pub open spec fn region_codes() -> Seq<Seq<char>> {
    seq!["TW"@, "HK"@, "MO"@]
}

/// The codes of the regions that GeoCN knows.
pub open spec fn geo_cn_codes() -> Seq<Seq<char>> {
    seq!["CN"@, "TW"@, "HK"@, "MO"@]
}

fn same_code(a: &str, b: &str) -> (same: bool)
    ensures
        same == (ascii_lower_of(a@) == ascii_lower_of(b@)),
{
    let x = chars_of(a);
    let y = chars_of(b);
    eq_ignore_ascii_case(x.as_slice(), y.as_slice())
}

fn is_region(code: &str) -> (yes: bool)
    ensures
        yes == one_of(code@, region_codes()),
{
    let yes = same_code("TW", code) || same_code("HK", code) || same_code("MO", code);
    proof {
        let codes = region_codes();
        assert(codes[0] == "TW"@ && codes[1] == "HK"@ && codes[2] == "MO"@);
    }
    yes
}

/// Whether a code is that of a region that GeoCN knows.
pub fn in_geo_cn(code: &str) -> (yes: bool)
    ensures
        yes == one_of(code@, geo_cn_codes()),
{
    let yes = same_code("CN", code) || same_code("TW", code) || same_code("HK", code) || same_code(
        "MO",
        code,
    );
    proof {
        let codes = geo_cn_codes();
        assert(codes[0] == "CN"@ && codes[1] == "TW"@ && codes[2] == "HK"@ && codes[3] == "MO"@);
    }
    yes
}

/// How a country's name is shown in a language: in Chinese of the mainland, Hong Kong and Macao the
/// regions with a code of their own get a prefix.
pub open spec fn shown_name(
    name: Option<Seq<char>>,
    iso: Option<Seq<char>>,
    code: Seq<char>,
) -> Option<Seq<char>> {
    match (name, iso) {
        (Some(n), Some(i)) => if (code == "zh_cn"@ || code == "zh_hk"@ || code == "zh_mo"@)
            && one_of(i, region_codes()) {
            Some("中国"@ + n)
        } else {
            name
        },
        _ => name,
    }
}

/// How a country's name is shown in a language.
pub fn show_name(name: Option<String>, iso: &Option<String>, code: &str) -> (r: Option<String>)
    ensures
        opt_view(r) == shown_name(opt_view(name), opt_view(*iso), code@),
{
    match (name, iso) {
        (Some(n), Some(i)) => {
            let chinese = str_eq(code, "zh_cn") || str_eq(code, "zh_hk") || str_eq(code, "zh_mo");
            if chinese && is_region(i.as_str()) {
                Some(concat2("中国", n.as_str()))
            } else {
                Some(n)
            }
        },
        (n, _) => n,
    }
}

// ----------------------------------------------------------------------- GeoCN
/// A code in a GeoCN record: a number or a text.
#[derive(Debug)]
pub enum CodeValue {
    Int(i64),
    Text(String),
}

impl CodeValue {
    /// The code as a text.
    pub open spec fn text(self) -> Seq<char> {
        match self {
            CodeValue::Int(n) => decimal_int(n as int),
            CodeValue::Text(t) => t@,
        }
    }

    /// The code as a text.
    pub fn as_string(&self) -> (out: String)
        ensures
            out@ == self.text(),
    {
        match self {
            CodeValue::Int(n) => i64_text(*n),
            CodeValue::Text(t) => t.clone(),
        }
    }
}

/// A record of GeoCN, of either layout.
#[derive(Debug)]
pub struct GeoCnRecord {
    pub isp: Option<String>,
    pub net: Option<String>,
    pub net_type: Option<String>,
    pub province: Option<String>,
    pub city: Option<String>,
    pub districts: Option<String>,
    pub province_code: Option<CodeValue>,
    pub city_code: Option<CodeValue>,
    pub districts_code: Option<CodeValue>,
    pub division_code: Option<CodeValue>,
}

/// A record of GeoCN as a value, with its codes as texts.
pub ghost struct GeoCnView {
    pub isp: Option<Seq<char>>,
    pub net: Option<Seq<char>>,
    pub net_type: Option<Seq<char>>,
    pub province: Option<Seq<char>>,
    pub city: Option<Seq<char>>,
    pub districts: Option<Seq<char>>,
    pub province_code: Option<Seq<char>>,
    pub city_code: Option<Seq<char>>,
    pub districts_code: Option<Seq<char>>,
    pub division_code: Option<Seq<char>>,
}

/// A code, if any, as a text.
pub open spec fn code_view(o: Option<CodeValue>) -> Option<Seq<char>> {
    match o {
        Some(c) => Some(c.text()),
        None => None,
    }
}

impl Default for GeoCnRecord {
    fn default() -> (r: Self)
        ensures
            r@ == (GeoCnView {
                isp: None,
                net: None,
                net_type: None,
                province: None,
                city: None,
                districts: None,
                province_code: None,
                city_code: None,
                districts_code: None,
                division_code: None,
            }),
    {
        GeoCnRecord {
            isp: None,
            net: None,
            net_type: None,
            province: None,
            city: None,
            districts: None,
            province_code: None,
            city_code: None,
            districts_code: None,
            division_code: None,
        }
    }
}

impl GeoCnRecord {
    /// The record as a value.
    pub open spec fn view(&self) -> GeoCnView {
        GeoCnView {
            isp: opt_view(self.isp),
            net: opt_view(self.net),
            net_type: opt_view(self.net_type),
            province: opt_view(self.province),
            city: opt_view(self.city),
            districts: opt_view(self.districts),
            province_code: code_view(self.province_code),
            city_code: code_view(self.city_code),
            districts_code: code_view(self.districts_code),
            division_code: code_view(self.division_code),
        }
    }
}

/// A text, or the word `null` for none.
pub open spec fn text_or_null(o: Option<Seq<char>>) -> Seq<char> {
    match o {
        Some(t) => t,
        None => "null"@,
    }
}

/// A text that is not blank, if any.
pub open spec fn unless_blank(o: Option<Seq<char>>) -> Option<Seq<char>> {
    match o {
        Some(t) => if blank(t) {
            None
        } else {
            Some(t)
        },
        None => None,
    }
}

/// The name of the place of a record of the older layout.
pub open spec fn rev1_name(r: GeoCnView) -> Seq<char> {
    trim_of(
        text_or_null(r.province) + " "@ + text_or_null(r.city) + " "@ + text_or_null(r.districts),
    )
}

/// The code of the place of a record of the older layout: the first that is there.
pub open spec fn rev1_code(r: GeoCnView) -> Option<Seq<char>> {
    if r.province_code is Some {
        r.province_code
    } else if r.city_code is Some {
        r.city_code
    } else {
        r.districts_code
    }
}

/// What a record of the older layout tells. Without a code, or with one that is no number, it tells
/// nothing.
pub open spec fn rev1(r: GeoCnView) -> Option<GeoView> {
    match rev1_code(r) {
        None => None,
        Some(code) => match i64_of("86"@ + code) {
            None => None,
            Some(iso) => Some(
                GeoView {
                    city: Some(
                        CityView {
                            name: if rev1_name(r).len() > 0 {
                                Some(rev1_name(r))
                            } else {
                                None
                            },
                            iso: Some(iso),
                            cn_province: r.province,
                            cn_city: r.city,
                            cn_districts: r.districts,
                        },
                    ),
                    country: None,
                    as_data: None,
                    network: Some(
                        NetworkView { isp: unless_blank(r.isp), net_type: unless_blank(r.net) },
                    ),
                },
            ),
        },
    }
}

fn clone_unless_blank(o: &Option<String>) -> (r: Option<String>)
    ensures
        opt_view(r) == unless_blank(opt_view(*o)),
{
    match o {
        Some(t) => if is_blank_text(t.as_str()) {
            None
        } else {
            Some(t.clone())
        },
        None => None,
    }
}

fn push_or_null(out: &mut Vec<char>, o: &Option<String>)
    ensures
        final(out)@ == old(out)@ + text_or_null(opt_view(*o)),
{
    match o {
        Some(t) => push_text(out, t.as_str()),
        None => push_text(out, "null"),
    }
}

/// What a record of the older layout tells.
pub fn geo_cn_rev1(record: &GeoCnRecord) -> (r: Option<IpGeoData>)
    ensures
        match r {
            Some(g) => rev1(record@) == Some(g@),
            None => rev1(record@) is None,
        },
{
    let mut name: Vec<char> = Vec::new();
    push_or_null(&mut name, &record.province);
    push_text(&mut name, " ");
    push_or_null(&mut name, &record.city);
    push_text(&mut name, " ");
    push_or_null(&mut name, &record.districts);
    assert(name@ =~= text_or_null(record@.province) + " "@ + text_or_null(record@.city) + " "@
        + text_or_null(record@.districts));
    let name = trim_chars(name.as_slice());
    let code = if let Some(code) = &record.province_code {
        code.as_string()
    } else if let Some(code) = &record.city_code {
        code.as_string()
    } else if let Some(code) = &record.districts_code {
        code.as_string()
    } else {
        return None;
    };
    let full = concat2("86", code.as_str());
    let iso = match read_i64(full.as_str()) {
        Some(iso) => iso,
        None => return None,
    };
    let name = if name.len() > 0 {
        Some(string_of(name.as_slice()))
    } else {
        None
    };
    Some(
        IpGeoData {
            city: Some(
                CityData {
                    name,
                    iso: Some(iso),
                    cn_province: clone_opt(&record.province),
                    cn_city: clone_opt(&record.city),
                    cn_districts: clone_opt(&record.districts),
                },
            ),
            country: None,
            as_data: None,
            network: Some(
                NetworkData {
                    isp: clone_unless_blank(&record.isp),
                    net_type: clone_unless_blank(&record.net),
                },
            ),
        },
    )
}

/// The texts of a list with a space between them.
pub open spec fn spaced(list: Seq<Seq<char>>) -> Seq<char>
    decreases list.len(),
{
    if list.len() == 0 {
        Seq::empty()
    } else if list.len() == 1 {
        list[0]
    } else {
        spaced(list.drop_last()) + " "@ + list.last()
    }
}

fn join_spaced(list: &Vec<String>) -> (out: String)
    ensures
        out@ == spaced(texts(list@)),
{
    let ghost all = texts(list@);
    let mut out: Vec<char> = Vec::new();
    let mut i: usize = 0;
    assert(all.take(0) =~= Seq::empty());
    while i < list.len()
        invariant
            i <= list.len(),
            all == texts(list@),
            out@ == spaced(all.take(i as int)),
        decreases list.len() - i,
    {
        assert(all.take(i + 1).drop_last() =~= all.take(i as int));
        assert(all.take(i + 1).last() == list@[i as int]@);
        if i > 0 {
            push_text(&mut out, " ");
        }
        push_text(&mut out, list[i].as_str());
        i += 1;
        assert(out@ =~= spaced(all.take(i as int)));
    }
    assert(all.take(i as int) =~= all);
    string_of(out.as_slice())
}

/// An item of a list, if it is that long.
pub open spec fn item(list: Seq<Seq<char>>, i: int) -> Option<Seq<char>> {
    if 0 <= i < list.len() {
        Some(list[i])
    } else {
        None
    }
}

/// What a record of the newer layout tells, given the names of its divisions and the network it
/// stands for. Without a name it tells nothing.
pub open spec fn rev2(
    r: GeoCnView,
    path: Seq<Seq<char>>,
    network: Option<AsNetworkView>,
) -> Option<GeoView> {
    if path.len() == 0 {
        None
    } else {
        Some(
            GeoView {
                city: Some(
                    CityView {
                        name: Some(spaced(path)),
                        iso: Some(
                            match i64_of(
                                match r.division_code {
                                    Some(code) => code,
                                    None => Seq::empty(),
                                },
                            ) {
                                Some(n) => n,
                                None => 0,
                            },
                        ),
                        cn_province: item(path, 0),
                        cn_city: item(path, 1),
                        cn_districts: match (item(path, 2), item(path, 3)) {
                            (Some(county), Some(town)) => Some(county + " "@ + town),
                            (county, _) => county,
                        },
                    },
                ),
                country: None,
                as_data: Some(
                    AsView { number: None, organization: None, ip_address: None, network },
                ),
                network: Some(NetworkView { isp: r.isp, net_type: r.net_type }),
            },
        )
    }
}

fn clone_item(list: &Vec<String>, i: usize) -> (r: Option<String>)
    ensures
        opt_view(r) == item(texts(list@), i as int),
{
    if i < list.len() {
        assert(texts(list@)[i as int] == list@[i as int]@);
        Some(list[i].clone())
    } else {
        None
    }
}

/// The code of a record of the newer layout as a text.
pub open spec fn division_text(r: GeoCnView) -> Seq<char> {
    match r.division_code {
        Some(code) => code,
        None => Seq::empty(),
    }
}

/// The names of the divisions of a record of the newer layout; none without a table.
pub open spec fn record_path(
    r: GeoCnView,
    division: Option<Map<Seq<char>, Seq<char>>>,
) -> Seq<Seq<char>> {
    match division {
        Some(table) => division_path(table, division_text(r)),
        None => Seq::empty(),
    }
}

/// A table, if any, as a value.
pub open spec fn table_view(o: Option<DivisionTable>) -> Option<Map<Seq<char>, Seq<char>>> {
    match o {
        Some(t) => Some(t@),
        None => None,
    }
}

/// What a record of the newer layout tells.
pub fn geo_cn_rev2(
    record: &GeoCnRecord,
    division: &Option<DivisionTable>,
    network: Option<AsNetwork>,
) -> (r: Option<IpGeoData>)
    ensures
        match r {
            Some(g) => rev2(
                record@,
                record_path(record@, table_view(*division)),
                crate::geo_data::as_network_view(network),
            ) == Some(g@),
            None => rev2(
                record@,
                record_path(record@, table_view(*division)),
                crate::geo_data::as_network_view(network),
            ) is None,
        },
{
    let code = match &record.division_code {
        Some(code) => code.as_string(),
        None => String::new(),
    };
    assert(code@ =~= division_text(record@));
    let path: Vec<String> = match division {
        Some(table) => table.lookup(code.as_str()),
        None => Vec::new(),
    };
    assert(texts(path@) =~= record_path(record@, table_view(*division)));
    if path.len() == 0 {
        return None;
    }
    let number = match read_i64(code.as_str()) {
        Some(n) => n,
        None => 0,
    };
    let county = clone_item(&path, 2);
    let town = clone_item(&path, 3);
    let cn_districts = match (county, town) {
        (Some(county), Some(town)) => Some(
            crate::text::concat3(county.as_str(), " ", town.as_str()),
        ),
        (county, _) => county,
    };
    Some(
        IpGeoData {
            city: Some(
                CityData {
                    name: Some(join_spaced(&path)),
                    iso: Some(number),
                    cn_province: clone_item(&path, 0),
                    cn_city: clone_item(&path, 1),
                    cn_districts,
                },
            ),
            country: None,
            as_data: Some(
                AsData { number: None, organization: None, ip_address: None, network },
            ),
            network: Some(
                NetworkData { isp: clone_opt(&record.isp), net_type: clone_opt(&record.net_type) },
            ),
        },
    )
}

/// What a record of either layout tells: the newer has a code of its division, the older a
/// province.
pub open spec fn geo_cn(
    r: GeoCnView,
    division: Option<Map<Seq<char>, Seq<char>>>,
    network: Option<AsNetworkView>,
) -> Option<GeoView> {
    if r.division_code is Some {
        rev2(r, record_path(r, division), network)
    } else if r.province is Some {
        rev1(r)
    } else {
        None
    }
}

/// What a record of either layout tells.
pub fn geo_cn_data(
    record: &GeoCnRecord,
    division: &Option<DivisionTable>,
    network: Option<AsNetwork>,
) -> (r: Option<IpGeoData>)
    ensures
        match r {
            Some(g) => geo_cn(
                record@,
                table_view(*division),
                crate::geo_data::as_network_view(network),
            ) == Some(g@),
            None => geo_cn(
                record@,
                table_view(*division),
                crate::geo_data::as_network_view(network),
            ) is None,
        },
{
    if record.division_code.is_some() {
        geo_cn_rev2(record, division, network)
    } else if record.province.is_some() {
        geo_cn_rev1(record)
    } else {
        None
    }
}

proof fn lemma_net_type_0(marks: Set<Seq<char>>)
    ensures
        net_type_hit(marks, "宽带"@) == (marks.contains("wideband"@)),
{
    reveal_strlit("宽带");
    reveal_strlit("基站");
    reveal_strlit("政企专线");
    reveal_strlit("专线");
    reveal_strlit("业务平台");
    reveal_strlit("骨干网");
    reveal_strlit("IP 专网");
    reveal_strlit("IP专网");
    reveal_strlit("网吧");
    reveal_strlit("物联网");
    reveal_strlit("数据中心");
    reveal_strlit("IDC");
    assert("宽带"@[0] != "基站"@[0]);
    assert("宽带"@.len() != "政企专线"@.len());
    assert("宽带"@[0] != "专线"@[0]);
    assert("宽带"@.len() != "业务平台"@.len());
    assert("宽带"@.len() != "骨干网"@.len());
    assert("宽带"@.len() != "IP 专网"@.len());
    assert("宽带"@.len() != "IP专网"@.len());
    assert("宽带"@[0] != "网吧"@[0]);
    assert("宽带"@.len() != "物联网"@.len());
    assert("宽带"@.len() != "数据中心"@.len());
    assert("宽带"@.len() != "IDC"@.len());
    assert(net_type_marks("宽带"@).contains("wideband"@));
}

proof fn lemma_net_type_1(marks: Set<Seq<char>>)
    ensures
        net_type_hit(marks, "基站"@) == (marks.contains("baseStation"@)),
{
    reveal_strlit("宽带");
    reveal_strlit("基站");
    reveal_strlit("政企专线");
    reveal_strlit("专线");
    reveal_strlit("业务平台");
    reveal_strlit("骨干网");
    reveal_strlit("IP 专网");
    reveal_strlit("IP专网");
    reveal_strlit("网吧");
    reveal_strlit("物联网");
    reveal_strlit("数据中心");
    reveal_strlit("IDC");
    assert("基站"@[0] != "宽带"@[0]);
    assert("基站"@.len() != "政企专线"@.len());
    assert("基站"@[0] != "专线"@[0]);
    assert("基站"@.len() != "业务平台"@.len());
    assert("基站"@.len() != "骨干网"@.len());
    assert("基站"@.len() != "IP 专网"@.len());
    assert("基站"@.len() != "IP专网"@.len());
    assert("基站"@[0] != "网吧"@[0]);
    assert("基站"@.len() != "物联网"@.len());
    assert("基站"@.len() != "数据中心"@.len());
    assert("基站"@.len() != "IDC"@.len());
    assert(net_type_marks("基站"@).contains("baseStation"@));
}

proof fn lemma_net_type_2(marks: Set<Seq<char>>)
    ensures
        net_type_hit(marks, "政企专线"@) == (marks.contains("governmentAndEnterpriseLine"@)),
{
    reveal_strlit("宽带");
    reveal_strlit("基站");
    reveal_strlit("政企专线");
    reveal_strlit("专线");
    reveal_strlit("业务平台");
    reveal_strlit("骨干网");
    reveal_strlit("IP 专网");
    reveal_strlit("IP专网");
    reveal_strlit("网吧");
    reveal_strlit("物联网");
    reveal_strlit("数据中心");
    reveal_strlit("IDC");
    assert("政企专线"@.len() != "宽带"@.len());
    assert("政企专线"@.len() != "基站"@.len());
    assert("政企专线"@.len() != "专线"@.len());
    assert("政企专线"@[0] != "业务平台"@[0]);
    assert("政企专线"@.len() != "骨干网"@.len());
    assert("政企专线"@.len() != "IP 专网"@.len());
    assert("政企专线"@[0] != "IP专网"@[0]);
    assert("政企专线"@.len() != "网吧"@.len());
    assert("政企专线"@.len() != "物联网"@.len());
    assert("政企专线"@[0] != "数据中心"@[0]);
    assert("政企专线"@.len() != "IDC"@.len());
    assert(net_type_marks("政企专线"@).contains("governmentAndEnterpriseLine"@));
}

proof fn lemma_net_type_3(marks: Set<Seq<char>>)
    ensures
        net_type_hit(marks, "专线"@) == (marks.contains("governmentAndEnterpriseLine"@)),
{
    reveal_strlit("宽带");
    reveal_strlit("基站");
    reveal_strlit("政企专线");
    reveal_strlit("专线");
    reveal_strlit("业务平台");
    reveal_strlit("骨干网");
    reveal_strlit("IP 专网");
    reveal_strlit("IP专网");
    reveal_strlit("网吧");
    reveal_strlit("物联网");
    reveal_strlit("数据中心");
    reveal_strlit("IDC");
    assert("专线"@[0] != "宽带"@[0]);
    assert("专线"@[0] != "基站"@[0]);
    assert("专线"@.len() != "政企专线"@.len());
    assert("专线"@.len() != "业务平台"@.len());
    assert("专线"@.len() != "骨干网"@.len());
    assert("专线"@.len() != "IP 专网"@.len());
    assert("专线"@.len() != "IP专网"@.len());
    assert("专线"@[0] != "网吧"@[0]);
    assert("专线"@.len() != "物联网"@.len());
    assert("专线"@.len() != "数据中心"@.len());
    assert("专线"@.len() != "IDC"@.len());
    assert(net_type_marks("专线"@).contains("governmentAndEnterpriseLine"@));
}

proof fn lemma_net_type_4(marks: Set<Seq<char>>)
    ensures
        net_type_hit(marks, "业务平台"@) == (marks.contains("businessPlatform"@)),
{
    reveal_strlit("宽带");
    reveal_strlit("基站");
    reveal_strlit("政企专线");
    reveal_strlit("专线");
    reveal_strlit("业务平台");
    reveal_strlit("骨干网");
    reveal_strlit("IP 专网");
    reveal_strlit("IP专网");
    reveal_strlit("网吧");
    reveal_strlit("物联网");
    reveal_strlit("数据中心");
    reveal_strlit("IDC");
    assert("业务平台"@.len() != "宽带"@.len());
    assert("业务平台"@.len() != "基站"@.len());
    assert("业务平台"@[0] != "政企专线"@[0]);
    assert("业务平台"@.len() != "专线"@.len());
    assert("业务平台"@.len() != "骨干网"@.len());
    assert("业务平台"@.len() != "IP 专网"@.len());
    assert("业务平台"@[0] != "IP专网"@[0]);
    assert("业务平台"@.len() != "网吧"@.len());
    assert("业务平台"@.len() != "物联网"@.len());
    assert("业务平台"@[0] != "数据中心"@[0]);
    assert("业务平台"@.len() != "IDC"@.len());
    assert(net_type_marks("业务平台"@).contains("businessPlatform"@));
}

proof fn lemma_net_type_5(marks: Set<Seq<char>>)
    ensures
        net_type_hit(marks, "骨干网"@) == (marks.contains("backboneNetwork"@)),
{
    reveal_strlit("宽带");
    reveal_strlit("基站");
    reveal_strlit("政企专线");
    reveal_strlit("专线");
    reveal_strlit("业务平台");
    reveal_strlit("骨干网");
    reveal_strlit("IP 专网");
    reveal_strlit("IP专网");
    reveal_strlit("网吧");
    reveal_strlit("物联网");
    reveal_strlit("数据中心");
    reveal_strlit("IDC");
    assert("骨干网"@.len() != "宽带"@.len());
    assert("骨干网"@.len() != "基站"@.len());
    assert("骨干网"@.len() != "政企专线"@.len());
    assert("骨干网"@.len() != "专线"@.len());
    assert("骨干网"@.len() != "业务平台"@.len());
    assert("骨干网"@.len() != "IP 专网"@.len());
    assert("骨干网"@.len() != "IP专网"@.len());
    assert("骨干网"@.len() != "网吧"@.len());
    assert("骨干网"@[0] != "物联网"@[0]);
    assert("骨干网"@.len() != "数据中心"@.len());
    assert("骨干网"@[0] != "IDC"@[0]);
    assert(net_type_marks("骨干网"@).contains("backboneNetwork"@));
}

proof fn lemma_net_type_6(marks: Set<Seq<char>>)
    ensures
        net_type_hit(marks, "IP 专网"@) == (marks.contains("ipPrivateNetwork"@)),
{
    reveal_strlit("宽带");
    reveal_strlit("基站");
    reveal_strlit("政企专线");
    reveal_strlit("专线");
    reveal_strlit("业务平台");
    reveal_strlit("骨干网");
    reveal_strlit("IP 专网");
    reveal_strlit("IP专网");
    reveal_strlit("网吧");
    reveal_strlit("物联网");
    reveal_strlit("数据中心");
    reveal_strlit("IDC");
    assert("IP 专网"@.len() != "宽带"@.len());
    assert("IP 专网"@.len() != "基站"@.len());
    assert("IP 专网"@.len() != "政企专线"@.len());
    assert("IP 专网"@.len() != "专线"@.len());
    assert("IP 专网"@.len() != "业务平台"@.len());
    assert("IP 专网"@.len() != "骨干网"@.len());
    assert("IP 专网"@.len() != "IP专网"@.len());
    assert("IP 专网"@.len() != "网吧"@.len());
    assert("IP 专网"@.len() != "物联网"@.len());
    assert("IP 专网"@.len() != "数据中心"@.len());
    assert("IP 专网"@.len() != "IDC"@.len());
    assert(net_type_marks("IP 专网"@).contains("ipPrivateNetwork"@));
}

proof fn lemma_net_type_7(marks: Set<Seq<char>>)
    ensures
        net_type_hit(marks, "IP专网"@) == (marks.contains("ipPrivateNetwork"@)),
{
    reveal_strlit("宽带");
    reveal_strlit("基站");
    reveal_strlit("政企专线");
    reveal_strlit("专线");
    reveal_strlit("业务平台");
    reveal_strlit("骨干网");
    reveal_strlit("IP 专网");
    reveal_strlit("IP专网");
    reveal_strlit("网吧");
    reveal_strlit("物联网");
    reveal_strlit("数据中心");
    reveal_strlit("IDC");
    assert("IP专网"@.len() != "宽带"@.len());
    assert("IP专网"@.len() != "基站"@.len());
    assert("IP专网"@[0] != "政企专线"@[0]);
    assert("IP专网"@.len() != "专线"@.len());
    assert("IP专网"@[0] != "业务平台"@[0]);
    assert("IP专网"@.len() != "骨干网"@.len());
    assert("IP专网"@.len() != "IP 专网"@.len());
    assert("IP专网"@.len() != "网吧"@.len());
    assert("IP专网"@.len() != "物联网"@.len());
    assert("IP专网"@[0] != "数据中心"@[0]);
    assert("IP专网"@.len() != "IDC"@.len());
    assert(net_type_marks("IP专网"@).contains("ipPrivateNetwork"@));
}

proof fn lemma_net_type_8(marks: Set<Seq<char>>)
    ensures
        net_type_hit(marks, "网吧"@) == (marks.contains("internetCafe"@)),
{
    reveal_strlit("宽带");
    reveal_strlit("基站");
    reveal_strlit("政企专线");
    reveal_strlit("专线");
    reveal_strlit("业务平台");
    reveal_strlit("骨干网");
    reveal_strlit("IP 专网");
    reveal_strlit("IP专网");
    reveal_strlit("网吧");
    reveal_strlit("物联网");
    reveal_strlit("数据中心");
    reveal_strlit("IDC");
    assert("网吧"@[0] != "宽带"@[0]);
    assert("网吧"@[0] != "基站"@[0]);
    assert("网吧"@.len() != "政企专线"@.len());
    assert("网吧"@[0] != "专线"@[0]);
    assert("网吧"@.len() != "业务平台"@.len());
    assert("网吧"@.len() != "骨干网"@.len());
    assert("网吧"@.len() != "IP 专网"@.len());
    assert("网吧"@.len() != "IP专网"@.len());
    assert("网吧"@.len() != "物联网"@.len());
    assert("网吧"@.len() != "数据中心"@.len());
    assert("网吧"@.len() != "IDC"@.len());
    assert(net_type_marks("网吧"@).contains("internetCafe"@));
}

proof fn lemma_net_type_9(marks: Set<Seq<char>>)
    ensures
        net_type_hit(marks, "物联网"@) == (marks.contains("iot"@)),
{
    reveal_strlit("宽带");
    reveal_strlit("基站");
    reveal_strlit("政企专线");
    reveal_strlit("专线");
    reveal_strlit("业务平台");
    reveal_strlit("骨干网");
    reveal_strlit("IP 专网");
    reveal_strlit("IP专网");
    reveal_strlit("网吧");
    reveal_strlit("物联网");
    reveal_strlit("数据中心");
    reveal_strlit("IDC");
    assert("物联网"@.len() != "宽带"@.len());
    assert("物联网"@.len() != "基站"@.len());
    assert("物联网"@.len() != "政企专线"@.len());
    assert("物联网"@.len() != "专线"@.len());
    assert("物联网"@.len() != "业务平台"@.len());
    assert("物联网"@[0] != "骨干网"@[0]);
    assert("物联网"@.len() != "IP 专网"@.len());
    assert("物联网"@.len() != "IP专网"@.len());
    assert("物联网"@.len() != "网吧"@.len());
    assert("物联网"@.len() != "数据中心"@.len());
    assert("物联网"@[0] != "IDC"@[0]);
    assert(net_type_marks("物联网"@).contains("iot"@));
}

proof fn lemma_net_type_10(marks: Set<Seq<char>>)
    ensures
        net_type_hit(marks, "数据中心"@) == (marks.contains("dataCenter"@) || marks.contains("datacenter"@)),
{
    reveal_strlit("宽带");
    reveal_strlit("基站");
    reveal_strlit("政企专线");
    reveal_strlit("专线");
    reveal_strlit("业务平台");
    reveal_strlit("骨干网");
    reveal_strlit("IP 专网");
    reveal_strlit("IP专网");
    reveal_strlit("网吧");
    reveal_strlit("物联网");
    reveal_strlit("数据中心");
    reveal_strlit("IDC");
    assert("数据中心"@.len() != "宽带"@.len());
    assert("数据中心"@.len() != "基站"@.len());
    assert("数据中心"@[0] != "政企专线"@[0]);
    assert("数据中心"@.len() != "专线"@.len());
    assert("数据中心"@[0] != "业务平台"@[0]);
    assert("数据中心"@.len() != "骨干网"@.len());
    assert("数据中心"@.len() != "IP 专网"@.len());
    assert("数据中心"@[0] != "IP专网"@[0]);
    assert("数据中心"@.len() != "网吧"@.len());
    assert("数据中心"@.len() != "物联网"@.len());
    assert("数据中心"@.len() != "IDC"@.len());
    assert(net_type_marks("数据中心"@).contains("dataCenter"@));
    assert(net_type_marks("数据中心"@).contains("datacenter"@));
}

proof fn lemma_net_type_11(marks: Set<Seq<char>>)
    ensures
        net_type_hit(marks, "IDC"@) == (marks.contains("dataCenter"@) || marks.contains("datacenter"@)),
{
    reveal_strlit("宽带");
    reveal_strlit("基站");
    reveal_strlit("政企专线");
    reveal_strlit("专线");
    reveal_strlit("业务平台");
    reveal_strlit("骨干网");
    reveal_strlit("IP 专网");
    reveal_strlit("IP专网");
    reveal_strlit("网吧");
    reveal_strlit("物联网");
    reveal_strlit("数据中心");
    reveal_strlit("IDC");
    assert("IDC"@.len() != "宽带"@.len());
    assert("IDC"@.len() != "基站"@.len());
    assert("IDC"@.len() != "政企专线"@.len());
    assert("IDC"@.len() != "专线"@.len());
    assert("IDC"@.len() != "业务平台"@.len());
    assert("IDC"@[0] != "骨干网"@[0]);
    assert("IDC"@.len() != "IP 专网"@.len());
    assert("IDC"@.len() != "IP专网"@.len());
    assert("IDC"@.len() != "网吧"@.len());
    assert("IDC"@[0] != "物联网"@[0]);
    assert("IDC"@.len() != "数据中心"@.len());
    assert(net_type_marks("IDC"@).contains("dataCenter"@));
    assert(net_type_marks("IDC"@).contains("datacenter"@));
}

/// A type of network is looked for under its own mark and no other; a data centre has two spellings
/// of its mark. A type that is not known is not looked for.
pub proof fn networks_are_looked_for_under_their_own_marks(
    marks: Set<Seq<char>>,
    other: Seq<char>,
)
    requires
        other != "宽带"@,
        other != "基站"@,
        other != "政企专线"@,
        other != "专线"@,
        other != "业务平台"@,
        other != "骨干网"@,
        other != "IP 专网"@,
        other != "IP专网"@,
        other != "网吧"@,
        other != "物联网"@,
        other != "数据中心"@,
        other != "IDC"@,
    ensures
        net_type_hit(marks, "宽带"@) == marks.contains("wideband"@),
        net_type_hit(marks, "基站"@) == marks.contains("baseStation"@),
        net_type_hit(marks, "政企专线"@) == marks.contains("governmentAndEnterpriseLine"@),
        net_type_hit(marks, "专线"@) == marks.contains("governmentAndEnterpriseLine"@),
        net_type_hit(marks, "业务平台"@) == marks.contains("businessPlatform"@),
        net_type_hit(marks, "骨干网"@) == marks.contains("backboneNetwork"@),
        net_type_hit(marks, "IP 专网"@) == marks.contains("ipPrivateNetwork"@),
        net_type_hit(marks, "IP专网"@) == marks.contains("ipPrivateNetwork"@),
        net_type_hit(marks, "网吧"@) == marks.contains("internetCafe"@),
        net_type_hit(marks, "物联网"@) == marks.contains("iot"@),
        net_type_hit(marks, "数据中心"@) == (marks.contains("dataCenter"@) || marks.contains("datacenter"@)),
        net_type_hit(marks, "IDC"@) == (marks.contains("dataCenter"@) || marks.contains("datacenter"@)),
        !net_type_hit(marks, other),
{
    lemma_net_type_0(marks);
    lemma_net_type_1(marks);
    lemma_net_type_2(marks);
    lemma_net_type_3(marks);
    lemma_net_type_4(marks);
    lemma_net_type_5(marks);
    lemma_net_type_6(marks);
    lemma_net_type_7(marks);
    lemma_net_type_8(marks);
    lemma_net_type_9(marks);
    lemma_net_type_10(marks);
    lemma_net_type_11(marks);
}

/// The names of a place stand in the order English, Chinese, German, Spanish, French, Japanese,
/// Portuguese of Brazil and Russian, and the keys of each language lead to its own name; any other
/// key leads to none.
pub proof fn languages_have_their_own_names(other: Seq<char>)
    ensures
        name_slot("en"@) == Some(0int),
        name_slot("en_us"@) == Some(0int),
        name_slot("en_gb"@) == Some(0int),
        name_slot("zh"@) == Some(1int),
        name_slot("zh_cn"@) == Some(1int),
        name_slot("zh_hans"@) == Some(1int),
        name_slot("zh_hans_cn"@) == Some(1int),
        name_slot("zh_sg"@) == Some(1int),
        name_slot("de"@) == Some(2int),
        name_slot("de_de"@) == Some(2int),
        name_slot("es"@) == Some(3int),
        name_slot("es_es"@) == Some(3int),
        name_slot("fr"@) == Some(4int),
        name_slot("fr_fr"@) == Some(4int),
        name_slot("ja"@) == Some(5int),
        name_slot("ja_jp"@) == Some(5int),
        name_slot("pt_br"@) == Some(6int),
        name_slot("ru"@) == Some(7int),
        name_slot("ru_ru"@) == Some(7int),
        other != "en"@ && other != "en_us"@ && other != "en_gb"@ && other != "zh"@ && other != "zh_cn"@ && other != "zh_hans"@ && other != "zh_hans_cn"@ && other != "zh_sg"@ && other != "de"@ && other != "de_de"@ && other != "es"@ && other != "es_es"@ && other != "fr"@ && other != "fr_fr"@ && other != "ja"@ && other != "ja_jp"@ && other != "pt_br"@ && other != "ru"@ && other != "ru_ru"@ ==> name_slot(other) is None,
{
    reveal_strlit("en");
    reveal_strlit("en_us");
    reveal_strlit("en_gb");
    reveal_strlit("zh");
    reveal_strlit("zh_cn");
    reveal_strlit("zh_hans");
    reveal_strlit("zh_hans_cn");
    reveal_strlit("zh_sg");
    reveal_strlit("de");
    reveal_strlit("de_de");
    reveal_strlit("es");
    reveal_strlit("es_es");
    reveal_strlit("fr");
    reveal_strlit("fr_fr");
    reveal_strlit("ja");
    reveal_strlit("ja_jp");
    reveal_strlit("pt_br");
    reveal_strlit("ru");
    reveal_strlit("ru_ru");
    assert("en"@.len() == 2 && "en"@[1] == 'n');
    assert("zh"@.len() == 2 && "zh"@[1] == 'h');
    assert("de"@.len() == 2 && "de"@[1] == 'e');
    assert("es"@.len() == 2 && "es"@[1] == 's');
    assert("fr"@.len() == 2 && "fr"@[1] == 'r');
    assert("ja"@.len() == 2 && "ja"@[1] == 'a');
    assert("ru"@.len() == 2 && "ru"@[1] == 'u');
    assert("en_us"@.len() == 5 && "en_us"@[3] == 'u');
    assert("en_gb"@.len() == 5 && "en_gb"@[3] == 'g');
    assert("zh_cn"@.len() == 5 && "zh_cn"@[3] == 'c');
    assert("zh_sg"@.len() == 5 && "zh_sg"@[3] == 's');
    assert("de_de"@.len() == 5 && "de_de"@[3] == 'd');
    assert("es_es"@.len() == 5 && "es_es"@[3] == 'e');
    assert("fr_fr"@.len() == 5 && "fr_fr"@[3] == 'f');
    assert("ja_jp"@.len() == 5 && "ja_jp"@[3] == 'j');
    assert("pt_br"@.len() == 5 && "pt_br"@[3] == 'b');
    assert("ru_ru"@.len() == 5 && "ru_ru"@[3] == 'r');
    assert("zh_hans"@.len() == 7);
    assert("zh_hans_cn"@.len() == 10);
}

/// A name is taken from the first language of a list that has one.
pub proof fn first_language_with_a_name_counts(
    names: Seq<Option<Seq<char>>>,
    locales: Seq<Seq<char>>,
    i: int,
)
    requires
        0 <= i,
    ensures
        match name_from(names, locales, i) {
            Some(name) => exists|k: int|
                i <= k < locales.len() && name_in(names, #[trigger] locales[k]) == Some(name) && (
                forall|j: int| i <= j < k ==> name_in(names, #[trigger] locales[j]) is None),
            None => forall|j: int|
                i <= j < locales.len() ==> name_in(names, #[trigger] locales[j]) is None,
        },
    decreases locales.len() - i,
{
    if i < locales.len() {
        if name_in(names, locales[i]) is None {
            first_language_with_a_name_counts(names, locales, i + 1);
            if let Some(name) = name_from(names, locales, i) {
                let k = choose|k: int|
                    i + 1 <= k < locales.len() && name_in(names, #[trigger] locales[k]) == Some(name)
                        && (forall|j: int|
                        i + 1 <= j < k ==> name_in(names, #[trigger] locales[j]) is None);
                assert(forall|j: int|
                    i <= j < k ==> name_in(names, #[trigger] locales[j]) is None);
            }
        } else {
            assert(i <= i < locales.len() && name_in(names, locales[i]) == name_in(
                names,
                locales[i],
            ));
        }
    }
}

proof fn lemma_region_codes()
    ensures
        ascii_lower_of("CN"@) == "cn"@,
        ascii_lower_of("TW"@) == "tw"@,
        ascii_lower_of("HK"@) == "hk"@,
        ascii_lower_of("MO"@) == "mo"@,
{
    reveal_strlit("CN");
    reveal_strlit("TW");
    reveal_strlit("HK");
    reveal_strlit("MO");
    reveal_strlit("cn");
    reveal_strlit("tw");
    reveal_strlit("hk");
    reveal_strlit("mo");
    assert(ascii_lower_of("CN"@) =~= "cn"@);
    assert(ascii_lower_of("TW"@) =~= "tw"@);
    assert(ascii_lower_of("HK"@) =~= "hk"@);
    assert(ascii_lower_of("MO"@) =~= "mo"@);
}

/// The details of GeoCN are those of the codes `CN`, `TW`, `HK` and `MO`, in any case.
pub proof fn codes_are_compared_in_any_case(iso: Seq<char>)
    ensures
        ({
            let low = ascii_lower_of(iso);
            &&& one_of(iso, geo_cn_codes()) == (low == "cn"@ || low == "tw"@ || low == "hk"@ || low
                == "mo"@)
            &&& one_of(iso, region_codes()) == (low == "tw"@ || low == "hk"@ || low == "mo"@)
        }),
{
    lemma_region_codes();
    let all = geo_cn_codes();
    let some = region_codes();
    assert(all[0] == "CN"@ && all[1] == "TW"@ && all[2] == "HK"@ && all[3] == "MO"@);
    assert(some[0] == "TW"@ && some[1] == "HK"@ && some[2] == "MO"@);
}

/// In Chinese as it is read in China, Hong Kong and Macau the names of the regions have `中国` in
/// front; in every other language, of every other place and without a code they stay.
pub proof fn regions_are_named_with_the_country(n: Seq<char>, iso: Seq<char>, code: Seq<char>)
    ensures
        ({
            let low = ascii_lower_of(iso);
            let region = low == "tw"@ || low == "hk"@ || low == "mo"@;
            &&& region ==> shown_name(Some(n), Some(iso), "zh_cn"@) == Some("中国"@ + n)
            &&& region ==> shown_name(Some(n), Some(iso), "zh_hk"@) == Some("中国"@ + n)
            &&& region ==> shown_name(Some(n), Some(iso), "zh_mo"@) == Some("中国"@ + n)
            &&& !region ==> shown_name(Some(n), Some(iso), code) == Some(n)
            &&& code != "zh_cn"@ && code != "zh_hk"@ && code != "zh_mo"@ ==> shown_name(
                Some(n),
                Some(iso),
                code,
            ) == Some(n)
            &&& shown_name(Some(n), None, code) == Some(n)
            &&& shown_name(None, Some(iso), code) is None
        }),
{
    codes_are_compared_in_any_case(iso);
}

/// A switch is on where its value is the word `true` in any case, off where it has another value,
/// and as it is by default where it has none.
pub proof fn switches_are_on_by_their_word(v: String, default: bool)
    ensures
        truth_of(None, default) == default,
        truth_of(Some(v), default) == (ascii_lower_of(v@) == "true"@),
{
    reveal_strlit("true");
    assert(ascii_lower_of("true"@) =~= "true"@);
}

/// A count is the number that the value of its switch spells, white space aside; a value that spells
/// none counts as no value.
pub proof fn counts_are_read_from_their_switch(v: String, n: i64, default: i64)
    ensures
        trim_of(v@) == decimal_int(n as int) ==> count_of(Some(v), default) == n,
        crate::text::int_of_text(trim_of(v@)) is None ==> count_of(Some(v), default) == default,
        count_of(None, default) == default,
{
    crate::text::decimal_round_trips(n as int);
}

proof fn lemma_tag_end(s: Seq<char>, i: int, k: int)
    requires
        0 <= i <= k <= s.len(),
        forall|j: int| i <= j < k ==> #[trigger] s[j] != '.' && s[j] != '@',
        k < s.len() ==> s[k] == '.' || s[k] == '@',
    ensures
        tag_end(s, i) == k,
    decreases k - i,
{
    if i < k {
        lemma_tag_end(s, i + 1, k);
    }
}

/// Of a locale variable the language is what stands before the encoding and the modifier.
pub proof fn language_stands_before_the_encoding(t: Seq<char>, rest: Seq<char>)
    requires
        forall|j: int| 0 <= j < t.len() ==> #[trigger] t[j] != '.' && t[j] != '@',
    ensures
        locale_tag(t + seq!['.'] + rest) == trim_of(t),
        locale_tag(t + seq!['@'] + rest) == trim_of(t),
        locale_tag(t) == trim_of(t),
{
    let a = t + seq!['.'] + rest;
    let b = t + seq!['@'] + rest;
    let n = t.len() as int;
    assert(a[n] == '.' && b[n] == '@');
    assert forall|j: int| 0 <= j < n implies #[trigger] a[j] != '.' && a[j] != '@' by {
        assert(a[j] == t[j]);
    }
    assert forall|j: int| 0 <= j < n implies #[trigger] b[j] != '.' && b[j] != '@' by {
        assert(b[j] == t[j]);
    }
    lemma_tag_end(a, 0, n);
    lemma_tag_end(b, 0, n);
    lemma_tag_end(t, 0, n);
    assert(a.take(n) =~= t);
    assert(b.take(n) =~= t);
    assert(t.take(n) =~= t);
}

/// The locale is the one that the user chose, or else that of `LC_ALL`, of `LC_MESSAGES` or of
/// `LANG`, the first of them that names a language, and American English where none does.
pub proof fn locales_are_asked_in_order(
    user: Option<Seq<char>>,
    all: Option<Seq<char>>,
    messages: Option<Seq<char>>,
    lang: Option<Seq<char>>,
)
    ensures
        (user matches Some(u) && locale_key(u).len() > 0) ==> env_locale(user, all, messages, lang)
            == locale_key(user->0),
        !(user matches Some(u) && locale_key(u).len() > 0) ==> {
            let l = env_locale(user, all, messages, lang);
            &&& variable_locale(all) matches Some(key) ==> l == key
            &&& variable_locale(all) is None ==> (variable_locale(messages) matches Some(key) ==> l
                == key)
            &&& variable_locale(all) is None && variable_locale(messages) is None ==> (
            variable_locale(lang) matches Some(key) ==> l == key)
            &&& variable_locale(all) is None && variable_locale(messages) is None
                && variable_locale(lang) is None ==> l == "en_us"@
        },
        variable_locale(Some("C"@)) is None,
        variable_locale(Some("POSIX"@)) is None,
{
    reveal_with_fuel(first_locale, 4);
    let v = seq![all, messages, lang];
    assert(v[0] == all && v[1] == messages && v[2] == lang && v.len() == 3);
    reveal_strlit("C");
    reveal_strlit("POSIX");
    let none = Seq::<char>::empty();
    language_stands_before_the_encoding("C"@, none);
    language_stands_before_the_encoding("POSIX"@, none);
    crate::text::trimming_takes_the_white_space_around(none, "C"@, none);
    crate::text::trimming_takes_the_white_space_around(none, "POSIX"@, none);
    assert(none + "C"@ + none =~= "C"@);
    assert(none + "POSIX"@ + none =~= "POSIX"@);
}

/// The name of a switch as a variable has underscores for its dots and dashes.
pub proof fn switch_names_have_underscores(key: Seq<char>, i: int)
    requires
        0 <= i < key.len(),
    ensures
        switch_words(key).len() == key.len(),
        key[i] == '.' || key[i] == '-' ==> switch_words(key)[i] == '_',
        key[i] != '.' && key[i] != '-' ==> switch_words(key)[i] == key[i],
{
}

/// What was entered last for an address is what is known of it, and no other address is affected.
pub proof fn last_entry_counts(
    entries: Seq<(IpAddr, IpGeoData)>,
    ip: IpAddr,
    data: IpGeoData,
    other: IpAddr,
)
    requires
        other != ip,
    ensures
        entry_for(entries.push((ip, data)), ip) == Some(data@),
        entry_for(entries.push((ip, data)), other) == entry_for(entries, other),
        entry_for(Seq::empty(), ip) is None,
{
    assert(entries.push((ip, data)).drop_last() =~= entries);
}

/// A record with a province and its code is the city of that code, with the calling code 86 in front
/// of it, under its province, city and district and in the network that it names.
pub proof fn first_revision_is_read_field_by_field(r: GeoCnView, n: i64)
    requires
        r.division_code is None,
        r.province is Some,
        r.province_code matches Some(code) && "86"@ + code == decimal_int(n as int),
    ensures
        geo_cn(r, None, None) matches Some(g) && {
            &&& g.city matches Some(c) && {
                &&& c.iso == Some(n)
                &&& c.cn_province == r.province
                &&& c.cn_city == r.city
                &&& c.cn_districts == r.districts
            }
            &&& g.country is None
            &&& g.as_data is None
            &&& g.network matches Some(w) && {
                &&& (r.isp matches Some(t) && !blank(t)) ==> w.isp == r.isp
                &&& (r.net matches Some(t) && !blank(t)) ==> w.net_type == r.net
                &&& (r.isp matches Some(t) && blank(t)) ==> w.isp is None
                &&& (r.net matches Some(t) && blank(t)) ==> w.net_type is None
                &&& r.isp is None ==> w.isp is None
                &&& r.net is None ==> w.net_type is None
            }
        },
{
    crate::text::decimal_round_trips(n as int);
}

/// The code of a record of the first kind is that of its province, or else of its city, or else of
/// its districts; without any, or where the code spells no number, nothing is known.
pub proof fn first_code_counts(r: GeoCnView)
    requires
        r.division_code is None,
        r.province is Some,
    ensures
        r.province_code matches Some(c) ==> (geo_cn(r, None, None) is Some) == (i64_of(
            "86"@ + c,
        ) is Some),
        r.province_code is None ==> (r.city_code matches Some(c) ==> (geo_cn(r, None, None) is Some)
            == (i64_of("86"@ + c) is Some)),
        r.province_code is None && r.city_code is None ==> (r.districts_code matches Some(c) ==> (
        geo_cn(r, None, None) is Some) == (i64_of("86"@ + c) is Some)),
        r.province_code is None && r.city_code is None && r.districts_code is None ==> geo_cn(
            r,
            None,
            None,
        ) is None,
{
}

/// The name of a record of the first kind is its province, city and district, with spaces between.
pub proof fn first_revision_is_named_by_its_places(
    r: GeoCnView,
    p: Seq<char>,
    c: Seq<char>,
    d: Seq<char>,
)
    requires
        r.division_code is None,
        r.province == Some(p),
        r.city == Some(c),
        r.districts == Some(d),
        geo_cn(r, None, None) is Some,
        p.len() > 0,
        !crate::text::is_ws(p[0]),
        d.len() > 0,
        !crate::text::is_ws(d.last()),
    ensures
        geo_cn(r, None, None) matches Some(g) && g.city matches Some(city) && city.name == Some(
            p + " "@ + c + " "@ + d,
        ),
{
    let t = p + " "@ + c + " "@ + d;
    let none = Seq::<char>::empty();
    assert(t[0] == p[0] && t.last() == d.last());
    crate::text::trimming_takes_the_white_space_around(none, t, none);
    assert(none + t + none =~= t);
}

/// A record with a division code is named by the divisions on the way to it, in their order: the
/// first is the province, the second the city and the others the district.
pub proof fn second_revision_is_named_by_its_divisions(
    r: GeoCnView,
    table: Map<Seq<char>, Seq<char>>,
    network: Option<AsNetworkView>,
    n: i64,
)
    requires
        r.division_code == Some(decimal_int(n as int)),
    ensures
        ({
            let path = division_path(table, decimal_int(n as int));
            let g = geo_cn(r, Some(table), network);
            &&& path.len() == 0 ==> g is None
            &&& path.len() > 0 ==> (g matches Some(g) && {
                &&& g.city matches Some(c) && {
                    &&& c.iso == Some(n)
                    &&& c.cn_province == Some(path[0])
                    &&& path.len() == 1 ==> c.name == Some(path[0]) && c.cn_city is None
                        && c.cn_districts is None
                    &&& path.len() == 2 ==> c.name == Some(path[0] + " "@ + path[1]) && c.cn_city
                        == Some(path[1]) && c.cn_districts is None
                    &&& path.len() == 3 ==> c.name == Some(
                        path[0] + " "@ + path[1] + " "@ + path[2],
                    ) && c.cn_city == Some(path[1]) && c.cn_districts == Some(path[2])
                    &&& path.len() == 4 ==> c.name == Some(
                        path[0] + " "@ + path[1] + " "@ + path[2] + " "@ + path[3],
                    ) && c.cn_city == Some(path[1]) && c.cn_districts == Some(
                        path[2] + " "@ + path[3],
                    )
                }
                &&& g.country is None
                &&& g.as_data matches Some(a) && a.network == network && a.number is None
                    && a.organization is None && a.ip_address is None
                &&& g.network matches Some(w) && w.isp == r.isp && w.net_type == r.net_type
            })
        }),
        geo_cn(r, None, network) is None,
{
    crate::text::decimal_round_trips(n as int);
    let path = division_path(table, decimal_int(n as int));
    reveal_with_fuel(spaced, 5);
    assert(path.len() >= 2 ==> path.drop_last().drop_last().len() == path.len() - 2);
}

/// A switch is read from the variable of its name in upper case, with underscores; an empty variable
/// counts as none.
pub proof fn switches_are_read_from_their_variable<E: Fn(&String) -> Option<String>>(
    env: E,
    key: Seq<char>,
    value: Option<String>,
)
    requires
        switched(env, key, value),
    ensures
        value matches Some(v) ==> v@.len() > 0 && exists|name: String|
            name@ == uppercase(switch_words(key)) && #[trigger] env.ensures((&name,), Some(v)),
        value is None ==> exists|name: String, variable: Option<String>|
            name@ == uppercase(switch_words(key)) && #[trigger] env.ensures((&name,), variable) && (
            variable matches Some(v) ==> v@.len() == 0),
{
    let (name, variable) = choose|name: String, variable: Option<String>|
        {
            &&& name@ == uppercase(switch_words(key))
            &&& #[trigger] env.ensures((&name,), variable)
            &&& value == switch_value(variable)
        };
    if let Some(v) = value {
        assert(env.ensures((&name,), Some(v)));
    }
}

} // verus!
