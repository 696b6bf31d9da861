//! AutoSTUN: the table of NAT mappings, the TCP STUN messages and the choice of servers.

use vstd::prelude::*;
use crate::auto_stun_forwarder::{create_tunnel, tunnel_of, tunnel_port_of, StunTcpTunnel, TcpForwarderConfig, TunnelConfig};
use crate::auto_stun_probe::{probed, queries, NatType, NatTypeProber};
use crate::iputil::{addr_of, net_of, parse_addr, parse_net};
use crate::net::{IpAddr, IpNet, SocketAddr};
use crate::text::{chars_of, decimal, digit, digit_char, find_char, find_from, is_ws, lemma_decimal_plain, lemma_untouched, nat_of_text, parse_u16, parts_are_found_apart, push_text, string_of, substring_of, texts, trim, trim_chars, trim_of};
use crate::wire::{be16, be32, bytes32, random_u32, read_be16, read_be32};

verus! {

/// The port of a STUN server that names none.
pub const DEFAULT_STUN_PORT: u16 = 3478;

/// How long a STUN exchange may take, in milliseconds.
pub const DEFAULT_STUN_TIMEOUT: u64 = 5000;

/// How often a tunnel's mapping is refreshed, in milliseconds.
pub const DEFAULT_REFRESH_INTERVAL: u64 = 5000;

/// The longest STUN message that is read.
pub const STUN_BUFFER_SIZE: usize = 1500;

/// The magic cookie of STUN messages.
pub const MAGIC_COOKIE: u32 = 0x2112_A442;

/// Settings of AutoSTUN.
#[derive(Debug, Clone)]
pub struct AutoStunConfig {
    pub enabled: bool,
    pub use_friendly_loopback_mapping: bool,
    pub downloaders: Vec<String>,
    pub tcp_servers: Vec<String>,
    pub udp_servers: Vec<String>,
}

/// The TCP STUN servers that are used where none are configured.
pub fn default_tcp_stun_servers() -> (v: Vec<String>)
    ensures
        texts(v@) == seq![
            "turn.cloudflare.com:3478"@,
            "stun.nextcloud.com:3478"@,
            "stun.sipnet.com:3478"@,
        ],
{
    let mut v: Vec<String> = Vec::new();
    v.push("turn.cloudflare.com:3478".to_string());
    v.push("stun.nextcloud.com:3478".to_string());
    v.push("stun.sipnet.com:3478".to_string());
    assert(texts(v@) =~= seq![
        "turn.cloudflare.com:3478"@,
        "stun.nextcloud.com:3478"@,
        "stun.sipnet.com:3478"@,
    ]);
    v
}

/// The UDP STUN servers that are used where none are configured.
pub fn default_udp_stun_servers() -> (v: Vec<String>)
    ensures
        texts(v@) == seq![
            "stun.cdnbye.com:3478"@,
            "stun.nextcloud.com:3478"@,
            "stun.miwifi.com:3478"@,
            "stun.syncthing.net:3478"@,
            "stun.l.google.com:3478"@,
        ],
{
    let mut v: Vec<String> = Vec::new();
    v.push("stun.cdnbye.com:3478".to_string());
    v.push("stun.nextcloud.com:3478".to_string());
    v.push("stun.miwifi.com:3478".to_string());
    v.push("stun.syncthing.net:3478".to_string());
    v.push("stun.l.google.com:3478".to_string());
    assert(texts(v@) =~= seq![
        "stun.cdnbye.com:3478"@,
        "stun.nextcloud.com:3478"@,
        "stun.miwifi.com:3478"@,
        "stun.syncthing.net:3478"@,
        "stun.l.google.com:3478"@,
    ]);
    v
}

impl Default for AutoStunConfig {
    fn default() -> (c: Self)
        ensures
            !c.enabled,
            c.use_friendly_loopback_mapping,
            c.downloaders@.len() == 0,
            texts(c.tcp_servers@) == seq![
                "turn.cloudflare.com:3478"@,
                "stun.nextcloud.com:3478"@,
                "stun.sipnet.com:3478"@,
            ],
            texts(c.udp_servers@) == seq![
                "stun.cdnbye.com:3478"@,
                "stun.nextcloud.com:3478"@,
                "stun.miwifi.com:3478"@,
                "stun.syncthing.net:3478"@,
                "stun.l.google.com:3478"@,
            ],
    {
        AutoStunConfig {
            enabled: false,
            use_friendly_loopback_mapping: true,
            downloaders: Vec::new(),
            tcp_servers: default_tcp_stun_servers(),
            udp_servers: default_udp_stun_servers(),
        }
    }
}

/// A network on this side of the NAT and the address that stands for it on the other.
#[derive(Clone, Copy, PartialEq, Eq, Structural, Debug)]
pub struct NatMapping {
    pub local: IpNet,
    pub public: IpAddr,
}

/// The two ends of a mapped connection: on this host and at the NAT.
#[derive(Clone, Copy, PartialEq, Eq, Structural, Debug)]
pub struct StunMapping {
    pub inter: SocketAddr,
    pub outer: SocketAddr,
}

/// The running state of AutoSTUN: its switches and the table of NAT mappings.
#[derive(Debug)]
pub struct AutoStun {
    enabled: bool,
    use_friendly_loopback_mapping: bool,
    downloaders: Vec<String>,
    udp_servers: Vec<String>,
    nat_type_prober: NatTypeProber,
    mappings: Vec<NatMapping>,
    public_endpoint: Option<SocketAddr>,
}

/// The state of AutoSTUN as a value.
pub ghost struct AutoStunView {
    pub enabled: bool,
    pub use_friendly_loopback_mapping: bool,
    pub downloaders: Seq<Seq<char>>,
    pub udp_servers: Seq<Seq<char>>,
    pub nat_type: NatType,
    pub mappings: Seq<NatMapping>,
    pub public_endpoint: Option<SocketAddr>,
}

/// A copy of a list of texts.
pub fn clone_texts(v: &Vec<String>) -> (out: Vec<String>)
    ensures
        out@ == v@,
{
    let mut out: Vec<String> = Vec::new();
    let mut i: usize = 0;
    while i < v.len()
        invariant
            i <= v.len(),
            out@ == v@.take(i as int),
        decreases v.len() - i,
    {
        out.push(v[i].clone());
        i += 1;
    }
    assert(v@.take(i as int) =~= v@);
    out
}

/// The mappings that share neither side with the given one.
pub open spec fn unrelated(mappings: Seq<NatMapping>, local: IpNet, public: IpAddr) -> Seq<
    NatMapping,
>
    decreases mappings.len(),
{
    if mappings.len() == 0 {
        mappings
    } else {
        let rest = unrelated(mappings.drop_last(), local, public);
        if mappings.last().local != local && mappings.last().public != public {
            rest.push(mappings.last())
        } else {
            rest
        }
    }
}

/// Whether the table is one to one and every network is well-formed.
pub open spec fn one_to_one(mappings: Seq<NatMapping>) -> bool {
    &&& forall|i: int| 0 <= i < mappings.len() ==> (#[trigger] mappings[i]).local.wf()
    &&& forall|i: int, j: int|
        0 <= i < j < mappings.len() ==> (#[trigger] mappings[i]).local != (
        #[trigger] mappings[j]).local && mappings[i].public != mappings[j].public
}

/// The first mapping at or behind place `i` whose network holds the address.
pub open spec fn first_mapping(mappings: Seq<NatMapping>, addr: IpAddr, i: int) -> Option<
    NatMapping,
>
    decreases mappings.len() - i,
{
    if i < 0 || i >= mappings.len() {
        None
    } else if mappings[i].local.covers(addr) {
        Some(mappings[i])
    } else {
        first_mapping(mappings, addr, i + 1)
    }
}

proof fn lemma_unrelated(mappings: Seq<NatMapping>, local: IpNet, public: IpAddr)
    ensures
        one_to_one(mappings) ==> one_to_one(unrelated(mappings, local, public)),
        forall|i: int|
            0 <= i < unrelated(mappings, local, public).len() ==> {
                let m = #[trigger] unrelated(mappings, local, public)[i];
                m.local != local && m.public != public && mappings.contains(m)
            },
        forall|m: NatMapping|
            mappings.contains(m) && m.local != local && m.public != public ==> unrelated(
                mappings,
                local,
                public,
            ).contains(m),
    decreases mappings.len(),
{
    if mappings.len() > 0 {
        let head = mappings.drop_last();
        let rest = unrelated(head, local, public);
        lemma_unrelated(head, local, public);
        let out = unrelated(mappings, local, public);
        assert(mappings.contains(mappings.last()));
        assert forall|m: NatMapping| head.contains(m) implies mappings.contains(m) by {
            let k = choose|k: int| 0 <= k < head.len() && head[k] == m;
            assert(mappings[k] == m);
        }
        if mappings.last().local != local && mappings.last().public != public {
            if one_to_one(mappings) {
                assert(one_to_one(head));
                assert forall|i: int| 0 <= i < rest.len() implies (#[trigger] rest[i]).local
                    != mappings.last().local && rest[i].public != mappings.last().public by {
                    let m = rest[i];
                    let k = choose|k: int| 0 <= k < head.len() && head[k] == m;
                    assert(mappings[k] == m);
                    assert(mappings[mappings.len() - 1] == mappings.last());
                }
            }
            assert forall|m: NatMapping|
                mappings.contains(m) && m.local != local && m.public != public implies out.contains(
                m,
            ) by {
                let k = choose|k: int| 0 <= k < mappings.len() && mappings[k] == m;
                if k < head.len() {
                    assert(head[k] == m);
                    assert(head.contains(m));
                    assert(rest.contains(m));
                    let r = choose|r: int| 0 <= r < rest.len() && rest[r] == m;
                    assert(out[r] == m);
                } else {
                    assert(out[rest.len() as int] == m);
                }
            }
        } else {
            if one_to_one(mappings) {
                assert(one_to_one(head));
            }
            assert forall|m: NatMapping|
                mappings.contains(m) && m.local != local && m.public != public implies out.contains(
                m,
            ) by {
                let k = choose|k: int| 0 <= k < mappings.len() && mappings[k] == m;
                assert(k < head.len());
                assert(head[k] == m);
                assert(head.contains(m));
            }
        }
    }
}

/// The state with a mapping that a refresh found: its public endpoint is kept, and an IPv4 address of
/// this host is mapped to the public address.
pub open spec fn with_mapping(v: AutoStunView, mapping: StunMapping) -> AutoStunView {
    match mapping.inter.ip {
        IpAddr::V4(_) => {
            let local = IpNet { addr: mapping.inter.ip, prefix_len: 32 };
            AutoStunView {
                public_endpoint: Some(mapping.outer),
                mappings: unrelated(v.mappings, local, mapping.outer.ip).push(
                    NatMapping { local, public: mapping.outer.ip },
                ),
                ..v
            }
        },
        IpAddr::V6(_) => AutoStunView { public_endpoint: Some(mapping.outer), ..v },
    }
}

impl AutoStunConfig {
    /// The state for the settings, without any mapping.
    pub fn build(&self) -> (s: AutoStun)
        ensures
            s.wf(),
            s@ == (AutoStunView {
                enabled: self.enabled,
                use_friendly_loopback_mapping: self.use_friendly_loopback_mapping,
                downloaders: texts(self.downloaders@),
                udp_servers: texts(self.udp_servers@),
                nat_type: NatType::Unknown,
                mappings: Seq::empty(),
                public_endpoint: None,
            }),
    {
        AutoStun::new(self)
    }
}

impl AutoStun {
    /// The state as a value.
    pub closed spec fn view(&self) -> AutoStunView {
        AutoStunView {
            enabled: self.enabled,
            use_friendly_loopback_mapping: self.use_friendly_loopback_mapping,
            downloaders: texts(self.downloaders@),
            udp_servers: texts(self.udp_servers@),
            nat_type: self.nat_type_prober@,
            mappings: self.mappings@,
            public_endpoint: self.public_endpoint,
        }
    }

    /// The table is one to one.
    pub open spec fn wf(&self) -> bool {
        one_to_one(self@.mappings)
    }

    /// The state for the given settings, without any mapping.
    pub fn new(config: &AutoStunConfig) -> (s: AutoStun)
        ensures
            s.wf(),
            s@ == (AutoStunView {
                enabled: config.enabled,
                use_friendly_loopback_mapping: config.use_friendly_loopback_mapping,
                downloaders: texts(config.downloaders@),
                udp_servers: texts(config.udp_servers@),
                nat_type: NatType::Unknown,
                mappings: Seq::empty(),
                public_endpoint: None,
            }),
    {
        AutoStun {
            enabled: config.enabled,
            use_friendly_loopback_mapping: config.use_friendly_loopback_mapping,
            downloaders: clone_texts(&config.downloaders),
            udp_servers: clone_texts(&config.udp_servers),
            nat_type_prober: NatTypeProber::new(),
            mappings: Vec::new(),
            public_endpoint: None,
        }
    }

    /// Whether AutoSTUN is switched on.
    pub fn is_enabled(&self) -> (yes: bool)
        ensures
            yes == self@.enabled,
    {
        self.enabled
    }

    /// Whether connections to loopback are bound to friendly addresses.
    pub fn use_friendly_loopback_mapping(&self) -> (yes: bool)
        ensures
            yes == self@.use_friendly_loopback_mapping,
    {
        self.use_friendly_loopback_mapping
    }

    /// The downloaders that have a tunnel.
    pub fn downloaders(&self) -> (v: Vec<String>)
        ensures
            texts(v@) == self@.downloaders,
    {
        clone_texts(&self.downloaders)
    }

    /// The UDP servers that the NAT type is asked of.
    pub fn udp_servers(&self) -> (v: Vec<String>)
        ensures
            texts(v@) == self@.udp_servers,
    {
        clone_texts(&self.udp_servers)
    }

    /// The mappings, the oldest first.
    pub fn mappings(&self) -> (v: Vec<NatMapping>)
        ensures
            v@ == self@.mappings,
    {
        let mut v: Vec<NatMapping> = Vec::new();
        let mut i: usize = 0;
        while i < self.mappings.len()
            invariant
                i <= self.mappings.len(),
                v@ == self.mappings@.take(i as int),
            decreases self.mappings.len() - i,
        {
            v.push(self.mappings[i]);
            i += 1;
        }
        assert(self.mappings@.take(i as int) =~= self.mappings@);
        v
    }

    /// Removes every mapping.
    pub fn clear_mappings(&mut self)
        ensures
            final(self).wf(),
            final(self)@ == (AutoStunView { mappings: Seq::empty(), ..old(self)@ }),
    {
        self.mappings = Vec::new();
    }

    /// The public endpoint that was found last.
    pub fn public_endpoint(&self) -> (r: Option<SocketAddr>)
        ensures
            r == self@.public_endpoint,
    {
        self.public_endpoint
    }

    /// Enters a mapping from a network (or a single address) to a public address. Mappings of the
    /// same network or to the same public address make way. Nothing changes if either text cannot
    /// be read.
    pub fn insert_mapping(&mut self, local: &str, public: &str) -> (entered: bool)
        requires
            old(self).wf(),
        ensures
            final(self).wf(),
            entered == (net_of(local@) is Some && addr_of(public@) is Some),
            final(self)@ == if entered {
                let net = net_of(local@)->0;
                let addr = addr_of(public@)->0;
                AutoStunView {
                    mappings: unrelated(old(self)@.mappings, net, addr).push(
                        NatMapping { local: net, public: addr },
                    ),
                    ..old(self)@
                }
            } else {
                old(self)@
            },
    {
        let net = match parse_net(local) {
            Some(net) => net,
            None => {
                return false;
            },
        };
        let addr = match parse_addr(public) {
            Some(addr) => addr,
            None => {
                return false;
            },
        };
        self.insert_mapping_addr(net, addr);
        true
    }

    /// Enters a mapping. Mappings of the same network or to the same public address make way.
    pub fn insert_mapping_addr(&mut self, local: IpNet, public: IpAddr)
        requires
            old(self).wf(),
            local.wf(),
        ensures
            final(self).wf(),
            final(self)@ == (AutoStunView {
                mappings: unrelated(old(self)@.mappings, local, public).push(
                    NatMapping { local, public },
                ),
                ..old(self)@
            }),
    {
        let ghost before = self.mappings@;
        let mut kept: Vec<NatMapping> = Vec::new();
        let mut i: usize = 0;
        assert(before.take(0) =~= Seq::empty());
        while i < self.mappings.len()
            invariant
                i <= self.mappings.len(),
                self.mappings@ == before,
                self@ == old(self)@,
                kept@ == unrelated(before.take(i as int), local, public),
            decreases self.mappings.len() - i,
        {
            let m = self.mappings[i];
            assert(before.take(i + 1).drop_last() =~= before.take(i as int));
            if m.local != local && m.public != public {
                kept.push(m);
            }
            i += 1;
        }
        assert(before.take(i as int) =~= before);
        kept.push(NatMapping { local, public });
        proof {
            lemma_unrelated(before, local, public);
        }
        self.mappings = kept;
    }

    /// The public address and the unchanged port for an address of a mapped network; `None` while
    /// AutoSTUN is switched off and for any other address.
    pub fn translate(&self, addr: IpAddr, port: u16) -> (r: Option<(IpAddr, u16)>)
        requires
            self.wf(),
        ensures
            r == if self@.enabled {
                match first_mapping(self@.mappings, addr, 0) {
                    Some(m) => Some((m.public, port)),
                    None => None,
                }
            } else {
                None
            },
    {
        if !self.enabled {
            return None;
        }
        let mut i: usize = 0;
        while i < self.mappings.len()
            invariant
                self.wf(),
                i <= self.mappings.len(),
                self.enabled,
                first_mapping(self@.mappings, addr, 0) == first_mapping(
                    self@.mappings,
                    addr,
                    i as int,
                ),
            decreases self.mappings.len() - i,
        {
            assert(self@.mappings[i as int].local.wf());
            if self.mappings[i].local.contains(&addr) {
                return Some((self.mappings[i].public, port));
            }
            i += 1;
        }
        None
    }

    /// The client for a refresh of the mapping; `None` while AutoSTUN is switched off or without a
    /// server.
    pub fn refresh_client(&self, servers: Vec<String>, source_host: String, source_port: u16) -> (r:
        Option<TcpStunClient>)
        ensures
            (r is Some) == (self@.enabled && servers@.len() > 0),
            r matches Some(c) ==> c.servers == servers && c.source_host == source_host
                && c.source_port == source_port,
    {
        if !self.enabled {
            return None;
        }
        TcpStunClient::new(servers, source_host, source_port)
    }

    /// Takes a mapping that a refresh found: its public endpoint is kept, and an IPv4 address of
    /// this host is mapped to the public address.
    pub fn on_mapping(&mut self, mapping: StunMapping)
        requires
            old(self).wf(),
        ensures
            final(self).wf(),
            final(self)@ == with_mapping(old(self)@, mapping),
    {
        self.public_endpoint = Some(mapping.outer);
        assert(one_to_one(self@.mappings));
        if mapping.inter.ip.is_v4() {
            let local = IpNet { addr: mapping.inter.ip, prefix_len: 32 };
            self.insert_mapping_addr(local, mapping.outer.ip);
        }
    }

    /// Asks servers for the mapping of a source and takes the first that one gives. Nothing is asked
    /// while AutoSTUN is switched off.
    pub fn refresh_from_servers<X: Fn(&String, u16, &String, u16, u64) -> Option<StunMapping>>(
        &mut self,
        servers: &Vec<String>,
        source_host: &str,
        source_port: u16,
        timeout: u64,
        exchange: &X,
    ) -> (r: Option<StunMapping>)
        requires
            old(self).wf(),
            exchanges(*exchange),
        ensures
            final(self).wf(),
            !old(self)@.enabled ==> r is None,
            old(self)@.enabled ==> first_answer(
                *exchange,
                servers@,
                source_host@,
                source_port,
                timeout,
                r,
            ),
            final(self)@ == (match r {
                Some(mapping) => with_mapping(old(self)@, mapping),
                None => old(self)@,
            }),
    {
        let client = match self.refresh_client(
            clone_texts(servers),
            source_host.to_string(),
            source_port,
        ) {
            Some(client) => client,
            None => return None,
        };
        match client.get_mapping(timeout, exchange) {
            Some(mapping) => {
                self.on_mapping(mapping);
                Some(mapping)
            },
            None => None,
        }
    }

    /// Makes a tunnel to a downloader. None is made while AutoSTUN is switched off, where it does
    /// not apply, or where that fails. `free_port` is a local port to take where the settings name
    /// none.
    pub fn create_tunnel<
        X: Fn(&String, u16, &String, u16, u64) -> Option<StunMapping>,
        T: Fn(&StunMapping, u64) -> Result<bool, String>,
        L: Fn(&String) -> Option<IpAddr>,
        S: Fn(&TcpForwarderConfig) -> Result<SocketAddr, String>,
    >(
        &self,
        stun_servers: &Vec<String>,
        downloader_host: &String,
        config: &TunnelConfig,
        free_port: u16,
        started_at_ms: u64,
        exchange: &X,
        test: &T,
        lookup: &L,
        start: &S,
    ) -> (r: Option<StunTcpTunnel>)
        requires
            exchanges(*exchange),
            forall|m: &StunMapping, timeout: u64| test.requires((m, timeout)),
            forall|h: &String| lookup.requires((h,)),
            forall|f: &TcpForwarderConfig| start.requires((f,)),
        ensures
            !self@.enabled || stun_servers@.len() == 0 ==> r is None,
            self@.enabled && stun_servers@.len() > 0 ==> exists|mapping: Option<StunMapping>|
                {
                    &&& #[trigger] first_answer(
                        *exchange,
                        stun_servers@,
                        "0.0.0.0"@,
                        tunnel_port_of(*config, free_port),
                        config.timeout,
                        mapping,
                    )
                    &&& match mapping {
                        None => r is None,
                        Some(m) => exists|made: Result<Option<StunTcpTunnel>, String>|
                            {
                                &&& #[trigger] tunnel_of(
                                    m,
                                    *downloader_host,
                                    *config,
                                    started_at_ms,
                                    *test,
                                    *lookup,
                                    *start,
                                    made,
                                )
                                &&& r == (match made {
                                    Ok(tunnel) => tunnel,
                                    Err(_) => None,
                                })
                            },
                    }
                },
    {
        if !self.enabled {
            return None;
        }
        match create_tunnel(
            stun_servers,
            downloader_host,
            config,
            free_port,
            started_at_ms,
            exchange,
            test,
            lookup,
            start,
        ) {
            Ok(tunnel) => tunnel,
            Err(_) => None,
        }
    }

    /// The NAT type that was detected last.
    pub fn nat_type(&self) -> (t: NatType)
        ensures
            t == self@.nat_type,
    {
        self.nat_type_prober.cached_nat_type()
    }

    /// Detects the NAT type with `query`, which is asked for the UDP servers; while AutoSTUN is
    /// switched off nothing is asked and the type is unknown.
    pub fn refresh_nat_type<
        Q: Fn(&String, u16, IpAddr, u64) -> Option<(NatType, Option<SocketAddr>)>,
    >(&mut self, query: Q) -> (t: NatType)
        requires
            queries(query),
        ensures
            !old(self)@.enabled ==> t == NatType::Unknown && final(self)@ == old(self)@,
            old(self)@.enabled ==> {
                &&& final(self)@ == (AutoStunView { nat_type: t, ..old(self)@ })
                &&& exists|servers: Seq<String>|
                    texts(servers) == old(self)@.udp_servers && #[trigger] probed(query, servers, t)
            },
    {
        if !self.enabled {
            return NatType::Unknown;
        }
        self.nat_type_prober.refresh_nat_type(&self.udp_servers, query)
    }
}

/// After a mapping is entered, its network translates to its public address, unless an older
/// mapping's network holds the address too; no other mapping leads to that public address.
pub proof fn inserted_mapping_translates(
    mappings: Seq<NatMapping>,
    local: IpNet,
    public: IpAddr,
    addr: IpAddr,
)
    requires
        local.covers(addr),
    ensures
        ({
            let kept = unrelated(mappings, local, public);
            let after = kept.push(NatMapping { local, public });
            &&& first_mapping(kept, addr, 0) is None ==> first_mapping(after, addr, 0) == Some(
                NatMapping { local, public },
            )
            &&& forall|i: int|
                0 <= i < after.len() - 1 ==> (#[trigger] after[i]).public != public
                    && after[i].local != local
        }),
{
    let kept = unrelated(mappings, local, public);
    lemma_unrelated(mappings, local, public);
    if first_mapping(kept, addr, 0) is None {
        lemma_first_mapping_push(kept, NatMapping { local, public }, addr, 0);
    }
    let after = kept.push(NatMapping { local, public });
    assert forall|i: int| 0 <= i < after.len() - 1 implies (#[trigger] after[i]).public != public
        && after[i].local != local by {
        assert(after[i] == kept[i]);
    }
}

proof fn lemma_first_mapping_push(kept: Seq<NatMapping>, m: NatMapping, addr: IpAddr, i: int)
    requires
        m.local.covers(addr),
        0 <= i <= kept.len(),
        first_mapping(kept, addr, i) is None,
    ensures
        first_mapping(kept.push(m), addr, i) == Some(m),
    decreases kept.len() - i,
{
    if i < kept.len() {
        assert(kept.push(m)[i] == kept[i]);
        lemma_first_mapping_push(kept, m, addr, i + 1);
    } else {
        assert(kept.push(m)[i] == m);
    }
}

// ---------------------------------------------------------------- TCP client
/// Whether a server may answer so when it is asked for the mapping of a source: one that is not
/// written `host` or `host:port` gives none. `exchange` is told the server's host and port, the
/// host and port of the source, and how long it may take in milliseconds.
pub open spec fn server_answer<
    X: Fn(&String, u16, &String, u16, u64) -> Option<StunMapping>,
>(
    exchange: X,
    server: Seq<char>,
    source_host: Seq<char>,
    source_port: u16,
    timeout: u64,
    r: Option<StunMapping>,
) -> bool {
    match stun_server_of(server) {
        None => r is None,
        Some((host, port)) => exists|h: String, s: String|
            h@ == host && s@ == source_host && #[trigger] exchange.ensures(
                (&h, port, &s, source_port, timeout),
                r,
            ),
    }
}

/// Whether a mapping is the first that servers, asked in turn for that of a source, give; or none
/// does.
pub open spec fn first_answer<X: Fn(&String, u16, &String, u16, u64) -> Option<StunMapping>>(
    exchange: X,
    servers: Seq<String>,
    source_host: Seq<char>,
    source_port: u16,
    timeout: u64,
    r: Option<StunMapping>,
) -> bool {
    match r {
        Some(m) => exists|i: int|
            {
                &&& 0 <= i < servers.len()
                &&& server_answer(
                    exchange,
                    (#[trigger] servers[i])@,
                    source_host,
                    source_port,
                    timeout,
                    Some(m),
                )
                &&& forall|k: int|
                    0 <= k < i ==> server_answer(
                        exchange,
                        (#[trigger] servers[k])@,
                        source_host,
                        source_port,
                        timeout,
                        None,
                    )
            },
        None => forall|k: int|
            0 <= k < servers.len() ==> server_answer(
                exchange,
                (#[trigger] servers[k])@,
                source_host,
                source_port,
                timeout,
                None,
            ),
    }
}

/// A client that asks TCP STUN servers for the mapping of a local endpoint.
#[derive(Debug)]
pub struct TcpStunClient {
    pub servers: Vec<String>,
    pub source_host: String,
    pub source_port: u16,
}

impl TcpStunClient {
    /// A client for the given servers; `None` without a server.
    pub fn new(servers: Vec<String>, source_host: String, source_port: u16) -> (r: Option<Self>)
        ensures
            (r is Some) == (servers@.len() > 0),
            r matches Some(c) ==> c.servers == servers && c.source_host == source_host
                && c.source_port == source_port,
    {
        if servers.len() == 0 {
            return None;
        }
        Some(TcpStunClient { servers, source_host, source_port })
    }

    /// Asks the servers in turn for the mapping of the source until one answers: the first mapping
    /// that `exchange` finds.
    pub fn get_mapping<X: Fn(&String, u16, &String, u16, u64) -> Option<StunMapping>>(
        &self,
        timeout: u64,
        exchange: &X,
    ) -> (r: Option<StunMapping>)
        requires
            exchanges(*exchange),
        ensures
            first_answer(
                *exchange,
                self.servers@,
                self.source_host@,
                self.source_port,
                timeout,
                r,
            ),
    {
        let mut i: usize = 0;
        while i < self.servers.len()
            invariant
                i <= self.servers@.len(),
                exchanges(*exchange),
                forall|k: int|
                    0 <= k < i ==> server_answer(
                        *exchange,
                        (#[trigger] self.servers@[k])@,
                        self.source_host@,
                        self.source_port,
                        timeout,
                        None,
                    ),
            decreases self.servers@.len() - i,
        {
            let found = self.get_mapping_from_server(self.servers[i].as_str(), timeout, exchange);
            if found.is_some() {
                return found;
            }
            i += 1;
        }
        None
    }

    fn get_mapping_from_server<X: Fn(&String, u16, &String, u16, u64) -> Option<StunMapping>>(
        &self,
        server: &str,
        timeout: u64,
        exchange: &X,
    ) -> (r: Option<StunMapping>)
        requires
            exchanges(*exchange),
        ensures
            server_answer(
                *exchange,
                server@,
                self.source_host@,
                self.source_port,
                timeout,
                r,
            ),
    {
        match parse_stun_server(server) {
            None => None,
            Some((host, port)) => {
                let r = exchange(&host, port, &self.source_host, self.source_port, timeout);
                assert(exchange.ensures(
                    (&host, port, &self.source_host, self.source_port, timeout),
                    r,
                ));
                r
            },
        }
    }
}

/// Whether servers may be asked in every way.
pub open spec fn exchanges<X: Fn(&String, u16, &String, u16, u64) -> Option<StunMapping>>(
    exchange: X,
) -> bool {
    forall|host: &String, port: u16, source: &String, source_port: u16, timeout: u64|
        exchange.requires((host, port, source, source_port, timeout))
}

/// The targets of the same address family as the source.
pub open spec fn same_family(source: SocketAddr, targets: Seq<SocketAddr>) -> Seq<SocketAddr>
    decreases targets.len(),
{
    if targets.len() == 0 {
        targets
    } else {
        let rest = same_family(source, targets.drop_last());
        if (targets.last().ip is V4) == (source.ip is V4) {
            rest.push(targets.last())
        } else {
            rest
        }
    }
}

/// The targets that a socket bound to `source` can reach: those of its address family, in order.
pub fn reachable_targets(source: SocketAddr, targets: &[SocketAddr]) -> (out: Vec<SocketAddr>)
    ensures
        out@ == same_family(source, targets@),
{
    let mut out: Vec<SocketAddr> = Vec::new();
    let mut i: usize = 0;
    assert(targets@.take(0) =~= Seq::empty());
    while i < targets.len()
        invariant
            i <= targets.len(),
            out@ == same_family(source, targets@.take(i as int)),
        decreases targets.len() - i,
    {
        assert(targets@.take(i + 1).drop_last() =~= targets@.take(i as int));
        if targets[i].ip.is_v4() == source.ip.is_v4() {
            out.push(targets[i]);
        }
        i += 1;
    }
    assert(targets@.take(i as int) =~= targets@);
    out
}

/// Whether a mapping is the first that the targets which the source can reach, asked in turn, give;
/// or none does. `exchange` is told the source, the target and how long it may take in milliseconds.
pub open spec fn first_reached<X: Fn(SocketAddr, SocketAddr, u64) -> Option<StunMapping>>(
    exchange: X,
    source: SocketAddr,
    targets: Seq<SocketAddr>,
    timeout: u64,
    r: Option<StunMapping>,
) -> bool {
    let reachable = same_family(source, targets);
    match r {
        Some(m) => exists|i: int|
            {
                &&& 0 <= i < reachable.len()
                &&& exchange.ensures((source, #[trigger] reachable[i], timeout), Some(m))
                &&& forall|k: int|
                    0 <= k < i ==> exchange.ensures(
                        (source, #[trigger] reachable[k], timeout),
                        None,
                    )
            },
        None => forall|k: int|
            0 <= k < reachable.len() ==> exchange.ensures(
                (source, #[trigger] reachable[k], timeout),
                None,
            ),
    }
}

/// Asks the addresses of a server in turn for the mapping of a source until one answers; those of
/// another address family are left out.
pub fn mapping_from_targets<X: Fn(SocketAddr, SocketAddr, u64) -> Option<StunMapping>>(
    source: SocketAddr,
    targets: &[SocketAddr],
    timeout: u64,
    exchange: &X,
) -> (r: Option<StunMapping>)
    requires
        forall|from: SocketAddr, to: SocketAddr, within: u64| exchange.requires((from, to, within)),
    ensures
        first_reached(*exchange, source, targets@, timeout, r),
{
    let reachable = reachable_targets(source, targets);
    let mut i: usize = 0;
    while i < reachable.len()
        invariant
            i <= reachable.len(),
            reachable@ == same_family(source, targets@),
            forall|from: SocketAddr, to: SocketAddr, within: u64|
                exchange.requires((from, to, within)),
            forall|k: int|
                0 <= k < i ==> exchange.ensures((source, #[trigger] reachable@[k], timeout), None),
        decreases reachable.len() - i,
    {
        let found = exchange(source, reachable[i], timeout);
        if found.is_some() {
            assert(exchange.ensures((source, reachable@[i as int], timeout), found));
            return found;
        }
        i += 1;
    }
    None
}

/// The host and port of a server written `host` or `host:port`; what follows a second colon is not
/// looked at.
pub open spec fn stun_server_of(server: Seq<char>) -> Option<(Seq<char>, u16)> {
    let t = trim_of(server);
    let colon = match find_from(t, ':', 0) {
        Some(i) => i,
        None => t.len() as int,
    };
    let host = trim_of(t.take(colon));
    if host.len() == 0 {
        None
    } else if colon == t.len() {
        Some((host, DEFAULT_STUN_PORT))
    } else {
        let end = match find_from(t, ':', colon + 1) {
            Some(j) => j,
            None => t.len() as int,
        };
        match nat_of_text(trim_of(t.subrange(colon + 1, end))) {
            Some(port) => if port <= 65535 {
                Some((host, port as u16))
            } else {
                None
            },
            None => None,
        }
    }
}

/// Splits a server written `host` or `host:port`; the port is 3478 where none is given.
pub fn parse_stun_server(server: &str) -> (r: Option<(String, u16)>)
    ensures
        match r {
            Some((host, port)) => stun_server_of(server@) == Some((host@, port)),
            None => stun_server_of(server@) is None,
        },
{
    let trimmed = trim(server);
    let t = chars_of(trimmed.as_str());
    let colon: usize = match find_char(t.as_slice(), ':', 0) {
        Some(i) => i,
        None => t.len(),
    };
    let raw_host = substring_of(t.as_slice(), 0, colon);
    assert(raw_host@ =~= t@.take(colon as int));
    let host = trim(raw_host.as_str());
    if host.as_str().is_empty() {
        return None;
    }
    if colon == t.len() {
        return Some((host, DEFAULT_STUN_PORT));
    }
    let end: usize = match find_char(t.as_slice(), ':', colon + 1) {
        Some(j) => j,
        None => t.len(),
    };
    let port_text = substring_of(t.as_slice(), colon + 1, end);
    let port_raw = chars_of(port_text.as_str());
    let port_chars = trim_chars(port_raw.as_slice());
    match parse_u16(port_chars.as_slice()) {
        Some(port) => Some((host, port)),
        None => None,
    }
}

// ------------------------------------------------------------------- messages
/// A binding request: type 1, an empty body, the magic cookie and a transaction identifier of
/// `NATR` and two numbers.
pub open spec fn stun_request(a: u32, b: u32) -> Seq<u8> {
    seq![0u8, 1u8, 0u8, 0u8] + bytes32(MAGIC_COOKIE) + seq![78u8, 65u8, 84u8, 82u8] + bytes32(a)
        + bytes32(b)
}

/// Builds a binding request whose transaction identifier ends in the given numbers.
pub fn stun_binding_request_with(a: u32, b: u32) -> (r: [u8; 20])
    ensures
        r@ == stun_request(a, b),
{
    let r: [u8; 20] = [
        0,
        1,
        0,
        0,
        0x21,
        0x12,
        0xA4,
        0x42,
        78,
        65,
        84,
        82,
        (a / 16777216) as u8,
        ((a / 65536) % 256) as u8,
        ((a / 256) % 256) as u8,
        (a % 256) as u8,
        (b / 16777216) as u8,
        ((b / 65536) % 256) as u8,
        ((b / 256) % 256) as u8,
        (b % 256) as u8,
    ];
    assert(r@ =~= stun_request(a, b));
    r
}

/// Builds a binding request with a random transaction identifier.
pub fn create_stun_binding_request() -> (r: [u8; 20])
    ensures
        exists|a: u32, b: u32| r@ == #[trigger] stun_request(a, b),
{
    let a = random_u32();
    let b = random_u32();
    stun_binding_request_with(a, b)
}

/// Why a STUN reply gave no address.
#[derive(Clone, Copy, PartialEq, Eq, Structural, Debug)]
pub enum StunError {
    InvalidLength,
    InvalidType { message_type: u16 },
    InvalidCookie,
    NoMappedAddress,
}

/// The hexadecimal spelling of a number, without leading zeros.
pub open spec fn hexadecimal(n: nat) -> Seq<char>
    decreases n,
{
    if n < 16 {
        seq![digit_char(n as int)]
    } else {
        hexadecimal(n / 16).push(digit_char((n % 16) as int))
    }
}

fn hex_chars(n: u16) -> (out: Vec<char>)
    ensures
        out@ == hexadecimal(n as nat),
    decreases n,
{
    if n < 16 {
        let mut out: Vec<char> = Vec::new();
        out.push(digit(n as u8));
        assert(out@ =~= hexadecimal(n as nat));
        out
    } else {
        let mut out = hex_chars(n / 16);
        out.push(digit((n % 16) as u8));
        out
    }
}

impl StunError {
    /// The message of an error.
    pub open spec fn text(self) -> Seq<char> {
        match self {
            StunError::InvalidLength => "Invalid STUN response length"@,
            StunError::InvalidType { message_type } => "Invalid STUN response type: "@
                + hexadecimal(message_type as nat),
            StunError::InvalidCookie => "Invalid magic cookie"@,
            StunError::NoMappedAddress => "No mapped address found in STUN response"@,
        }
    }

    /// The message of the error.
    pub fn message(&self) -> (text: String)
        ensures
            text@ == self.text(),
    {
        match self {
            StunError::InvalidLength => "Invalid STUN response length".to_string(),
            StunError::InvalidType { message_type } => {
                let mut out = chars_of("Invalid STUN response type: ");
                let hex = hex_chars(*message_type);
                crate::text::push_range(&mut out, hex.as_slice(), 0, hex.len());
                assert(hex@.subrange(0, hex.len() as int) =~= hex@);
                string_of(out.as_slice())
            },
            StunError::InvalidCookie => "Invalid magic cookie".to_string(),
            StunError::NoMappedAddress => "No mapped address found in STUN response".to_string(),
        }
    }
}

/// The IPv4 address and port of the first mapped address from `pos` on. MAPPED-ADDRESS (1) holds
/// them plainly, XOR-MAPPED-ADDRESS (0x20) combined with the magic cookie. Behind an address of
/// another family reading goes on at its third byte; other attributes are skipped with their
/// padding.
pub open spec fn mapped_from(b: Seq<u8>, pos: int) -> Option<(u32, u16)>
    decreases b.len() + 70000 - pos,
{
    if pos < 20 || pos + 4 > b.len() {
        None
    } else {
        let kind = be16(b, pos);
        let len = be16(b, pos + 2);
        if kind == 0x0001 || kind == 0x0020 {
            if len < 8 {
                mapped_from(b, pos + 4 + len)
            } else if pos + 6 > b.len() {
                None
            } else if b[pos + 5] != 1 {
                mapped_from(b, pos + 6)
            } else if pos + 12 > b.len() {
                None
            } else {
                let port = be16(b, pos + 6) as u16;
                let ip = be32(b, pos + 8) as u32;
                if kind == 0x0020 {
                    Some((ip ^ 0x2112_A442u32, port ^ 0x2112u16))
                } else {
                    Some((ip, port))
                }
            }
        } else {
            mapped_from(b, pos + 4 + len + (4 - len % 4) % 4)
        }
    }
}

/// The address that a STUN reply tells.
pub open spec fn stun_reply(b: Seq<u8>) -> Result<SocketAddr, StunError> {
    if b.len() < 20 {
        Err(StunError::InvalidLength)
    } else if be16(b, 0) != 0x0101 {
        Err(StunError::InvalidType { message_type: be16(b, 0) as u16 })
    } else if be32(b, 4) != MAGIC_COOKIE {
        Err(StunError::InvalidCookie)
    } else {
        match mapped_from(b, 20) {
            Some((ip, port)) => if port != 0 {
                Ok(SocketAddr { ip: IpAddr::V4(ip), port })
            } else {
                Err(StunError::NoMappedAddress)
            },
            None => Err(StunError::NoMappedAddress),
        }
    }
}

/// Reads the mapped address of a STUN reply.
pub fn parse_stun_response(buffer: &[u8]) -> (r: Result<SocketAddr, StunError>)
    ensures
        r == stun_reply(buffer@),
{
    if buffer.len() < 20 {
        return Err(StunError::InvalidLength);
    }
    let message_type = read_be16(buffer, 0);
    if message_type != 0x0101 {
        return Err(StunError::InvalidType { message_type });
    }
    if read_be32(buffer, 4) != MAGIC_COOKIE {
        return Err(StunError::InvalidCookie);
    }
    let mut pos: usize = 20;
    while pos <= buffer.len() && buffer.len() - pos >= 4
        invariant
            20 <= pos,
            buffer.len() >= 20,
            be16(buffer@, 0) == 0x0101,
            be32(buffer@, 4) == MAGIC_COOKIE,
            mapped_from(buffer@, 20) == mapped_from(buffer@, pos as int),
        decreases buffer.len() + 70000 - pos,
    {
        let kind = read_be16(buffer, pos);
        let len = read_be16(buffer, pos + 2) as usize;
        if kind == 0x0001 || kind == 0x0020 {
            if len < 8 {
                if len > buffer.len() - pos - 4 {
                    assert(mapped_from(buffer@, pos + 4 + len) is None);
                    return Err(StunError::NoMappedAddress);
                }
                pos = pos + 4 + len;
            } else {
                if buffer.len() - pos < 6 {
                    return Err(StunError::NoMappedAddress);
                }
                if buffer[pos + 5] != 1 {
                    pos = pos + 6;
                } else {
                    if buffer.len() - pos < 12 {
                        return Err(StunError::NoMappedAddress);
                    }
                    let raw_port = read_be16(buffer, pos + 6);
                    let raw_ip = read_be32(buffer, pos + 8);
                    let (port, ip) = if kind == 0x0020 {
                        (raw_port ^ 0x2112, raw_ip ^ 0x2112_A442)
                    } else {
                        (raw_port, raw_ip)
                    };
                    if port == 0 {
                        return Err(StunError::NoMappedAddress);
                    }
                    return Ok(SocketAddr { ip: IpAddr::V4(ip), port });
                }
            }
        } else {
            let padding: usize = (4 - (len % 4)) % 4;
            let skip: usize = len + padding;
            if skip > buffer.len() - pos - 4 {
                assert(mapped_from(buffer@, pos + 4 + skip) is None);
                return Err(StunError::NoMappedAddress);
            }
            pos = pos + 4 + skip;
        }
    }
    Err(StunError::NoMappedAddress)
}

/// A reply whose first attribute is an XOR-MAPPED-ADDRESS gives back the address that was combined
/// with the magic cookie.
pub proof fn xor_mapped_address_is_recovered(b: Seq<u8>, ip: u32, port: u16)
    requires
        b.len() >= 32,
        be16(b, 0) == 0x0101,
        be32(b, 4) == MAGIC_COOKIE,
        be16(b, 20) == 0x0020,
        be16(b, 22) >= 8,
        b[25] == 1,
        be16(b, 26) == port ^ 0x2112u16,
        be32(b, 28) == ip ^ 0x2112_A442u32,
        port != 0,
    ensures
        stun_reply(b) == Ok::<SocketAddr, StunError>(SocketAddr { ip: IpAddr::V4(ip), port }),
{
    assert((ip ^ 0x2112_A442u32) ^ 0x2112_A442u32 == ip) by (bit_vector);
    assert((port ^ 0x2112u16) ^ 0x2112u16 == port) by (bit_vector);
}

/// How many bytes of a reply are wanted before it is read: first its header, then as many as the
/// header declares, but no more than fit the buffer.
pub open spec fn wanted(filled: Seq<u8>) -> int {
    if filled.len() < 20 {
        20
    } else if 20 + be16(filled, 2) <= STUN_BUFFER_SIZE {
        20 + be16(filled, 2)
    } else {
        STUN_BUFFER_SIZE as int
    }
}

/// How many bytes of a reply are wanted before it is read.
pub fn wanted_bytes(filled: &[u8]) -> (n: usize)
    ensures
        n == wanted(filled@),
{
    if filled.len() < 20 {
        return 20;
    }
    let total: usize = 20 + read_be16(filled, 2) as usize;
    if total <= STUN_BUFFER_SIZE {
        total
    } else {
        STUN_BUFFER_SIZE
    }
}

// ------------------------------------------------------------------ laws of STUN
/// A mapping stays unless it is of the same network or of the same public address.
pub proof fn other_mappings_stay(mappings: Seq<NatMapping>, m: NatMapping, local: IpNet, public: IpAddr)
    ensures
        m.local == local || m.public == public ==> unrelated(mappings.push(m), local, public)
            == unrelated(mappings, local, public),
        m.local != local && m.public != public ==> unrelated(mappings.push(m), local, public)
            == unrelated(mappings, local, public).push(m),
{
    assert(mappings.push(m).drop_last() =~= mappings);
}

/// Addresses of the source's own family are tried, in their order.
pub proof fn own_family_is_tried(source: SocketAddr, targets: Seq<SocketAddr>, v4: u32, v6: u128, port: u16)
    ensures
        ({
            let four = SocketAddr { ip: IpAddr::V4(v4), port };
            let six = SocketAddr { ip: IpAddr::V6(v6), port };
            let tried = same_family(source, targets);
            &&& source.ip is V4 ==> same_family(source, targets.push(four)) == tried.push(four)
            &&& source.ip is V4 ==> same_family(source, targets.push(six)) == tried
            &&& source.ip is V6 ==> same_family(source, targets.push(six)) == tried.push(six)
            &&& source.ip is V6 ==> same_family(source, targets.push(four)) == tried
        }),
{
    assert(targets.push(SocketAddr { ip: IpAddr::V4(v4), port }).drop_last() =~= targets);
    assert(targets.push(SocketAddr { ip: IpAddr::V6(v6), port }).drop_last() =~= targets);
}

/// The mapping of an address is the first whose network covers it.
pub proof fn first_covering_mapping_counts(mappings: Seq<NatMapping>, addr: IpAddr, i: int)
    requires
        0 <= i,
    ensures
        match first_mapping(mappings, addr, i) {
            Some(m) => exists|k: int|
                i <= k < mappings.len() && #[trigger] mappings[k] == m && m.local.covers(addr) && (
                forall|j: int| i <= j < k ==> !(#[trigger] mappings[j]).local.covers(addr)),
            None => forall|j: int|
                i <= j < mappings.len() ==> !(#[trigger] mappings[j]).local.covers(addr),
        },
    decreases mappings.len() - i,
{
    if i < mappings.len() {
        if mappings[i].local.covers(addr) {
            assert(mappings[i] == mappings[i]);
        } else {
            first_covering_mapping_counts(mappings, addr, i + 1);
            if let Some(m) = first_mapping(mappings, addr, i) {
                let k = choose|k: int|
                    i + 1 <= k < mappings.len() && #[trigger] mappings[k] == m && m.local.covers(addr)
                        && (forall|j: int|
                        i + 1 <= j < k ==> !(#[trigger] mappings[j]).local.covers(addr));
                assert(forall|j: int|
                    i <= j < k ==> !(#[trigger] mappings[j]).local.covers(addr));
            }
        }
    }
}

/// A server is a host and a port with a colon between, or a host alone, which has the port 3478.
pub proof fn servers_are_hosts_and_ports(h: Seq<char>, port: u16)
    requires
        h.len() > 0,
        !is_ws(h[0]),
        !is_ws(h.last()),
        forall|i: int| 0 <= i < h.len() ==> #[trigger] h[i] != ':',
    ensures
        stun_server_of(h + seq![':'] + decimal(port as nat)) == Some((h, port)),
        stun_server_of(h) == Some((h, 3478u16)),
        stun_server_of(seq![':'] + decimal(port as nat)) is None,
{
    let p = decimal(port as nat);
    lemma_decimal_plain(port as nat);
    lemma_untouched(h);
    let s = h + seq![':'] + p;
    assert(s[0] == h[0] && s.last() == p.last());
    lemma_untouched(s);
    parts_are_found_apart(h, ':', p);
    assert(h.take(h.len() as int) =~= h);
    lemma_nameless(port);
}

proof fn lemma_nameless(port: u16)
    ensures
        stun_server_of(seq![':'] + decimal(port as nat)) is None,
{
    let none = Seq::<char>::empty();
    let p = decimal(port as nat);
    lemma_decimal_plain(port as nat);
    let t = seq![':'] + p;
    assert(t[0] == ':' && t.last() == p.last());
    lemma_untouched(t);
    parts_are_found_apart(none, ':', p);
    assert(none + seq![':'] + p =~= t);
    assert(trim_of(none) =~= none);
}

/// A request is a header of 20 bytes: the kind of a binding request, no attributes, the magic cookie
/// and a transaction.
pub proof fn requests_are_headers(a: u32, b: u32)
    ensures
        stun_request(a, b).len() == 20,
        be16(stun_request(a, b), 0) == 0x0001,
        be16(stun_request(a, b), 2) == 0,
        be32(stun_request(a, b), 4) == 0x2112_A442,
        be32(stun_request(a, b), 12) == a,
        be32(stun_request(a, b), 16) == b,
{
}

/// A reply as its sender writes it: the kind, the length of what follows the header, the cookie, a
/// transaction and the attributes.
pub open spec fn reply_bytes(cookie: u32, transaction: Seq<u8>, body: Seq<u8>) -> Seq<u8> {
    seq![0x01u8, 0x01u8, (body.len() / 256) as u8, (body.len() % 256) as u8] + seq![
        (cookie / 0x100_0000) as u8,
        ((cookie / 0x1_0000) % 0x100) as u8,
        ((cookie / 0x100) % 0x100) as u8,
        (cookie % 0x100) as u8,
    ] + transaction + body
}

/// An attribute as its sender writes it: its kind, its length, its value, and zeros up to a multiple
/// of four bytes.
pub open spec fn padded_attribute(kind: u16, value: Seq<u8>) -> Seq<u8> {
    seq![
        (kind / 256) as u8,
        (kind % 256) as u8,
        (value.len() / 256) as u8,
        (value.len() % 256) as u8,
    ] + value + Seq::new(((4 - value.len() % 4) % 4) as nat, |i: int| 0u8)
}

/// The value of an attribute that holds an IPv4 address.
pub open spec fn address_value_bytes(ip: u32, port: u16) -> Seq<u8> {
    seq![
        0u8,
        1u8,
        (port / 256) as u8,
        (port % 256) as u8,
        (ip / 0x100_0000) as u8,
        ((ip / 0x1_0000) % 0x100) as u8,
        ((ip / 0x100) % 0x100) as u8,
        (ip % 0x100) as u8,
    ]
}

proof fn lemma_padded_attribute(b: Seq<u8>, pos: int, kind: u16, value: Seq<u8>)
    requires
        20 <= pos,
        value.len() < 65536,
        pos + padded_attribute(kind, value).len() <= b.len(),
        b.subrange(pos, pos + padded_attribute(kind, value).len()) == padded_attribute(kind, value),
        kind != 0x0001,
        kind != 0x0020,
    ensures
        mapped_from(b, pos) == mapped_from(b, pos + padded_attribute(kind, value).len()),
{
    let a = padded_attribute(kind, value);
    let cut = b.subrange(pos, pos + a.len());
    assert(cut[0] == b[pos] && cut[1] == b[pos + 1] && cut[2] == b[pos + 2] && cut[3] == b[pos + 3]);
    assert(be16(b, pos) == kind);
    assert(be16(b, pos + 2) == value.len());
}

/// A reply that holds an address is read behind any one other attribute: a plain address as it is
/// and a combined one with the magic cookie taken off again.
pub proof fn addresses_are_read_behind_others(
    transaction: Seq<u8>,
    kind: u16,
    value: Seq<u8>,
    ip: u32,
    port: u16,
    rest: Seq<u8>,
)
    requires
        transaction.len() == 12,
        value.len() < 65536,
        kind != 0x0001,
        kind != 0x0020,
        port != 0,
    ensures
        stun_reply(
            reply_bytes(
                0x2112_A442,
                transaction,
                padded_attribute(kind, value) + padded_attribute(
                    0x0001,
                    address_value_bytes(ip, port),
                ) + rest,
            ),
        ) == Ok::<SocketAddr, StunError>(SocketAddr { ip: IpAddr::V4(ip), port }),
        stun_reply(
            reply_bytes(
                0x2112_A442,
                transaction,
                padded_attribute(kind, value) + padded_attribute(
                    0x0020,
                    address_value_bytes(ip ^ 0x2112_A442, port ^ 0x2112),
                ) + rest,
            ),
        ) == Ok::<SocketAddr, StunError>(SocketAddr { ip: IpAddr::V4(ip), port }),
{
    assert((ip ^ 0x2112_A442u32) ^ 0x2112_A442u32 == ip) by (bit_vector);
    assert((port ^ 0x2112u16) ^ 0x2112u16 == port) by (bit_vector);
    lemma_address_behind(transaction, kind, value, 0x0001, ip, port, rest);
    lemma_address_behind(transaction, kind, value, 0x0020, ip ^ 0x2112_A442, port ^ 0x2112, rest);
}

proof fn lemma_address_behind(
    transaction: Seq<u8>,
    kind: u16,
    value: Seq<u8>,
    own: u16,
    ip: u32,
    port: u16,
    rest: Seq<u8>,
)
    requires
        transaction.len() == 12,
        value.len() < 65536,
        kind != 0x0001,
        kind != 0x0020,
        own == 0x0001 || own == 0x0020,
    ensures
        ({
            let b = reply_bytes(
                0x2112_A442,
                transaction,
                padded_attribute(kind, value) + padded_attribute(own, address_value_bytes(ip, port))
                    + rest,
            );
            &&& b.len() >= 20
            &&& be16(b, 0) == 0x0101
            &&& be32(b, 4) == 0x2112_A442
            &&& mapped_from(b, 20) == if own == 0x0020 {
                Some((ip ^ 0x2112_A442u32, port ^ 0x2112u16))
            } else {
                Some((ip, port))
            }
        }),
{
    let other = padded_attribute(kind, value);
    let v = address_value_bytes(ip, port);
    let mine = padded_attribute(own, v);
    let body = other + mine + rest;
    let b = reply_bytes(0x2112_A442, transaction, body);
    let n = other.len() as int;
    assert(b.subrange(20, 20 + n) =~= other);
    lemma_padded_attribute(b, 20, kind, value);
    let at = 20 + n;
    assert(mine.len() == 12);
    assert(forall|i: int| 0 <= i < 12 ==> b[at + i] == #[trigger] mine[i]);
    assert(mine[0] == 0 && mine[1] == own % 256 && mine[2] == 0 && mine[3] == 8);
    assert(b[at] == mine[0] && b[at + 1] == mine[1] && b[at + 2] == mine[2] && b[at + 3] == mine[3]);
    assert(mine[5] == v[1] && mine[6] == v[2] && mine[7] == v[3]);
    assert(mine[8] == v[4] && mine[9] == v[5] && mine[10] == v[6] && mine[11] == v[7]);
    assert(b[at + 5] == mine[5] && b[at + 6] == mine[6] && b[at + 7] == mine[7]);
    assert(b[at + 8] == mine[8] && b[at + 9] == mine[9] && b[at + 10] == mine[10] && b[at + 11]
        == mine[11]);
    assert(be16(b, at) == own && be16(b, at + 2) == 8);
    assert(be16(b, at + 6) == port);
    assert(be16(b, at + 8) == ip / 0x1_0000 && be16(b, at + 10) == ip % 0x1_0000);
    assert(be32(b, at + 8) == ip);
}

/// A reply is refused that is shorter than a header, of another kind or without the cookie.
pub proof fn other_replies_are_refused(b: Seq<u8>)
    ensures
        b.len() < 20 ==> stun_reply(b) == Err::<SocketAddr, StunError>(StunError::InvalidLength),
        b.len() >= 20 && (b[0] != 1 || b[1] != 1) ==> stun_reply(b) == Err::<SocketAddr, StunError>(
            StunError::InvalidType { message_type: (b[0] * 256 + b[1]) as u16 },
        ),
        b.len() >= 20 && b[0] == 1 && b[1] == 1 && !(b[4] == 0x21 && b[5] == 0x12 && b[6] == 0xA4
            && b[7] == 0x42) ==> stun_reply(b) == Err::<SocketAddr, StunError>(
            StunError::InvalidCookie,
        ),
{
}

/// An IPv6 mapping only changes the public endpoint; an IPv4 one replaces what was known of its
/// address and of the public one, and stands at the end.
pub proof fn mappings_are_replaced(v: AutoStunView, m: StunMapping, a: u32, b: u128)
    ensures
        with_mapping(v, m).public_endpoint == Some(m.outer),
        m.inter.ip == IpAddr::V6(b) ==> with_mapping(v, m).mappings == v.mappings,
        m.inter.ip == IpAddr::V4(a) ==> with_mapping(v, m).mappings.last() == (NatMapping {
            local: IpNet { addr: IpAddr::V4(a), prefix_len: 32 },
            public: m.outer.ip,
        }),
        with_mapping(v, m).enabled == v.enabled,
        with_mapping(v, m).nat_type == v.nat_type,
{
}

/// Of a reply its header is read first, and then what the header declares, up to 1500 bytes.
pub proof fn replies_are_read_by_their_header(b: Seq<u8>)
    ensures
        b.len() < 20 ==> wanted(b) == 20,
        b.len() >= 20 && b[2] * 256 + b[3] <= 1480 ==> wanted(b) == 20 + b[2] * 256 + b[3],
        b.len() >= 20 && b[2] * 256 + b[3] > 1480 ==> wanted(b) == 1500,
{
}

/// The kind of a refused reply is told in hexadecimal.
pub proof fn refusals_tell_the_kind(n: nat, d: nat)
    requires
        d < 16,
    ensures
        n > 0 ==> hexadecimal(16 * n + d) == hexadecimal(n).push("0123456789abcdef"@[d as int]),
        hexadecimal(d) == seq!["0123456789abcdef"@[d as int]],
        n < 65536 ==> (StunError::InvalidType { message_type: n as u16 }).text()
            == "Invalid STUN response type: "@ + hexadecimal(n),
        StunError::InvalidLength.text() == "Invalid STUN response length"@,
        StunError::InvalidCookie.text() == "Invalid magic cookie"@,
        StunError::NoMappedAddress.text() == "No mapped address found in STUN response"@,
{
    reveal_strlit("0123456789abcdef");
    assert((16 * n + d) / 16 == n && (16 * n + d) % 16 == d);
}

/// Servers are asked in turn until one answers.
pub proof fn servers_are_asked_in_turn<X: Fn(&String, u16, &String, u16, u64) -> Option<StunMapping>>(
    exchange: X,
    servers: Seq<String>,
    host: Seq<char>,
    port: u16,
    timeout: u64,
    r: Option<StunMapping>,
)
    requires
        first_answer(exchange, servers, host, port, timeout, r),
    ensures
        servers.len() == 0 ==> r is None,
        r is Some ==> exists|i: int|
            0 <= i < servers.len() && stun_server_of((#[trigger] servers[i])@) is Some,
{
}

} // verus!
