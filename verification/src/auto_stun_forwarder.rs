//! The TCP forwarder behind a NAT mapping, the packets that keep the mapping open, and how a tunnel
//! is put together.

use vstd::arithmetic::div_mod::lemma_fundamental_div_mod_converse;
use vstd::prelude::*;
use crate::auto_stun::{clone_texts, exchanges, first_answer, StunMapping, TcpStunClient, DEFAULT_STUN_TIMEOUT};
use crate::net::{ip_of_text, ip_text, ip_to_string, read_ip, IpAddr, SocketAddr};
use crate::text::{chars_of, concat3, push_text, string_of, substring_of, texts, trim_chars, trim_of};

verus! {

pub const DEFAULT_AVAILABLE_TEST: bool = true;

pub const DEFAULT_IPV6_SUPPORT: bool = true;

pub const DEFAULT_USE_FRIENDLY_ADDRESS_FOR_LOOPBACK: bool = true;

pub const DEFAULT_ALLOW_PUBLIC_IP_AS_DOWNLOADER_HOST: bool = false;

pub const DEFAULT_KEEP_ALIVE_TEST_HOST: &'static str = "qq.com";

pub const DEFAULT_KEEP_ALIVE_TEST_PORT: u16 = 80;

/// When the first packet is sent, in milliseconds.
pub const KEEP_ALIVE_INITIAL_DELAY: u64 = 1_000;

/// How often a packet is sent, in milliseconds.
pub const KEEP_ALIVE_INTERVAL: u64 = 10_000;

/// How long connecting may take, in milliseconds.
pub const KEEP_ALIVE_CONNECT_TIMEOUT: u64 = 1_000;

pub const DEFAULT_MAX_KEEP_ALIVE_FAILURES: u32 = 5;

/// How much of a reply is read.
pub const FORWARDER_BUFFER_SIZE: usize = 1024;

/// What the server of a mapping's test answers.
pub const MAPPING_TEST_RESPONSE: &'static str =
    "HTTP/1.1 204 No Content\r\nContent-Length: 0\r\nConnection: close\r\n\r\n";

// ---------------------------------------------------------------- keeping alive
/// The packet that keeps a mapping open.
pub open spec fn keep_alive_text(test_host: Seq<char>) -> Seq<char> {
    "HEAD / HTTP/1.1\r\nHost: "@ + test_host
        + "\r\nUser-Agent: PeerBanHelper-NAT-Keeper/1.0\r\nConnection: keep-alive\r\n\r\n"@
}

/// The packet that keeps a mapping open.
pub fn keep_alive_request(test_host: &str) -> (out: String)
    ensures
        out@ == keep_alive_text(test_host@),
{
    concat3(
        "HEAD / HTTP/1.1\r\nHost: ",
        test_host,
        "\r\nUser-Agent: PeerBanHelper-NAT-Keeper/1.0\r\nConnection: keep-alive\r\n\r\n",
    )
}

/// Settings of keeping a mapping open; times are in milliseconds.
#[derive(Debug)]
pub struct KeepAliveConfig {
    pub bind_host: String,
    pub bind_port: u16,
    pub test_host: String,
    pub test_port: u16,
    pub initial_delay: u64,
    pub interval: u64,
    pub max_consecutive_failures: u32,
    pub connect_timeout: u64,
    pub read_timeout: u64,
}

impl Default for KeepAliveConfig {
    fn default() -> (c: Self)
        ensures
            c.bind_host@ == "127.0.0.1"@,
            c.bind_port == 0,
            c.test_host@ == DEFAULT_KEEP_ALIVE_TEST_HOST@,
            c.test_port == DEFAULT_KEEP_ALIVE_TEST_PORT,
            c.initial_delay == KEEP_ALIVE_INITIAL_DELAY,
            c.interval == KEEP_ALIVE_INTERVAL,
            c.max_consecutive_failures == DEFAULT_MAX_KEEP_ALIVE_FAILURES,
            c.connect_timeout == KEEP_ALIVE_CONNECT_TIMEOUT,
            c.read_timeout == KEEP_ALIVE_CONNECT_TIMEOUT,
    {
        KeepAliveConfig {
            bind_host: "127.0.0.1".to_string(),
            bind_port: 0,
            test_host: DEFAULT_KEEP_ALIVE_TEST_HOST.to_string(),
            test_port: DEFAULT_KEEP_ALIVE_TEST_PORT,
            initial_delay: KEEP_ALIVE_INITIAL_DELAY,
            interval: KEEP_ALIVE_INTERVAL,
            max_consecutive_failures: DEFAULT_MAX_KEEP_ALIVE_FAILURES,
            connect_timeout: KEEP_ALIVE_CONNECT_TIMEOUT,
            read_timeout: KEEP_ALIVE_CONNECT_TIMEOUT,
        }
    }
}

/// How keeping a mapping open goes.
#[derive(Clone, Copy, PartialEq, Eq, Structural, Debug)]
pub struct NatKeepAlive {
    pub valid: bool,
    pub last_success_ms: u64,
    pub consecutive_failures: u32,
    pub max_consecutive_failures: u32,
}

impl NatKeepAlive {
    /// A mapping that is taken to be open.
    pub fn new(max_consecutive_failures: u32) -> (k: Self)
        ensures
            k == (NatKeepAlive {
                valid: true,
                last_success_ms: 0,
                consecutive_failures: 0,
                max_consecutive_failures,
            }),
    {
        NatKeepAlive {
            valid: true,
            last_success_ms: 0,
            consecutive_failures: 0,
            max_consecutive_failures,
        }
    }

    /// What a round makes of the state: a success starts the count of failures anew; with too many
    /// failures in a row the mapping is given up.
    pub open spec fn after_round(self, success: bool, now_ms: u64) -> NatKeepAlive {
        if success {
            NatKeepAlive { last_success_ms: now_ms, consecutive_failures: 0, ..self }
        } else {
            let failures = if self.consecutive_failures < u32::MAX {
                (self.consecutive_failures + 1) as u32
            } else {
                u32::MAX
            };
            NatKeepAlive {
                consecutive_failures: failures,
                valid: self.valid && failures < self.max_consecutive_failures,
                ..self
            }
        }
    }

    /// The state after `n` failures in a row.
    pub open spec fn after_failures(self, n: nat, now_ms: u64) -> NatKeepAlive
        decreases n,
    {
        if n == 0 {
            self
        } else {
            self.after_failures((n - 1) as nat, now_ms).after_round(false, now_ms)
        }
    }

    /// Notes how a round went: whether there is to be another one.
    pub fn on_round(&mut self, success: bool, now_ms: u64) -> (go_on: bool)
        ensures
            *final(self) == old(self).after_round(success, now_ms),
            go_on == (success || final(self).consecutive_failures
                < final(self).max_consecutive_failures),
    {
        if success {
            self.last_success_ms = now_ms;
            self.consecutive_failures = 0;
            true
        } else {
            self.consecutive_failures = self.consecutive_failures.saturating_add(1);
            if self.consecutive_failures >= self.max_consecutive_failures {
                self.valid = false;
                false
            } else {
                true
            }
        }
    }

    /// Whether the mapping is taken to be open.
    pub fn is_valid(&self) -> (yes: bool)
        ensures
            yes == self.valid,
    {
        self.valid
    }

    /// When the last round went well; zero if none did.
    pub fn last_success_heartbeat_at(&self) -> (ms: u64)
        ensures
            ms == self.last_success_ms,
    {
        self.last_success_ms
    }
}

/// A mapping is given up exactly when failures in a row reach the limit.
pub proof fn failures_in_a_row_end_the_mapping(k: NatKeepAlive, n: nat, now_ms: u64)
    requires
        k.valid,
        k.consecutive_failures == 0,
        n <= u32::MAX,
    ensures
        k.after_failures(n, now_ms).consecutive_failures == n,
        k.after_failures(n, now_ms).max_consecutive_failures == k.max_consecutive_failures,
        k.after_failures(n, now_ms).valid == (n == 0 || n < k.max_consecutive_failures),
    decreases n,
{
    if n > 0 {
        failures_in_a_row_end_the_mapping(k, (n - 1) as nat, now_ms);
    }
}

/// After a success the count of failures starts anew.
pub proof fn success_forgives_failures(k: NatKeepAlive, now_ms: u64)
    ensures
        k.after_round(true, now_ms).consecutive_failures == 0,
        k.after_round(true, now_ms).valid == k.valid,
        k.after_round(true, now_ms).last_success_ms == now_ms,
{
}

// ------------------------------------------------------------------- forwarder
/// Settings of a forwarder; times are in milliseconds.
#[derive(Debug)]
pub struct TcpForwarderConfig {
    pub proxy_host: String,
    pub proxy_port: u16,
    pub upstream_host: String,
    pub upstream_port: u16,
    pub use_friendly_loopback: bool,
    pub connect_timeout: u64,
}

/// A forwarder: its connections, by the address of the peer, with the local address that the
/// downloader sees, and the addresses that are being connected. No address has two connections.
#[derive(Debug)]
pub struct TcpForwarder {
    config: TcpForwarderConfig,
    connections: Vec<(SocketAddr, SocketAddr)>,
    pending: Vec<IpAddr>,
    handled: u64,
    failed: u64,
    rejected: u64,
    bound_addr: Option<SocketAddr>,
}

/// A forwarder as a value.
pub ghost struct ForwarderView {
    pub connections: Seq<(SocketAddr, SocketAddr)>,
    pub pending: Seq<IpAddr>,
    pub handled: u64,
    pub failed: u64,
    pub rejected: u64,
    pub bound_addr: Option<SocketAddr>,
}

/// Whether an address has a connection.
pub open spec fn connected(connections: Seq<(SocketAddr, SocketAddr)>, ip: IpAddr) -> bool {
    exists|i: int| 0 <= i < connections.len() && (#[trigger] connections[i]).0.ip == ip
}

/// Connections without that of a peer.
pub open spec fn without_peer(
    connections: Seq<(SocketAddr, SocketAddr)>,
    peer: SocketAddr,
) -> Seq<(SocketAddr, SocketAddr)>
    decreases connections.len(),
{
    if connections.len() == 0 {
        connections
    } else {
        let rest = without_peer(connections.drop_last(), peer);
        if connections.last().0 == peer {
            rest
        } else {
            rest.push(connections.last())
        }
    }
}

/// Addresses without one of them.
pub open spec fn without_ip(pending: Seq<IpAddr>, ip: IpAddr) -> Seq<IpAddr>
    decreases pending.len(),
{
    if pending.len() == 0 {
        pending
    } else {
        let rest = without_ip(pending.drop_last(), ip);
        if pending.last() == ip {
            rest
        } else {
            rest.push(pending.last())
        }
    }
}

proof fn lemma_without_ip(pending: Seq<IpAddr>, ip: IpAddr)
    ensures
        forall|a: IpAddr| #[trigger]
            without_ip(pending, ip).contains(a) == (a != ip && pending.contains(a)),
    decreases pending.len(),
{
    if pending.len() > 0 {
        let head = pending.drop_last();
        let rest = without_ip(head, ip);
        lemma_without_ip(head, ip);
        assert forall|a: IpAddr| #[trigger] without_ip(pending, ip).contains(a) == (a != ip
            && pending.contains(a)) by {
            if pending.contains(a) {
                let k = choose|k: int| 0 <= k < pending.len() && pending[k] == a;
                if k < head.len() {
                    assert(head[k] == a);
                }
            }
            if head.contains(a) {
                let k = choose|k: int| 0 <= k < head.len() && head[k] == a;
                assert(pending[k] == a);
            }
            if pending.last() != ip {
                let out = rest.push(pending.last());
                if out.contains(a) {
                    let k = choose|k: int| 0 <= k < out.len() && out[k] == a;
                    if k < rest.len() {
                        assert(rest[k] == a);
                    }
                }
                if rest.contains(a) {
                    let k = choose|k: int| 0 <= k < rest.len() && rest[k] == a;
                    assert(out[k] == a);
                }
                assert(out[rest.len() as int] == pending.last());
            }
            assert(pending[pending.len() - 1] == pending.last());
        }
    }
}

proof fn lemma_without_peer(connections: Seq<(SocketAddr, SocketAddr)>, peer: SocketAddr)
    requires
        single(connections),
    ensures
        single(without_peer(connections, peer)),
        forall|c: (SocketAddr, SocketAddr)| #[trigger]
            without_peer(connections, peer).contains(c) == (c.0 != peer && connections.contains(c)),
    decreases connections.len(),
{
    if connections.len() > 0 {
        let head = connections.drop_last();
        let last = connections.last();
        let rest = without_peer(head, peer);
        assert(single(head)) by {
            assert forall|i: int, j: int| 0 <= i < j < head.len() implies (#[trigger] head[i]).0.ip
                != (#[trigger] head[j]).0.ip by {
                assert(connections[i] == head[i] && connections[j] == head[j]);
            }
        }
        lemma_without_peer(head, peer);
        let out = without_peer(connections, peer);
        assert(connections[connections.len() - 1] == last);
        assert forall|c: (SocketAddr, SocketAddr)| #[trigger] out.contains(c) == (c.0 != peer
            && connections.contains(c)) by {
            if connections.contains(c) {
                let k = choose|k: int| 0 <= k < connections.len() && connections[k] == c;
                if k < head.len() {
                    assert(head[k] == c);
                }
            }
            if head.contains(c) {
                let k = choose|k: int| 0 <= k < head.len() && head[k] == c;
                assert(connections[k] == c);
            }
            if last.0 != peer {
                if out.contains(c) {
                    let k = choose|k: int| 0 <= k < out.len() && out[k] == c;
                    if k < rest.len() {
                        assert(rest[k] == c);
                    }
                }
                if rest.contains(c) {
                    let k = choose|k: int| 0 <= k < rest.len() && rest[k] == c;
                    assert(out[k] == c);
                }
                assert(out[rest.len() as int] == last);
            }
        }
        assert forall|i: int, j: int| 0 <= i < j < out.len() implies (#[trigger] out[i]).0.ip != (
        #[trigger] out[j]).0.ip by {
            if last.0 != peer && j == rest.len() {
                assert(rest[i] == out[i]);
                assert(rest.contains(out[i]));
                let k = choose|k: int| 0 <= k < head.len() && head[k] == out[i];
                assert(connections[k] == out[i]);
            } else {
                assert(rest[i] == out[i] && rest[j] == out[j]);
            }
        }
    }
}

/// Whether no address has two connections.
pub open spec fn single(connections: Seq<(SocketAddr, SocketAddr)>) -> bool {
    forall|i: int, j: int|
        0 <= i < j < connections.len() ==> (#[trigger] connections[i]).0.ip != (
        #[trigger] connections[j]).0.ip
}

impl ForwarderView {
    /// Whether no address has two connections, established or under way.
    pub open spec fn exclusive(self) -> bool {
        &&& single(self.connections)
        &&& forall|ip: IpAddr| #[trigger]
            self.pending.contains(ip) ==> !connected(self.connections, ip)
    }

    /// Whether a new connection of an address is served: it has none, and none is under way.
    pub open spec fn serves(self, ip: IpAddr) -> bool {
        !connected(self.connections, ip) && !self.pending.contains(ip)
    }
}

/// A count with one more.
pub open spec fn one_more(n: u64) -> u64 {
    n.wrapping_add(1)
}

impl TcpForwarder {
    /// The forwarder as a value.
    pub closed spec fn view(&self) -> ForwarderView {
        ForwarderView {
            connections: self.connections@,
            pending: self.pending@,
            handled: self.handled,
            failed: self.failed,
            rejected: self.rejected,
            bound_addr: self.bound_addr,
        }
    }

    /// The settings.
    pub closed spec fn settings(&self) -> TcpForwarderConfig {
        self.config
    }

    /// The settings.
    pub fn config(&self) -> (c: &TcpForwarderConfig)
        ensures
            *c == self.settings(),
    {
        &self.config
    }

    /// A forwarder without connections.
    pub fn new(config: TcpForwarderConfig) -> (f: Self)
        ensures
            f.settings() == config,
            f@ == (ForwarderView {
                connections: Seq::empty(),
                pending: Seq::empty(),
                handled: 0,
                failed: 0,
                rejected: 0,
                bound_addr: None,
            }),
            f@.exclusive(),
    {
        let f = TcpForwarder {
            config,
            connections: Vec::new(),
            pending: Vec::new(),
            handled: 0,
            failed: 0,
            rejected: 0,
            bound_addr: None,
        };
        assert(f@.connections =~= Seq::empty());
        assert(f@.pending =~= Seq::empty());
        f
    }

    /// Notes where the forwarder listens.
    pub fn set_local_addr(&mut self, addr: SocketAddr)
        ensures
            final(self)@ == (ForwarderView { bound_addr: Some(addr), ..old(self)@ }),
            final(self).settings() == old(self).settings(),
    {
        self.bound_addr = Some(addr);
    }

    /// Where the forwarder listens.
    pub fn local_addr(&self) -> (r: Option<SocketAddr>)
        ensures
            r == self@.bound_addr,
    {
        self.bound_addr
    }

    /// Sets an address aside for a connection, unless it has one or is being connected.
    pub fn reserve_connection(&mut self, ip: IpAddr) -> (reserved: bool)
        requires
            old(self)@.exclusive(),
        ensures
            reserved == old(self)@.serves(ip),
            final(self)@ == (ForwarderView {
                pending: if reserved {
                    old(self)@.pending.push(ip)
                } else {
                    old(self)@.pending
                },
                ..old(self)@
            }),
            final(self)@.exclusive(),
            final(self).settings() == old(self).settings(),
    {
        let mut i: usize = 0;
        while i < self.connections.len()
            invariant
                i <= self.connections.len(),
                self@ == old(self)@,
                self@.exclusive(),
                forall|k: int| 0 <= k < i ==> (#[trigger] self.connections@[k]).0.ip != ip,
            decreases self.connections.len() - i,
        {
            if self.connections[i].0.ip == ip {
                assert(connected(self@.connections, ip));
                return false;
            }
            i += 1;
        }
        let mut j: usize = 0;
        while j < self.pending.len()
            invariant
                j <= self.pending.len(),
                self@ == old(self)@,
                self@.exclusive(),
                forall|k: int| 0 <= k < j ==> #[trigger] self.pending@[k] != ip,
            decreases self.pending.len() - j,
        {
            if self.pending[j] == ip {
                assert(self@.pending.contains(ip));
                return false;
            }
            j += 1;
        }
        let ghost before = self.pending@;
        self.pending.push(ip);
        proof {
            assert(!connected(self@.connections, ip));
            assert forall|a: IpAddr| #[trigger] self@.pending.contains(a) implies !connected(
                self@.connections,
                a,
            ) by {
                let k = choose|k: int| 0 <= k < self@.pending.len() && self@.pending[k] == a;
                if k < before.len() {
                    assert(before[k] == a);
                    assert(before.contains(a));
                }
            }
        }
        true
    }

    /// Gives up an address that was set aside.
    pub fn release_connection(&mut self, ip: IpAddr)
        requires
            old(self)@.exclusive(),
        ensures
            final(self)@ == (ForwarderView {
                pending: without_ip(old(self)@.pending, ip),
                ..old(self)@
            }),
            final(self)@.exclusive(),
            final(self).settings() == old(self).settings(),
    {
        let mut kept: Vec<IpAddr> = Vec::new();
        let mut i: usize = 0;
        let ghost all = self.pending@;
        assert(all.take(0) =~= Seq::empty());
        while i < self.pending.len()
            invariant
                i <= self.pending.len(),
                all == self.pending@,
                kept@ == without_ip(all.take(i as int), ip),
            decreases self.pending.len() - i,
        {
            assert(all.take(i + 1).drop_last() =~= all.take(i as int));
            if self.pending[i] != ip {
                kept.push(self.pending[i]);
            }
            i += 1;
        }
        assert(all.take(i as int) =~= all);
        self.pending = kept;
        proof {
            lemma_without_ip(all, ip);
        }
    }

    /// Takes a connection of a peer whose address is known: whether it is to be served. Anything
    /// else is turned away.
    pub fn on_accept(&mut self, peer: Option<SocketAddr>) -> (serve: bool)
        requires
            old(self)@.exclusive(),
        ensures
            serve == (peer matches Some(p) && old(self)@.serves(p.ip)),
            final(self)@ == (if serve {
                ForwarderView {
                    pending: old(self)@.pending.push(peer->0.ip),
                    handled: one_more(old(self)@.handled),
                    ..old(self)@
                }
            } else {
                ForwarderView { rejected: one_more(old(self)@.rejected), ..old(self)@ }
            }),
            final(self)@.exclusive(),
            final(self).settings() == old(self).settings(),
    {
        let serve = match peer {
            Some(p) => self.reserve_connection(p.ip),
            None => false,
        };
        let ghost mid = self@;
        if serve {
            self.handled = self.handled.wrapping_add(1);
        } else {
            self.rejected = self.rejected.wrapping_add(1);
        }
        assert(self@.connections == mid.connections);
        assert(self@.pending == mid.pending);
        serve
    }

    /// Notes how connecting to the downloader ended for a peer that is served: the local address
    /// that the downloader sees, or none. Whether bytes are to be passed on.
    pub fn on_connected(&mut self, peer: SocketAddr, local: Option<SocketAddr>) -> (relay: bool)
        requires
            old(self)@.exclusive(),
            old(self)@.pending.contains(peer.ip),
        ensures
            relay == (local is Some),
            final(self)@ == (if relay {
                ForwarderView {
                    connections: old(self)@.connections.push((peer, local->0)),
                    pending: without_ip(old(self)@.pending, peer.ip),
                    ..old(self)@
                }
            } else {
                ForwarderView {
                    pending: without_ip(old(self)@.pending, peer.ip),
                    failed: one_more(old(self)@.failed),
                    ..old(self)@
                }
            }),
            final(self)@.exclusive(),
            final(self).settings() == old(self).settings(),
    {
        self.release_connection(peer.ip);
        let ghost before = self@.connections;
        proof {
            lemma_without_ip(old(self)@.pending, peer.ip);
            assert(!connected(before, peer.ip));
        }
        match local {
            Some(addr) => {
                self.connections.push((peer, addr));
                proof {
                    let now = self@.connections;
                    assert forall|i: int, j: int| 0 <= i < j < now.len() implies (
                    #[trigger] now[i]).0.ip != (#[trigger] now[j]).0.ip by {
                        assert(now[i] == before[i]);
                        if j < before.len() {
                            assert(now[j] == before[j]);
                        }
                    }
                    assert forall|a: IpAddr| #[trigger] self@.pending.contains(a) implies !connected(
                        now,
                        a,
                    ) by {
                        assert(a != peer.ip);
                        assert(!connected(before, a));
                        if connected(now, a) {
                            let k = choose|k: int| 0 <= k < now.len() && (#[trigger] now[k]).0.ip == a;
                            if k < before.len() {
                                assert(before[k].0.ip == a);
                            }
                        }
                    }
                }
                true
            },
            None => {
                self.failed = self.failed.wrapping_add(1);
                false
            },
        }
    }

    /// Notes that a peer's connection ended.
    pub fn on_closed(&mut self, peer: SocketAddr)
        requires
            old(self)@.exclusive(),
        ensures
            final(self)@ == (ForwarderView {
                connections: without_peer(old(self)@.connections, peer),
                ..old(self)@
            }),
            final(self)@.exclusive(),
            final(self).settings() == old(self).settings(),
    {
        let mut kept: Vec<(SocketAddr, SocketAddr)> = Vec::new();
        let mut i: usize = 0;
        let ghost all = self.connections@;
        assert(all.take(0) =~= Seq::empty());
        while i < self.connections.len()
            invariant
                i <= self.connections.len(),
                all == self.connections@,
                kept@ == without_peer(all.take(i as int), peer),
            decreases self.connections.len() - i,
        {
            assert(all.take(i + 1).drop_last() =~= all.take(i as int));
            if self.connections[i].0 != peer {
                kept.push(self.connections[i]);
            }
            i += 1;
        }
        assert(all.take(i as int) =~= all);
        self.connections = kept;
        proof {
            lemma_without_peer(all, peer);
            assert forall|a: IpAddr| #[trigger] self@.pending.contains(a) implies !connected(
                self@.connections,
                a,
            ) by {
                if connected(self@.connections, a) {
                    let k = choose|k: int|
                        0 <= k < self@.connections.len() && (#[trigger] self@.connections[k]).0.ip
                            == a;
                    let c = self@.connections[k];
                    assert(self@.connections.contains(c));
                    assert(all.contains(c));
                    let m = choose|m: int| 0 <= m < all.len() && all[m] == c;
                    assert(all[m].0.ip == a);
                    assert(connected(all, a));
                }
            }
        }
    }

    /// The peer behind a local address that the downloader sees.
    pub fn translate(&self, natted: SocketAddr) -> (r: Option<SocketAddr>)
        ensures
            match r {
                Some(peer) => self@.connections.contains((peer, natted)),
                None => forall|i: int|
                    0 <= i < self@.connections.len() ==> (#[trigger] self@.connections[i]).1
                        != natted,
            },
    {
        let mut i: usize = 0;
        while i < self.connections.len()
            invariant
                i <= self.connections.len(),
                forall|k: int| 0 <= k < i ==> (#[trigger] self.connections@[k]).1 != natted,
            decreases self.connections.len() - i,
        {
            let (peer, local) = self.connections[i];
            if local == natted {
                assert(self@.connections[i as int] == (peer, natted));
                return Some(peer);
            }
            i += 1;
        }
        None
    }

    /// How many connections there are.
    pub fn established_connections(&self) -> (n: usize)
        ensures
            n == self@.connections.len(),
    {
        self.connections.len()
    }

    /// How many connections were served.
    pub fn connection_handled(&self) -> (n: u64)
        ensures
            n == self@.handled,
    {
        self.handled
    }

    /// How many connections did not reach the downloader.
    pub fn connection_failed(&self) -> (n: u64)
        ensures
            n == self@.failed,
    {
        self.failed
    }

    /// How many connections were turned away.
    pub fn connection_rejected(&self) -> (n: u64)
        ensures
            n == self@.rejected,
    {
        self.rejected
    }
}

/// While an address has a connection, or is being connected, no other of it is served; other
/// addresses are served as before.
pub proof fn second_connection_is_turned_away(f: ForwarderView, peer: SocketAddr, local: SocketAddr)
    ensures
        ({
            let established = ForwarderView { connections: f.connections.push((peer, local)), ..f };
            let under_way = ForwarderView { pending: f.pending.push(peer.ip), ..f };
            &&& !established.serves(peer.ip)
            &&& !under_way.serves(peer.ip)
            &&& forall|ip: IpAddr|
                ip != peer.ip ==> #[trigger] established.serves(ip) == f.serves(ip)
            &&& forall|ip: IpAddr| ip != peer.ip ==> #[trigger] under_way.serves(ip) == f.serves(ip)
        }),
{
    let c = f.connections.push((peer, local));
    let p = f.pending.push(peer.ip);
    assert(c[f.connections.len() as int].0.ip == peer.ip);
    assert(p[f.pending.len() as int] == peer.ip);
    assert forall|ip: IpAddr| ip != peer.ip implies #[trigger] connected(c, ip) == connected(
        f.connections,
        ip,
    ) by {
        if connected(c, ip) {
            let k = choose|k: int| 0 <= k < c.len() && (#[trigger] c[k]).0.ip == ip;
            assert(f.connections[k] == c[k]);
        }
        if connected(f.connections, ip) {
            let k = choose|k: int|
                0 <= k < f.connections.len() && (#[trigger] f.connections[k]).0.ip == ip;
            assert(c[k] == f.connections[k]);
        }
    }
    assert forall|ip: IpAddr| ip != peer.ip implies #[trigger] p.contains(ip) == f.pending.contains(
        ip,
    ) by {
        if p.contains(ip) {
            let k = choose|k: int| 0 <= k < p.len() && p[k] == ip;
            assert(f.pending[k] == ip);
        }
        if f.pending.contains(ip) {
            let k = choose|k: int| 0 <= k < f.pending.len() && f.pending[k] == ip;
            assert(p[k] == ip);
        }
    }
}

/// The peer of a new connection, and no other, is found behind the local address that the
/// downloader sees, if that address is not in use.
pub proof fn connected_peer_is_found_again(f: ForwarderView, peer: SocketAddr, local: SocketAddr)
    requires
        forall|i: int| 0 <= i < f.connections.len() ==> (#[trigger] f.connections[i]).1 != local,
    ensures
        forall|found: SocketAddr| #[trigger]
            f.connections.push((peer, local)).contains((found, local)) == (found == peer),
{
    let c = f.connections.push((peer, local));
    assert(c[f.connections.len() as int] == (peer, local));
    assert forall|found: SocketAddr| #[trigger] c.contains((found, local)) implies found == peer by {
        let k = choose|k: int| 0 <= k < c.len() && c[k] == (found, local);
        if k < f.connections.len() {
            assert(f.connections[k] == c[k]);
        }
    }
}

/// Once a connection has ended its address may connect again.
pub proof fn closed_connection_frees_its_address(f: ForwarderView, peer: SocketAddr)
    requires
        f.exclusive(),
        exists|local: SocketAddr| f.connections.contains((peer, local)),
    ensures
        (ForwarderView { connections: without_peer(f.connections, peer), ..f }).serves(peer.ip),
{
    lemma_without_peer(f.connections, peer);
    let local = choose|local: SocketAddr| f.connections.contains((peer, local));
    let i = choose|i: int| 0 <= i < f.connections.len() && f.connections[i] == (peer, local);
    assert(connected(f.connections, peer.ip));
    let out = without_peer(f.connections, peer);
    if connected(out, peer.ip) {
        let k = choose|k: int| 0 <= k < out.len() && (#[trigger] out[k]).0.ip == peer.ip;
        assert(out.contains(out[k]));
        let m = choose|m: int| 0 <= m < f.connections.len() && f.connections[m] == out[k];
        assert(f.connections[m].0 != peer);
        assert(f.connections[i].0.ip == f.connections[m].0.ip);
    }
}

/// The loopback address that stands for an IPv4 address: its last three octets behind 127.
pub open spec fn friendly_address(v: u32) -> u32 {
    (127 * 0x100_0000 + v as int % 0x100_0000) as u32
}

/// Whether an address is one of the own host.
pub open spec fn is_loopback(ip: IpAddr) -> bool {
    match ip {
        IpAddr::V4(v) => v as int / 0x100_0000 == 127,
        IpAddr::V6(v) => v == 1,
    }
}

/// The local addresses to try for the connection to a downloader, in order, before one is left to
/// the system: a downloader on the own host sees a loopback address that tells the peers apart,
/// with the peer's port if it is free.
pub open spec fn friendly_binds(
    use_friendly: bool,
    upstream: SocketAddr,
    downstream: SocketAddr,
) -> Seq<SocketAddr> {
    if use_friendly && is_loopback(upstream.ip) && downstream.ip is V4 {
        let ip = IpAddr::V4(friendly_address(downstream.ip->V4_0));
        seq![SocketAddr { ip, port: downstream.port }, SocketAddr { ip, port: 0 }]
    } else {
        Seq::empty()
    }
}

/// The local addresses to try for the connection to a downloader, in order.
pub fn friendly_bind_addresses(use_friendly: bool, upstream: SocketAddr, downstream: SocketAddr) -> (v:
    Vec<SocketAddr>)
    ensures
        v@ == friendly_binds(use_friendly, upstream, downstream),
{
    let mut v: Vec<SocketAddr> = Vec::new();
    let own = match upstream.ip {
        IpAddr::V4(a) => a / 0x100_0000 == 127,
        IpAddr::V6(a) => a == 1,
    };
    if use_friendly && own {
        if let IpAddr::V4(a) = downstream.ip {
            let ip = IpAddr::V4(0x7F00_0000 + a % 0x100_0000);
            v.push(SocketAddr { ip, port: downstream.port });
            v.push(SocketAddr { ip, port: 0 });
        }
    }
    assert(v@ =~= friendly_binds(use_friendly, upstream, downstream));
    v
}

// ------------------------------------------------------------------------ hosts
/// A host without the white space and the brackets round it.
pub open spec fn host_literal(host: Seq<char>) -> Seq<char> {
    let t = trim_of(host);
    if t.len() >= 2 && t[0] == '[' && t.last() == ']' {
        t.subrange(1, t.len() - 1)
    } else {
        t
    }
}

/// The endpoint of a host that is written as an address.
pub open spec fn literal_endpoint(host: Seq<char>, port: u16) -> Option<SocketAddr> {
    match ip_of_text(host_literal(host)) {
        Some(ip) => Some(SocketAddr { ip, port }),
        None => None,
    }
}

/// The endpoint of a host that is written as an address.
pub fn resolve_literal(host: &str, port: u16) -> (r: Option<SocketAddr>)
    ensures
        r == literal_endpoint(host@, port),
{
    let chars = chars_of(host);
    let t = trim_chars(chars.as_slice());
    let n = t.len();
    let literal = if n >= 2 && t[0] == '[' && t[n - 1] == ']' {
        substring_of(t.as_slice(), 1, n - 1)
    } else {
        string_of(t.as_slice())
    };
    assert(literal@ =~= host_literal(host@));
    match read_ip(literal.as_str()) {
        Some(ip) => Some(SocketAddr { ip, port }),
        None => None,
    }
}

/// Whether an IPv4 address has no host part, by the class of its network.
pub open spec fn zero_host_v4(v: u32) -> bool {
    let first = v as int / 0x100_0000;
    if first < 128 {
        v as int % 0x100_0000 == 0
    } else if first < 192 {
        v as int % 0x1_0000 == 0
    } else if first < 224 {
        v as int % 0x100 == 0
    } else {
        false
    }
}

/// Whether an IPv4 address has no host part, by the class of its network.
pub fn is_zero_host_v4(v: u32) -> (yes: bool)
    ensures
        yes == zero_host_v4(v),
{
    let first = v / 0x100_0000;
    if first < 128 {
        v % 0x100_0000 == 0
    } else if first < 192 {
        v % 0x1_0000 == 0
    } else if first < 224 {
        v % 0x100 == 0
    } else {
        false
    }
}

/// Whether an IPv4 address is one of the public net: not of the own host, unspecified, of the link,
/// multicast, private, or without a host part.
pub open spec fn public_v4(v: u32) -> bool {
    let first = v as int / 0x100_0000;
    let second = v as int / 0x1_0000 % 0x100;
    !(first == 127 || v == 0 || (first == 169 && second == 254) || 224 <= first < 240 || first == 10
        || (first == 172 && 16 <= second < 32) || (first == 192 && second == 168) || zero_host_v4(
        v,
    ))
}

/// Whether an IPv4 address is one of the public net.
pub fn is_public_v4(v: u32) -> (yes: bool)
    ensures
        yes == public_v4(v),
{
    let first = v / 0x100_0000;
    let second = v / 0x1_0000 % 0x100;
    !(first == 127 || v == 0 || (first == 169 && second == 254) || (first >= 224 && first < 240)
        || first == 10 || (first == 172 && second >= 16 && second < 32) || (first == 192 && second
        == 168) || is_zero_host_v4(v))
}

/// Whether an IPv6 address is one of the public net: not of the own host, unspecified, multicast,
/// unique local, of the link, or without a host part.
pub open spec fn public_v6(v: u128) -> bool {
    let first = v as int / 0x100_0000_0000_0000_0000_0000_0000_0000;
    let ten = v as int / 0x40_0000_0000_0000_0000_0000_0000_0000;
    !(v == 1 || v == 0 || first == 0xFF || first == 0xFC || first == 0xFD || ten == 0x3FA || v as int
        % 0x1_0000_0000_0000_0000 == 0)
}

/// Whether an IPv6 address is one of the public net.
pub fn is_public_v6(v: u128) -> (yes: bool)
    ensures
        yes == public_v6(v),
{
    let first = v / 0x100_0000_0000_0000_0000_0000_0000_0000;
    let ten = v / 0x40_0000_0000_0000_0000_0000_0000_0000;
    !(v == 1 || v == 0 || first == 0xFF || first == 0xFC || first == 0xFD || ten == 0x3FA || v
        % 0x1_0000_0000_0000_0000 == 0)
}

/// Whether an address is one of the public net.
pub open spec fn is_public(ip: IpAddr) -> bool {
    match ip {
        IpAddr::V4(v) => public_v4(v),
        IpAddr::V6(v) => public_v6(v),
    }
}

/// Whether a downloader may be at a host, given the address that is found for it, if any.
pub open spec fn host_allowed(found: Option<IpAddr>, allow_public: bool) -> bool {
    allow_public || found is None || !is_public(found->0)
}

/// Whether a downloader may be at a host: not in the public net, unless that is allowed. A host
/// that is no address is looked up; one that is not found is let be.
pub fn downloader_host_allowed<L: Fn(&String) -> Option<IpAddr>>(
    host: &String,
    allow_public: bool,
    lookup: &L,
) -> (yes: bool)
    requires
        forall|h: &String| lookup.requires((h,)),
    ensures
        allow_public ==> yes,
        !allow_public && literal_endpoint(host@, 0) is Some ==> yes == !is_public(
            literal_endpoint(host@, 0)->0.ip,
        ),
        !allow_public && literal_endpoint(host@, 0) is None ==> exists|found: Option<IpAddr>|
            #[trigger] lookup.ensures((host,), found) && yes == host_allowed(found, false),
{
    if allow_public {
        return true;
    }
    let found = match resolve_literal(host.as_str(), 0) {
        Some(addr) => Some(addr.ip),
        None => lookup(host),
    };
    match found {
        None => true,
        Some(IpAddr::V4(v)) => !is_public_v4(v),
        Some(IpAddr::V6(v)) => !is_public_v6(v),
    }
}

// ------------------------------------------------------------------------- test
/// Whether bytes hold `204` from a position on.
pub open spec fn has_204(b: Seq<u8>) -> bool {
    exists|i: int| 0 <= i && i + 2 < b.len() && #[trigger] is_204_at(b, i)
}

/// Whether bytes spell `204` at a position.
pub open spec fn is_204_at(b: Seq<u8>, i: int) -> bool {
    b[i] == 50 && b[i + 1] == 48 && b[i + 2] == 52
}

/// Whether what was read of a reply shows that a mapping works.
pub fn mapping_test_passed(read: &[u8]) -> (yes: bool)
    ensures
        yes == has_204(read@),
{
    let n = read.len();
    let mut i: usize = 0;
    while i < n && n - i > 2
        invariant
            n == read.len(),
            i <= n,
            forall|k: int| 0 <= k < i ==> !#[trigger] is_204_at(read@, k),
        decreases n - i,
    {
        if read[i] == 50 && read[i + 1] == 48 && read[i + 2] == 52 {
            assert(is_204_at(read@, i as int));
            return true;
        }
        i += 1;
    }
    false
}

/// The request that tests a mapping.
pub open spec fn mapping_test_text(ip: IpAddr) -> Seq<char> {
    "GET /test HTTP/1.1\r\nHost: "@ + ip_text(ip) + "\r\nConnection: close\r\n\r\n"@
}

/// The request that tests a mapping.
pub fn mapping_test_request(ip: &IpAddr) -> (out: String)
    ensures
        out@ == mapping_test_text(*ip),
{
    let host = ip_to_string(ip);
    concat3("GET /test HTTP/1.1\r\nHost: ", host.as_str(), "\r\nConnection: close\r\n\r\n")
}

// ---------------------------------------------------------------------- tunnels
/// Settings of a tunnel; times are in milliseconds.
#[derive(Debug)]
pub struct TunnelConfig {
    pub local_port: u16,
    pub available_test: bool,
    pub ipv6_support: bool,
    pub keep_alive_test_host: String,
    pub keep_alive_test_port: u16,
    pub keep_alive_initial_delay: u64,
    pub keep_alive_interval: u64,
    pub max_keep_alive_failures: u32,
    pub use_friendly_loopback: bool,
    pub allow_public_downloader_host: bool,
    pub timeout: u64,
}

impl Default for TunnelConfig {
    fn default() -> (c: Self)
        ensures
            c.local_port == 0,
            c.available_test,
            c.ipv6_support,
            c.keep_alive_test_host@ == DEFAULT_KEEP_ALIVE_TEST_HOST@,
            c.keep_alive_test_port == DEFAULT_KEEP_ALIVE_TEST_PORT,
            c.keep_alive_initial_delay == KEEP_ALIVE_INITIAL_DELAY,
            c.keep_alive_interval == KEEP_ALIVE_INTERVAL,
            c.max_keep_alive_failures == DEFAULT_MAX_KEEP_ALIVE_FAILURES,
            c.use_friendly_loopback,
            !c.allow_public_downloader_host,
            c.timeout == DEFAULT_STUN_TIMEOUT,
    {
        TunnelConfig {
            local_port: 0,
            available_test: DEFAULT_AVAILABLE_TEST,
            ipv6_support: DEFAULT_IPV6_SUPPORT,
            keep_alive_test_host: DEFAULT_KEEP_ALIVE_TEST_HOST.to_string(),
            keep_alive_test_port: DEFAULT_KEEP_ALIVE_TEST_PORT,
            keep_alive_initial_delay: KEEP_ALIVE_INITIAL_DELAY,
            keep_alive_interval: KEEP_ALIVE_INTERVAL,
            max_keep_alive_failures: DEFAULT_MAX_KEEP_ALIVE_FAILURES,
            use_friendly_loopback: DEFAULT_USE_FRIENDLY_ADDRESS_FOR_LOOPBACK,
            allow_public_downloader_host: DEFAULT_ALLOW_PUBLIC_IP_AS_DOWNLOADER_HOST,
            timeout: DEFAULT_STUN_TIMEOUT,
        }
    }
}

/// A tunnel: its two endpoints, its forwarder, which is started, and how its mapping is kept open.
#[derive(Debug)]
pub struct StunTcpTunnel {
    pub inter: SocketAddr,
    pub outer: SocketAddr,
    pub forwarder: TcpForwarder,
    pub keep_alive_config: KeepAliveConfig,
    pub keep_alive: NatKeepAlive,
    pub started_at_ms: u64,
    pub open: bool,
}

/// Whether a forwarder is set up for the endpoints of a tunnel: it listens at the local port and
/// passes on to the downloader's host at the public port.
pub open spec fn forwards(
    f: TcpForwarderConfig,
    inter: SocketAddr,
    outer: SocketAddr,
    downloader_host: Seq<char>,
    config: TunnelConfig,
) -> bool {
    &&& f.proxy_host@ == (if config.ipv6_support {
        "[::]"@
    } else {
        "0.0.0.0"@
    })
    &&& f.proxy_port == inter.port
    &&& f.upstream_host@ == downloader_host
    &&& f.upstream_port == outer.port
    &&& f.use_friendly_loopback == config.use_friendly_loopback
    &&& f.connect_timeout == config.timeout
}

/// Whether the packets of a tunnel are sent from its local endpoint.
pub open spec fn keeps_open(k: KeepAliveConfig, inter: SocketAddr, config: TunnelConfig) -> bool {
    &&& k.bind_host@ == ip_text(inter.ip)
    &&& k.bind_port == inter.port
    &&& k.test_host@ == config.keep_alive_test_host@
    &&& k.test_port == config.keep_alive_test_port
    &&& k.initial_delay == config.keep_alive_initial_delay
    &&& k.interval == config.keep_alive_interval
    &&& k.max_consecutive_failures == config.max_keep_alive_failures
    &&& k.connect_timeout == KEEP_ALIVE_CONNECT_TIMEOUT
    &&& k.read_timeout == KEEP_ALIVE_CONNECT_TIMEOUT
}

impl StunTcpTunnel {
    /// Whether a tunnel is one just made between two endpoints.
    pub open spec fn made(
        self,
        inter: SocketAddr,
        outer: SocketAddr,
        downloader_host: Seq<char>,
        config: TunnelConfig,
        started_at_ms: u64,
    ) -> bool {
        &&& self.inter == inter
        &&& self.outer == outer
        &&& forwards(self.forwarder.settings(), inter, outer, downloader_host, config)
        &&& self.forwarder@.connections.len() == 0
        &&& self.forwarder@.pending.len() == 0
        &&& self.forwarder@.handled == 0
        &&& self.forwarder@.failed == 0
        &&& self.forwarder@.rejected == 0
        &&& self.forwarder@.exclusive()
        &&& keeps_open(self.keep_alive_config, inter, config)
        &&& self.keep_alive == (NatKeepAlive {
            valid: true,
            last_success_ms: 0,
            consecutive_failures: 0,
            max_consecutive_failures: config.max_keep_alive_failures,
        })
        &&& self.started_at_ms == started_at_ms
        &&& self.open
    }

    /// Whether the tunnel is open and its mapping is taken to be.
    pub fn is_valid(&self) -> (yes: bool)
        ensures
            yes == (self.open && self.keep_alive.valid),
    {
        self.open && self.keep_alive.is_valid()
    }

    /// When the tunnel was made.
    pub fn started_at(&self) -> (ms: u64)
        ensures
            ms == self.started_at_ms,
    {
        self.started_at_ms
    }

    /// When a packet last went well; zero if none did.
    pub fn last_success_heartbeat_at(&self) -> (ms: u64)
        ensures
            ms == self.keep_alive.last_success_ms,
    {
        self.keep_alive.last_success_heartbeat_at()
    }

    /// The peer behind a local address that the downloader sees.
    pub fn translate(&self, natted: SocketAddr) -> (r: Option<SocketAddr>)
        ensures
            match r {
                Some(peer) => self.forwarder@.connections.contains((peer, natted)),
                None => forall|i: int|
                    0 <= i < self.forwarder@.connections.len() ==> (
                    #[trigger] self.forwarder@.connections[i]).1 != natted,
            },
    {
        self.forwarder.translate(natted)
    }

    /// Closes the tunnel.
    pub fn close(&mut self)
        ensures
            *final(self) == (StunTcpTunnel { open: false, ..*old(self) }),
    {
        self.open = false;
    }
}

/// The local port of a tunnel: that of the settings, or one that is free.
pub open spec fn tunnel_port_of(config: TunnelConfig, free_port: u16) -> u16 {
    if config.local_port == 0 {
        free_port
    } else {
        config.local_port
    }
}

/// The local port of a tunnel: that of the settings, or one that is free.
pub fn tunnel_port(config: &TunnelConfig, free_port: u16) -> (port: u16)
    ensures
        port == tunnel_port_of(*config, free_port),
{
    if config.local_port == 0 {
        free_port
    } else {
        config.local_port
    }
}

/// Whether a tunnel may come of a mapping: it has to pass the test where there is one, the
/// downloader's host has to be allowed, and the forwarder has to start.
pub open spec fn tunnel_of<
    T: Fn(&StunMapping, u64) -> Result<bool, String>,
    L: Fn(&String) -> Option<IpAddr>,
    S: Fn(&TcpForwarderConfig) -> Result<SocketAddr, String>,
>(
    mapping: StunMapping,
    downloader_host: String,
    config: TunnelConfig,
    started_at_ms: u64,
    test: T,
    lookup: L,
    start: S,
    r: Result<Option<StunTcpTunnel>, String>,
) -> bool {
    exists|tested: Result<bool, String>, found: Option<IpAddr>|
        {
            &&& config.available_test ==> test.ensures((&mapping, config.timeout), tested)
            &&& !config.available_test ==> tested == Ok::<bool, String>(true)
            &&& literal_endpoint(downloader_host@, 0) is Some ==> found == Some(
                literal_endpoint(downloader_host@, 0)->0.ip,
            )
            &&& (tested == Ok::<bool, String>(true) && !config.allow_public_downloader_host
                && literal_endpoint(downloader_host@, 0) is None) ==> lookup.ensures(
                (&downloader_host,),
                found,
            )
            &&& #[trigger] tunnel_step(
                mapping,
                downloader_host@,
                config,
                started_at_ms,
                tested,
                found,
                start,
                r,
            )
        }
}

/// Whether `r` is what a mapping comes to, given how its test ended and which address was found for
/// the downloader's host.
pub open spec fn tunnel_step<S: Fn(&TcpForwarderConfig) -> Result<SocketAddr, String>>(
    mapping: StunMapping,
    downloader_host: Seq<char>,
    config: TunnelConfig,
    started_at_ms: u64,
    tested: Result<bool, String>,
    found: Option<IpAddr>,
    start: S,
    r: Result<Option<StunTcpTunnel>, String>,
) -> bool {
    match tested {
        Err(e) => r == Err::<Option<StunTcpTunnel>, String>(e),
        Ok(passed) => if !passed || !host_allowed(found, config.allow_public_downloader_host) {
            r matches Ok(None)
        } else {
            exists|f: TcpForwarderConfig, started: Result<SocketAddr, String>|
                {
                    &&& forwards(f, mapping.inter, mapping.outer, downloader_host, config)
                    &&& #[trigger] start.ensures((&f,), started)
                    &&& match started {
                        Err(e) => r == Err::<Option<StunTcpTunnel>, String>(e),
                        Ok(bound) => {
                            &&& r matches Ok(Some(tunnel))
                            &&& tunnel.made(
                                mapping.inter,
                                mapping.outer,
                                downloader_host,
                                config,
                                started_at_ms,
                            )
                            &&& tunnel.forwarder@.bound_addr == Some(bound)
                        },
                    }
                }
        },
    }
}

/// Makes a tunnel to a downloader: the mapping of the tunnel's local port from the first server that
/// answers, its test, the check of the downloader's host, and the forwarder. `None` where a tunnel
/// does not apply. `free_port` is a local port to take where the settings name none. `exchange` asks
/// a server, `test` tests a mapping, `lookup` looks a host up, and `start` starts a forwarder and
/// tells where it listens.
pub fn create_tunnel<
    X: Fn(&String, u16, &String, u16, u64) -> Option<StunMapping>,
    T: Fn(&StunMapping, u64) -> Result<bool, String>,
    L: Fn(&String) -> Option<IpAddr>,
    S: Fn(&TcpForwarderConfig) -> Result<SocketAddr, String>,
>(
    stun_servers: &Vec<String>,
    downloader_host: &String,
    config: &TunnelConfig,
    free_port: u16,
    started_at_ms: u64,
    exchange: &X,
    test: &T,
    lookup: &L,
    start: &S,
) -> (r: Result<Option<StunTcpTunnel>, String>)
    requires
        exchanges(*exchange),
        forall|m: &StunMapping, timeout: u64| test.requires((m, timeout)),
        forall|h: &String| lookup.requires((h,)),
        forall|f: &TcpForwarderConfig| start.requires((f,)),
    ensures
        stun_servers@.len() == 0 ==> (r matches Err(e) && e@ == "STUN server list cannot be empty"@),
        stun_servers@.len() > 0 ==> exists|mapping: Option<StunMapping>|
            {
                &&& #[trigger] first_answer(
                    *exchange,
                    stun_servers@,
                    "0.0.0.0"@,
                    tunnel_port_of(*config, free_port),
                    config.timeout,
                    mapping,
                )
                &&& match mapping {
                    None => r matches Err(e) && e@ == "No available STUN server"@,
                    Some(m) => tunnel_of(
                        m,
                        *downloader_host,
                        *config,
                        started_at_ms,
                        *test,
                        *lookup,
                        *start,
                        r,
                    ),
                }
            },
{
    let client = match TcpStunClient::new(
        clone_texts(stun_servers),
        "0.0.0.0".to_string(),
        tunnel_port(config, free_port),
    ) {
        Some(client) => client,
        None => return Err("STUN server list cannot be empty".to_string()),
    };
    let mapping = client.get_mapping(config.timeout, exchange);
    assert(first_answer(
        *exchange,
        stun_servers@,
        "0.0.0.0"@,
        tunnel_port_of(*config, free_port),
        config.timeout,
        mapping,
    ));
    let mapping = match mapping {
        Some(mapping) => mapping,
        None => return Err("No available STUN server".to_string()),
    };
    let tested = if config.available_test {
        test(&mapping, config.timeout)
    } else {
        Ok(true)
    };
    let ghost tested_ = tested;
    let passed = match tested {
        Ok(passed) => passed,
        Err(e) => {
            proof {
                let found = match literal_endpoint(downloader_host@, 0) {
                    Some(addr) => Some(addr.ip),
                    None => None,
                };
                assert(tunnel_step(
                    mapping,
                    downloader_host@,
                    *config,
                    started_at_ms,
                    tested_,
                    found,
                    *start,
                    Err::<Option<StunTcpTunnel>, String>(e),
                ));
            }
            return Err(e);
        },
    };
    if !passed {
        proof {
            let found = match literal_endpoint(downloader_host@, 0) {
                Some(addr) => Some(addr.ip),
                None => None,
            };
            assert(tunnel_step(
                mapping,
                downloader_host@,
                *config,
                started_at_ms,
                tested_,
                found,
                *start,
                Ok::<Option<StunTcpTunnel>, String>(None),
            ));
        }
        return Ok(None);
    }
    let found = match resolve_literal(downloader_host.as_str(), 0) {
        Some(addr) => Some(addr.ip),
        None => if config.allow_public_downloader_host {
            None
        } else {
            lookup(downloader_host)
        },
    };
    let allowed = config.allow_public_downloader_host || match found {
        None => true,
        Some(IpAddr::V4(v)) => !is_public_v4(v),
        Some(IpAddr::V6(v)) => !is_public_v6(v),
    };
    if !allowed {
        assert(tunnel_step(
            mapping,
            downloader_host@,
            *config,
            started_at_ms,
            tested_,
            found,
            *start,
            Ok::<Option<StunTcpTunnel>, String>(None),
        ));
        return Ok(None);
    }
    let inter = mapping.inter;
    let outer = mapping.outer;
    let forwarder_config = TcpForwarderConfig {
        proxy_host: if config.ipv6_support {
            "[::]".to_string()
        } else {
            "0.0.0.0".to_string()
        },
        proxy_port: inter.port,
        upstream_host: downloader_host.clone(),
        upstream_port: outer.port,
        use_friendly_loopback: config.use_friendly_loopback,
        connect_timeout: config.timeout,
    };
    let ghost f = forwarder_config;
    let started = start(&forwarder_config);
    let ghost started_ = started;
    assert(start.ensures((&f,), started_));
    let r = match started {
        Err(e) => Err(e),
        Ok(bound) => {
            let mut forwarder = TcpForwarder::new(forwarder_config);
            forwarder.set_local_addr(bound);
            let keep_alive_config = KeepAliveConfig {
                bind_host: ip_to_string(&inter.ip),
                bind_port: inter.port,
                test_host: config.keep_alive_test_host.clone(),
                test_port: config.keep_alive_test_port,
                initial_delay: config.keep_alive_initial_delay,
                interval: config.keep_alive_interval,
                max_consecutive_failures: config.max_keep_alive_failures,
                connect_timeout: KEEP_ALIVE_CONNECT_TIMEOUT,
                read_timeout: KEEP_ALIVE_CONNECT_TIMEOUT,
            };
            Ok(
                Some(
                    StunTcpTunnel {
                        inter,
                        outer,
                        forwarder,
                        keep_alive_config,
                        keep_alive: NatKeepAlive::new(config.max_keep_alive_failures),
                        started_at_ms,
                        open: true,
                    },
                ),
            )
        },
    };
    assert(tunnel_step(
        mapping,
        downloader_host@,
        *config,
        started_at_ms,
        tested_,
        found,
        *start,
        r,
    ));
    r
}

// ------------------------------------------------------------------ laws of addresses
/// The IPv4 address of four bytes, the highest first.
pub open spec fn of_bytes(a: u8, b: u8, c: u8, d: u8) -> u32 {
    (a * 0x100_0000 + b * 0x1_0000 + c * 0x100 + d) as u32
}

/// An address is public unless it is a loopback, unspecified, link-local, multicast or private
/// address, or the first one of a network of its class.
pub proof fn private_addresses_are_not_public(a: u8, b: u8, c: u8, d: u8)
    ensures
        is_public(IpAddr::V4(of_bytes(127, b, c, d))) == false,
        is_public(IpAddr::V4(of_bytes(10, b, c, d))) == false,
        is_public(IpAddr::V4(of_bytes(192, 168, c, d))) == false,
        is_public(IpAddr::V4(of_bytes(169, 254, c, d))) == false,
        16 <= b <= 31 ==> is_public(IpAddr::V4(of_bytes(172, b, c, d))) == false,
        224 <= a <= 239 ==> is_public(IpAddr::V4(of_bytes(a, b, c, d))) == false,
        is_public(IpAddr::V4(of_bytes(0, 0, 0, 0))) == false,
        a < 128 ==> is_public(IpAddr::V4(of_bytes(a, 0, 0, 0))) == false,
        128 <= a < 192 ==> is_public(IpAddr::V4(of_bytes(a, b, 0, 0))) == false,
        192 <= a < 224 ==> is_public(IpAddr::V4(of_bytes(a, b, c, 0))) == false,
        d != 0 && a != 127 && a != 10 && !(a == 192 && b == 168) && !(a == 169 && b == 254) && !(a
            == 172 && 16 <= b <= 31) && !(224 <= a <= 239) ==> is_public(
            IpAddr::V4(of_bytes(a, b, c, d)),
        ),
{
    lemma_bytes(127, b, c, d);
    lemma_bytes(10, b, c, d);
    lemma_bytes(192, 168, c, d);
    lemma_bytes(169, 254, c, d);
    lemma_bytes(172, b, c, d);
    lemma_bytes(a, b, c, d);
    lemma_bytes(0, 0, 0, 0);
    lemma_bytes(a, 0, 0, 0);
    lemma_bytes(a, b, 0, 0);
    lemma_bytes(a, b, c, 0);
}

proof fn lemma_bytes(a: u8, b: u8, c: u8, d: u8)
    ensures
        ({
            let v = of_bytes(a, b, c, d) as int;
            &&& v / 0x100_0000 == a
            &&& (v / 0x1_0000) % 0x100 == b
            &&& v % 0x100_0000 == b * 0x1_0000 + c * 0x100 + d
            &&& v % 0x1_0000 == c * 0x100 + d
            &&& v % 0x100 == d
            &&& v == a * 0x100_0000 + b * 0x1_0000 + c * 0x100 + d
        }),
{
    let (i, j, k, l) = (a as int, b as int, c as int, d as int);
    let v = of_bytes(a, b, c, d) as int;
    assert(v == i * 0x100_0000 + j * 0x1_0000 + k * 0x100 + l);
    lemma_fundamental_div_mod_converse(v, 0x100_0000, i, j * 0x1_0000 + k * 0x100 + l);
    lemma_fundamental_div_mod_converse(v, 0x1_0000, i * 0x100 + j, k * 0x100 + l);
    lemma_fundamental_div_mod_converse(i * 0x100 + j, 0x100, i, j);
    lemma_fundamental_div_mod_converse(v, 0x100, i * 0x1_0000 + j * 0x100 + k, l);
}

/// An IPv6 address is public unless it is the loopback, unspecified, multicast, unique local or
/// link-local, or the first one of its network.
pub proof fn local_addresses_are_not_public(v: u128)
    ensures
        !is_public(IpAddr::V6(0)),
        !is_public(IpAddr::V6(1)),
        0xFF00_0000_0000_0000_0000_0000_0000_0000 <= v ==> !is_public(IpAddr::V6(v)),
        0xFC00_0000_0000_0000_0000_0000_0000_0000 <= v
            < 0xFE00_0000_0000_0000_0000_0000_0000_0000 ==> !is_public(IpAddr::V6(v)),
        0xFE80_0000_0000_0000_0000_0000_0000_0000 <= v
            < 0xFEC0_0000_0000_0000_0000_0000_0000_0000 ==> !is_public(IpAddr::V6(v)),
        v % 0x1_0000_0000_0000_0000 == 0 ==> !is_public(IpAddr::V6(v)),
        1 < v < 0xFC00_0000_0000_0000_0000_0000_0000_0000 && v % 0x1_0000_0000_0000_0000 != 0
            ==> is_public(IpAddr::V6(v)),
{
}

/// The friendly address of a peer is its own with 127 in place of the first byte; it is offered with
/// the peer's port and with any, for loopback upstreams and IPv4 peers alone.
pub proof fn friendly_addresses_keep_three_bytes(
    a: u8,
    b: u8,
    c: u8,
    d: u8,
    port: u16,
    upstream: SocketAddr,
    v6: u128,
)
    ensures
        friendly_address(of_bytes(a, b, c, d)) == of_bytes(127, b, c, d),
        is_loopback(IpAddr::V4(of_bytes(a, b, c, d))) == (a == 127),
        is_loopback(IpAddr::V6(v6)) == (v6 == 1),
        is_loopback(upstream.ip) ==> friendly_binds(
            true,
            upstream,
            SocketAddr { ip: IpAddr::V4(of_bytes(a, b, c, d)), port },
        ) == seq![
            SocketAddr { ip: IpAddr::V4(of_bytes(127, b, c, d)), port },
            SocketAddr { ip: IpAddr::V4(of_bytes(127, b, c, d)), port: 0 },
        ],
        friendly_binds(
            true,
            upstream,
            SocketAddr { ip: IpAddr::V6(v6), port },
        ).len() == 0,
        !is_loopback(upstream.ip) ==> friendly_binds(
            true,
            upstream,
            SocketAddr { ip: IpAddr::V4(of_bytes(a, b, c, d)), port },
        ).len() == 0,
        friendly_binds(
            false,
            upstream,
            SocketAddr { ip: IpAddr::V4(of_bytes(a, b, c, d)), port },
        ).len() == 0,
{
    lemma_bytes(a, b, c, d);
    lemma_bytes(127, b, c, d);
}

/// A downloader's host is allowed unless it is known to be public and public ones are not allowed.
pub proof fn public_hosts_need_leave(ip: IpAddr, found: Option<IpAddr>)
    ensures
        host_allowed(found, true),
        host_allowed(None, false),
        host_allowed(Some(ip), false) == !is_public(ip),
{
}

/// A mapping is found to work wherever the digits `204` stand in the reply.
pub proof fn replies_are_searched_for_the_code(a: Seq<u8>, b: Seq<u8>, c: Seq<u8>)
    ensures
        has_204(a + seq![0x32u8, 0x30u8, 0x34u8] + b),
        (forall|i: int| 0 <= i < c.len() ==> #[trigger] c[i] != 0x34) ==> !has_204(c),
        c.len() < 3 ==> !has_204(c),
{
    let s = a + seq![0x32u8, 0x30u8, 0x34u8] + b;
    assert(is_204_at(s, a.len() as int));
}

/// Brackets and white space around a host do not count.
pub proof fn hosts_are_read_without_brackets(pre: Seq<char>, t: Seq<char>, post: Seq<char>, port: u16)
    requires
        crate::text::blank(pre),
        crate::text::blank(post),
        t.len() > 0,
        t[0] != '[',
        !crate::text::is_ws(t[0]),
        !crate::text::is_ws(t.last()),
    ensures
        literal_endpoint(pre + (seq!['['] + t + seq![']']) + post, port) == literal_endpoint(
            t,
            port,
        ),
        literal_endpoint(pre + t + post, port) == literal_endpoint(t, port),
        match ip_of_text(t) {
            Some(ip) => literal_endpoint(t, port) == Some(SocketAddr { ip, port }),
            None => literal_endpoint(t, port) is None,
        },
{
    let b = seq!['['] + t + seq![']'];
    let none = Seq::<char>::empty();
    assert(b[0] == '[' && b.last() == ']');
    assert(b.subrange(1, b.len() - 1) =~= t);
    crate::text::trimming_takes_the_white_space_around(pre, b, post);
    crate::text::trimming_takes_the_white_space_around(pre, t, post);
    crate::text::trimming_takes_the_white_space_around(none, t, none);
    assert(none + t + none =~= t);
}

/// A round of keeping a mapping open that succeeds forgets the failures; one that fails counts one
/// more, and the mapping is over with as many as are allowed.
pub proof fn rounds_count_failures(k: NatKeepAlive, now_ms: u64)
    requires
        k.consecutive_failures < u32::MAX,
    ensures
        k.after_round(true, now_ms).consecutive_failures == 0,
        k.after_round(true, now_ms).last_success_ms == now_ms,
        k.after_round(true, now_ms).valid == k.valid,
        k.after_round(false, now_ms).consecutive_failures == k.consecutive_failures + 1,
        k.after_round(false, now_ms).last_success_ms == k.last_success_ms,
        k.valid && k.consecutive_failures + 1 < k.max_consecutive_failures ==> k.after_round(
            false,
            now_ms,
        ).valid,
        k.consecutive_failures + 1 >= k.max_consecutive_failures ==> !k.after_round(
            false,
            now_ms,
        ).valid,
        !k.valid ==> !k.after_round(false, now_ms).valid,
{
}

/// A tunnel listens on the chosen port, or on a free one where none was chosen.
pub proof fn tunnels_listen_on_the_chosen_port(config: TunnelConfig, free_port: u16)
    ensures
        config.local_port != 0 ==> tunnel_port_of(config, free_port) == config.local_port,
        config.local_port == 0 ==> tunnel_port_of(config, free_port) == free_port,
{
}

/// A closed connection is taken out and the others stay, in their order.
pub proof fn other_connections_stay(
    connections: Seq<(SocketAddr, SocketAddr)>,
    entry: (SocketAddr, SocketAddr),
    peer: SocketAddr,
    pending: Seq<IpAddr>,
    waiting: IpAddr,
    ip: IpAddr,
)
    ensures
        entry.0 == peer ==> without_peer(connections.push(entry), peer) == without_peer(
            connections,
            peer,
        ),
        entry.0 != peer ==> without_peer(connections.push(entry), peer) == without_peer(
            connections,
            peer,
        ).push(entry),
        waiting == ip ==> without_ip(pending.push(waiting), ip) == without_ip(pending, ip),
        waiting != ip ==> without_ip(pending.push(waiting), ip) == without_ip(pending, ip).push(
            waiting,
        ),
{
    assert(connections.push(entry).drop_last() =~= connections);
    assert(pending.push(waiting).drop_last() =~= pending);
}

/// The texts that are sent are requests of HTTP 1.1 to the host in question, with an empty line at
/// the end.
pub proof fn requests_are_of_http(host: Seq<char>, ip: IpAddr)
    ensures
        keep_alive_text(host) == "HEAD / HTTP/1.1\r\n"@ + "Host: "@ + host + "\r\n"@
            + "User-Agent: PeerBanHelper-NAT-Keeper/1.0\r\n"@ + "Connection: keep-alive\r\n"@
            + "\r\n"@,
        mapping_test_text(ip) == "GET /test HTTP/1.1\r\n"@ + "Host: "@ + ip_text(ip) + "\r\n"@
            + "Connection: close\r\n"@ + "\r\n"@,
{
    reveal_strlit("HEAD / HTTP/1.1\r\nHost: ");
    reveal_strlit("HEAD / HTTP/1.1\r\n");
    reveal_strlit("Host: ");
    reveal_strlit("\r\n");
    reveal_strlit(
        "\r\nUser-Agent: PeerBanHelper-NAT-Keeper/1.0\r\nConnection: keep-alive\r\n\r\n",
    );
    reveal_strlit("User-Agent: PeerBanHelper-NAT-Keeper/1.0\r\n");
    reveal_strlit("Connection: keep-alive\r\n");
    assert("HEAD / HTTP/1.1\r\nHost: "@ =~= "HEAD / HTTP/1.1\r\n"@ + "Host: "@);
    assert("\r\nUser-Agent: PeerBanHelper-NAT-Keeper/1.0\r\nConnection: keep-alive\r\n\r\n"@ =~= "\r\n"@
        + "User-Agent: PeerBanHelper-NAT-Keeper/1.0\r\n"@ + "Connection: keep-alive\r\n"@
        + "\r\n"@);
    assert(keep_alive_text(host) =~= "HEAD / HTTP/1.1\r\n"@ + "Host: "@ + host + "\r\n"@
        + "User-Agent: PeerBanHelper-NAT-Keeper/1.0\r\n"@ + "Connection: keep-alive\r\n"@
        + "\r\n"@);
    reveal_strlit("GET /test HTTP/1.1\r\nHost: ");
    reveal_strlit("GET /test HTTP/1.1\r\n");
    reveal_strlit("\r\nConnection: close\r\n\r\n");
    reveal_strlit("Connection: close\r\n");
    assert("GET /test HTTP/1.1\r\nHost: "@ =~= "GET /test HTTP/1.1\r\n"@ + "Host: "@);
    assert("\r\nConnection: close\r\n\r\n"@ =~= "\r\n"@ + "Connection: close\r\n"@ + "\r\n"@);
    assert(mapping_test_text(ip) =~= "GET /test HTTP/1.1\r\n"@ + "Host: "@ + ip_text(ip) + "\r\n"@
        + "Connection: close\r\n"@ + "\r\n"@);
}

/// A tunnel forwards what arrives at the inner port to the downloader's host at the outer port, on
/// all interfaces of the families that are supported.
pub proof fn tunnels_forward_to_the_downloader(
    f: TcpForwarderConfig,
    inter: SocketAddr,
    outer: SocketAddr,
    host: Seq<char>,
    config: TunnelConfig,
)
    requires
        forwards(f, inter, outer, host, config),
    ensures
        config.ipv6_support ==> f.proxy_host@ == "[::]"@,
        !config.ipv6_support ==> f.proxy_host@ == "0.0.0.0"@,
        f.proxy_port == inter.port,
        f.upstream_port == outer.port,
        f.upstream_host@ == host,
        f.connect_timeout == config.timeout,
        f.use_friendly_loopback == config.use_friendly_loopback,
{
}

/// A tunnel keeps its mapping open from the inner address, with the test host of its settings and a
/// second for each connection.
pub proof fn tunnels_keep_their_mapping_open(
    t: StunTcpTunnel,
    inter: SocketAddr,
    outer: SocketAddr,
    host: Seq<char>,
    config: TunnelConfig,
    started_at_ms: u64,
)
    requires
        t.made(inter, outer, host, config, started_at_ms),
    ensures
        t.keep_alive_config.bind_host@ == ip_text(inter.ip),
        t.keep_alive_config.bind_port == inter.port,
        t.keep_alive_config.test_host@ == config.keep_alive_test_host@,
        t.keep_alive_config.test_port == config.keep_alive_test_port,
        t.keep_alive_config.interval == config.keep_alive_interval,
        t.keep_alive_config.initial_delay == config.keep_alive_initial_delay,
        t.keep_alive_config.connect_timeout == 1000,
        t.keep_alive_config.read_timeout == 1000,
        t.keep_alive.valid,
        t.keep_alive.consecutive_failures == 0,
        t.keep_alive.max_consecutive_failures == config.max_keep_alive_failures,
        t.open,
        t.inter == inter,
        t.outer == outer,
        t.started_at_ms == started_at_ms,
{
}

/// No tunnel is made where the test fails or the downloader's host may not be used; an error of the
/// test or of the start is passed on.
pub proof fn tunnels_need_a_good_test<S: Fn(&TcpForwarderConfig) -> Result<SocketAddr, String>>(
    mapping: StunMapping,
    host: Seq<char>,
    config: TunnelConfig,
    started_at_ms: u64,
    e: String,
    found: Option<IpAddr>,
    start: S,
    r: Result<Option<StunTcpTunnel>, String>,
)
    ensures
        tunnel_step(mapping, host, config, started_at_ms, Err(e), found, start, r) ==> r == Err::<
            Option<StunTcpTunnel>,
            String,
        >(e),
        tunnel_step(mapping, host, config, started_at_ms, Ok(false), found, start, r) ==> r
            == Ok::<Option<StunTcpTunnel>, String>(None),
        (found matches Some(ip) && is_public(ip) && !config.allow_public_downloader_host && tunnel_step(
            mapping,
            host,
            config,
            started_at_ms,
            Ok(true),
            found,
            start,
            r,
        )) ==> r == Ok::<Option<StunTcpTunnel>, String>(None),
        (config.allow_public_downloader_host && tunnel_step(
            mapping,
            host,
            config,
            started_at_ms,
            Ok(true),
            found,
            start,
            r,
        )) ==> !(r matches Ok(None)),
        (tunnel_step(mapping, host, config, started_at_ms, Ok(true), found, start, r)
            && r matches Ok(Some(t))) ==> {
            let t = r->Ok_0->0;
            &&& t.inter == mapping.inter && t.outer == mapping.outer
            &&& t.started_at_ms == started_at_ms
            &&& exists|f: TcpForwarderConfig, bound: SocketAddr|
                forwards(f, mapping.inter, mapping.outer, host, config) && #[trigger] start.ensures(
                    (&f,),
                    Ok(bound),
                ) && t.forwarder@.bound_addr == Some(bound)
        },
{
}

} // verus!
