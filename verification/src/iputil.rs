//! IP and CIDR utilities: parsing, prefix blocks and membership.

use vstd::arithmetic::div_mod::{lemma_div_denominator, lemma_fundamental_div_mod_converse};
use vstd::arithmetic::power2::{lemma2_to64, lemma_pow2_adds, lemma_pow2_pos, pow2};
use vstd::prelude::*;
use crate::net::{full_prefix_is_one_address, ip_of_text, ip_text, ip_to_string, mapped_addresses_are_unwrapped, net_of_text, net_text, net_to_string, read_ip, read_net, unmap, unmapped, IpAddr, IpNet};
use crate::text::{all_digits, blank, chars_of, decimal, decimal_chars, digit, digit_char, digits_from, find_char, find_from, is_ws, lemma_find_from, push_range, push_text, rfind_before, rfind_char, string_of, substring_of, texts, trim, trim_bounds, trim_of, trimming_takes_the_white_space_around};

verus! {

/// The host part of `host:port` or `[v6]:port`; text without a port is taken whole, and an opening
/// bracket needs its closing one.
pub open spec fn host_of(raw: Seq<char>) -> Option<Seq<char>> {
    let t = trim_of(raw);
    if t.len() > 0 && t[0] == '[' {
        match find_from(t, ']', 0) {
            Some(end) => Some(t.subrange(1, end)),
            None => None,
        }
    } else {
        match rfind_before(t, ':', t.len() as int) {
            Some(i) => if all_digits(t.skip(i + 1)) {
                Some(t.take(i))
            } else {
                Some(t)
            },
            None => Some(t),
        }
    }
}

/// The host part of `host:port` or `[v6]:port`.
pub fn split_host_port(raw: &str) -> (r: Option<String>)
    ensures
        match r {
            Some(host) => host_of(raw@) == Some(host@),
            None => host_of(raw@) is None,
        },
{
    let trimmed = trim(raw);
    let t = chars_of(trimmed.as_str());
    if t.len() > 0 && t[0] == '[' {
        return match find_char(t.as_slice(), ']', 0) {
            Some(end) => {
                proof {
                    lemma_find_from(t@, ']', 0);
                }
                Some(substring_of(t.as_slice(), 1, end))
            },
            None => None,
        };
    }
    if let Some(i) = rfind_char(t.as_slice(), ':') {
        if digits_from(t.as_slice(), i + 1) {
            let host = substring_of(t.as_slice(), 0, i);
            assert(host@ =~= t@.take(i as int));
            return Some(host);
        }
    }
    Some(trimmed)
}

/// The address of a text: the text itself, or else the host part of it.
pub open spec fn host_addr(raw: Seq<char>) -> Option<IpAddr> {
    match ip_of_text(trim_of(raw)) {
        Some(addr) => Some(addr),
        None => match host_of(raw) {
            Some(host) => ip_of_text(host),
            None => None,
        },
    }
}

fn read_host_addr(raw: &str) -> (r: Option<IpAddr>)
    ensures
        r == host_addr(raw@),
{
    let t = trim(raw);
    match read_ip(t.as_str()) {
        Some(addr) => Some(addr),
        None => match split_host_port(raw) {
            Some(host) => read_ip(host.as_str()),
            None => None,
        },
    }
}

/// The text inside a pair of square brackets; any other text itself.
pub open spec fn unbracketed(t: Seq<char>) -> Seq<char> {
    if t.len() >= 2 && t[0] == '[' && t.last() == ']' {
        t.subrange(1, t.len() - 1)
    } else {
        t
    }
}

/// The address of a text, brackets removed, an IPv4-mapped address taken as IPv4.
pub open spec fn addr_of(ip: Seq<char>) -> Option<IpAddr> {
    match ip_of_text(unbracketed(trim_of(ip))) {
        Some(addr) => Some(unmapped(addr)),
        None => None,
    }
}

/// Reads one address: brackets are removed and an IPv4-mapped IPv6 address is taken as IPv4.
pub fn parse_addr(ip: &str) -> (r: Option<IpAddr>)
    ensures
        r == addr_of(ip@),
{
    let chars = chars_of(ip);
    let (from, to) = trim_bounds(chars.as_slice());
    let ghost t = trim_of(ip@);
    let inner = if to - from >= 2 && chars[from] == '[' && chars[to - 1] == ']' {
        let inner = substring_of(chars.as_slice(), from + 1, to - 1);
        assert(t[0] == chars@[from as int]);
        assert(t.last() == chars@[to - 1]);
        assert(inner@ =~= t.subrange(1, t.len() - 1));
        inner
    } else {
        if to - from >= 2 {
            assert(t[0] == chars@[from as int]);
            assert(t.last() == chars@[to - 1]);
        }
        substring_of(chars.as_slice(), from, to)
    };
    match read_ip(inner.as_str()) {
        Some(addr) => Some(unmap(addr)),
        None => None,
    }
}

/// The network of a text: a CIDR network, or a single address as a network of full prefix length.
pub open spec fn net_of(s: Seq<char>) -> Option<IpNet> {
    let t = trim_of(s);
    match net_of_text(t) {
        Some((addr, prefix_len)) => Some(IpNet { addr, prefix_len }),
        None => match ip_of_text(t) {
            Some(addr) => Some(IpNet { addr, prefix_len: addr.width() as u8 }),
            None => None,
        },
    }
}

/// Reads a CIDR network, or a single address as a network of full prefix length.
pub fn parse_net(s: &str) -> (r: Option<IpNet>)
    ensures
        r == net_of(s@),
        r matches Some(net) ==> net.wf(),
{
    let t = trim(s);
    if let Some(net) = read_net(t.as_str()) {
        return Some(net);
    }
    match read_ip(t.as_str()) {
        Some(addr) => {
            let prefix_len: u8 = if addr.is_v4() {
                32
            } else {
                128
            };
            Some(IpNet { addr, prefix_len })
        },
        None => None,
    }
}

/// A set of CIDR networks.
#[derive(Debug)]
pub struct IpSet {
    nets: Vec<IpNet>,
}

/// The networks of those texts that spell one, in order.
pub open spec fn nets_of(items: Seq<Seq<char>>) -> Seq<IpNet>
    decreases items.len(),
{
    if items.len() == 0 {
        Seq::empty()
    } else {
        match net_of(items.last()) {
            Some(net) => nets_of(items.drop_last()).push(net),
            None => nets_of(items.drop_last()),
        }
    }
}

/// The first network at or behind place `i` that holds the address.
pub open spec fn first_covering(nets: Seq<IpNet>, addr: IpAddr, i: int) -> Option<IpNet>
    decreases nets.len() - i,
{
    if i < 0 || i >= nets.len() {
        None
    } else if nets[i].covers(addr) {
        Some(nets[i])
    } else {
        first_covering(nets, addr, i + 1)
    }
}

/// An address is covered exactly when some network holds it.
pub proof fn lemma_first_covering(nets: Seq<IpNet>, addr: IpAddr, i: int)
    requires
        0 <= i,
    ensures
        (first_covering(nets, addr, i) is Some) == (exists|k: int|
            i <= k < nets.len() && (#[trigger] nets[k]).covers(addr)),
        first_covering(nets, addr, i) matches Some(net) ==> net.covers(addr),
    decreases nets.len() - i,
{
    if i < nets.len() && !nets[i].covers(addr) {
        lemma_first_covering(nets, addr, i + 1);
    }
}

impl Default for IpSet {
    fn default() -> (v: Self)
        ensures
            v.wf(),
            v@.len() == 0,
    {
        IpSet { nets: Vec::new() }
    }
}

impl IpSet {
    /// The networks of the set, in order.
    pub closed spec fn view(&self) -> Seq<IpNet> {
        self.nets@
    }

    /// Every network is well-formed.
    pub closed spec fn wf(&self) -> bool {
        forall|i: int| 0 <= i < self.nets.len() ==> (#[trigger] self.nets@[i]).wf()
    }

    /// The set of the networks that the texts spell; texts that spell none are left out.
    pub fn from_cidrs(items: &[String]) -> (set: IpSet)
        ensures
            set.wf(),
            set@ == nets_of(texts(items@)),
    {
        let mut nets: Vec<IpNet> = Vec::new();
        let mut i: usize = 0;
        assert(texts(items@).take(0) =~= Seq::empty());
        while i < items.len()
            invariant
                i <= items.len(),
                nets@ == nets_of(texts(items@).take(i as int)),
                forall|k: int| 0 <= k < nets.len() ==> (#[trigger] nets@[k]).wf(),
            decreases items.len() - i,
        {
            let ghost next = texts(items@).take(i + 1);
            assert(next.drop_last() =~= texts(items@).take(i as int));
            assert(next.last() == items@[i as int]@);
            if let Some(net) = parse_net(items[i].as_str()) {
                nets.push(net);
            }
            i += 1;
        }
        assert(texts(items@).take(i as int) =~= texts(items@));
        IpSet { nets }
    }

    fn find(&self, addr: &IpAddr) -> (r: Option<IpNet>)
        requires
            self.wf(),
        ensures
            r == first_covering(self@, *addr, 0),
    {
        let mut i: usize = 0;
        while i < self.nets.len()
            invariant
                self.wf(),
                i <= self.nets.len(),
                first_covering(self@, *addr, 0) == first_covering(self@, *addr, i as int),
            decreases self.nets.len() - i,
        {
            if self.nets[i].contains(addr) {
                return Some(self.nets[i]);
            }
            i += 1;
        }
        None
    }

    /// Whether some network holds the address.
    pub fn contains_addr(&self, addr: &IpAddr) -> (yes: bool)
        requires
            self.wf(),
        ensures
            yes == exists|k: int| 0 <= k < self@.len() && (#[trigger] self@[k]).covers(*addr),
    {
        proof {
            lemma_first_covering(self@, *addr, 0);
        }
        self.find(addr).is_some()
    }

    /// Whether some network holds the address that the text, or its host part, spells.
    pub fn contains(&self, ip: &str) -> (yes: bool)
        requires
            self.wf(),
        ensures
            yes == match host_addr(ip@) {
                Some(addr) => exists|k: int|
                    0 <= k < self@.len() && (#[trigger] self@[k]).covers(addr),
                None => false,
            },
    {
        match read_host_addr(ip) {
            Some(addr) => self.contains_addr(&addr),
            None => false,
        }
    }

    /// The text of the first network that holds the address which the text, or its host part,
    /// spells.
    pub fn matching(&self, ip: &str) -> (r: Option<String>)
        requires
            self.wf(),
        ensures
            match host_addr(ip@) {
                Some(addr) => match first_covering(self@, addr, 0) {
                    Some(net) => r matches Some(text) && text@ == net_text(net),
                    None => r is None,
                },
                None => r is None,
            },
    {
        match read_host_addr(ip) {
            Some(addr) => match self.find(&addr) {
                Some(net) => Some(net_to_string(&net)),
                None => None,
            },
            None => None,
        }
    }

    /// Whether the set has no network.
    pub fn is_empty(&self) -> (yes: bool)
        ensures
            yes == (self@.len() == 0),
    {
        self.nets.len() == 0
    }
}

/// The network of the first `len` bits of an address (all bits, where `len` is more).
pub open spec fn block_net(addr: IpAddr, v4_len: u8, v6_len: u8) -> IpNet {
    let len = match addr {
        IpAddr::V4(_) => if v4_len <= 32 {
            v4_len
        } else {
            32
        },
        IpAddr::V6(_) => if v6_len <= 128 {
            v6_len
        } else {
            128
        },
    };
    IpNet { addr, prefix_len: len }
}

/// The prefix block of an address: its first `v4_len` or `v6_len` bits, the other bits zero.
pub fn prefix_net(addr: IpAddr, v4_len: u8, v6_len: u8) -> (net: IpNet)
    ensures
        net.wf(),
        net.prefix_len == block_net(addr, v4_len, v6_len).prefix_len,
        net.addr.width() == addr.width(),
        net.addr.bits() == addr.bits() - addr.bits() % block_net(addr, v4_len, v6_len).block(),
{
    let prefix_len: u8 = match addr {
        IpAddr::V4(_) => if v4_len <= 32 {
            v4_len
        } else {
            32
        },
        IpAddr::V6(_) => if v6_len <= 128 {
            v6_len
        } else {
            128
        },
    };
    let net = IpNet { addr, prefix_len };
    net.trunc()
}

/// The prefix block of an address as text.
pub fn prefix_block(ip: &str, v4_len: u8, v6_len: u8) -> (r: Option<String>)
    ensures
        match ip_of_text(trim_of(ip@)) {
            Some(addr) => exists|net: IpNet|
                {
                    &&& #[trigger] net_text(net) == r->0@
                    &&& net.prefix_len == block_net(addr, v4_len, v6_len).prefix_len
                    &&& net.addr.width() == addr.width()
                    &&& net.addr.bits() == addr.bits() - addr.bits() % block_net(
                        addr,
                        v4_len,
                        v6_len,
                    ).block()
                    &&& r is Some
                },
            None => r is None,
        },
{
    let t = trim(ip);
    match read_ip(t.as_str()) {
        Some(addr) => {
            let net = prefix_net(addr, v4_len, v6_len);
            let text = net_to_string(&net);
            assert(net_text(net) == text@);
            Some(text)
        },
        None => None,
    }
}

/// The low `n` hexadecimal digits of a number, the lowest first, a dot behind each.
pub open spec fn dotted_nibbles(v: nat, n: nat) -> Seq<char>
    decreases n,
{
    if n == 0 {
        Seq::empty()
    } else {
        seq![digit_char((v % 16) as int), '.'] + dotted_nibbles(v / 16, (n - 1) as nat)
    }
}

/// The name under which reverse DNS keeps an address.
pub open spec fn reverse_name(addr: IpAddr) -> Seq<char> {
    match addr {
        IpAddr::V4(v) => decimal(v as nat % 256) + "."@ + decimal((v as nat / 256) % 256) + "."@
            + decimal((v as nat / 65536) % 256) + "."@ + decimal(v as nat / 16777216)
            + ".in-addr.arpa"@,
        IpAddr::V6(v) => dotted_nibbles(v as nat, 32) + "ip6.arpa"@,
    }
}

fn push_octet(out: &mut Vec<char>, n: u32)
    ensures
        final(out)@ == old(out)@ + decimal(n as nat),
{
    let digits = decimal_chars(n as u64);
    push_range(out, digits.as_slice(), 0, digits.len());
    assert(digits@.subrange(0, digits.len() as int) =~= digits@);
}

/// The name under which reverse DNS keeps an address.
pub fn reverse_name_of(addr: IpAddr) -> (out: String)
    ensures
        out@ == reverse_name(addr),
{
    let mut out: Vec<char> = Vec::new();
    match addr {
        IpAddr::V4(v) => {
            push_octet(&mut out, v % 256);
            push_text(&mut out, ".");
            push_octet(&mut out, (v / 256) % 256);
            push_text(&mut out, ".");
            push_octet(&mut out, (v / 65536) % 256);
            push_text(&mut out, ".");
            push_octet(&mut out, v / 16777216);
            push_text(&mut out, ".in-addr.arpa");
            assert(out@ =~= reverse_name(addr));
        },
        IpAddr::V6(v) => {
            let mut rest: u128 = v;
            let mut n: u8 = 32;
            assert(out@ + dotted_nibbles(v as nat, 32) =~= dotted_nibbles(v as nat, 32));
            while n > 0
                invariant
                    n <= 32,
                    out@ + dotted_nibbles(rest as nat, n as nat) == dotted_nibbles(v as nat, 32),
                decreases n,
            {
                let ghost before = out@;
                out.push(digit((rest % 16) as u8));
                out.push('.');
                proof {
                    let tail = dotted_nibbles(rest as nat / 16, (n - 1) as nat);
                    assert(out@ + tail =~= before + (seq![
                        digit_char((rest as nat % 16) as int),
                        '.',
                    ] + tail));
                }
                rest = rest / 16;
                n -= 1;
            }
            assert(out@ =~= dotted_nibbles(v as nat, 32));
            push_text(&mut out, "ip6.arpa");
        },
    }
    string_of(out.as_slice())
}

/// The reverse DNS name of the address that a text spells.
pub fn reverse_dns_name(ip: &str) -> (r: Option<String>)
    ensures
        match addr_of(ip@) {
            Some(addr) => r matches Some(name) && name@ == reverse_name(addr),
            None => r is None,
        },
{
    match parse_addr(ip) {
        Some(addr) => Some(reverse_name_of(addr)),
        None => None,
    }
}

/// Whether the text spells an IPv4 address; an IPv4-mapped IPv6 address counts as one.
pub fn is_ipv4(ip: &str) -> (yes: bool)
    ensures
        yes == (ip_of_text(trim_of(ip@)) matches Some(addr) && unmapped(addr) is V4),
{
    let t = trim(ip);
    match read_ip(t.as_str()) {
        Some(addr) => unmap(addr).is_v4(),
        None => false,
    }
}

/// The IPv4 address `0.0.0.0`.
pub fn v4_unspecified() -> (ip: IpAddr)
    ensures
        ip == IpAddr::V4(0),
{
    IpAddr::V4(0)
}

/// The IPv6 address `::`.
pub fn v6_unspecified() -> (ip: IpAddr)
    ensures
        ip == IpAddr::V6(0),
{
    IpAddr::V6(0)
}

// ------------------------------------------------------------------ laws of written addresses
proof fn lemma_find_at(s: Seq<char>, c: char, i: int, k: int)
    requires
        0 <= i <= k < s.len(),
        s[k] == c,
        forall|j: int| i <= j < k ==> #[trigger] s[j] != c,
    ensures
        find_from(s, c, i) == Some(k),
    decreases k - i,
{
    if i < k {
        lemma_find_at(s, c, i + 1, k);
    }
}

proof fn lemma_rfind_at(s: Seq<char>, c: char, end: int, k: int)
    requires
        0 <= k < end <= s.len(),
        s[k] == c,
        forall|j: int| k < j < end ==> #[trigger] s[j] != c,
    ensures
        rfind_before(s, c, end) == Some(k),
    decreases end - k,
{
    if k < end - 1 {
        lemma_rfind_at(s, c, end - 1, k);
    }
}

proof fn lemma_rfind_none(s: Seq<char>, c: char, end: int)
    requires
        0 <= end <= s.len(),
        forall|j: int| 0 <= j < end ==> #[trigger] s[j] != c,
    ensures
        rfind_before(s, c, end) is None,
    decreases end,
{
    if end > 0 {
        lemma_rfind_none(s, c, end - 1);
    }
}

proof fn lemma_trimmed(s: Seq<char>)
    requires
        s.len() > 0,
        !is_ws(s[0]),
        !is_ws(s.last()),
    ensures
        trim_of(s) == s,
{
    let none = Seq::<char>::empty();
    trimming_takes_the_white_space_around(none, s, none);
    assert(none + s + none =~= s);
}

/// The host of a bracketed address is what the brackets hold, whatever follows them; of any other
/// address it is what stands before the last colon and the digits behind it; without a colon it is
/// the whole.
pub proof fn host_stands_before_the_port(h: Seq<char>, rest: Seq<char>, port: Seq<char>)
    requires
        h.len() > 0,
        !is_ws(h[0]),
        !is_ws(h.last()),
        forall|i: int| 0 <= i < h.len() ==> #[trigger] h[i] != ']' && h[i] != '[',
        rest.len() > 0 ==> !is_ws(rest.last()),
        port.len() > 0,
        all_digits(port),
    ensures
        host_of(seq!['['] + h + seq![']'] + rest) == Some(h),
        host_of(h + seq![':'] + port) == Some(h),
        (forall|i: int| 0 <= i < h.len() ==> #[trigger] h[i] != ':') ==> host_of(h) == Some(h),
        host_of(seq!['['] + h) is None,
{
    let a = seq!['['] + h + seq![']'] + rest;
    assert(a[0] == '[');
    assert(a.last() == if rest.len() > 0 { rest.last() } else { ']' });
    lemma_trimmed(a);
    assert forall|j: int| 0 <= j < 1int + h.len() implies #[trigger] a[j] != ']' by {
        if j > 0 {
            assert(a[j] == h[j - 1]);
        }
    }
    assert(a[1int + h.len()] == ']');
    lemma_find_at(a, ']', 0, 1int + h.len());
    assert(a.subrange(1, 1int + h.len()) =~= h);
    let b = h + seq![':'] + port;
    assert(b[0] == h[0]);
    assert(b.last() == port.last());
    assert('0' <= port[port.len() - 1] <= '9');
    lemma_trimmed(b);
    assert forall|j: int| h.len() < j < b.len() implies #[trigger] b[j] != ':' by {
        assert(b[j] == port[j - h.len() - 1]);
    }
    assert(b[h.len() as int] == ':');
    lemma_rfind_at(b, ':', b.len() as int, h.len() as int);
    assert(b.skip(1int + h.len()) =~= port);
    assert(b.take(h.len() as int) =~= h);
    lemma_trimmed(h);
    if forall|i: int| 0 <= i < h.len() ==> #[trigger] h[i] != ':' {
        lemma_rfind_none(h, ':', h.len() as int);
    }
    let c = seq!['['] + h;
    assert(c.last() == h.last());
    lemma_trimmed(c);
    assert forall|j: int| 0 <= j < c.len() implies #[trigger] c[j] != ']' by {
        if j > 0 {
            assert(c[j] == h[j - 1]);
        }
    }
    lemma_find_from(c, ']', 0);
}

/// Brackets and white space around an address change nothing.
pub proof fn brackets_change_no_address(pre: Seq<char>, t: Seq<char>, post: Seq<char>)
    requires
        blank(pre),
        blank(post),
        t.len() > 0,
        t[0] != '[',
        !is_ws(t[0]),
        !is_ws(t.last()),
    ensures
        addr_of(pre + (seq!['['] + t + seq![']']) + post) == addr_of(t),
        addr_of(pre + t + post) == addr_of(t),
        match ip_of_text(t) {
            Some(IpAddr::V4(v)) => addr_of(t) == Some(IpAddr::V4(v)),
            Some(IpAddr::V6(v)) => if 0xFFFF_0000_0000 <= v <= 0xFFFF_FFFF_FFFF {
                addr_of(t) == Some(IpAddr::V4((v - 0xFFFF_0000_0000) as u32))
            } else {
                addr_of(t) == Some(IpAddr::V6(v))
            },
            None => addr_of(t) is None,
        },
{
    let b = seq!['['] + t + seq![']'];
    assert(b[0] == '[' && b.last() == ']');
    assert(b.subrange(1, b.len() - 1) =~= t);
    trimming_takes_the_white_space_around(pre, b, post);
    trimming_takes_the_white_space_around(pre, t, post);
    lemma_trimmed(t);
    match ip_of_text(t) {
        Some(IpAddr::V6(v)) => {
            let low = if 0xFFFF_0000_0000 <= v <= 0xFFFF_FFFF_FFFF {
                (v - 0xFFFF_0000_0000) as u32
            } else {
                0
            };
            mapped_addresses_are_unwrapped(low, v);
        },
        Some(IpAddr::V4(v)) => {
            mapped_addresses_are_unwrapped(v, 0);
        },
        None => {},
    }
}

/// An address that is written without a prefix is a network of itself alone, and one with a prefix
/// is the network of that prefix.
pub proof fn written_networks_are_what_they_say(s: Seq<char>, addr: IpAddr)
    ensures
        match (net_of_text(trim_of(s)), ip_of_text(trim_of(s))) {
            (Some((a, len)), _) => net_of(s) == Some(IpNet { addr: a, prefix_len: len }),
            (None, Some(a)) => net_of(s) matches Some(n) && n.covers(addr) == (addr == a),
            (None, None) => net_of(s) is None,
        },
{
    if let (None, Some(a)) = (net_of_text(trim_of(s)), ip_of_text(trim_of(s))) {
        full_prefix_is_one_address(IpNet { addr: a, prefix_len: a.width() as u8 }, addr);
    }
}

/// Lists of networks are read item by item: what two lists give together is what they give one
/// after the other, and what cannot be read is left out.
pub proof fn networks_are_read_one_by_one(a: Seq<Seq<char>>, b: Seq<Seq<char>>, item: Seq<char>)
    ensures
        nets_of(a + b) == nets_of(a) + nets_of(b),
        nets_of(seq![item]) == match net_of(item) {
            Some(net) => seq![net],
            None => Seq::empty(),
        },
    decreases b.len(),
{
    let one = seq![item];
    assert(one.drop_last() =~= Seq::<Seq<char>>::empty());
    assert(one.last() == item);
    assert(nets_of(one.drop_last()) =~= Seq::<IpNet>::empty());
    if b.len() == 0 {
        assert(a + b =~= a);
    } else {
        networks_are_read_one_by_one(a, b.drop_last(), item);
        assert((a + b).drop_last() =~= a + b.drop_last());
        assert((a + b).last() == b.last());
    }
}

/// The block of an address is as long as its family's length says, which the family's width bounds.
pub proof fn blocks_have_the_length_of_their_family(v4: u32, v6: u128, v4_len: u8, v6_len: u8)
    ensures
        block_net(IpAddr::V4(v4), v4_len, v6_len).addr == IpAddr::V4(v4),
        block_net(IpAddr::V6(v6), v4_len, v6_len).addr == IpAddr::V6(v6),
        v4_len <= 32 ==> block_net(IpAddr::V4(v4), v4_len, v6_len).prefix_len == v4_len,
        v4_len > 32 ==> block_net(IpAddr::V4(v4), v4_len, v6_len).prefix_len == 32,
        v6_len <= 128 ==> block_net(IpAddr::V6(v6), v4_len, v6_len).prefix_len == v6_len,
        v6_len > 128 ==> block_net(IpAddr::V6(v6), v4_len, v6_len).prefix_len == 128,
{
}

/// The name under which an IPv4 address is looked up backwards has its bytes in reverse.
pub proof fn reverse_name_turns_the_bytes(a: u8, b: u8, c: u8, d: u8)
    ensures
        reverse_name(
            IpAddr::V4((a * 0x100_0000 + b * 0x1_0000 + c * 0x100 + d) as u32),
        ) == decimal(d as nat) + "."@ + decimal(c as nat) + "."@ + decimal(b as nat) + "."@
            + decimal(a as nat) + ".in-addr.arpa"@,
{
    let (i, j, k, l) = (a as int, b as int, c as int, d as int);
    let v = (a * 0x100_0000 + b * 0x1_0000 + c * 0x100 + d) as u32;
    assert(v as int == i * 0x100_0000 + j * 0x1_0000 + k * 0x100 + l);
    lemma_fundamental_div_mod_converse(v as int, 0x100_0000, i, j * 0x1_0000 + k * 0x100 + l);
    lemma_fundamental_div_mod_converse(v as int, 0x1_0000, i * 0x100 + j, k * 0x100 + l);
    lemma_fundamental_div_mod_converse(i * 0x100 + j, 0x100, i, j);
    lemma_fundamental_div_mod_converse(v as int, 0x100, i * 0x1_0000 + j * 0x100 + k, l);
    lemma_fundamental_div_mod_converse(i * 0x1_0000 + j * 0x100 + k, 0x100, i * 0x100 + j, k);
}

proof fn lemma_nibbles(v: nat, n: nat, i: int)
    requires
        0 <= i < n,
    ensures
        dotted_nibbles(v, n).len() == 2 * n,
        dotted_nibbles(v, n)[2 * i] == digit_char(((v / pow2((4 * i) as nat)) % 16) as int),
        dotted_nibbles(v, n)[2 * i + 1] == '.',
    decreases n,
{
    let rest = dotted_nibbles(v / 16, (n - 1) as nat);
    if n == 1 {
        assert(rest.len() == 0);
    } else {
        lemma_nibbles(
            v / 16,
            (n - 1) as nat,
            if i == 0 {
                0
            } else {
                i - 1
            },
        );
    }
    lemma2_to64();
    if i == 0 {
        assert(v / 1 == v);
    } else {
        assert(dotted_nibbles(v, n)[2 * i] == rest[2 * (i - 1)]);
        assert(dotted_nibbles(v, n)[2 * i + 1] == rest[2 * (i - 1) + 1]);
        lemma_pow2_adds(4, (4 * (i - 1)) as nat);
        lemma_pow2_pos((4 * (i - 1)) as nat);
        lemma_div_denominator(v as int, 16, pow2((4 * (i - 1)) as nat) as int);
    }
}

/// The name under which an IPv6 address is looked up backwards has its 32 hexadecimal digits, the
/// lowest first and each with a dot behind it.
pub proof fn reverse_name_turns_the_digits(v: u128, i: int)
    requires
        0 <= i < 32,
    ensures
        reverse_name(IpAddr::V6(v)).len() == 72,
        reverse_name(IpAddr::V6(v))[2 * i] == "0123456789abcdef"@[((v as nat / pow2(
            (4 * i) as nat,
        )) % 16) as int],
        reverse_name(IpAddr::V6(v))[2 * i + 1] == '.',
        reverse_name(IpAddr::V6(v)).skip(64) == "ip6.arpa"@,
{
    reveal_strlit("ip6.arpa");
    reveal_strlit("0123456789abcdef");
    lemma_nibbles(v as nat, 32, i);
    let n = dotted_nibbles(v as nat, 32);
    assert((n + "ip6.arpa"@).skip(64) =~= "ip6.arpa"@);
}

/// An address with a port counts as the address, with or without brackets, and a plain one as it is.
pub proof fn ports_change_no_address(t: Seq<char>, port: Seq<char>)
    requires
        t.len() > 0,
        !is_ws(t[0]),
        !is_ws(t.last()),
        forall|i: int| 0 <= i < t.len() ==> #[trigger] t[i] != ']' && t[i] != '[',
        port.len() > 0,
        all_digits(port),
    ensures
        ip_of_text(t) matches Some(a) ==> host_addr(t) == Some(a),
        ip_of_text(t + seq![':'] + port) is None ==> host_addr(t + seq![':'] + port) == ip_of_text(t),
        ip_of_text(seq!['['] + t + seq![']'] + (seq![':'] + port)) is None ==> host_addr(
            seq!['['] + t + seq![']'] + (seq![':'] + port),
        ) == ip_of_text(t),
{
    let rest = seq![':'] + port;
    assert(rest.last() == port.last());
    assert('0' <= port[port.len() - 1] <= '9');
    host_stands_before_the_port(t, rest, port);
    lemma_trimmed(t);
    let b = t + seq![':'] + port;
    assert(b[0] == t[0] && b.last() == port.last());
    lemma_trimmed(b);
    let c = seq!['['] + t + seq![']'] + rest;
    assert(c[0] == '[' && c.last() == port.last());
    lemma_trimmed(c);
}

/// The first network of a list that covers an address is the one found.
pub proof fn first_covering_network_counts(nets: Seq<IpNet>, addr: IpAddr, k: int)
    requires
        0 <= k < nets.len(),
        nets[k].covers(addr),
        forall|j: int| 0 <= j < k ==> !(#[trigger] nets[j]).covers(addr),
    ensures
        first_covering(nets, addr, 0) == Some(nets[k]),
{
    lemma_covering_at(nets, addr, 0, k);
}

proof fn lemma_covering_at(nets: Seq<IpNet>, addr: IpAddr, i: int, k: int)
    requires
        0 <= i <= k < nets.len(),
        nets[k].covers(addr),
        forall|j: int| i <= j < k ==> !(#[trigger] nets[j]).covers(addr),
    ensures
        first_covering(nets, addr, i) == Some(nets[k]),
    decreases k - i,
{
    if i < k {
        lemma_covering_at(nets, addr, i + 1, k);
    }
}

} // verus!
