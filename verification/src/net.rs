//! IP addresses and networks as numbers, with their textual forms.

use vstd::arithmetic::div_mod::{lemma_fundamental_div_mod, lemma_fundamental_div_mod_converse, lemma_mod_bound};
use vstd::arithmetic::power2::{lemma2_to64, lemma_pow2_adds, lemma_pow2_pos, lemma_pow2_strictly_increases, lemma_pow2_unfold, pow2};
use vstd::prelude::*;
use crate::text::{decimal, decimal_chars, push_range, push_text, string_of};

verus! {

/// An IP address by its bits, the most significant first.
#[derive(Clone, Copy, PartialEq, Eq, Structural, Debug)]
pub enum IpAddr {
    V4(u32),
    V6(u128),
}

/// An IP address and a port.
#[derive(Clone, Copy, PartialEq, Eq, Structural, Debug)]
pub struct SocketAddr {
    pub ip: IpAddr,
    pub port: u16,
}

/// An address with the length of its network prefix.
#[derive(Clone, Copy, PartialEq, Eq, Structural, Debug)]
pub struct IpNet {
    pub addr: IpAddr,
    pub prefix_len: u8,
}

impl IpAddr {
    /// The address as a number.
    pub open spec fn bits(self) -> nat {
        match self {
            IpAddr::V4(v) => v as nat,
            IpAddr::V6(v) => v as nat,
        }
    }

    /// The number of bits of the address family.
    pub open spec fn width(self) -> nat {
        match self {
            IpAddr::V4(_) => 32,
            IpAddr::V6(_) => 128,
        }
    }

    /// Whether this is an IPv4 address.
    pub fn is_v4(&self) -> (yes: bool)
        ensures
            yes == (self is V4),
    {
        matches!(self, IpAddr::V4(_))
    }

    fn bits_and_width(&self) -> (r: (u128, u8))
        ensures
            r.0 == self.bits(),
            r.1 == self.width(),
            r.0 < pow2(r.1 as nat),
    {
        proof {
            lemma2_to64();
            lemma_pow2_adds(64, 64);
        }
        match self {
            IpAddr::V4(v) => (*v as u128, 32),
            IpAddr::V6(v) => (*v, 128),
        }
    }
}

/// `2^k` for `k` below 128.
fn block_size(k: u8) -> (size: u128)
    requires
        k < 128,
    ensures
        size == pow2(k as nat),
        size > 0,
{
    let mut size: u128 = 1;
    let mut i: u8 = 0;
    proof {
        lemma2_to64();
    }
    while i < k
        invariant
            i <= k < 128,
            size == pow2(i as nat),
        decreases k - i,
    {
        proof {
            lemma_pow2_unfold((i + 1) as nat);
            lemma2_to64();
            lemma_pow2_adds(64, 64);
            if i + 1 < 128 {
                lemma_pow2_strictly_increases((i + 1) as nat, 128);
            }
        }
        size = size * 2;
        i += 1;
    }
    proof {
        lemma_pow2_pos(k as nat);
    }
    size
}

impl IpNet {
    /// The prefix is no longer than the address.
    pub open spec fn wf(self) -> bool {
        self.prefix_len <= self.addr.width()
    }

    /// How many addresses a network of this prefix length has.
    pub open spec fn block(self) -> nat {
        pow2((self.addr.width() - self.prefix_len) as nat)
    }

    /// Whether the address is of the same family and agrees with the network in its prefix.
    pub open spec fn covers(self, addr: IpAddr) -> bool {
        &&& self.addr.width() == addr.width()
        &&& addr.bits() / self.block() == self.addr.bits() / self.block()
    }

    /// Whether the network holds the address.
    pub fn contains(&self, addr: &IpAddr) -> (yes: bool)
        requires
            self.wf(),
        ensures
            yes == self.covers(*addr),
    {
        let (base, width) = self.addr.bits_and_width();
        let (bits, other) = addr.bits_and_width();
        if width != other {
            return false;
        }
        let host_bits: u8 = width - self.prefix_len;
        if host_bits == 128 {
            proof {
                let b = self.block();
                assert(b == pow2(128));
                assert(bits as nat / b == 0) by (nonlinear_arith)
                    requires
                        (bits as nat) < b,
                ;
                assert(base as nat / b == 0) by (nonlinear_arith)
                    requires
                        (base as nat) < b,
                ;
            }
            return true;
        }
        let size = block_size(host_bits);
        bits / size == base / size
    }

    /// The network with the host bits of its address set to zero.
    pub fn trunc(&self) -> (net: IpNet)
        requires
            self.wf(),
        ensures
            net.wf(),
            net.prefix_len == self.prefix_len,
            net.addr.width() == self.addr.width(),
            net.addr.bits() == self.addr.bits() - self.addr.bits() % self.block(),
    {
        let (base, width) = self.addr.bits_and_width();
        let host_bits: u8 = width - self.prefix_len;
        let first: u128 = if host_bits == 128 {
            proof {
                let b = self.block();
                assert(base as nat % b == base as nat) by (nonlinear_arith)
                    requires
                        (base as nat) < b,
                ;
            }
            0
        } else {
            let size = block_size(host_bits);
            assert(base as int % (size as int) <= base) by (nonlinear_arith)
                requires
                    size > 0,
            ;
            base - base % size
        };
        let addr = match self.addr {
            IpAddr::V4(v) => {
                assert(first <= v);
                IpAddr::V4(first as u32)
            },
            IpAddr::V6(_) => IpAddr::V6(first),
        };
        IpNet { addr, prefix_len: self.prefix_len }
    }
}

/// Of a well-formed network: it holds its own address, and the address that `trunc` leaves.
pub proof fn network_holds_its_addresses(net: IpNet, first: IpAddr)
    requires
        net.wf(),
        first.width() == net.addr.width(),
        first.bits() == net.addr.bits() - net.addr.bits() % net.block(),
    ensures
        net.covers(net.addr),
        net.covers(first),
{
    let b = net.block() as int;
    lemma_pow2_pos((net.addr.width() - net.prefix_len) as nat);
    let a = net.addr.bits() as int;
    let f = first.bits() as int;
    vstd::arithmetic::div_mod::lemma_fundamental_div_mod(a, b);
    assert(f == b * (a / b));
    vstd::arithmetic::div_mod::lemma_div_multiples_vanish(a / b, b);
    assert((b * (a / b)) / b == a / b);
}

/// A network of full prefix length holds its own address alone.
pub proof fn full_prefix_is_one_address(net: IpNet, addr: IpAddr)
    requires
        net.prefix_len == net.addr.width(),
    ensures
        net.covers(addr) == (addr == net.addr),
{
    lemma2_to64();
    assert(net.block() == 1);
    assert(addr.bits() / 1 == addr.bits());
    assert(net.addr.bits() / 1 == net.addr.bits());
}

// ------------------------------------------------------------------ textual forms
/// The octet of an IPv4 address at the given place, the most significant at place 0.
pub open spec fn octet(v: u32, place: int) -> nat {
    if place == 0 {
        v as nat / 16777216
    } else if place == 1 {
        (v as nat / 65536) % 256
    } else if place == 2 {
        (v as nat / 256) % 256
    } else {
        v as nat % 256
    }
}

/// The dotted decimal form of an IPv4 address.
pub open spec fn v4_text(v: u32) -> Seq<char> {
    decimal(octet(v, 0)) + "."@ + decimal(octet(v, 1)) + "."@ + decimal(octet(v, 2)) + "."@
        + decimal(octet(v, 3))
}

/// The canonical text of an IPv6 address.
pub uninterp spec fn v6_text(v: u128) -> Seq<char>;

/// The canonical text of an address.
pub open spec fn ip_text(ip: IpAddr) -> Seq<char> {
    match ip {
        IpAddr::V4(v) => v4_text(v),
        IpAddr::V6(v) => v6_text(v),
    }
}

/// The address that a text spells.
pub uninterp spec fn ip_of_text(text: Seq<char>) -> Option<IpAddr>;

/// The network that a text of the form `address/prefix length` spells.
pub uninterp spec fn net_of_text(text: Seq<char>) -> Option<(IpAddr, u8)>;

/// Reads an address with the standard parser of IP addresses (`str::parse`), through
/// `ipnet::IpNet::new`, which keeps the address as it is. The result depends on the text alone; it
/// is the address whenever the text is an address's canonical form.
#[verifier::external_body]
pub(crate) fn read_ip(text: &str) -> (r: Option<IpAddr>)
    ensures
        r == ip_of_text(text@),
        forall|v: u32| text@ == #[trigger] v4_text(v) ==> r == Some(IpAddr::V4(v)),
        forall|v: u128| text@ == #[trigger] v6_text(v) ==> r == Some(IpAddr::V6(v)),
{
    let net = ipnet::IpNet::new(text.parse().ok()?, 0).ok()?;
    match net {
        ipnet::IpNet::V4(n) => Some(IpAddr::V4(n.addr().into())),
        ipnet::IpNet::V6(n) => Some(IpAddr::V6(n.addr().into())),
    }
}

/// Reads a network with `ipnet::IpNet`'s parser (`str::parse`). The result depends on the text
/// alone; the address keeps its host bits, and the prefix is no longer than the address.
#[verifier::external_body]
pub(crate) fn read_net(text: &str) -> (r: Option<IpNet>)
    ensures
        match r {
            Some(net) => net.wf() && net_of_text(text@) == Some((net.addr, net.prefix_len)),
            None => net_of_text(text@) is None,
        },
{
    match text.parse::<ipnet::IpNet>().ok()? {
        ipnet::IpNet::V4(n) => Some(
            IpNet { addr: IpAddr::V4(n.addr().into()), prefix_len: n.prefix_len() },
        ),
        ipnet::IpNet::V6(n) => Some(
            IpNet { addr: IpAddr::V6(n.addr().into()), prefix_len: n.prefix_len() },
        ),
    }
}

/// Writes an IPv6 address in the standard form (`Display` of IPv6 addresses), reached through
/// `ipnet::Ipv6Net::new_assert`, which keeps the address. The result depends on the bits alone.
#[verifier::external_body]
fn write_v6(v: u128) -> (out: String)
    ensures
        out@ == v6_text(v),
{
    ipnet::Ipv6Net::new_assert(v.into(), 128).addr().to_string()
}

fn push_number(out: &mut Vec<char>, n: u64)
    ensures
        final(out)@ == old(out)@ + decimal(n as nat),
{
    let digits = decimal_chars(n);
    push_range(out, digits.as_slice(), 0, digits.len());
    assert(digits@.subrange(0, digits.len() as int) =~= digits@);
}

/// The canonical text of an address.
pub fn ip_to_string(ip: &IpAddr) -> (out: String)
    ensures
        out@ == ip_text(*ip),
{
    match ip {
        IpAddr::V4(v) => {
            let n = *v;
            let mut out: Vec<char> = Vec::new();
            push_number(&mut out, (n / 16777216) as u64);
            push_text(&mut out, ".");
            push_number(&mut out, ((n / 65536) % 256) as u64);
            push_text(&mut out, ".");
            push_number(&mut out, ((n / 256) % 256) as u64);
            push_text(&mut out, ".");
            push_number(&mut out, (n % 256) as u64);
            assert(out@ =~= v4_text(n));
            string_of(out.as_slice())
        },
        IpAddr::V6(v) => write_v6(*v),
    }
}

/// The text `address/prefix length` of a network.
pub open spec fn net_text(net: IpNet) -> Seq<char> {
    ip_text(net.addr) + "/"@ + decimal(net.prefix_len as nat)
}

/// The text `address/prefix length` of a network.
pub fn net_to_string(net: &IpNet) -> (out: String)
    ensures
        out@ == net_text(*net),
{
    let addr = ip_to_string(&net.addr);
    let mut out: Vec<char> = Vec::new();
    push_text(&mut out, addr.as_str());
    push_text(&mut out, "/");
    push_number(&mut out, net.prefix_len as u64);
    assert(out@ =~= net_text(*net));
    string_of(out.as_slice())
}

/// An IPv4-mapped IPv6 address (`::ffff:a.b.c.d`) as the IPv4 address; any other address itself.
pub open spec fn unmapped(ip: IpAddr) -> IpAddr {
    match ip {
        IpAddr::V6(v) => if v as nat / 4294967296 == 65535 {
            IpAddr::V4((v as nat % 4294967296) as u32)
        } else {
            ip
        },
        IpAddr::V4(_) => ip,
    }
}

/// Takes an IPv4-mapped IPv6 address as the IPv4 address.
pub fn unmap(ip: IpAddr) -> (r: IpAddr)
    ensures
        r == unmapped(ip),
{
    match ip {
        IpAddr::V6(v) => if v / 4294967296 == 65535 {
            IpAddr::V4((v % 4294967296) as u32)
        } else {
            ip
        },
        IpAddr::V4(_) => ip,
    }
}

/// An IPv4 address is written as its four bytes in decimal, the highest first.
pub proof fn address_is_written_byte_by_byte(a: u8, b: u8, c: u8, d: u8)
    ensures
        ip_text(
            IpAddr::V4((a * 0x100_0000 + b * 0x1_0000 + c * 0x100 + d) as u32),
        ) == decimal(a as nat) + "."@ + decimal(b as nat) + "."@ + decimal(c as nat) + "."@
            + decimal(d as nat),
{
    let (i, j, k, l) = (a as int, b as int, c as int, d as int);
    let v = (a * 0x100_0000 + b * 0x1_0000 + c * 0x100 + d) as u32;
    assert(v as int == i * 0x100_0000 + j * 0x1_0000 + k * 0x100 + l);
    lemma_fundamental_div_mod_converse(v as int, 0x100_0000, i, j * 0x1_0000 + k * 0x100 + l);
    lemma_fundamental_div_mod_converse(v as int, 0x1_0000, i * 0x100 + j, k * 0x100 + l);
    lemma_fundamental_div_mod_converse(i * 0x100 + j, 0x100, i, j);
    lemma_fundamental_div_mod_converse(v as int, 0x100, i * 0x1_0000 + j * 0x100 + k, l);
    lemma_fundamental_div_mod_converse(i * 0x1_0000 + j * 0x100 + k, 0x100, i * 0x100 + j, k);
}

/// An IPv4 address within IPv6 (`::ffff:a.b.c.d`) counts as that IPv4 address, and no other address
/// changes.
pub proof fn mapped_addresses_are_unwrapped(v: u32, other: u128)
    ensures
        unmapped(IpAddr::V6((0xFFFF_0000_0000 + v) as u128)) == IpAddr::V4(v),
        unmapped(IpAddr::V4(v)) == IpAddr::V4(v),
        !(0xFFFF_0000_0000 <= other <= 0xFFFF_FFFF_FFFF) ==> unmapped(IpAddr::V6(other))
            == IpAddr::V6(other),
{
    let w = (0xFFFF_0000_0000 + v) as u128;
    assert(w as nat / 4294967296 == 65535);
    assert(w as nat % 4294967296 == v as nat);
}

/// A network covers exactly the addresses of its family that lie in its block: from its first
/// address on, as many as the bits behind its prefix can count.
pub proof fn network_covers_its_block(net: IpNet, addr: IpAddr)
    requires
        net.wf(),
    ensures
        ({
            let size = pow2((net.addr.width() - net.prefix_len) as nat) as int;
            let first = net.addr.bits() - net.addr.bits() as int % size;
            net.covers(addr) == (net.addr.width() == addr.width() && first <= addr.bits() < first
                + size)
        }),
{
    let size = pow2((net.addr.width() - net.prefix_len) as nat) as int;
    lemma_pow2_pos((net.addr.width() - net.prefix_len) as nat);
    let x = net.addr.bits() as int;
    let y = addr.bits() as int;
    let q = x / size;
    let first = x - x % size;
    lemma_fundamental_div_mod(x, size);
    lemma_fundamental_div_mod(y, size);
    assert(first == size * q);
    if y / size == q {
        assert(y == size * q + y % size);
    }
    if first <= y < first + size {
        lemma_fundamental_div_mod_converse(y, size, q, y - first);
    }
    lemma_mod_bound(y, size);
}

/// A network is written as its address, a slash and the length of its prefix.
pub proof fn networks_are_written_with_their_prefix(addr: IpAddr, len: u8)
    ensures
        net_text(IpNet { addr, prefix_len: len }) == ip_text(addr) + "/"@ + decimal(len as nat),
{
}

} // verus!
