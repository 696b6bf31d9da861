//! NAT type detection over UDP STUN: message layout, reply parsing and the decision tree.

use vstd::prelude::*;
use crate::auto_stun::clone_texts;
use crate::net::{IpAddr, SocketAddr};
use crate::text::{chars_of, find_char, find_from, lemma_find_from, nat_of_text, parse_u16, substring_of, trim, trim_bounds, trim_chars, trim_of, string_of};
use crate::wire::{be16, be32, bytes16, bytes32, push_be16, push_be32, random_u32, read_be16, read_be32, same_bytes, sub_bytes};

verus! {

/// How long one sending of a request is waited for, in milliseconds.
pub const UDP_TRANSACTION_TIMEOUT: u64 = 1000;

/// How often a request is sent at most.
pub const UDP_SEND_COUNT: usize = 3;

/// How long a whole query may take, in milliseconds.
pub const UDP_TOTAL_TIMEOUT: u64 = 5000;

/// The server that is asked where none is configured.
pub const DEFAULT_UDP_STUN_HOST: &'static str = "stun.cdnbye.com";

/// How long a detected NAT type stands before it is asked for again, in milliseconds.
pub const NAT_TYPE_REFRESH_INTERVAL: u64 = 3600000;

/// Size of the receive buffer.
pub const UDP_BUFFER_SIZE: usize = 1500;

/// The kind of NAT between this host and the network.
#[derive(Clone, Copy, PartialEq, Eq, Structural, Debug)]
pub enum NatType {
    UdpBlocked,
    OpenInternet,
    SymmetricUdpFirewall,
    FullCone,
    RestrictedCone,
    PortRestrictedCone,
    Symmetric,
    Unknown,
}

impl NatType {
    /// The name of a NAT type.
    pub open spec fn name(self) -> Seq<char> {
        match self {
            NatType::UdpBlocked => "UdpBlocked"@,
            NatType::OpenInternet => "OpenInternet"@,
            NatType::SymmetricUdpFirewall => "SymmetricUdpFirewall"@,
            NatType::FullCone => "FullCone"@,
            NatType::RestrictedCone => "RestrictedCone"@,
            NatType::PortRestrictedCone => "PortRestrictedCone"@,
            NatType::Symmetric => "Symmetric"@,
            NatType::Unknown => "Unknown"@,
        }
    }

    /// The name of the NAT type.
    pub fn as_str(&self) -> (name: &'static str)
        ensures
            name@ == self.name(),
    {
        match self {
            NatType::UdpBlocked => "UdpBlocked",
            NatType::OpenInternet => "OpenInternet",
            NatType::SymmetricUdpFirewall => "SymmetricUdpFirewall",
            NatType::FullCone => "FullCone",
            NatType::RestrictedCone => "RestrictedCone",
            NatType::PortRestrictedCone => "PortRestrictedCone",
            NatType::Symmetric => "Symmetric",
            NatType::Unknown => "Unknown",
        }
    }

    /// Whether the type says something: neither unknown nor without any reply.
    pub open spec fn conclusive(self) -> bool {
        self != NatType::Unknown && self != NatType::UdpBlocked
    }
}

/// Asks the server to answer from another address or port.
#[derive(Clone, Copy, PartialEq, Eq, Structural, Debug)]
pub struct UdpStunChangeRequest {
    pub change_ip: bool,
    pub change_port: bool,
}

impl UdpStunChangeRequest {
    /// A request for a change of address and port as given.
    pub fn new(change_ip: bool, change_port: bool) -> (r: Self)
        ensures
            r == (UdpStunChangeRequest { change_ip, change_port }),
    {
        UdpStunChangeRequest { change_ip, change_port }
    }

    /// The flag byte: 4 for the address, 2 for the port.
    pub open spec fn flags(self) -> u8 {
        if self.change_ip && self.change_port {
            6
        } else if self.change_ip {
            4
        } else if self.change_port {
            2
        } else {
            0
        }
    }
}

// -------------------------------------------------------------------- requests
/// The message of a binding request: type 1, body length, no magic cookie, the transaction
/// identifier and, where a change is asked for, the CHANGE-REQUEST attribute.
pub open spec fn udp_request(change: Option<UdpStunChangeRequest>, id: Seq<u8>) -> Seq<u8> {
    match change {
        None => bytes16(1) + bytes16(0) + bytes32(0) + id,
        Some(c) => bytes16(1) + bytes16(8) + bytes32(0) + id + bytes16(3) + bytes16(4) + seq![
            0u8,
            0u8,
            0u8,
            c.flags(),
        ],
    }
}

/// Builds a binding request with the transaction identifier made of the three given numbers.
pub fn udp_binding_request_with(
    change_request: Option<UdpStunChangeRequest>,
    a: u32,
    b: u32,
    c: u32,
) -> (msg: Vec<u8>)
    ensures
        msg@ == udp_request(change_request, bytes32(a) + bytes32(b) + bytes32(c)),
{
    let mut msg: Vec<u8> = Vec::new();
    push_be16(&mut msg, 1);
    push_be16(
        &mut msg,
        if change_request.is_some() {
            8
        } else {
            0
        },
    );
    push_be32(&mut msg, 0);
    push_be32(&mut msg, a);
    push_be32(&mut msg, b);
    push_be32(&mut msg, c);
    if let Some(change) = change_request {
        push_be16(&mut msg, 3);
        push_be16(&mut msg, 4);
        msg.push(0);
        msg.push(0);
        msg.push(0);
        let ip_flag: u8 = if change.change_ip {
            4
        } else {
            0
        };
        let port_flag: u8 = if change.change_port {
            2
        } else {
            0
        };
        msg.push(ip_flag + port_flag);
    }
    assert(msg@ =~= udp_request(change_request, bytes32(a) + bytes32(b) + bytes32(c)));
    msg
}

/// Builds a binding request with a random transaction identifier.
pub fn create_udp_binding_request(change_request: Option<UdpStunChangeRequest>) -> (msg: Vec<u8>)
    ensures
        exists|id: Seq<u8>|
            id.len() == 12 && msg@ == #[trigger] udp_request(change_request, id),
{
    let a = random_u32();
    let b = random_u32();
    let c = random_u32();
    let msg = udp_binding_request_with(change_request, a, b, c);
    assert((bytes32(a) + bytes32(b) + bytes32(c)).len() == 12);
    msg
}

/// The transaction identifier of a message: its bytes 8 to 20.
pub open spec fn transaction_id(message: Seq<u8>) -> Option<Seq<u8>> {
    if message.len() >= 20 {
        Some(message.subrange(8, 20))
    } else {
        None
    }
}

/// The transaction identifier of a message.
pub fn udp_transaction_id(message: &[u8]) -> (id: Option<Vec<u8>>)
    ensures
        match id {
            Some(v) => transaction_id(message@) == Some(v@),
            None => transaction_id(message@) is None,
        },
{
    if message.len() < 20 {
        return None;
    }
    Some(sub_bytes(message, 8, 20))
}

/// The flags of the first readable CHANGE-REQUEST attribute from `offset` on.
pub open spec fn change_flags_from(request: Seq<u8>, offset: int) -> (bool, bool)
    decreases request.len() + 70000 - offset,
{
    if offset < 20 || offset + 4 > request.len() || offset - 20 >= be16(request, 2) {
        (false, false)
    } else if be16(request, offset) == 3 && offset + 8 <= request.len() {
        let flags = request[offset + 7];
        ((flags / 4) % 2 == 1, (flags / 2) % 2 == 1)
    } else {
        change_flags_from(request, offset + 4 + be16(request, offset + 2))
    }
}

/// Which changes a request asks for: `(address, port)`; none without a CHANGE-REQUEST attribute.
pub fn udp_change_request_flags(request: &[u8]) -> (r: (bool, bool))
    ensures
        r == if request.len() >= 4 {
            change_flags_from(request@, 20)
        } else {
            (false, false)
        },
{
    if request.len() < 4 {
        return (false, false);
    }
    let message_length = read_be16(request, 2) as usize;
    let mut offset: usize = 20;
    while offset <= request.len() && request.len() - offset >= 4 && offset - 20 < message_length
        invariant
            20 <= offset,
            4 <= request.len(),
            message_length == be16(request@, 2),
            change_flags_from(request@, 20) == change_flags_from(request@, offset as int),
        decreases request.len() + 65540 - offset,
    {
        let attr_type = read_be16(request, offset);
        let attr_len = read_be16(request, offset + 2) as usize;
        if attr_type == 3 && request.len() - offset >= 8 {
            let flags = request[offset + 7];
            return ((flags / 4) % 2 == 1, (flags / 2) % 2 == 1);
        }
        if attr_len > request.len() - offset - 4 {
            assert(change_flags_from(request@, offset + 4 + attr_len) == (false, false));
            return (false, false);
        }
        offset = offset + 4 + attr_len;
    }
    (false, false)
}

proof fn lemma_request_flags(change: Option<UdpStunChangeRequest>, id: Seq<u8>)
    requires
        id.len() == 12,
    ensures
        change_flags_from(udp_request(change, id), 20) == match change {
            Some(c) => (c.change_ip, c.change_port),
            None => (false, false),
        },
        transaction_id(udp_request(change, id)) == Some(id),
{
    let m = udp_request(change, id);
    assert(m.subrange(8, 20) =~= id);
    match change {
        Some(c) => {
            assert(m[2] == 0 && m[3] == 8);
            assert(m[20] == 0 && m[21] == 3);
            assert(m[27] == c.flags());
        },
        None => {},
    }
}

/// A request is read back as it was built: the changes it asks for and its transaction identifier.
pub proof fn udp_request_round_trips(change: Option<UdpStunChangeRequest>, id: Seq<u8>)
    requires
        id.len() == 12,
    ensures
        change_flags_from(udp_request(change, id), 20) == match change {
            Some(c) => (c.change_ip, c.change_port),
            None => (false, false),
        },
        transaction_id(udp_request(change, id)) == Some(id),
{
    lemma_request_flags(change, id);
}

// --------------------------------------------------------------------- replies
/// Why a STUN message was not accepted.
#[derive(Clone, Copy, PartialEq, Eq, Structural, Debug)]
pub enum UdpStunError {
    /// Shorter than a header.
    TooShort,
    /// A message type that STUN does not know.
    UnknownType,
    /// The body ends within an attribute header.
    TruncatedHeader,
    /// The body ends within an address.
    TruncatedAddress,
}

impl UdpStunError {
    /// The message of an error.
    pub open spec fn text(self) -> Seq<char> {
        match self {
            UdpStunError::TooShort => "Invalid STUN message value !"@,
            UdpStunError::UnknownType => "Invalid STUN message type value !"@,
            UdpStunError::TruncatedHeader => "Truncated STUN attribute header"@,
            UdpStunError::TruncatedAddress => "Truncated STUN address attribute"@,
        }
    }

    /// The message of the error.
    pub fn message(&self) -> (text: &'static str)
        ensures
            text@ == self.text(),
    {
        match self {
            UdpStunError::TooShort => "Invalid STUN message value !",
            UdpStunError::UnknownType => "Invalid STUN message type value !",
            UdpStunError::TruncatedHeader => "Truncated STUN attribute header",
            UdpStunError::TruncatedAddress => "Truncated STUN address attribute",
        }
    }
}

/// The addresses of a STUN reply.
#[derive(Clone, Copy, PartialEq, Eq, Structural, Debug)]
pub struct UdpStunResponse {
    pub mapped_address: Option<SocketAddr>,
    pub source_address: Option<SocketAddr>,
    pub changed_address: Option<SocketAddr>,
}

impl Default for UdpStunResponse {
    fn default() -> (v: Self)
        ensures
            v.mapped_address is None,
            v.source_address is None,
            v.changed_address is None,
    {
        UdpStunResponse {
            mapped_address: None,
            source_address: None,
            changed_address: None,
        }
    }
}

/// The address value at `offset`: two bytes that are not looked at, the port and an IPv4 address.
pub open spec fn udp_address(data: Seq<u8>, offset: int) -> SocketAddr {
    SocketAddr { ip: IpAddr::V4(be32(data, offset + 4) as u32), port: be16(data, offset + 2) as u16 }
}

/// The reply with the address of one attribute entered.
pub open spec fn with_address(
    r: UdpStunResponse,
    attr_type: int,
    addr: SocketAddr,
) -> UdpStunResponse {
    if attr_type == 1 {
        UdpStunResponse { mapped_address: Some(addr), ..r }
    } else if attr_type == 4 {
        UdpStunResponse { source_address: Some(addr), ..r }
    } else if attr_type == 5 {
        UdpStunResponse { changed_address: Some(addr), ..r }
    } else {
        r
    }
}

/// Whether an attribute holds an address: MAPPED, RESPONSE, SOURCE or CHANGED-ADDRESS.
pub open spec fn holds_address(attr_type: int) -> bool {
    attr_type == 1 || attr_type == 2 || attr_type == 4 || attr_type == 5
}

/// The addresses of the attributes from `offset` on, entered into `acc`. An address attribute
/// takes eight bytes whatever length it declares; others take the length they declare.
pub open spec fn attributes_from(data: Seq<u8>, offset: int, acc: UdpStunResponse) -> Result<
    UdpStunResponse,
    UdpStunError,
>
    decreases data.len() + 70000 - offset,
{
    if offset < 20 || offset - 20 >= be16(data, 2) {
        Ok(acc)
    } else if offset + 4 > data.len() {
        Err(UdpStunError::TruncatedHeader)
    } else if holds_address(be16(data, offset)) {
        if offset + 12 > data.len() {
            Err(UdpStunError::TruncatedAddress)
        } else {
            attributes_from(
                data,
                offset + 12,
                with_address(acc, be16(data, offset), udp_address(data, offset + 4)),
            )
        }
    } else {
        attributes_from(data, offset + 4 + be16(data, offset + 2), acc)
    }
}

/// The six message types of STUN.
pub open spec fn known_type(message_type: int) -> bool {
    message_type == 0x0001 || message_type == 0x0101 || message_type == 0x0111 || message_type
        == 0x0002 || message_type == 0x0102 || message_type == 0x0112
}

/// What a STUN reply says.
pub open spec fn udp_reply(data: Seq<u8>) -> Result<UdpStunResponse, UdpStunError> {
    if data.len() < 20 {
        Err(UdpStunError::TooShort)
    } else if !known_type(be16(data, 0)) {
        Err(UdpStunError::UnknownType)
    } else {
        attributes_from(
            data,
            20,
            UdpStunResponse { mapped_address: None, source_address: None, changed_address: None },
        )
    }
}

fn parse_udp_address(data: &[u8], offset: usize) -> (r: Result<SocketAddr, UdpStunError>)
    requires
        offset <= data.len(),
    ensures
        r == if offset + 8 <= data.len() {
            Ok(udp_address(data@, offset as int))
        } else {
            Err(UdpStunError::TruncatedAddress)
        },
{
    if data.len() - offset < 8 {
        return Err(UdpStunError::TruncatedAddress);
    }
    let port = read_be16(data, offset + 2);
    let ip = read_be32(data, offset + 4);
    Ok(SocketAddr { ip: IpAddr::V4(ip), port })
}

/// Reads the addresses of a STUN reply.
pub fn parse_udp_stun_response(data: &[u8]) -> (r: Result<UdpStunResponse, UdpStunError>)
    ensures
        r == udp_reply(data@),
{
    if data.len() < 20 {
        return Err(UdpStunError::TooShort);
    }
    let message_type = read_be16(data, 0);
    if !(message_type == 0x0001 || message_type == 0x0101 || message_type == 0x0111 || message_type
        == 0x0002 || message_type == 0x0102 || message_type == 0x0112) {
        return Err(UdpStunError::UnknownType);
    }
    let message_length = read_be16(data, 2) as usize;
    let mut out = UdpStunResponse {
        mapped_address: None,
        source_address: None,
        changed_address: None,
    };
    let mut offset: usize = 20;
    while offset - 20 < message_length
        invariant
            20 <= offset,
            data.len() >= 20,
            message_length == be16(data@, 2),
            message_length <= 65535,
            known_type(be16(data@, 0)),
            udp_reply(data@) == attributes_from(data@, offset as int, out),
        decreases data.len() + 70000 - offset,
    {
        if offset > data.len() || data.len() - offset < 4 {
            return Err(UdpStunError::TruncatedHeader);
        }
        let attr_type = read_be16(data, offset);
        let attr_len = read_be16(data, offset + 2) as usize;
        if attr_type == 1 || attr_type == 2 || attr_type == 4 || attr_type == 5 {
            let addr = match parse_udp_address(data, offset + 4) {
                Ok(addr) => addr,
                Err(e) => {
                    return Err(e);
                },
            };
            if attr_type == 1 {
                out.mapped_address = Some(addr);
            } else if attr_type == 4 {
                out.source_address = Some(addr);
            } else if attr_type == 5 {
                out.changed_address = Some(addr);
            }
            offset = offset + 12;
        } else {
            offset = offset + 4 + attr_len;
        }
    }
    Ok(out)
}

// ---------------------------------------------------------------- transactions
/// One request on its way: it is sent again up to a number of times until a reply with its
/// transaction identifier comes.
#[derive(Debug)]
pub struct UdpTransaction {
    request: Vec<u8>,
    sendings_left: usize,
}

impl UdpTransaction {
    /// The message to send.
    pub closed spec fn request(&self) -> Seq<u8> {
        self.request@
    }

    /// How many sendings are left.
    pub closed spec fn sendings_left(&self) -> usize {
        self.sendings_left
    }

    /// A transaction for a request; `None` if the message is too short to have an identifier.
    pub fn new(request: Vec<u8>, send_count: usize) -> (r: Option<UdpTransaction>)
        ensures
            (r is Some) == (request.len() >= 20),
            r matches Some(t) ==> t.request() == request@ && t.sendings_left() == send_count,
    {
        if request.len() < 20 {
            return None;
        }
        Some(UdpTransaction { request, sendings_left: send_count })
    }

    /// Whether to send once more: not past the deadline and not more often than allowed.
    pub fn send_again(&mut self, now_ms: u64, deadline_ms: u64) -> (send: bool)
        ensures
            send == (old(self).sendings_left() > 0 && now_ms < deadline_ms),
            final(self).request() == old(self).request(),
            final(self).sendings_left() == if send {
                (old(self).sendings_left() - 1) as usize
            } else {
                old(self).sendings_left()
            },
    {
        if self.sendings_left > 0 && now_ms < deadline_ms {
            self.sendings_left = self.sendings_left - 1;
            true
        } else {
            false
        }
    }

    /// What a received datagram means: `None` for one of another transaction, else the reply.
    pub fn on_datagram(&self, datagram: &[u8]) -> (r: Option<
        Result<UdpStunResponse, UdpStunError>,
    >)
        ensures
            r == if transaction_id(datagram@) is Some && transaction_id(datagram@)
                == transaction_id(self.request()) {
                Some(udp_reply(datagram@))
            } else {
                None
            },
    {
        match (udp_transaction_id(datagram), udp_transaction_id(self.request.as_slice())) {
            (Some(got), Some(want)) => if same_bytes(got.as_slice(), want.as_slice()) {
                Some(parse_udp_stun_response(datagram))
            } else {
                None
            },
            _ => None,
        }
    }
}

/// When the wait for a reply to a sending ends: after the timeout, but at the deadline at last.
pub fn attempt_deadline(now_ms: u64, timeout_ms: u64, deadline_ms: u64) -> (end: u64)
    ensures
        end == if now_ms + timeout_ms <= deadline_ms {
            (now_ms + timeout_ms) as u64
        } else {
            deadline_ms
        },
{
    match now_ms.checked_add(timeout_ms) {
        Some(at) => if at <= deadline_ms {
            at
        } else {
            deadline_ms
        },
        None => deadline_ms,
    }
}

// --------------------------------------------------------------- decision tree
/// Whether the reply says that it was sent from another address than the one asked.
pub open spec fn from_elsewhere(response: UdpStunResponse, asked: SocketAddr) -> bool {
    match response.source_address {
        Some(source) => source != asked,
        None => false,
    }
}

fn response_from_different_address(response: &UdpStunResponse, asked: SocketAddr) -> (yes: bool)
    ensures
        yes == from_elsewhere(*response, asked),
{
    match response.source_address {
        Some(source) => source.ip != asked.ip || source.port != asked.port,
        None => false,
    }
}

/// A reply, or `None` where the transaction failed.
pub type Reply = Option<UdpStunResponse>;

/// The verdict on a NAT, from the replies to the four tests in the order in which they are made:
/// test I, test II (change address and port), test I at the changed address and test III there
/// (change port).
pub open spec fn verdict(
    server: SocketAddr,
    local_ip: IpAddr,
    one: Reply,
    two: Reply,
    one_again: Reply,
    three: Reply,
) -> (NatType, Option<SocketAddr>) {
    match one {
        None => (NatType::UdpBlocked, None),
        Some(first) => match first.mapped_address {
            None => (NatType::Unknown, None),
            Some(mapped) => (
                match two {
                    Some(second) => if !from_elsewhere(second, server) {
                        NatType::Unknown
                    } else if mapped.ip == local_ip {
                        NatType::OpenInternet
                    } else {
                        NatType::FullCone
                    },
                    None => if mapped.ip == local_ip {
                        NatType::SymmetricUdpFirewall
                    } else if first.changed_address is None {
                        NatType::Unknown
                    } else {
                        match one_again {
                            Some(UdpStunResponse { mapped_address: Some(again), .. }) => if again
                                != mapped {
                                NatType::Symmetric
                            } else if three is Some {
                                NatType::RestrictedCone
                            } else {
                                NatType::PortRestrictedCone
                            },
                            _ => NatType::Unknown,
                        }
                    },
                },
                Some(mapped),
            ),
        },
    }
}

/// How far the detection has come.
#[derive(Clone, Copy, PartialEq, Eq, Structural, Debug)]
pub enum NatStage {
    /// Test I is to be made.
    TestOne,
    /// Test II is to be made.
    TestTwo { mapped: SocketAddr, alternate: Option<SocketAddr> },
    /// Test I is to be made at the changed address.
    TestOneAgain { mapped: SocketAddr, changed: SocketAddr },
    /// Test III is to be made at the changed address.
    TestThree { mapped: SocketAddr, changed: SocketAddr },
    /// The verdict is reached.
    Done { nat_type: NatType, address: Option<SocketAddr> },
}

/// The detection of the NAT type with one server.
#[derive(Clone, Copy, PartialEq, Eq, Structural, Debug)]
pub struct NatQuery {
    pub server: SocketAddr,
    pub local_ip: IpAddr,
    pub stage: NatStage,
}

impl NatQuery {
    /// The stage behind a reply.
    pub open spec fn after(self, reply: Reply) -> NatStage {
        match self.stage {
            NatStage::TestOne => match reply {
                None => NatStage::Done { nat_type: NatType::UdpBlocked, address: None },
                Some(first) => match first.mapped_address {
                    None => NatStage::Done { nat_type: NatType::Unknown, address: None },
                    Some(mapped) => NatStage::TestTwo { mapped, alternate: first.changed_address },
                },
            },
            NatStage::TestTwo { mapped, alternate } => {
                let no_nat = mapped.ip == self.local_ip;
                match reply {
                    Some(second) => NatStage::Done {
                        nat_type: if !from_elsewhere(second, self.server) {
                            NatType::Unknown
                        } else if no_nat {
                            NatType::OpenInternet
                        } else {
                            NatType::FullCone
                        },
                        address: Some(mapped),
                    },
                    None => if no_nat {
                        NatStage::Done {
                            nat_type: NatType::SymmetricUdpFirewall,
                            address: Some(mapped),
                        }
                    } else {
                        match alternate {
                            Some(c) => NatStage::TestOneAgain { mapped, changed: c },
                            None => NatStage::Done {
                                nat_type: NatType::Unknown,
                                address: Some(mapped),
                            },
                        }
                    },
                }
            },
            NatStage::TestOneAgain { mapped, changed } => match reply {
                Some(UdpStunResponse { mapped_address: Some(again), .. }) => if again != mapped {
                    NatStage::Done { nat_type: NatType::Symmetric, address: Some(mapped) }
                } else {
                    NatStage::TestThree { mapped, changed }
                },
                _ => NatStage::Done { nat_type: NatType::Unknown, address: Some(mapped) },
            },
            NatStage::TestThree { mapped, changed } => NatStage::Done {
                nat_type: if reply is Some {
                    NatType::RestrictedCone
                } else {
                    NatType::PortRestrictedCone
                },
                address: Some(mapped),
            },
            NatStage::Done { nat_type, address } => self.stage,
        }
    }

    /// The stage when time ran out: without a reply to test I, UDP counts as blocked, and behind
    /// it nothing is known.
    pub open spec fn out_of_time(self) -> NatStage {
        match self.stage {
            NatStage::TestOne => NatStage::Done { nat_type: NatType::UdpBlocked, address: None },
            NatStage::TestTwo { mapped, alternate } => NatStage::Done {
                nat_type: NatType::Unknown,
                address: Some(mapped),
            },
            NatStage::TestOneAgain { mapped, changed } => NatStage::Done {
                nat_type: NatType::Unknown,
                address: Some(mapped),
            },
            NatStage::TestThree { mapped, changed } => NatStage::Done {
                nat_type: NatType::Unknown,
                address: Some(mapped),
            },
            NatStage::Done { nat_type, address } => self.stage,
        }
    }

    /// Starts the detection.
    pub fn new(server: SocketAddr, local_ip: IpAddr) -> (q: NatQuery)
        ensures
            q == (NatQuery { server, local_ip, stage: NatStage::TestOne }),
    {
        NatQuery { server, local_ip, stage: NatStage::TestOne }
    }

    /// The test to make next: where to send a request and which change it asks for; `None` once
    /// the verdict is reached.
    pub open spec fn test(self) -> Option<(SocketAddr, Option<UdpStunChangeRequest>)> {
        match self.stage {
            NatStage::TestOne => Some((self.server, None::<UdpStunChangeRequest>)),
            NatStage::TestTwo { mapped, alternate } => Some(
                (
                    self.server,
                    Some(UdpStunChangeRequest { change_ip: true, change_port: true }),
                ),
            ),
            NatStage::TestOneAgain { mapped, changed } => Some(
                (changed, None::<UdpStunChangeRequest>),
            ),
            NatStage::TestThree { mapped, changed } => Some(
                (changed, Some(UdpStunChangeRequest { change_ip: false, change_port: true })),
            ),
            NatStage::Done { nat_type, address } => None,
        }
    }

    /// The test to make next: where to send a request and which change it asks for; `None` once
    /// the verdict is reached.
    pub fn next_test(&self) -> (r: Option<(SocketAddr, Option<UdpStunChangeRequest>)>)
        ensures
            r == self.test(),
    {
        match self.stage {
            NatStage::TestOne => Some((self.server, None)),
            NatStage::TestTwo { .. } => Some(
                (self.server, Some(UdpStunChangeRequest::new(true, true))),
            ),
            NatStage::TestOneAgain { changed, .. } => Some((changed, None)),
            NatStage::TestThree { changed, .. } => Some(
                (changed, Some(UdpStunChangeRequest::new(false, true))),
            ),
            NatStage::Done { .. } => None,
        }
    }

    /// Takes the reply to the test made, or `None` where the transaction failed.
    pub fn on_reply(&mut self, reply: Option<UdpStunResponse>)
        ensures
            *final(self) == (NatQuery { stage: old(self).after(reply), ..*old(self) }),
    {
        let next = match self.stage {
            NatStage::TestOne => match reply {
                None => NatStage::Done { nat_type: NatType::UdpBlocked, address: None },
                Some(first) => match first.mapped_address {
                    None => NatStage::Done { nat_type: NatType::Unknown, address: None },
                    Some(mapped) => NatStage::TestTwo { mapped, alternate: first.changed_address },
                },
            },
            NatStage::TestTwo { mapped, alternate } => {
                let no_nat = mapped.ip == self.local_ip;
                match reply {
                    Some(second) => {
                        let nat_type = if !response_from_different_address(&second, self.server) {
                            NatType::Unknown
                        } else if no_nat {
                            NatType::OpenInternet
                        } else {
                            NatType::FullCone
                        };
                        NatStage::Done { nat_type, address: Some(mapped) }
                    },
                    None => if no_nat {
                        NatStage::Done {
                            nat_type: NatType::SymmetricUdpFirewall,
                            address: Some(mapped),
                        }
                    } else {
                        match alternate {
                            Some(c) => NatStage::TestOneAgain { mapped, changed: c },
                            None => NatStage::Done {
                                nat_type: NatType::Unknown,
                                address: Some(mapped),
                            },
                        }
                    },
                }
            },
            NatStage::TestOneAgain { mapped, changed } => {
                let again = match reply {
                    Some(r) => r.mapped_address,
                    None => None,
                };
                match again {
                    Some(a) => if a != mapped {
                        NatStage::Done { nat_type: NatType::Symmetric, address: Some(mapped) }
                    } else {
                        NatStage::TestThree { mapped, changed }
                    },
                    None => NatStage::Done { nat_type: NatType::Unknown, address: Some(mapped) },
                }
            },
            NatStage::TestThree { mapped, .. } => {
                let nat_type = if reply.is_some() {
                    NatType::RestrictedCone
                } else {
                    NatType::PortRestrictedCone
                };
                NatStage::Done { nat_type, address: Some(mapped) }
            },
            NatStage::Done { nat_type, address } => NatStage::Done { nat_type, address },
        };
        self.stage = next;
    }

    /// Takes note that the transaction of the test made failed at some time. Up to the deadline of
    /// the whole detection that is an answer; from then on the detection is over.
    pub fn on_failure(&mut self, now_ms: u64, deadline_ms: u64)
        ensures
            *final(self) == (NatQuery {
                stage: if now_ms < deadline_ms {
                    old(self).after(None)
                } else {
                    old(self).out_of_time()
                },
                ..*old(self)
            }),
    {
        if now_ms < deadline_ms {
            self.on_reply(None);
            return;
        }
        let next = match self.stage {
            NatStage::TestOne => NatStage::Done { nat_type: NatType::UdpBlocked, address: None },
            NatStage::TestTwo { mapped, .. } => NatStage::Done {
                nat_type: NatType::Unknown,
                address: Some(mapped),
            },
            NatStage::TestOneAgain { mapped, .. } => NatStage::Done {
                nat_type: NatType::Unknown,
                address: Some(mapped),
            },
            NatStage::TestThree { mapped, .. } => NatStage::Done {
                nat_type: NatType::Unknown,
                address: Some(mapped),
            },
            NatStage::Done { nat_type, address } => NatStage::Done { nat_type, address },
        };
        self.stage = next;
    }
}

/// How many tests may be left at most.
pub open spec fn tests_left(stage: NatStage) -> nat {
    match stage {
        NatStage::TestOne => 4,
        NatStage::TestTwo { mapped, alternate } => 3,
        NatStage::TestOneAgain { mapped, changed } => 2,
        NatStage::TestThree { mapped, changed } => 1,
        NatStage::Done { nat_type, address } => 0,
    }
}

/// Whether a message is a request for a change.
pub open spec fn requests(message: Seq<u8>, change: Option<UdpStunChangeRequest>) -> bool {
    exists|id: Seq<u8>| id.len() == 12 && message == #[trigger] udp_request(change, id)
}

/// Whether requests may be sent in every way.
pub open spec fn transacts<X: Fn(&Vec<u8>, SocketAddr, u64) -> Result<UdpStunResponse, u64>>(
    transact: X,
) -> bool {
    forall|request: &Vec<u8>, target: SocketAddr, deadline_ms: u64|
        transact.requires((request, target, deadline_ms))
}

impl NatQuery {
    /// The detection behind the outcome of a test: its reply, or the time when it failed.
    pub open spec fn behind(
        self,
        outcome: Result<UdpStunResponse, u64>,
        deadline_ms: u64,
    ) -> NatQuery {
        NatQuery {
            stage: match outcome {
                Ok(reply) => self.after(Some(reply)),
                Err(now_ms) => if now_ms < deadline_ms {
                    self.after(None)
                } else {
                    self.out_of_time()
                },
            },
            ..self
        }
    }

    /// Whether a detection with at most so many tests may come to a verdict. For each test a request
    /// for its change goes where it is made.
    pub open spec fn detects<X: Fn(&Vec<u8>, SocketAddr, u64) -> Result<UdpStunResponse, u64>>(
        self,
        transact: X,
        deadline_ms: u64,
        tests: nat,
        r: (NatType, Option<SocketAddr>),
    ) -> bool
        decreases tests,
    {
        match self.test() {
            None => self.stage == (NatStage::Done { nat_type: r.0, address: r.1 }),
            Some(test) => {
                &&& tests > 0
                &&& exists|request: Vec<u8>, outcome: Result<UdpStunResponse, u64>|
                    {
                        &&& requests(request@, test.1)
                        &&& #[trigger] transact.ensures((&request, test.0, deadline_ms), outcome)
                        &&& self.behind(outcome, deadline_ms).detects(
                            transact,
                            deadline_ms,
                            (tests - 1) as nat,
                            r,
                        )
                    }
            },
        }
    }

    fn run_tests<X: Fn(&Vec<u8>, SocketAddr, u64) -> Result<UdpStunResponse, u64>>(
        self,
        deadline_ms: u64,
        transact: &X,
        tests: u8,
    ) -> (r: (NatType, Option<SocketAddr>))
        requires
            transacts(*transact),
            tests_left(self.stage) <= tests,
        ensures
            self.detects(*transact, deadline_ms, tests as nat, r),
        decreases tests,
    {
        if let NatStage::Done { nat_type, address } = self.stage {
            return (nat_type, address);
        }
        let mut query = self;
        match self.next_test() {
            None => (NatType::Unknown, None),
            Some((target, change)) => {
                let request = create_udp_binding_request(change);
                let outcome = transact(&request, target, deadline_ms);
                assert(requests(request@, change));
                assert(transact.ensures((&request, target, deadline_ms), outcome));
                match outcome {
                    Ok(reply) => query.on_reply(Some(reply)),
                    Err(now_ms) => query.on_failure(now_ms, deadline_ms),
                }
                assert(query == self.behind(outcome, deadline_ms));
                query.run_tests(deadline_ms, transact, tests - 1)
            },
        }
    }

    /// Detects the NAT type up to a deadline: the type and the address that test I showed.
    /// `transact` sends a request somewhere until the deadline: it gives the reply, or the time when
    /// that failed.
    pub fn run<X: Fn(&Vec<u8>, SocketAddr, u64) -> Result<UdpStunResponse, u64>>(
        self,
        deadline_ms: u64,
        transact: &X,
    ) -> (r: (NatType, Option<SocketAddr>))
        requires
            transacts(*transact),
        ensures
            self.detects(*transact, deadline_ms, 4, r),
    {
        self.run_tests(deadline_ms, transact, 4)
    }
}

/// A detection that runs out of time comes to no conclusion.
pub proof fn no_conclusion_out_of_time(query: NatQuery)
    requires
        !(query.stage is Done),
    ensures
        query.out_of_time() is Done,
        !query.out_of_time()->nat_type.conclusive(),
{
}

/// Whatever is replied, the detection is over after at most four tests, with the verdict that the
/// replies give.
pub proof fn query_reaches_the_verdict(
    server: SocketAddr,
    local_ip: IpAddr,
    one: Reply,
    two: Reply,
    one_again: Reply,
    three: Reply,
)
    ensures
        ({
            let q0 = NatQuery { server, local_ip, stage: NatStage::TestOne };
            let q1 = NatQuery { stage: q0.after(one), ..q0 };
            let q2 = NatQuery { stage: q1.after(two), ..q0 };
            let q3 = NatQuery { stage: q2.after(one_again), ..q0 };
            let v = verdict(server, local_ip, one, two, one_again, three);
            q3.after(three) == NatStage::Done { nat_type: v.0, address: v.1 }
        }),
{
}

// --------------------------------------------------------------- server lists
/// The host and port of a server written `host:port` with exactly one colon.
pub open spec fn udp_server_of(server: Seq<char>) -> Option<(Seq<char>, u16)> {
    let t = trim_of(server);
    match find_from(t, ':', 0) {
        None => None,
        Some(i) => if find_from(t, ':', i + 1) is Some {
            None
        } else {
            match nat_of_text(trim_of(t.skip(i + 1))) {
                Some(port) => if port <= 65535 {
                    Some((trim_of(t.take(i)), port as u16))
                } else {
                    None
                },
                None => None,
            }
        },
    }
}

/// Splits a server written `host:port`; `None` unless there are exactly two parts and a port.
pub fn split_udp_stun_server(server: &str) -> (r: Option<(String, u16)>)
    ensures
        match r {
            Some((host, port)) => udp_server_of(server@) == Some((host@, port)),
            None => udp_server_of(server@) is None,
        },
{
    let trimmed = trim(server);
    let t = chars_of(trimmed.as_str());
    let i = match find_char(t.as_slice(), ':', 0) {
        None => {
            return None;
        },
        Some(i) => i,
    };
    if find_char(t.as_slice(), ':', i + 1).is_some() {
        return None;
    }
    let port_text = substring_of(t.as_slice(), i + 1, t.len());
    assert(port_text@ =~= t@.skip(i + 1));
    let port_raw = chars_of(port_text.as_str());
    let port_chars = trim_chars(port_raw.as_slice());
    let port = match parse_u16(port_chars.as_slice()) {
        None => {
            return None;
        },
        Some(port) => port,
    };
    let host = substring_of(t.as_slice(), 0, i);
    assert(host@ =~= t@.take(i as int));
    Some((trim(host.as_str()), port))
}

/// Whether a server may be queried in every way.
pub open spec fn queries<Q: Fn(&String, u16, IpAddr, u64) -> Option<(NatType, Option<SocketAddr>)>>(
    query: Q,
) -> bool {
    forall|host: &String, port: u16, local_ip: IpAddr, timeout: u64|
        query.requires((host, port, local_ip, timeout))
}

/// Whether the query of a server may end so. One that is not written `host:port` is not asked. The
/// address to compare with is `0.0.0.0`, and there are five seconds.
pub open spec fn server_queried<
    Q: Fn(&String, u16, IpAddr, u64) -> Option<(NatType, Option<SocketAddr>)>,
>(query: Q, server: Seq<char>, r: Option<(NatType, Option<SocketAddr>)>) -> bool {
    match udp_server_of(server) {
        None => r is None,
        Some((host, port)) => exists|h: String|
            h@ == host && #[trigger] query.ensures(
                (&h, port, IpAddr::V4(0), UDP_TOTAL_TIMEOUT),
                r,
            ),
    }
}

/// Detects the NAT type with a server; `None` where that cannot be done. `query` is told the host
/// and port of the server, the address to compare with, and how long it may take in milliseconds.
pub fn query_udp_stun_server<
    Q: Fn(&String, u16, IpAddr, u64) -> Option<(NatType, Option<SocketAddr>)>,
>(server: &str, query: &Q) -> (r: Option<(NatType, Option<SocketAddr>)>)
    requires
        queries(*query),
    ensures
        server_queried(*query, server@, r),
{
    match split_udp_stun_server(server) {
        None => None,
        Some((host, port)) => {
            let r = query(&host, port, IpAddr::V4(0), UDP_TOTAL_TIMEOUT);
            assert(query.ensures((&host, port, IpAddr::V4(0), UDP_TOTAL_TIMEOUT), r));
            r
        },
    }
}

/// Remembers the NAT type that was detected last.
#[derive(Debug)]
pub struct NatTypeProber {
    cached: NatType,
}

impl Default for NatTypeProber {
    fn default() -> (v: Self)
        ensures
            v@ == NatType::Unknown,
    {
        NatTypeProber::new()
    }
}

impl NatTypeProber {
    /// The NAT type that was detected last.
    pub closed spec fn view(&self) -> NatType {
        self.cached
    }

    /// A prober that has detected nothing yet.
    pub fn new() -> (p: NatTypeProber)
        ensures
            p@ == NatType::Unknown,
    {
        NatTypeProber { cached: NatType::Unknown }
    }

    /// The NAT type that was detected last.
    pub fn cached_nat_type(&self) -> (t: NatType)
        ensures
            t == self@,
    {
        self.cached
    }

    /// Takes the outcome of one server's query (`None` where it could not be made): a conclusive
    /// type is kept and ends the round.
    pub fn on_outcome(&mut self, outcome: Option<NatType>) -> (r: Option<NatType>)
        ensures
            match outcome {
                Some(t) => if t.conclusive() {
                    r == Some(t) && final(self)@ == t
                } else {
                    r is None && final(self)@ == old(self)@
                },
                None => r is None && final(self)@ == old(self)@,
            },
    {
        match outcome {
            Some(t) => if t != NatType::Unknown && t != NatType::UdpBlocked {
                self.cached = t;
                Some(t)
            } else {
                None
            },
            None => None,
        }
    }

    /// Ends a round in which no server gave a conclusive type.
    pub fn exhausted(&mut self) -> (t: NatType)
        ensures
            t == NatType::UdpBlocked,
            final(self)@ == NatType::UdpBlocked,
    {
        self.cached = NatType::UdpBlocked;
        NatType::UdpBlocked
    }

    /// Asks `query` for each server that is written `host:port`, in turn, until it gives a
    /// conclusive type, which is kept and returned; without one, UDP counts as blocked.
    fn ask_in_turn<Q: Fn(&String, u16, IpAddr, u64) -> Option<(NatType, Option<SocketAddr>)>>(
        &mut self,
        servers: &Vec<String>,
        query: Q,
    ) -> (t: NatType)
        requires
            queries(query),
        ensures
            final(self)@ == t,
            asked_in_turn(query, servers@, t),
    {
        let mut i: usize = 0;
        while i < servers.len()
            invariant
                i <= servers.len(),
                queries(query),
                forall|k: int| 0 <= k < i ==> passed_over(query, #[trigger] servers@[k]),
            decreases servers.len() - i,
        {
            let found = query_udp_stun_server(servers[i].as_str(), &query);
            assert(server_queried(query, servers@[i as int]@, found));
            let outcome = match found {
                Some((t, _)) => Some(t),
                None => None,
            };
            if let Some(t) = self.on_outcome(outcome) {
                proof {
                    if let Some((_, address)) = found {
                        assert(server_queried(
                            query,
                            servers@[i as int]@,
                            Some((t, address)),
                        ));
                    }
                }
                return t;
            }
            assert(passed_over(query, servers@[i as int]));
            i += 1;
        }
        self.exhausted()
    }

    /// One round over the servers, in an order left to chance.
    pub fn refresh_nat_type<
        Q: Fn(&String, u16, IpAddr, u64) -> Option<(NatType, Option<SocketAddr>)>,
    >(&mut self, servers: &Vec<String>, query: Q) -> (t: NatType)
        requires
            queries(query),
        ensures
            final(self)@ == t,
            probed(query, servers@, t),
    {
        let mut order = clone_texts(servers);
        shuffle(&mut order);
        self.ask_in_turn(&order, query)
    }
}

/// Whether `t` may come of asking for servers in turn: the first conclusive type, or, where every
/// server is passed over, that UDP is blocked.
pub open spec fn asked_in_turn<
    Q: Fn(&String, u16, IpAddr, u64) -> Option<(NatType, Option<SocketAddr>)>,
>(query: Q, servers: Seq<String>, t: NatType) -> bool {
    if t.conclusive() {
        exists|i: int, address: Option<SocketAddr>|
            {
                &&& 0 <= i < servers.len()
                &&& #[trigger] server_queried(query, servers[i]@, Some((t, address)))
                &&& forall|k: int| 0 <= k < i ==> passed_over(query, #[trigger] servers[k])
            }
    } else {
        &&& t == NatType::UdpBlocked
        &&& forall|k: int| 0 <= k < servers.len() ==> passed_over(query, #[trigger] servers[k])
    }
}

/// Whether `t` may come of asking for servers in some order.
pub open spec fn probed<
    Q: Fn(&String, u16, IpAddr, u64) -> Option<(NatType, Option<SocketAddr>)>,
>(query: Q, servers: Seq<String>, t: NatType) -> bool {
    exists|order: Seq<String>|
        order.to_multiset() == servers.to_multiset() && #[trigger] asked_in_turn(query, order, t)
}

/// Whether a server does not end a round: its query gave nothing conclusive.
pub open spec fn passed_over<
    Q: Fn(&String, u16, IpAddr, u64) -> Option<(NatType, Option<SocketAddr>)>,
>(query: Q, server: String) -> bool {
    exists|o: Option<(NatType, Option<SocketAddr>)>| #[trigger]
        server_queried(query, server@, o) && (o matches Some(found) ==> !found.0.conclusive())
}

/// The sequence with two items exchanged.
pub open spec fn swapped<T>(s: Seq<T>, i: int, j: int) -> Seq<T> {
    s.update(i, s[j]).update(j, s[i])
}

/// Shuffles the items by numbers left to chance: from the last place down, each is exchanged with
/// one at or before it.
pub fn shuffle(items: &mut Vec<String>)
    ensures
        exists|draws: Seq<u32>|
            draws.len() + 1 >= old(items)@.len() && final(items)@ == #[trigger] shuffled(
                old(items)@,
                draws,
            ),
        final(items)@.to_multiset() == old(items)@.to_multiset(),
        final(items).len() == old(items).len(),
{
    let mut draws: Vec<u32> = Vec::new();
    let mut i: usize = 1;
    while i < items.len()
        invariant
            draws.len() + 1 == i,
            i <= items.len() || i == 1,
        decreases items.len() - i,
    {
        draws.push(random_u32());
        i += 1;
    }
    shuffle_by(items, &draws);
}

/// The items after the first `count` exchanges of a shuffle. The exchanges go from the last place
/// down; the remainder of the next draw tells the place at or before it.
pub open spec fn exchanged_by<T>(s: Seq<T>, draws: Seq<u32>, count: int) -> Seq<T>
    decreases count,
{
    if count <= 0 {
        s
    } else {
        let place = s.len() - count;
        swapped(
            exchanged_by(s, draws, count - 1),
            place,
            draws[count - 1] as int % (place + 1),
        )
    }
}

/// The items shuffled by numbers that were drawn: every place but the first has its exchange.
pub open spec fn shuffled<T>(s: Seq<T>, draws: Seq<u32>) -> Seq<T> {
    exchanged_by(s, draws, s.len() - 1)
}

/// Shuffles the items by numbers that were drawn, one for each place but the first.
pub fn shuffle_by(items: &mut Vec<String>, draws: &Vec<u32>)
    requires
        draws.len() + 1 >= old(items).len(),
    ensures
        final(items)@ == shuffled(old(items)@, draws@),
        final(items)@.to_multiset() == old(items)@.to_multiset(),
        final(items).len() == old(items).len(),
{
    let mut i: usize = items.len();
    let mut count: usize = 0;
    while i > 1
        invariant
            i + count == items.len(),
            i >= 1 || count == 0,
            draws.len() + 1 >= items.len(),
            items.len() == old(items).len(),
            items@ == exchanged_by(old(items)@, draws@, count as int),
            items@.to_multiset() == old(items)@.to_multiset(),
        decreases i,
    {
        i -= 1;
        let j = (draws[count] as usize) % (i + 1);
        swap_items(items, i, j);
        count += 1;
    }
}

/// Exchanges two items.
fn swap_items(items: &mut Vec<String>, i: usize, j: usize)
    requires
        i < old(items).len(),
        j < old(items).len(),
    ensures
        final(items)@ == swapped(old(items)@, i as int, j as int),
        final(items)@.to_multiset() == old(items)@.to_multiset(),
        final(items).len() == old(items).len(),
{
    let ghost before = items@;
    let a = items[i].clone();
    let b = items[j].clone();
    items.set(i, b);
    items.set(j, a);
    proof {
        vstd::seq_lib::to_multiset_update(before, i as int, before[j as int]);
        let mid = before.update(i as int, before[j as int]);
        vstd::seq_lib::to_multiset_update(mid, j as int, before[i as int]);
        before.to_multiset_ensures();
        assert(before.to_multiset().contains(before[i as int]));
        assert(mid[j as int] == before[j as int]);
        assert(items@.to_multiset() =~= before.to_multiset());
    }
}

// ------------------------------------------------------------------ whole replies
/// The bytes of an attribute: its type, the length of its value, and the value.
pub open spec fn attribute_bytes(kind: u16, value: Seq<u8>) -> Seq<u8> {
    seq![
        (kind / 256) as u8,
        (kind % 256) as u8,
        (value.len() / 256) as u8,
        (value.len() % 256) as u8,
    ] + value
}

/// The bytes of attributes, one behind the other.
pub open spec fn body_bytes(attributes: Seq<(u16, Seq<u8>)>) -> Seq<u8>
    decreases attributes.len(),
{
    if attributes.len() == 0 {
        Seq::empty()
    } else {
        body_bytes(attributes.drop_last()) + attribute_bytes(
            attributes.last().0,
            attributes.last().1,
        )
    }
}

/// A message of a type with sixteen bytes of cookie and identifier and some attributes.
pub open spec fn message_bytes(
    message_type: u16,
    rest: Seq<u8>,
    attributes: Seq<(u16, Seq<u8>)>,
) -> Seq<u8> {
    let body = body_bytes(attributes);
    seq![
        (message_type / 256) as u8,
        (message_type % 256) as u8,
        (body.len() / 256) as u8,
        (body.len() % 256) as u8,
    ] + rest + body
}

/// Whether attributes fit a message: the body has a length of 16 bits, and the values of addresses
/// have eight bytes.
pub open spec fn well_formed(attributes: Seq<(u16, Seq<u8>)>) -> bool {
    &&& body_bytes(attributes).len() < 65536
    &&& forall|i: int|
        0 <= i < attributes.len() && ((#[trigger] attributes[i]).0 == 1 || attributes[i].0 == 2
            || attributes[i].0 == 4 || attributes[i].0 == 5) ==> attributes[i].1.len() == 8
}

/// The address of the last attribute of a type: two bytes that do not matter, two of the port and
/// four of the IPv4 address.
pub open spec fn last_address(attributes: Seq<(u16, Seq<u8>)>, kind: u16) -> Option<SocketAddr>
    decreases attributes.len(),
{
    if attributes.len() == 0 {
        None
    } else if attributes.last().0 == kind {
        let v = attributes.last().1;
        Some(
            SocketAddr {
                ip: IpAddr::V4(
                    (v[4] * 0x100_0000 + v[5] * 0x1_0000 + v[6] * 0x100 + v[7]) as u32,
                ),
                port: (v[2] * 0x100 + v[3]) as u16,
            },
        )
    } else {
        last_address(attributes.drop_last(), kind)
    }
}

proof fn lemma_body_grows(attributes: Seq<(u16, Seq<u8>)>, i: int)
    requires
        0 <= i <= attributes.len(),
    ensures
        body_bytes(attributes.take(i)).len() <= body_bytes(attributes).len(),
        body_bytes(attributes).take(body_bytes(attributes.take(i)).len() as int) == body_bytes(
            attributes.take(i),
        ),
    decreases attributes.len() - i,
{
    if i == attributes.len() {
        assert(attributes.take(i) =~= attributes);
        assert(body_bytes(attributes).take(body_bytes(attributes).len() as int) =~= body_bytes(
            attributes,
        ));
    } else {
        lemma_body_grows(attributes, i + 1);
        let short = body_bytes(attributes.take(i));
        let long = body_bytes(attributes.take(i + 1));
        assert(attributes.take(i + 1).drop_last() =~= attributes.take(i));
        assert(long.take(short.len() as int) =~= short);
        assert(body_bytes(attributes).take(long.len() as int).take(short.len() as int)
            =~= body_bytes(attributes).take(short.len() as int));
    }
}

proof fn lemma_reply_from(
    message_type: u16,
    rest: Seq<u8>,
    attributes: Seq<(u16, Seq<u8>)>,
    i: int,
)
    requires
        rest.len() == 16,
        well_formed(attributes),
        0 <= i <= attributes.len(),
    ensures
        attributes_from(
            message_bytes(message_type, rest, attributes),
            20int + body_bytes(attributes.take(i)).len(),
            UdpStunResponse {
                mapped_address: last_address(attributes.take(i), 1),
                source_address: last_address(attributes.take(i), 4),
                changed_address: last_address(attributes.take(i), 5),
            },
        ) == Ok::<UdpStunResponse, UdpStunError>(
            UdpStunResponse {
                mapped_address: last_address(attributes, 1),
                source_address: last_address(attributes, 4),
                changed_address: last_address(attributes, 5),
            },
        ),
    decreases attributes.len() - i,
{
    let data = message_bytes(message_type, rest, attributes);
    let body = body_bytes(attributes);
    let n = body.len() as int;
    assert(data.len() == 20 + n);
    assert(be16(data, 2) == n) by {
        assert(data[2] == (n / 256) as u8);
        assert(data[3] == (n % 256) as u8);
    }
    let at = 20int + body_bytes(attributes.take(i)).len();
    let acc = UdpStunResponse {
        mapped_address: last_address(attributes.take(i), 1),
        source_address: last_address(attributes.take(i), 4),
        changed_address: last_address(attributes.take(i), 5),
    };
    if i == attributes.len() {
        assert(attributes.take(i) =~= attributes);
    } else {
        let (kind, value) = attributes[i];
        let next = attributes.take(i + 1);
        lemma_body_grows(attributes, i + 1);
        assert(next.drop_last() =~= attributes.take(i));
        assert(next.last() == attributes[i]);
        let short = body_bytes(attributes.take(i));
        let long = body_bytes(next);
        let own = attribute_bytes(kind, value);
        assert(long == short + own);
        assert forall|k: int| 0 <= k < own.len() implies data[at + k] == #[trigger] own[k] by {
            assert(body.take(long.len() as int)[short.len() + k] == long[short.len() + k]);
            assert(data[at + k] == body[short.len() + k]);
        }
        assert(own[0] == (kind / 256) as u8 && own[1] == (kind % 256) as u8);
        assert(own[2] == (value.len() / 256) as u8 && own[3] == (value.len() % 256) as u8);
        assert(data[at] == own[0] && data[at + 1] == own[1] && data[at + 2] == own[2] && data[at + 3]
            == own[3]);
        assert(value.len() < 65536);
        assert(be16(data, at) == kind);
        assert(be16(data, at + 2) == value.len());
        assert(own.len() == 4 + value.len());
        let after = UdpStunResponse {
            mapped_address: last_address(next, 1),
            source_address: last_address(next, 4),
            changed_address: last_address(next, 5),
        };
        if holds_address(kind as int) {
            assert(value.len() == 8);
            assert(own[6] == value[2] && own[7] == value[3]);
            assert(own[8] == value[4] && own[9] == value[5] && own[10] == value[6] && own[11]
                == value[7]);
            assert(data[at + 6] == own[6] && data[at + 7] == own[7]);
            assert(data[at + 8] == own[8] && data[at + 9] == own[9] && data[at + 10] == own[10]
                && data[at + 11] == own[11]);
            assert(with_address(acc, be16(data, at), udp_address(data, at + 4)) == after);
            assert(at + 12 == 20 + long.len());
        } else {
            assert(after == acc);
            assert(at + 4 + value.len() == 20 + long.len());
        }
        lemma_reply_from(message_type, rest, attributes, i + 1);
    }
}

/// Of a reply made of any attributes the addresses are those of its last MAPPED-ADDRESS,
/// SOURCE-ADDRESS and CHANGED-ADDRESS, wherever they stand and whatever other attributes stand
/// around them.
pub proof fn addresses_are_read_among_any_attributes(
    message_type: u16,
    rest: Seq<u8>,
    attributes: Seq<(u16, Seq<u8>)>,
)
    requires
        rest.len() == 16,
        well_formed(attributes),
        message_type == 0x0001 || message_type == 0x0101 || message_type == 0x0111 || message_type
            == 0x0002 || message_type == 0x0102 || message_type == 0x0112,
    ensures
        udp_reply(message_bytes(message_type, rest, attributes)) == Ok::<
            UdpStunResponse,
            UdpStunError,
        >(
            UdpStunResponse {
                mapped_address: last_address(attributes, 1),
                source_address: last_address(attributes, 4),
                changed_address: last_address(attributes, 5),
            },
        ),
{
    let data = message_bytes(message_type, rest, attributes);
    assert(data[0] == (message_type / 256) as u8 && data[1] == (message_type % 256) as u8);
    assert(be16(data, 0) == message_type);
    assert(attributes.take(0) =~= Seq::empty());
    lemma_reply_from(message_type, rest, attributes, 0);
}

/// A message of another type is refused, whatever attributes it has.
pub proof fn messages_of_other_types_are_refused(
    message_type: u16,
    rest: Seq<u8>,
    attributes: Seq<(u16, Seq<u8>)>,
)
    requires
        rest.len() == 16,
        message_type != 0x0001 && message_type != 0x0101 && message_type != 0x0111 && message_type
            != 0x0002 && message_type != 0x0102 && message_type != 0x0112,
    ensures
        udp_reply(message_bytes(message_type, rest, attributes)) is Err,
{
    let data = message_bytes(message_type, rest, attributes);
    assert(data[0] == (message_type / 256) as u8 && data[1] == (message_type % 256) as u8);
    assert(be16(data, 0) == message_type);
}

// ------------------------------------------------------------------ laws of the detection
/// The tests of a detection: first a plain question to the server, then one to be answered from
/// another address and port, then a plain one to the server's other address, and at last one to be
/// answered from another port there.
pub proof fn tests_ask_in_turn(q: NatQuery)
    ensures
        q.stage is TestOne ==> q.test() == Some((q.server, None::<UdpStunChangeRequest>)),
        q.stage is TestTwo ==> (q.test() matches Some((target, Some(change))) && target == q.server
            && change.change_ip && change.change_port),
        q.stage matches NatStage::TestOneAgain { mapped, changed } ==> q.test() == Some(
            (changed, None::<UdpStunChangeRequest>),
        ),
        q.stage matches NatStage::TestThree { mapped, changed } ==> (q.test() matches Some(
            (target, Some(change)),
        ) && target == changed && !change.change_ip && change.change_port),
        q.stage is Done ==> q.test() is None,
{
}

/// Without a first answer UDP is blocked; an answer without a mapped address tells nothing; any
/// other leads on with the mapped address and the server's other one.
pub proof fn first_test_finds_the_mapped_address(q: NatQuery, r: UdpStunResponse)
    requires
        q.stage is TestOne,
    ensures
        q.after(None) == (NatStage::Done { nat_type: NatType::UdpBlocked, address: None }),
        r.mapped_address is None ==> q.after(Some(r)) == (NatStage::Done {
            nat_type: NatType::Unknown,
            address: None,
        }),
        r.mapped_address matches Some(m) ==> q.after(Some(r)) == (NatStage::TestTwo {
            mapped: m,
            alternate: r.changed_address,
        }),
        q.out_of_time() == (NatStage::Done { nat_type: NatType::UdpBlocked, address: None }),
{
}

/// An answer from elsewhere gets through where nothing filters: in the open internet where the
/// mapped address is the own one, behind a full cone where it is not. Without an answer a firewall
/// filters where the mapped address is the own one; behind a translation the detection goes on at
/// the server's other address, if it told one.
pub proof fn second_test_finds_the_filter(
    q: NatQuery,
    mapped: SocketAddr,
    alternate: Option<SocketAddr>,
    r: UdpStunResponse,
    source: SocketAddr,
)
    requires
        q.stage == (NatStage::TestTwo { mapped, alternate }),
    ensures
        ({
            let own = mapped.ip == q.local_ip;
            let elsewhere = r.source_address == Some(source) && source != q.server;
            &&& elsewhere && own ==> q.after(Some(r)) == (NatStage::Done {
                nat_type: NatType::OpenInternet,
                address: Some(mapped),
            })
            &&& elsewhere && !own ==> q.after(Some(r)) == (NatStage::Done {
                nat_type: NatType::FullCone,
                address: Some(mapped),
            })
            &&& r.source_address is None || r.source_address == Some(q.server) ==> q.after(Some(r))
                == (NatStage::Done { nat_type: NatType::Unknown, address: Some(mapped) })
            &&& own ==> q.after(None) == (NatStage::Done {
                nat_type: NatType::SymmetricUdpFirewall,
                address: Some(mapped),
            })
            &&& !own && alternate is None ==> q.after(None) == (NatStage::Done {
                nat_type: NatType::Unknown,
                address: Some(mapped),
            })
            &&& !own ==> (alternate matches Some(c) ==> q.after(None) == (NatStage::TestOneAgain {
                mapped,
                changed: c,
            }))
        }),
{
}

/// A mapping that differs at the server's other address is symmetric; the same one is restricted to
/// the address where another port's answer gets through, and to the port where it does not.
pub proof fn last_tests_tell_the_cones_apart(
    q: NatQuery,
    p: NatQuery,
    mapped: SocketAddr,
    changed: SocketAddr,
    again: SocketAddr,
    r: UdpStunResponse,
)
    requires
        q.stage == (NatStage::TestOneAgain { mapped, changed }),
        p.stage == (NatStage::TestThree { mapped, changed }),
    ensures
        r.mapped_address == Some(again) && again != mapped ==> q.after(Some(r)) == (NatStage::Done {
            nat_type: NatType::Symmetric,
            address: Some(mapped),
        }),
        r.mapped_address == Some(mapped) ==> q.after(Some(r)) == p.stage,
        r.mapped_address is None ==> q.after(Some(r)) == (NatStage::Done {
            nat_type: NatType::Unknown,
            address: Some(mapped),
        }),
        q.after(None) == (NatStage::Done { nat_type: NatType::Unknown, address: Some(mapped) }),
        p.after(Some(r)) == (NatStage::Done {
            nat_type: NatType::RestrictedCone,
            address: Some(mapped),
        }),
        p.after(None) == (NatStage::Done {
            nat_type: NatType::PortRestrictedCone,
            address: Some(mapped),
        }),
        q.out_of_time() == (NatStage::Done { nat_type: NatType::Unknown, address: Some(mapped) }),
        p.out_of_time() == (NatStage::Done { nat_type: NatType::Unknown, address: Some(mapped) }),
{
}

/// A request is a binding request with its transaction; one for an answer from elsewhere asks for
/// another address with the bit 4 and for another port with the bit 2.
pub proof fn changes_are_asked_for_by_bits(ip: bool, port: bool, id: Seq<u8>)
    requires
        id.len() == 12,
    ensures
        ({
            let m = udp_request(
                Some(UdpStunChangeRequest { change_ip: ip, change_port: port }),
                id,
            );
            &&& m.len() == 28
            &&& m[0] == 0 && m[1] == 1 && m[2] == 0 && m[3] == 8
            &&& m[20] == 0 && m[21] == 3 && m[22] == 0 && m[23] == 4
            &&& m[24] == 0 && m[25] == 0 && m[26] == 0
            &&& m[27] == (if ip { 4int } else { 0int }) + (if port { 2int } else { 0int })
            &&& m.subrange(8, 20) == id
        }),
        ({
            let m = udp_request(None, id);
            &&& m.len() == 20
            &&& m[0] == 0 && m[1] == 1 && m[2] == 0 && m[3] == 0
            &&& m.subrange(8, 20) == id
        }),
{
    let m = udp_request(Some(UdpStunChangeRequest { change_ip: ip, change_port: port }), id);
    assert(m.subrange(8, 20) =~= id);
    assert(udp_request(None, id).subrange(8, 20) =~= id);
}

/// A server of the detection is a host and a port with one colon between them, and nothing else.
pub proof fn udp_servers_have_one_colon(h: Seq<char>, port: u16)
    requires
        h.len() > 0,
        !crate::text::is_ws(h[0]),
        !crate::text::is_ws(h.last()),
        forall|i: int| 0 <= i < h.len() ==> #[trigger] h[i] != ':',
    ensures
        udp_server_of(h + seq![':'] + crate::text::decimal(port as nat)) == Some((h, port)),
        udp_server_of(h) is None,
        udp_server_of(h + seq![':'] + h + seq![':'] + crate::text::decimal(port as nat)) is None,
{
    let p = crate::text::decimal(port as nat);
    crate::text::lemma_decimal_plain(port as nat);
    crate::text::lemma_untouched(h);
    let s = h + seq![':'] + p;
    assert(s[0] == h[0] && s.last() == p.last());
    crate::text::lemma_untouched(s);
    crate::text::parts_are_found_apart(h, ':', p);
    let t = h + seq![':'] + h + seq![':'] + p;
    assert(t =~= h + seq![':'] + (h + seq![':'] + p));
    assert(t[0] == h[0] && t.last() == p.last());
    crate::text::lemma_untouched(t);
    crate::text::parts_are_found_apart(h, ':', h + seq![':'] + p);
    let n = h.len() as int;
    assert(t[2 * n + 1] == ':');
    lemma_find_from(t, ':', n + 1);
}

/// A kind is conclusive that tells how packets are treated.
pub proof fn conclusions_tell_the_treatment(t: NatType)
    ensures
        t.conclusive() == (t == NatType::OpenInternet || t == NatType::SymmetricUdpFirewall || t
            == NatType::FullCone || t == NatType::RestrictedCone || t
            == NatType::PortRestrictedCone || t == NatType::Symmetric),
{
}

/// Exchanging two places of a list moves what stands there and nothing else.
pub proof fn exchanging_moves_two<T>(s: Seq<T>, i: int, j: int, k: int)
    requires
        0 <= i < s.len(),
        0 <= j < s.len(),
        0 <= k < s.len(),
    ensures
        swapped(s, i, j).len() == s.len(),
        swapped(s, i, j)[i] == s[j],
        swapped(s, i, j)[j] == s[i],
        k != i && k != j ==> swapped(s, i, j)[k] == s[k],
{
}

/// A list is shuffled from its end on: each place changes with one not behind it, by the draw for
/// it.
pub proof fn shuffling_goes_from_the_end<T>(s: Seq<T>, draws: Seq<u32>, count: int)
    requires
        0 < count < s.len(),
    ensures
        exchanged_by(s, draws, 0) == s,
        exchanged_by(s, draws, count) == swapped(
            exchanged_by(s, draws, count - 1),
            s.len() - count,
            draws[count - 1] as int % (s.len() - count + 1),
        ),
        s.len() < 2 ==> shuffled(s, draws) == s,
{
}

/// The transaction of a message is its bytes 8 to 20.
pub proof fn transactions_are_in_the_header(head: Seq<u8>, id: Seq<u8>, rest: Seq<u8>)
    requires
        head.len() == 8,
        id.len() == 12,
    ensures
        transaction_id(head + id + rest) == Some(id),
        rest.len() < 20 ==> transaction_id(rest) is None,
{
    assert((head + id + rest).subrange(8, 20) =~= id);
}

/// The texts of the errors and the names of the kinds.
pub proof fn kinds_have_their_names(e: UdpStunError, t: NatType)
    ensures
        e == UdpStunError::TooShort ==> e.text() == "Invalid STUN message value !"@,
        e == UdpStunError::UnknownType ==> e.text() == "Invalid STUN message type value !"@,
        e == UdpStunError::TruncatedHeader ==> e.text() == "Truncated STUN attribute header"@,
        e == UdpStunError::TruncatedAddress ==> e.text() == "Truncated STUN address attribute"@,
        t == NatType::UdpBlocked ==> t.name() == "UdpBlocked"@,
        t == NatType::OpenInternet ==> t.name() == "OpenInternet"@,
        t == NatType::SymmetricUdpFirewall ==> t.name() == "SymmetricUdpFirewall"@,
        t == NatType::FullCone ==> t.name() == "FullCone"@,
        t == NatType::RestrictedCone ==> t.name() == "RestrictedCone"@,
        t == NatType::PortRestrictedCone ==> t.name() == "PortRestrictedCone"@,
        t == NatType::Symmetric ==> t.name() == "Symmetric"@,
        t == NatType::Unknown ==> t.name() == "Unknown"@,
{
}

/// A request has a transaction of twelve bytes, and asks for a change where one is wanted.
pub proof fn requests_have_a_transaction(m: Seq<u8>, n: Seq<u8>, change: UdpStunChangeRequest)
    requires
        requests(m, None),
        requests(n, Some(change)),
    ensures
        m.len() == 20,
        n.len() == 28,
        m[0] == 0 && m[1] == 1 && n[0] == 0 && n[1] == 1,
        n[21] == 3,
        n[27] == (if change.change_ip { 4int } else { 0int }) + (if change.change_port {
            2int
        } else {
            0int
        }),
{
    let i = choose|id: Seq<u8>|
        id.len() == 12 && m == #[trigger] udp_request(None, id);
    let j = choose|id: Seq<u8>|
        id.len() == 12 && n == #[trigger] udp_request(Some(change), id);
    changes_are_asked_for_by_bits(change.change_ip, change.change_port, i);
    changes_are_asked_for_by_bits(change.change_ip, change.change_port, j);
}

} // verus!
