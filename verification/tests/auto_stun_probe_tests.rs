use pbh_core::auto_stun_probe::{
    attempt_deadline, create_udp_binding_request, parse_udp_stun_response, query_udp_stun_server,
    shuffle, shuffle_by,
    split_udp_stun_server, udp_binding_request_with, udp_change_request_flags, udp_transaction_id,
    NatQuery, NatStage, NatType, NatTypeProber, UdpStunChangeRequest, UdpStunError,
    UdpStunResponse, UdpTransaction, DEFAULT_UDP_STUN_HOST, NAT_TYPE_REFRESH_INTERVAL,
    UDP_SEND_COUNT, UDP_TOTAL_TIMEOUT, UDP_TRANSACTION_TIMEOUT,
};
use pbh_core::net::{IpAddr, SocketAddr};
use std::collections::HashSet;

const UNSPECIFIED: IpAddr = IpAddr::V4(0);

fn localhost(port: u16) -> SocketAddr {
    SocketAddr { ip: IpAddr::V4(0x7F00_0001), port }
}

fn address_attr(attr_type: u16, addr: SocketAddr) -> Vec<u8> {
    let mut attr = Vec::with_capacity(12);
    attr.extend_from_slice(&attr_type.to_be_bytes());
    attr.extend_from_slice(&8u16.to_be_bytes());
    attr.push(0);
    attr.push(1);
    let ip = match addr.ip {
        IpAddr::V4(v) => v,
        IpAddr::V6(_) => panic!("IPv4 only"),
    };
    attr.extend_from_slice(&addr.port.to_be_bytes());
    attr.extend_from_slice(&ip.to_be_bytes());
    attr
}

fn reply(mapped: Option<SocketAddr>, source: Option<SocketAddr>, changed: Option<SocketAddr>) -> Option<UdpStunResponse> {
    Some(UdpStunResponse { mapped_address: mapped, source_address: source, changed_address: changed })
}

fn run(
    server: SocketAddr,
    local_ip: IpAddr,
    responder: &dyn Fn(SocketAddr, (bool, bool)) -> Option<UdpStunResponse>,
) -> (NatType, Option<SocketAddr>) {
    let transact = |request: &Vec<u8>, target: SocketAddr, deadline_ms: u64| {
        assert_eq!(deadline_ms, 5000);
        responder(target, udp_change_request_flags(request)).ok_or(1000)
    };
    NatQuery::new(server, local_ip).run(5000, &transact)
}

#[test]
fn default_constants_match_upstream() {
    assert_eq!(UDP_TRANSACTION_TIMEOUT, 1000);
    assert_eq!(UDP_SEND_COUNT, 3);
    assert_eq!(UDP_TOTAL_TIMEOUT, 5000);
    assert_eq!(DEFAULT_UDP_STUN_HOST, "stun.cdnbye.com");
    assert_eq!(NAT_TYPE_REFRESH_INTERVAL, 3_600_000);
}

#[test]
fn binding_request_matches_cdnbye_layout() {
    let plain = create_udp_binding_request(None);
    assert_eq!(plain.len(), 20);
    assert_eq!(u16::from_be_bytes([plain[0], plain[1]]), 0x0001);
    assert_eq!(u16::from_be_bytes([plain[2], plain[3]]), 0);
    assert_eq!(&plain[4..8], &0u32.to_be_bytes());
    assert_eq!(udp_change_request_flags(&plain), (false, false));

    let change = create_udp_binding_request(Some(UdpStunChangeRequest::new(true, true)));
    assert_eq!(change.len(), 28);
    assert_eq!(u16::from_be_bytes([change[2], change[3]]), 8);
    assert_eq!(&change[20..22], &0x0003u16.to_be_bytes());
    assert_eq!(&change[22..24], &4u16.to_be_bytes());
    assert_eq!(change[27], 0b0110);
    assert_eq!(udp_change_request_flags(&change), (true, true));
    let port_only = create_udp_binding_request(Some(UdpStunChangeRequest::new(false, true)));
    assert_eq!(udp_change_request_flags(&port_only), (false, true));
    assert_ne!(plain[8..20], change[8..20]);
    assert_eq!(udp_transaction_id(&plain).unwrap().len(), 12);
}

#[test]
fn parse_reads_address_attributes_without_family_check() {
    let mut data = Vec::new();
    data.extend_from_slice(&0x0101u16.to_be_bytes());
    data.extend_from_slice(&36u16.to_be_bytes());
    data.extend_from_slice(&0u32.to_be_bytes());
    data.extend_from_slice(&[0x11u8; 12]);
    data.extend_from_slice(&address_attr(0x0001, localhost(50000)));
    data.extend_from_slice(&address_attr(0x0004, localhost(3478)));
    data.extend_from_slice(&address_attr(0x0005, localhost(3479)));
    let parsed = parse_udp_stun_response(&data).unwrap();
    assert_eq!(parsed.mapped_address, Some(localhost(50000)));
    assert_eq!(parsed.source_address, Some(localhost(3478)));
    assert_eq!(parsed.changed_address, Some(localhost(3479)));
}

#[test]
fn parse_rejects_unknown_message_types_and_truncation() {
    assert!(parse_udp_stun_response(&[0u8; 19]).is_err());
    let mut bad_type = [0x0202u16.to_be_bytes(), 0u16.to_be_bytes()].concat();
    bad_type.extend_from_slice(&0u32.to_be_bytes());
    bad_type.extend_from_slice(&[0u8; 12]);
    assert!(parse_udp_stun_response(&bad_type).is_err());
    let mut overlong = Vec::new();
    overlong.extend_from_slice(&0x0101u16.to_be_bytes());
    overlong.extend_from_slice(&8u16.to_be_bytes());
    overlong.extend_from_slice(&0u32.to_be_bytes());
    overlong.extend_from_slice(&[0u8; 12]);
    overlong.extend_from_slice(&0x0001u16.to_be_bytes());
    overlong.extend_from_slice(&8u16.to_be_bytes());
    overlong.extend_from_slice(&[0u8; 4]);
    assert!(parse_udp_stun_response(&overlong).is_err());
}

#[test]
fn full_cone_when_test_two_answered_from_different_address() {
    let server = localhost(3478);
    let alt = localhost(3479);
    let (nat, mapped) = run(server, UNSPECIFIED, &|_target, (ip, port)| {
        if ip || port {
            reply(Some(localhost(50000)), Some(alt), None)
        } else {
            reply(Some(localhost(50000)), Some(server), Some(alt))
        }
    });
    assert_eq!(nat, NatType::FullCone);
    assert_eq!(mapped, Some(localhost(50000)));
}

#[test]
fn non_compliant_test_two_yields_unknown() {
    let server = localhost(3478);
    let (nat, _) = run(server, UNSPECIFIED, &|_target, (ip, port)| {
        if ip || port {
            reply(Some(localhost(50000)), Some(server), None)
        } else {
            reply(Some(localhost(50000)), None, None)
        }
    });
    assert_eq!(nat, NatType::Unknown);
}

#[test]
fn open_internet_when_mapped_ip_equals_local_ip() {
    let alt = localhost(40000);
    let (nat, mapped) = run(localhost(3478), localhost(0).ip, &|_target, (ip, port)| {
        if ip || port {
            reply(Some(localhost(1)), Some(alt), None)
        } else {
            reply(Some(localhost(0)), None, Some(alt))
        }
    });
    assert_eq!(nat, NatType::OpenInternet);
    assert_eq!(mapped, Some(localhost(0)));
}

#[test]
fn symmetric_udp_firewall_when_no_nat_and_test_two_times_out() {
    let alt = localhost(40000);
    let (nat, _) = run(localhost(3478), localhost(0).ip, &|_target, (ip, _port)| {
        if ip {
            None
        } else {
            reply(Some(localhost(0)), None, Some(alt))
        }
    });
    assert_eq!(nat, NatType::SymmetricUdpFirewall);
}

fn restricted_family_scenario(alt_plain_mapped: SocketAddr, answer_test_three: bool) -> NatType {
    let server = localhost(3478);
    let alt = localhost(3479);
    let (nat, mapped) = run(server, UNSPECIFIED, &|target, (ip, port)| {
        if target == alt {
            if !ip && !port {
                reply(Some(alt_plain_mapped), None, None)
            } else if !ip && port && answer_test_three {
                reply(Some(alt_plain_mapped), None, None)
            } else {
                None
            }
        } else if ip || port {
            None
        } else {
            reply(Some(localhost(50000)), Some(server), Some(alt))
        }
    });
    assert_eq!(mapped, Some(localhost(50000)));
    nat
}

#[test]
fn symmetric_when_changed_address_maps_differently() {
    assert_eq!(restricted_family_scenario(localhost(51999), true), NatType::Symmetric);
}

#[test]
fn restricted_cone_when_test_three_answered() {
    assert_eq!(restricted_family_scenario(localhost(50000), true), NatType::RestrictedCone);
}

#[test]
fn port_restricted_cone_when_test_three_times_out() {
    assert_eq!(restricted_family_scenario(localhost(50000), false), NatType::PortRestrictedCone);
}

#[test]
fn udp_blocked_when_server_never_answers() {
    let (nat, mapped) = run(localhost(3478), UNSPECIFIED, &|_target, _flags| None);
    assert_eq!(nat, NatType::UdpBlocked);
    assert_eq!(mapped, None);
}

#[test]
fn transaction_retries_up_to_send_count_before_failing() {
    let request = create_udp_binding_request(None);
    let mut transaction = UdpTransaction::new(request, 2).unwrap();
    assert!(transaction.send_again(0, 1000));
    assert_eq!(attempt_deadline(0, 30, 1000), 30);
    assert!(transaction.send_again(30, 1000));
    assert!(!transaction.send_again(60, 1000));
    assert!(UdpTransaction::new(vec![0; 19], 2).is_none());
}

#[test]
fn overall_deadline_caps_the_state_machine() {
    let request = create_udp_binding_request(None);
    let mut transaction = UdpTransaction::new(request, 3).unwrap();
    assert!(!transaction.send_again(5000, 5000));
    assert_eq!(attempt_deadline(4990, 30, 5000), 5000);
    let (nat, _) = run(localhost(3478), UNSPECIFIED, &|_target, _flags| None);
    assert_eq!(nat, NatType::UdpBlocked);
}

#[test]
fn failures_past_the_deadline_decide_nothing() {
    let server = localhost(3478);
    let mut query = NatQuery::new(server, UNSPECIFIED);
    query.on_failure(5000, 5000);
    assert_eq!(query.stage, NatStage::Done { nat_type: NatType::UdpBlocked, address: None });

    let mapped = localhost(50000);
    let done = |nat_type| NatStage::Done { nat_type, address: Some(mapped) };
    let mut query = NatQuery::new(server, mapped.ip);
    query.on_reply(reply(Some(mapped), None, None));
    let mut late = query;
    query.on_failure(4999, 5000);
    assert_eq!(query.stage, done(NatType::SymmetricUdpFirewall));
    late.on_failure(5000, 5000);
    assert_eq!(late.stage, done(NatType::Unknown));

    let mut query = NatQuery::new(server, UNSPECIFIED);
    query.on_reply(reply(Some(mapped), None, Some(localhost(3479))));
    query.on_failure(3000, 5000);
    query.on_reply(reply(Some(mapped), None, None));
    let mut late = query;
    query.on_failure(4000, 5000);
    assert_eq!(query.stage, done(NatType::PortRestrictedCone));
    late.on_failure(5000, 5000);
    assert_eq!(late.stage, done(NatType::Unknown));
}

#[test]
fn missing_mapped_address_degrades_to_unknown() {
    let (nat, mapped) =
        run(localhost(3478), UNSPECIFIED, &|_target, _flags| reply(None, None, None));
    assert_eq!(nat, NatType::Unknown);
    assert_eq!(mapped, None);
}

#[test]
fn server_string_must_have_exactly_two_parts() {
    assert!(split_udp_stun_server("stun.example.com:3478").is_some());
    assert!(split_udp_stun_server("stun.example.com").is_none());
    assert!(split_udp_stun_server("a:b:c").is_none());
    assert!(split_udp_stun_server("host:not-a-port").is_none());
}

#[test]
fn prober_accepts_first_usable_server_and_caches() {
    let mut prober = NatTypeProber::new();
    assert_eq!(prober.cached_nat_type(), NatType::Unknown);
    let servers = vec![
        "not-a-stun-server".to_string(),
        "silent:3478".to_string(),
        "working:3478".to_string(),
    ];
    let query = |host: &String, port: u16, local_ip: IpAddr, timeout: u64| {
        assert_ne!(host, "not-a-stun-server");
        assert_eq!(port, 3478);
        assert_eq!(local_ip, UNSPECIFIED);
        assert_eq!(timeout, UDP_TOTAL_TIMEOUT);
        if host == "working" {
            Some((NatType::FullCone, Some(localhost(50000))))
        } else {
            Some((NatType::UdpBlocked, None))
        }
    };
    assert_eq!(query_udp_stun_server("not-a-stun-server", &query), None);
    let found = Some((NatType::FullCone, Some(localhost(50000))));
    assert_eq!(query_udp_stun_server(" working : 3478 ", &query), found);
    assert_eq!(prober.refresh_nat_type(&servers, query), NatType::FullCone);
    assert_eq!(prober.cached_nat_type(), NatType::FullCone);
}

#[test]
fn prober_falls_back_to_udp_blocked_when_all_servers_fail() {
    let mut prober = NatTypeProber::new();
    let servers = vec!["bad-format".to_string(), "silent:3478".to_string()];
    assert_eq!(prober.refresh_nat_type(&servers, |_: &String, _: u16, _: IpAddr, _: u64| None), NatType::UdpBlocked);
    assert_eq!(prober.cached_nat_type(), NatType::UdpBlocked);
}

#[test]
fn disabled_gating_probes_nothing() {
    let counter = std::cell::Cell::new(0usize);
    let mut prober = NatTypeProber::new();
    let servers = vec!["127.0.0.1:3478".to_string()];
    let silent = |_: &String, _: u16, _: IpAddr, _: u64| {
        counter.set(counter.get() + 1);
        None
    };
    assert_eq!(prober.refresh_nat_type(&servers, silent), NatType::UdpBlocked);
    assert!(counter.get() >= 1);
}

#[test]
fn draws_decide_the_order() {
    let letters = || ["a", "b", "c", "d"].map(String::from).to_vec();
    let mut items = letters();
    shuffle_by(&mut items, &vec![0, 0, 0]);
    assert_eq!(items, ["b", "c", "d", "a"]);
    let mut items = letters();
    shuffle_by(&mut items, &vec![5, 2, 3]);
    assert_eq!(items, ["a", "d", "c", "b"]);
    let mut items: Vec<String> = Vec::new();
    shuffle_by(&mut items, &Vec::new());
    assert!(items.is_empty());
}

#[test]
fn shuffle_keeps_all_items() {
    let mut items: Vec<String> = (0..64).map(|i| format!("{i}")).collect();
    shuffle(&mut items);
    let unique: HashSet<String> = items.iter().cloned().collect();
    assert_eq!(unique.len(), 64);
    assert_eq!(items.len(), 64);
}

#[test]
fn nat_type_names_match_java_enum_constants() {
    let all = [
        NatType::UdpBlocked,
        NatType::OpenInternet,
        NatType::SymmetricUdpFirewall,
        NatType::FullCone,
        NatType::RestrictedCone,
        NatType::PortRestrictedCone,
        NatType::Symmetric,
        NatType::Unknown,
    ];
    assert_eq!(all.len(), 8);
    assert_eq!(NatType::PortRestrictedCone.as_str(), "PortRestrictedCone");
    assert_eq!(NatType::FullCone.as_str(), "FullCone");
}

#[test]
fn replies_of_other_transactions_are_passed_over() {
    let request = create_udp_binding_request(None);
    let id = udp_transaction_id(&request).unwrap();
    let transaction = UdpTransaction::new(request, 3).unwrap();
    let mut datagram = Vec::new();
    datagram.extend_from_slice(&0x0101u16.to_be_bytes());
    datagram.extend_from_slice(&0u16.to_be_bytes());
    datagram.extend_from_slice(&0u32.to_be_bytes());
    datagram.extend_from_slice(&id);
    assert!(matches!(transaction.on_datagram(&datagram), Some(Ok(_))));
    datagram[19] ^= 1;
    assert!(transaction.on_datagram(&datagram).is_none());
    assert!(transaction.on_datagram(&[]).is_none());
}

#[test]
fn requests_tell_their_flags_and_identifier() {
    let request = udp_binding_request_with(Some(UdpStunChangeRequest::new(true, false)), 1, 2, 3);
    assert_eq!(udp_transaction_id(&request), Some(vec![0, 0, 0, 1, 0, 0, 0, 2, 0, 0, 0, 3]));
    assert_eq!(udp_change_request_flags(&request), (true, false));
}

#[test]
fn udp_errors_have_messages() {
    let header = |msg_type: u16, length: u16| {
        let mut out = Vec::new();
        out.extend_from_slice(&msg_type.to_be_bytes());
        out.extend_from_slice(&length.to_be_bytes());
        out.extend_from_slice(&[0u8; 16]);
        out
    };
    assert_eq!(parse_udp_stun_response(&[0u8; 3]), Err(UdpStunError::TooShort));
    assert_eq!(parse_udp_stun_response(&header(0x0202, 0)), Err(UdpStunError::UnknownType));
    let mut cut = header(0x0101, 8);
    cut.extend_from_slice(&[0, 1]);
    assert_eq!(parse_udp_stun_response(&cut), Err(UdpStunError::TruncatedHeader));
    let mut short = header(0x0101, 8);
    short.extend_from_slice(&[0, 1, 0, 8, 0, 1, 0, 0]);
    assert_eq!(parse_udp_stun_response(&short), Err(UdpStunError::TruncatedAddress));
    assert_eq!(UdpStunError::TooShort.message(), "Invalid STUN message value !");
    assert_eq!(UdpStunError::UnknownType.message(), "Invalid STUN message type value !");
    assert_eq!(UdpStunError::TruncatedHeader.message(), "Truncated STUN attribute header");
    assert_eq!(UdpStunError::TruncatedAddress.message(), "Truncated STUN address attribute");
}
