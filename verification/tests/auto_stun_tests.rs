use pbh_core::auto_stun::{
    create_stun_binding_request, default_udp_stun_servers, parse_stun_response, parse_stun_server,
    mapping_from_targets, reachable_targets, stun_binding_request_with, wanted_bytes, AutoStun, AutoStunConfig, StunError,
    StunMapping, TcpStunClient, DEFAULT_STUN_PORT, DEFAULT_STUN_TIMEOUT,
};
use pbh_core::auto_stun_probe::NatType;
use pbh_core::net::{IpAddr, SocketAddr};

fn v4(a: u8, b: u8, c: u8, d: u8) -> IpAddr {
    IpAddr::V4(u32::from_be_bytes([a, b, c, d]))
}

fn endpoint(a: u8, b: u8, c: u8, d: u8, port: u16) -> SocketAddr {
    SocketAddr { ip: v4(a, b, c, d), port }
}

fn config(enabled: bool) -> AutoStunConfig {
    AutoStunConfig { enabled, ..AutoStunConfig::default() }
}

fn table(enabled: bool) -> AutoStun {
    config(enabled).build()
}

fn public_ip() -> IpAddr {
    v4(203, 0, 113, 9)
}

#[test]
fn default_config_matches_upstream_yaml() {
    let cfg = AutoStunConfig::default();
    assert!(!cfg.enabled);
    assert!(cfg.use_friendly_loopback_mapping);
    assert!(cfg.downloaders.is_empty());
    assert!(!cfg.build().is_enabled());
    assert_eq!(
        cfg.tcp_servers,
        vec!["turn.cloudflare.com:3478", "stun.nextcloud.com:3478", "stun.sipnet.com:3478"]
    );
    assert_eq!(cfg.udp_servers.len(), 5);
    assert!(cfg.udp_servers.iter().any(|s| s == "stun.l.google.com:3478"));
    let custom = AutoStunConfig {
        enabled: true,
        tcp_servers: vec!["1.2.3.4:3478".to_string()],
        ..AutoStunConfig::default()
    };
    assert_eq!(custom.tcp_servers, vec!["1.2.3.4:3478"]);
    assert_eq!(custom.udp_servers.len(), 5);
    assert_eq!(default_udp_stun_servers(), cfg.udp_servers);
    assert_eq!(DEFAULT_STUN_PORT, 3478);
    assert_eq!(DEFAULT_STUN_TIMEOUT, 5000);
}

#[test]
fn disabled_config_is_passthrough_even_with_mappings() {
    let mut table = table(false);
    assert!(table.insert_mapping("192.168.0.0/16", "203.0.113.9"));
    assert_eq!(table.translate(v4(192, 168, 1, 5), 6881), None);
    assert!(!table.mappings().is_empty());
}

#[test]
fn enabled_and_mapped_private_ip_is_rewritten_with_same_port() {
    let mut table = table(true);
    assert!(table.insert_mapping("192.168.0.0/16", "203.0.113.9"));
    assert_eq!(table.translate(v4(192, 168, 1, 5), 6881), Some((public_ip(), 6881)));
    assert_eq!(table.translate(v4(192, 168, 255, 254), 65535), Some((public_ip(), 65535)));
}

#[test]
fn enabled_but_unmapped_private_ip_is_passthrough() {
    let mut mapped = table(true);
    assert!(mapped.insert_mapping("192.168.1.0/24", "203.0.113.9"));
    assert_eq!(mapped.translate(v4(192, 168, 2, 5), 6881), None);
    let empty = table(true);
    assert_eq!(empty.translate(v4(192, 168, 1, 5), 6881), None);
    assert!(empty.mappings().is_empty());
    assert_eq!(empty.public_endpoint(), None);
}

#[test]
fn public_ip_is_passthrough() {
    let mut table = table(true);
    assert!(table.insert_mapping("192.168.0.0/16", "203.0.113.9"));
    assert!(table.insert_mapping("10.0.0.0/8", "203.0.113.10"));
    assert_eq!(table.translate(v4(8, 8, 8, 8), 6881), None);
    assert_eq!(table.translate(v4(1, 2, 3, 4), 1), None);
}

#[test]
fn ipv6_peer_address_is_never_managed_by_built_in_nat() {
    let mut table = table(true);
    assert!(table.insert_mapping("192.168.0.0/16", "203.0.113.9"));
    let v6 = IpAddr::V6(0x2001_0db8_0000_0000_0000_0000_0000_0001);
    assert_eq!(table.translate(v6, 6881), None);
    assert_eq!(table.translate(v4(192, 168, 1, 5), 6881), Some((public_ip(), 6881)));
}

#[test]
fn multiple_public_addresses_resolve_per_registered_prefix() {
    let mut table = table(true);
    assert!(table.insert_mapping("192.168.1.0/24", "198.51.100.7"));
    assert!(table.insert_mapping("192.168.2.0/24", "203.0.113.9"));
    assert_eq!(
        table.translate(v4(192, 168, 1, 5), 6881),
        Some((v4(198, 51, 100, 7), 6881))
    );
    assert_eq!(table.translate(v4(192, 168, 2, 5), 6881), Some((public_ip(), 6881)));
    assert_eq!(table.mappings().len(), 2);
}

#[test]
fn reinserting_a_mapping_replaces_it_like_a_bimap() {
    let mut table = table(true);
    assert!(table.insert_mapping("192.168.1.0/24", "198.51.100.7"));
    assert!(table.insert_mapping("192.168.1.0/24", "203.0.113.9"));
    assert_eq!(table.translate(v4(192, 168, 1, 5), 6881), Some((public_ip(), 6881)));
    assert!(table.insert_mapping("10.0.0.0/8", "203.0.113.9"));
    assert_eq!(table.translate(v4(192, 168, 1, 5), 6881), None);
    assert_eq!(table.translate(v4(10, 0, 0, 1), 6881), Some((public_ip(), 6881)));
    assert_eq!(table.mappings().len(), 1);
}

#[test]
fn single_ip_mapping_is_treated_as_a_host_prefix() {
    let mut table = table(true);
    assert!(table.insert_mapping("127.0.0.1", "203.0.113.9"));
    assert_eq!(table.translate(v4(127, 0, 0, 1), 6881), Some((public_ip(), 6881)));
    assert_eq!(table.translate(v4(127, 0, 0, 2), 6881), None);
}

#[test]
fn unparsable_mapping_is_rejected() {
    let mut table = table(true);
    assert!(!table.insert_mapping("not-a-network", "203.0.113.9"));
    assert!(!table.insert_mapping("192.168.1.0/24", "not-an-ip"));
    assert!(table.mappings().is_empty());
}

#[test]
fn clear_mappings_removes_all_entries() {
    let mut table = table(true);
    assert!(table.insert_mapping("192.168.1.0/24", "203.0.113.9"));
    table.clear_mappings();
    assert!(table.mappings().is_empty());
    assert_eq!(table.translate(v4(192, 168, 1, 5), 6881), None);
}

#[test]
fn binding_request_matches_upstream_layout() {
    let request = create_stun_binding_request();
    assert_eq!(request.len(), 20);
    assert_eq!(u16::from_be_bytes([request[0], request[1]]), 0x0001);
    assert_eq!(u16::from_be_bytes([request[2], request[3]]), 0);
    assert_eq!(
        u32::from_be_bytes([request[4], request[5], request[6], request[7]]),
        0x2112_A442
    );
    assert_eq!(&request[8..12], b"NATR");
    assert_ne!(create_stun_binding_request(), request);
    assert_eq!(&stun_binding_request_with(1, 0x0203_0405)[12..20], &[0, 0, 0, 1, 2, 3, 4, 5]);
}

#[test]
fn stun_server_string_parsing_defaults_to_3478() {
    assert_eq!(
        parse_stun_server("stun.nextcloud.com"),
        Some(("stun.nextcloud.com".into(), 3478))
    );
    assert_eq!(
        parse_stun_server("stun.nextcloud.com:3479"),
        Some(("stun.nextcloud.com".into(), 3479))
    );
    assert_eq!(parse_stun_server(""), None);
    assert_eq!(parse_stun_server("host:not-a-port"), None);
}

fn binding_response(attr_type: u16, ip: u32, port: u16, magic: u32, msg_type: u16) -> Vec<u8> {
    let mut out = Vec::with_capacity(32);
    out.extend_from_slice(&msg_type.to_be_bytes());
    out.extend_from_slice(&12u16.to_be_bytes());
    out.extend_from_slice(&magic.to_be_bytes());
    out.extend_from_slice(b"NATR");
    out.extend_from_slice(&0u32.to_be_bytes());
    out.extend_from_slice(&0u32.to_be_bytes());
    out.extend_from_slice(&attr_type.to_be_bytes());
    out.extend_from_slice(&8u16.to_be_bytes());
    out.push(0);
    out.push(1);
    let (raw_port, raw_ip) = if attr_type == 0x0020 {
        (port ^ 0x2112, ip ^ 0x2112_A442)
    } else {
        (port, ip)
    };
    out.extend_from_slice(&raw_port.to_be_bytes());
    out.extend_from_slice(&raw_ip.to_be_bytes());
    out
}

const TEST_NET_3: u32 = 0xCB00_7109;
const TEST_NET_2: u32 = 0xC633_6407;

#[test]
fn parse_xor_mapped_address_response() {
    let raw = binding_response(0x0020, TEST_NET_3, 50000, 0x2112_A442, 0x0101);
    assert_eq!(parse_stun_response(&raw).unwrap(), endpoint(203, 0, 113, 9, 50000));
}

#[test]
fn parse_plain_mapped_address_response() {
    let raw = binding_response(0x0001, TEST_NET_2, 3478, 0x2112_A442, 0x0101);
    assert_eq!(parse_stun_response(&raw).unwrap(), endpoint(198, 51, 100, 7, 3478));
}

#[test]
fn parse_skips_unknown_attributes_with_padding() {
    let mut raw = binding_response(0x0020, TEST_NET_3, 50000, 0x2112_A442, 0x0101);
    let attr = raw.split_off(20);
    raw.extend_from_slice(&0x8022u16.to_be_bytes());
    raw.extend_from_slice(&3u16.to_be_bytes());
    raw.extend_from_slice(b"abc");
    raw.push(0);
    raw.extend_from_slice(&attr);
    let body_len = (raw.len() as u16) - 20;
    raw[2..4].copy_from_slice(&body_len.to_be_bytes());
    assert_eq!(parse_stun_response(&raw).unwrap(), endpoint(203, 0, 113, 9, 50000));
}

#[test]
fn parse_rejects_invalid_responses() {
    assert_eq!(parse_stun_response(&[]), Err(StunError::InvalidLength));
    assert_eq!(parse_stun_response(&[0u8; 19]), Err(StunError::InvalidLength));
    let wrong_type = binding_response(0x0020, 0x0102_0304, 1, 0x2112_A442, 0x0111);
    assert_eq!(
        parse_stun_response(&wrong_type),
        Err(StunError::InvalidType { message_type: 0x0111 })
    );
    let wrong_cookie = binding_response(0x0020, 0x0102_0304, 1, 0x2112_A443, 0x0101);
    assert_eq!(parse_stun_response(&wrong_cookie), Err(StunError::InvalidCookie));
    let mut no_addr = Vec::new();
    no_addr.extend_from_slice(&0x0101u16.to_be_bytes());
    no_addr.extend_from_slice(&0u16.to_be_bytes());
    no_addr.extend_from_slice(&0x2112_A442u32.to_be_bytes());
    no_addr.extend_from_slice(&[0u8; 12]);
    assert_eq!(parse_stun_response(&no_addr), Err(StunError::NoMappedAddress));
}

#[test]
fn stun_errors_have_messages() {
    assert_eq!(StunError::InvalidLength.message(), "Invalid STUN response length");
    assert_eq!(
        StunError::InvalidType { message_type: 0x0111 }.message(),
        "Invalid STUN response type: 111"
    );
    assert_eq!(StunError::InvalidCookie.message(), "Invalid magic cookie");
    assert_eq!(
        StunError::NoMappedAddress.message(),
        "No mapped address found in STUN response"
    );
}

fn answer(
    host: &String,
    port: u16,
    source_host: &String,
    source_port: u16,
    timeout: u64,
) -> Option<StunMapping> {
    assert_eq!(port, 3478);
    assert_eq!(source_host, "127.0.0.1");
    assert_eq!(source_port, 40000);
    assert_eq!(timeout, 250);
    if host == "working" {
        Some(StunMapping {
            inter: endpoint(127, 0, 0, 1, source_port),
            outer: endpoint(203, 0, 113, 9, 50000),
        })
    } else {
        None
    }
}

#[test]
fn tcp_stun_client_discovers_outer_endpoint_over_loopback() {
    let servers = vec!["silent".to_string(), "a:b:c".to_string(), "working:3478".to_string()];
    let client = TcpStunClient::new(servers, "127.0.0.1".to_string(), 40000).unwrap();
    let mapping = client.get_mapping(250, &answer).unwrap();
    assert_eq!(mapping.outer, endpoint(203, 0, 113, 9, 50000));
    assert_eq!(mapping.inter.ip, v4(127, 0, 0, 1));
    assert_ne!(mapping.inter.port, 0);
    assert!(TcpStunClient::new(Vec::new(), "0.0.0.0".to_string(), 0).is_none());
}

#[test]
fn unreachable_stun_server_degrades_to_no_mapping() {
    let mut on = table(true);
    let servers = vec!["203.0.113.1:3478".to_string()];
    assert_eq!(on.refresh_from_servers(&servers, "127.0.0.1", 40000, 250, &answer), None);
    assert_eq!(on.public_endpoint(), None);
    assert!(on.mappings().is_empty());
    let mut off = table(false);
    let working = vec!["working".to_string()];
    assert_eq!(off.refresh_from_servers(&working, "127.0.0.1", 40000, 250, &answer), None);
}

#[test]
fn refresh_registers_discovered_mapping_and_refresher_updates_it() {
    let mut table = table(true);
    let servers = vec!["working".to_string()];
    let mapping = table.refresh_from_servers(&servers, "127.0.0.1", 40000, 250, &answer).unwrap();
    assert_eq!(table.public_endpoint(), Some(mapping.outer));
    assert_eq!(table.translate(mapping.inter.ip, 6881), Some((public_ip(), 6881)));
}

#[test]
fn addresses_of_a_server_are_asked_in_turn() {
    let source = endpoint(0, 0, 0, 0, 40000);
    let six = SocketAddr { ip: IpAddr::V6(1), port: 3478 };
    let silent = endpoint(192, 0, 2, 1, 3478);
    let working = endpoint(192, 0, 2, 2, 3478);
    let outer = endpoint(203, 0, 113, 9, 50000);
    let exchange = |from: SocketAddr, to: SocketAddr, timeout: u64| {
        assert_eq!(from, source);
        assert_ne!(to, six);
        assert_eq!(timeout, 250);
        if to == working { Some(StunMapping { inter: from, outer }) } else { None }
    };
    let found = mapping_from_targets(source, &[six, silent, working], 250, &exchange);
    assert_eq!(found.unwrap().outer, outer);
    assert!(mapping_from_targets(source, &[six, silent], 250, &exchange).is_none());
}

#[test]
fn nat_type_is_not_probed_while_disabled() {
    let mut off = table(false);
    let query =
        |_: &String, _: u16, _: IpAddr, _: u64| Some((NatType::FullCone, None::<SocketAddr>));
    assert_eq!(off.refresh_nat_type(query), NatType::Unknown);
    assert_eq!(off.nat_type(), NatType::Unknown);
    let mut on = table(true);
    assert_eq!(on.refresh_nat_type(query), NatType::FullCone);
    assert_eq!(on.nat_type(), NatType::FullCone);
}

#[test]
fn replies_are_read_up_to_their_length() {
    assert_eq!(wanted_bytes(&[]), 20);
    let mut header = [0u8; 20];
    header[3] = 12;
    assert_eq!(wanted_bytes(&header), 32);
    header[2] = 0xFF;
    assert_eq!(wanted_bytes(&header), 1500);
}

#[test]
fn only_targets_of_the_same_family_are_reachable() {
    let six = SocketAddr { ip: IpAddr::V6(1), port: 1 };
    let four = endpoint(1, 2, 3, 4, 1);
    assert_eq!(reachable_targets(endpoint(0, 0, 0, 0, 0), &[six, four]), vec![four]);
    assert_eq!(reachable_targets(six, &[six, four]), vec![six]);
}
