use pbh_core::auto_stun::{AutoStunConfig, StunMapping, DEFAULT_STUN_TIMEOUT};
use pbh_core::auto_stun_forwarder::{
    create_tunnel, downloader_host_allowed, friendly_bind_addresses, is_public_v4, is_public_v6,
    is_zero_host_v4, keep_alive_request, mapping_test_passed, mapping_test_request,
    resolve_literal, tunnel_port, KeepAliveConfig, NatKeepAlive, StunTcpTunnel, TcpForwarder,
    TcpForwarderConfig, TunnelConfig, KEEP_ALIVE_INTERVAL, MAPPING_TEST_RESPONSE,
};
use pbh_core::net::{IpAddr, SocketAddr};

fn v4(a: u8, b: u8, c: u8, d: u8) -> IpAddr {
    IpAddr::V4(u32::from_be_bytes([a, b, c, d]))
}

fn at(ip: IpAddr, port: u16) -> SocketAddr {
    SocketAddr { ip, port }
}

fn forwarder() -> TcpForwarder {
    TcpForwarder::new(TcpForwarderConfig {
        proxy_host: "127.0.0.1".to_string(),
        proxy_port: 0,
        upstream_host: "127.0.0.1".to_string(),
        upstream_port: 6881,
        use_friendly_loopback: true,
        connect_timeout: 2000,
    })
}

#[test]
fn defaults_match_upstream_switches() {
    let config = TunnelConfig::default();
    assert_eq!(config.local_port, 0);
    assert!(config.available_test);
    assert!(config.ipv6_support);
    assert_eq!(config.keep_alive_test_host, "qq.com");
    assert_eq!(config.keep_alive_test_port, 80);
    assert_eq!(config.keep_alive_initial_delay, 1000);
    assert_eq!(config.keep_alive_interval, 10_000);
    assert_eq!(config.max_keep_alive_failures, 5);
    assert!(config.use_friendly_loopback);
    assert!(!config.allow_public_downloader_host);
    assert_eq!(config.timeout, DEFAULT_STUN_TIMEOUT);
    assert_eq!(tunnel_port(&config, 40000), 40000);
    assert_eq!(tunnel_port(&TunnelConfig { local_port: 7, ..TunnelConfig::default() }, 40000), 7);
    assert_eq!(KeepAliveConfig::default().interval, KEEP_ALIVE_INTERVAL);
}

#[test]
fn translate_maps_upstream_local_address_back_to_downstream() {
    let mut f = forwarder();
    let peer = at(v4(1, 2, 3, 4), 51413);
    let local = at(v4(127, 2, 3, 4), 51413);
    assert!(f.on_accept(Some(peer)));
    assert!(f.on_connected(peer, Some(local)));
    assert_eq!(f.established_connections(), 1);
    assert_eq!(f.translate(local), Some(peer));
    assert_eq!(f.translate(at(v4(127, 0, 0, 1), 1)), None);
    f.on_closed(peer);
    assert_eq!(f.translate(local), None);
    assert_eq!(f.established_connections(), 0);
}

#[test]
fn duplicate_connection_from_same_ip_is_rejected() {
    let mut f = forwarder();
    let first = at(v4(1, 2, 3, 4), 1000);
    let second = at(v4(1, 2, 3, 4), 1001);
    assert!(f.on_accept(Some(first)));
    assert!(!f.on_accept(Some(second)));
    assert!(f.on_connected(first, Some(at(v4(127, 0, 0, 1), 5))));
    assert!(!f.on_accept(Some(second)));
    assert_eq!(f.connection_rejected(), 2);
    assert_eq!(f.connection_handled(), 1);
    assert!(f.on_accept(Some(at(v4(1, 2, 3, 5), 1000))));
    f.on_closed(first);
    assert!(f.on_accept(Some(second)));
    assert!(!f.on_accept(None));
    assert_eq!(f.connection_rejected(), 3);
}

#[test]
fn failed_upstream_frees_the_address() {
    let mut f = forwarder();
    let peer = at(v4(1, 2, 3, 4), 1000);
    assert!(f.on_accept(Some(peer)));
    assert!(!f.on_connected(peer, None));
    assert_eq!(f.connection_failed(), 1);
    assert!(f.reserve_connection(peer.ip));
    f.release_connection(peer.ip);
    assert!(f.on_accept(Some(peer)));
    f.set_local_addr(at(v4(0, 0, 0, 0), 9));
    assert_eq!(f.local_addr(), Some(at(v4(0, 0, 0, 0), 9)));
    assert_eq!(f.config().upstream_port, 6881);
}

#[test]
fn friendly_loopback_binding_reuses_downstream_port() {
    let binds = friendly_bind_addresses(
        true,
        at(v4(127, 0, 0, 1), 6881),
        at(v4(93, 184, 216, 34), 51413),
    );
    assert_eq!(
        binds,
        vec![at(v4(127, 184, 216, 34), 51413), at(v4(127, 184, 216, 34), 0)]
    );
    assert!(friendly_bind_addresses(true, at(v4(10, 0, 0, 1), 1), at(v4(1, 2, 3, 4), 1)).is_empty());
    assert!(friendly_bind_addresses(true, at(IpAddr::V6(1), 1), at(IpAddr::V6(7), 1)).is_empty());
}

#[test]
fn friendly_disabled_falls_back_to_ephemeral_port() {
    let binds = friendly_bind_addresses(
        false,
        at(v4(127, 0, 0, 1), 6881),
        at(v4(93, 184, 216, 34), 51413),
    );
    assert!(binds.is_empty());
}

#[test]
fn keep_alive_request_layout_matches_upstream() {
    assert_eq!(
        keep_alive_request("qq.com"),
        "HEAD / HTTP/1.1\r\nHost: qq.com\r\nUser-Agent: PeerBanHelper-NAT-Keeper/1.0\r\nConnection: keep-alive\r\n\r\n"
    );
}

#[test]
fn keep_alive_marks_tunnel_invalid_after_consecutive_failures() {
    let mut k = NatKeepAlive::new(2);
    assert!(k.is_valid());
    assert!(k.on_round(false, 10));
    assert!(k.is_valid());
    assert!(k.on_round(true, 20));
    assert_eq!(k.last_success_heartbeat_at(), 20);
    assert!(k.on_round(false, 30));
    assert!(!k.on_round(false, 40));
    assert!(!k.is_valid());
}

#[test]
fn test_mapping_passes_on_loopback_hairpin() {
    assert!(mapping_test_passed(MAPPING_TEST_RESPONSE.as_bytes()));
    assert_eq!(
        mapping_test_request(&v4(127, 0, 0, 1)),
        "GET /test HTTP/1.1\r\nHost: 127.0.0.1\r\nConnection: close\r\n\r\n"
    );
}

#[test]
fn test_mapping_fails_when_outer_unreachable() {
    assert!(!mapping_test_passed(b""));
    assert!(!mapping_test_passed(b"HTTP/1.1 200 OK\r\n\r\n"));
    assert!(!mapping_test_passed(b"20"));
    assert!(mapping_test_passed(b"204"));
}

#[test]
fn downloader_host_validation_rejects_public_addresses() {
    let lookup = |_host: &String| None;
    let allowed = |host: &str, public: bool| downloader_host_allowed(&host.to_string(), public, &lookup);
    assert!(allowed("127.0.0.1", false));
    assert!(allowed("192.168.1.10", false));
    assert!(allowed("10.0.0.5", false));
    assert!(allowed("172.16.0.1", false));
    assert!(allowed("169.254.1.1", false));
    assert!(allowed("0.0.0.0", false));
    assert!(allowed("192.168.1.0", false));
    assert!(allowed("10.0.0.0", false));
    assert!(allowed("224.0.0.1", false));
    assert!(allowed("fe80::1", false));
    assert!(allowed("fd00::1", false));
    assert!(allowed("unresolvable-host.invalid", false));
    assert!(!allowed("93.184.216.34", false));
    assert!(!allowed("8.8.8.8", false));
    assert!(allowed("8.8.8.8", true));
    assert!(!allowed("2001:db8::1", false));
    let found = |_host: &String| Some(v4(8, 8, 8, 8));
    assert!(!downloader_host_allowed(&"public.example".to_string(), false, &found));
}

#[test]
fn public_addresses_are_told_apart() {
    assert!(is_zero_host_v4(0x0A00_0000));
    assert!(is_zero_host_v4(0xC0A8_0100));
    assert!(!is_zero_host_v4(0xC0A8_0101));
    assert!(is_zero_host_v4(0xAC10_0000));
    assert!(!is_zero_host_v4(0xF000_0000));
    assert!(is_public_v4(0x0808_0808));
    assert!(!is_public_v4(0xAC1F_0001));
    assert!(is_public_v4(0xAC20_0001));
    assert!(is_public_v6(0x2001_0db8_0000_0000_0000_0000_0000_0001));
    assert!(!is_public_v6(0x2001_0db8_0000_0000_0000_0000_0000_0000));
    assert!(!is_public_v6(0xff02_0000_0000_0000_0000_0000_0000_0001));
}

#[test]
fn literal_hosts_are_resolved() {
    assert_eq!(resolve_literal(" [::1] ", 5), Some(at(IpAddr::V6(1), 5)));
    assert_eq!(resolve_literal("1.2.3.4", 5), Some(at(v4(1, 2, 3, 4), 5)));
    assert_eq!(resolve_literal("example.com", 5), None);
}

fn mapping() -> StunMapping {
    StunMapping { inter: at(v4(192, 168, 1, 2), 40000), outer: at(v4(203, 0, 113, 9), 50000) }
}

fn make(
    servers: &[&str],
    host: &str,
    config: &TunnelConfig,
    passes: Result<bool, String>,
    starts: bool,
) -> Result<Option<StunTcpTunnel>, String> {
    let servers: Vec<String> = servers.iter().map(|s| s.to_string()).collect();
    create_tunnel(
        &servers,
        &host.to_string(),
        config,
        40000,
        7,
        &|host: &String, port: u16, source_host: &String, source_port: u16, timeout: u64| {
            assert_eq!(port, 3478);
            assert_eq!(source_host, "0.0.0.0");
            assert_eq!(source_port, if config.local_port == 0 { 40000 } else { config.local_port });
            assert_eq!(timeout, config.timeout);
            if host == "working" { Some(mapping()) } else { None }
        },
        &|_m: &StunMapping, timeout: u64| {
            assert_eq!(timeout, config.timeout);
            passes.clone()
        },
        &|_h: &String| None,
        &|c: &TcpForwarderConfig| {
            if starts {
                Ok(at(v4(0, 0, 0, 0), c.proxy_port))
            } else {
                Err("in use".to_string())
            }
        },
    )
}

#[test]
fn create_tunnel_end_to_end_forwards_to_downloader() {
    let config = TunnelConfig { available_test: false, ipv6_support: false, ..TunnelConfig::default() };
    let mut tunnel = make(&["silent", "working"], "127.0.0.1", &config, Ok(false), true)
        .unwrap()
        .unwrap();
    assert!(tunnel.is_valid());
    assert_eq!(tunnel.inter, mapping().inter);
    assert_eq!(tunnel.outer.port, 50000);
    assert_eq!(tunnel.started_at(), 7);
    assert_eq!(tunnel.forwarder.connection_handled(), 0);
    assert_eq!(tunnel.forwarder.connection_failed(), 0);
    assert_eq!(tunnel.forwarder.connection_rejected(), 0);
    assert_eq!(tunnel.last_success_heartbeat_at(), 0);
    let forwarder = tunnel.forwarder.config();
    assert_eq!(forwarder.proxy_host, "0.0.0.0");
    assert_eq!(forwarder.proxy_port, 40000);
    assert_eq!(forwarder.upstream_host, "127.0.0.1");
    assert_eq!(forwarder.upstream_port, 50000);
    assert_eq!(tunnel.forwarder.local_addr(), Some(at(v4(0, 0, 0, 0), 40000)));
    assert_eq!(tunnel.keep_alive_config.bind_host, "192.168.1.2");
    assert_eq!(tunnel.keep_alive_config.bind_port, 40000);
    assert_eq!(tunnel.translate(at(v4(127, 0, 0, 1), 1)), None);
    tunnel.close();
    assert!(!tunnel.is_valid());
}

#[test]
fn create_tunnel_rejects_public_downloader_host() {
    let config = TunnelConfig { available_test: false, ..TunnelConfig::default() };
    assert!(make(&["working"], "93.184.216.34", &config, Ok(true), true).unwrap().is_none());
}

#[test]
fn create_tunnel_errors_on_unreachable_stun() {
    let config = TunnelConfig { available_test: false, ..TunnelConfig::default() };
    assert_eq!(
        make(&["203.0.113.1:3478"], "127.0.0.1", &config, Ok(true), true).unwrap_err(),
        "No available STUN server"
    );
    assert_eq!(
        make(&[], "127.0.0.1", &config, Ok(true), true).unwrap_err(),
        "STUN server list cannot be empty"
    );
}

#[test]
fn create_tunnel_needs_a_passing_test_and_a_forwarder() {
    let config = TunnelConfig { local_port: 50123, timeout: 321, ..TunnelConfig::default() };
    assert!(make(&["working"], "127.0.0.1", &config, Ok(false), true).unwrap().is_none());
    assert!(make(&["working"], "127.0.0.1", &config, Ok(true), true).unwrap().is_some());
    assert_eq!(
        make(&["working"], "127.0.0.1", &config, Err("no route".to_string()), true).unwrap_err(),
        "no route"
    );
    assert_eq!(
        make(&["working"], "127.0.0.1", &config, Ok(true), false).unwrap_err(),
        "in use"
    );
}

#[test]
fn tunnels_are_made_only_while_enabled() {
    let servers = vec!["working".to_string()];
    let host = "127.0.0.1".to_string();
    for enabled in [false, true] {
        let table = AutoStunConfig { enabled, ..AutoStunConfig::default() }.build();
        let tunnel = table.create_tunnel(
            &servers,
            &host,
            &TunnelConfig::default(),
            40000,
            7,
            &|_: &String, _: u16, _: &String, _: u16, _: u64| Some(mapping()),
            &|_m: &StunMapping, _: u64| Ok(true),
            &|_h: &String| None,
            &|c: &TcpForwarderConfig| Ok(at(v4(0, 0, 0, 0), c.proxy_port)),
        );
        assert_eq!(tunnel.is_some(), enabled);
    }
}
