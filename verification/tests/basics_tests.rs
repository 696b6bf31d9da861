use pbh_core::banlist::{
    identifier_of, needs_full_ban_list, random_id, BanList, BanMetadata, BannedPeer, BannedRecord,
    BannedTorrent,
};
use pbh_core::i18n::{fill_args, normalize_locale, parse_messages, Param, TranslationComponent, Translator};
use pbh_core::iputil::{
    is_ipv4, parse_addr, prefix_block, reverse_dns_name, split_host_port,
    v4_unspecified, v6_unspecified, IpSet,
};
use pbh_core::model::{Double, PeerAddress, PeerData, PeerFlag, TorrentData};
use pbh_core::module::{CheckContext, CheckResult, PeerAction};
use pbh_core::net::IpAddr;
use pbh_core::text::{i64_text, text_before, trim};
use pbh_core::textmap::TextMap;
use pbh_core::textset::TextSet;

fn owned(items: &[&str]) -> Vec<String> {
    items.iter().map(|s| s.to_string()).collect()
}

#[test]
fn cidr_contains() {
    let set = IpSet::from_cidrs(&owned(&["192.168.0.0/16", "10.0.0.0/8", "fe80::/10"]));
    assert!(set.contains("192.168.1.23"));
    assert!(set.contains("10.255.255.255"));
    assert!(!set.contains("8.8.8.8"));
    assert!(set.contains("fe80::1"));
    assert!(!set.contains("2001:4860:4860::8888"));
    assert_eq!(set.matching("10.1.2.3").as_deref(), Some("10.0.0.0/8"));
    assert_eq!(set.matching("8.8.8.8"), None);
}

#[test]
fn single_ip_and_prefix() {
    let set = IpSet::from_cidrs(&owned(&["1.2.3.4"]));
    assert!(set.contains("1.2.3.4"));
    assert!(!set.contains("1.2.3.5"));
    assert_eq!(prefix_block("1.2.3.4", 32, 56).as_deref(), Some("1.2.3.4/32"));
    assert_eq!(prefix_block("2001:db8::1234", 32, 56).as_deref(), Some("2001:db8::/56"));
    assert!(IpSet::from_cidrs(&owned(&["nonsense"])).is_empty());
}

#[test]
fn host_port_split() {
    assert_eq!(split_host_port("1.2.3.4:51413").as_deref(), Some("1.2.3.4"));
    assert_eq!(split_host_port("[2001:db8::1]:51413").as_deref(), Some("2001:db8::1"));
}

#[test]
fn addresses_are_read_and_reversed() {
    assert_eq!(parse_addr("[::ffff:1.2.3.4]"), Some(IpAddr::V4(0x0102_0304)));
    assert_eq!(parse_addr("x"), None);
    assert_eq!(reverse_dns_name("1.2.3.4").as_deref(), Some("4.3.2.1.in-addr.arpa"));
    assert!(reverse_dns_name("2001:db8::1").unwrap().ends_with(".8.b.d.0.1.0.0.2.ip6.arpa"));
    assert!(is_ipv4("1.2.3.4"));
    assert!(!is_ipv4("::1"));
    assert!(is_ipv4(" ::ffff:1.2.3.4 "));
    assert!(!is_ipv4("x"));
}

#[test]
fn normalize_locale_matches_upstream() {
    assert_eq!(normalize_locale("zh-CN"), "zh_cn");
    assert_eq!(normalize_locale(" EN_us "), "en_us");
}

#[test]
fn embedded_tables_are_loaded() {
    let files = vec![
        ("en_us".to_string(), "A: 'english {}'\nB: only".to_string()),
        ("zh_cn".to_string(), "PCB_RULE_PROGRESS_REWIND: 进度回退".to_string()),
        ("zh_tw".to_string(), "A: x".to_string()),
        ("messages_fallback".to_string(), "C: last".to_string()),
    ];
    let t = Translator::embedded(&files);
    assert!(t.template("PCB_RULE_PROGRESS_REWIND", "zh_cn").is_some());
    assert_eq!(t.template("B", "zh_cn").map(|s| s.as_str()), Some("only"));
    assert_eq!(t.template("C", "zh_cn").map(|s| s.as_str()), Some("last"));
    let overrides = vec![("ZH_CN".to_string(), "A: ours".to_string())];
    let t = Translator::with_overrides(&files, &overrides);
    assert_eq!(t.template("A", "zh_cn").map(|s| s.as_str()), Some("ours"));
    assert!(t.template("PCB_RULE_PROGRESS_REWIND", "zh_cn").is_some());
}

#[test]
fn messages_are_rendered_with_their_arguments() {
    let mut t = Translator::new();
    t.extend("en_us", vec![("GREETING".to_string(), "hello {}, {}".to_string())]);
    let inner = TranslationComponent::new("UNKNOWN");
    let c = TranslationComponent::with_params(
        "GREETING",
        vec![Param::from("you".to_string()), Param::from(inner)],
    );
    assert_eq!(c.render(&t, "xx"), "hello you, UNKNOWN");
    assert_eq!(fill_args("{} {}", &owned(&["a"])), "a {}");
    assert_eq!(fill_args("plain", &owned(&["a"])), "plain");
    assert_eq!(
        parse_messages("A: 1\nB: true\nC: [x]\n"),
        vec![("A".to_string(), "1".to_string()), ("B".to_string(), "true".to_string())]
    );
    assert!(parse_messages("- x").is_empty());
}

#[test]
fn ban_list_keeps_and_releases_records() {
    let mut list = BanList::new();
    assert!(list.is_empty());
    assert!(!list.add("1.2.3.4", 100, "pcb", false));
    assert!(list.add("1.2.3.4", 200, "pcb", false));
    assert!(!list.add("9.9.9.9", 0, "ip", true));
    assert_eq!(list.len(), 2);
    assert!(list.contains("1.2.3.4"));
    assert_eq!(list.get("1.2.3.4").unwrap().unban_at_ms, 200);
    assert!(list.remove_expired(199).is_empty());
    assert_eq!(list.keys_sorted(), owned(&["1.2.3.4", "9.9.9.9"]));
    let removed = list.remove_expired(201);
    assert_eq!(removed.len(), 1);
    assert_eq!(removed[0].ip, "1.2.3.4");
    assert!(list.remove("9.9.9.9").is_some());
    assert!(list.remove("9.9.9.9").is_none());
    list.mark_reapply();
    assert!(list.need_reapply());
    list.clear_need_reapply();
    assert!(!list.need_reapply());
    list.clear();
    assert!(list.need_reapply());
    list.load(vec![BannedRecord::minimal("5.5.5.5", 7, "m", false)]);
    assert_eq!(list.records_sorted()[0].ip, "5.5.5.5");
}

#[test]
fn bans_expire_strictly_after_their_end() {
    let mut list = BanList::new();
    assert!(!list.add_record(BannedRecord::minimal("1.1.1.1", 100, "m", false)));
    assert!(!list.add_record(BannedRecord::minimal("2.2.2.2", 0, "m", false)));
    assert!(list.remove_expired(100).is_empty());
    assert_eq!(list.remove_expired(101).len(), 1);
    assert!(list.remove_expired(i64::MAX).is_empty());
    assert!(list.contains("2.2.2.2"));
}

#[test]
fn full_lists_are_sent_when_needed() {
    assert!(!needs_full_ban_list(0, true, false));
    assert!(needs_full_ban_list(1, true, false));
    assert!(needs_full_ban_list(0, false, false));
    assert!(needs_full_ban_list(0, true, true));
}

#[test]
fn identifiers_are_hexadecimal() {
    assert_eq!(identifier_of(1, 0xABCD), "0000000000000001000000000000abcd");
    assert_eq!(random_id().len(), 32);
    assert_ne!(random_id(), random_id());
    let m = BanMetadata::minimal("1.2.3.4", "ctx", 1, 2);
    assert_eq!(m.peer.address.ip, "1.2.3.4");
    assert_eq!(m.reverse_lookup, "N/A");
    assert!(!m.ban_for_disconnect);
}

fn peer() -> PeerData {
    PeerData {
        client_name: None,
        peer_id: Some("-qB-".into()),
        dl_speed: 1,
        downloaded: 2,
        up_speed: 3,
        uploaded: 4,
        progress: Double::zero(),
        flags: Some("U E".into()),
        ip: "1.2.3.4".into(),
        port: 6881,
        raw_ip: "1.2.3.4:6881".into(),
        connection: None,
    }
}

#[test]
fn banned_peers_and_torrents_are_noted() {
    let p = BannedPeer::from_peer(&peer());
    assert_eq!(p.address.port, 6881);
    assert_eq!(p.id, "-qB-");
    assert_eq!(p.client_name, "");
    let t = TorrentData {
        hash: "h".into(),
        name: "n".into(),
        progress: Double::zero(),
        total_size: 10,
        piece_size: 0,
        pieces_have: 0,
        completed_override: None,
        dlspeed: 0,
        upspeed: 0,
        is_private: Some(true),
    };
    assert_eq!(BannedTorrent::from_torrent(&t, 5).completed_size, 5);
    assert!(BannedTorrent::from_torrent(&t, 5).private_torrent);
    assert_eq!(t.id(), "h");
    assert_eq!(t.completed_size(), -1);
    assert!(t.is_private());
    assert!(!t.is_seeding());
    assert_eq!(PeerAddress::new("1.2.3.4".into(), 6881, "r".into()).cache_key(), "1.2.3.4:6881");
    let flag = PeerFlag::parse("D U X");
    assert!(flag.from_pex);
    assert!(!flag.from_dht);
}

#[test]
fn actions_are_ranked() {
    assert!(PeerAction::Ban.ordinal() > PeerAction::NoAction.ordinal());
    assert!(PeerAction::Ban.is_ban());
    assert!(!PeerAction::NoAction.is_ban());
    assert_eq!(CheckResult::pass("m").action, PeerAction::NoAction);
    let ctx = CheckContext { now_ms: 0, features: owned(&["UNBAN_IP"]) };
    assert!(ctx.has_feature("UNBAN_IP"));
    assert!(!ctx.has_feature("X"));
}

#[test]
fn texts_are_mapped_and_ordered() {
    let mut map: TextMap<i32> = TextMap::new();
    assert!(!map.insert("b".to_string(), 1));
    assert!(!map.insert("a".to_string(), 2));
    assert!(map.insert("b".to_string(), 3));
    assert_eq!(map.get("b"), Some(&3));
    assert_eq!(map.keys_sorted(), owned(&["a", "b"]));
    assert_eq!(map.remove("b"), Some(3));
    assert_eq!(map.len(), 1);
    let mut set = TextSet::new();
    assert!(set.is_empty());
    assert!(set.insert("x".to_string()));
    assert!(!set.insert("x".to_string()));
    assert!(set.contains("x"));
    assert_eq!(set.len(), 1);
    assert!(text_before("a", "b"));
    assert_eq!(i64_text(i64::MIN), "-9223372036854775808");
    assert_eq!(trim("\u{3000} a "), "a");
}

#[test]
fn peers_tell_what_they_are_doing() {
    let busy = peer();
    assert!(!busy.is_handshaking());
    assert!(busy.is_uploading_to_peer());
    let idle = PeerData { dl_speed: 0, up_speed: 0, uploaded: 0, ..peer() };
    assert!(idle.is_handshaking());
    assert!(!idle.is_uploading_to_peer());
    assert!(PeerData { uploaded: 1, ..idle }.is_uploading_to_peer());
    let flag = busy.peer_flag().unwrap();
    assert!(flag.remote_interested && !flag.choked && flag.rc4_encrypted);
    assert_eq!(flag.is_from_incoming(), !flag.outgoing_connection());
    assert!(PeerFlag::parse("I").is_from_incoming());
    assert!(PeerData { flags: Some(String::new()), ..peer() }.peer_flag().is_none());
}

#[test]
fn verdicts_take_keys() {
    let verdict = CheckResult::pass("m")
        .with_keys(TranslationComponent::new("RULE"), TranslationComponent::new("REASON"));
    assert_eq!(verdict.rule_key.unwrap().key, "RULE");
    assert_eq!(verdict.reason_key.unwrap().key, "REASON");
    assert_eq!(verdict.module, "m");
    assert_eq!(verdict.action, PeerAction::NoAction);
}

#[test]
fn completed_size_may_be_told_or_counted() {
    let t = TorrentData {
        hash: "h".into(),
        name: "n".into(),
        progress: Double::zero(),
        total_size: 100,
        piece_size: 3,
        pieces_have: 7,
        completed_override: None,
        dlspeed: 0,
        upspeed: 0,
        is_private: None,
    };
    assert_eq!(t.completed_size(), 21);
    assert_eq!(TorrentData { completed_override: Some(0), ..t }.completed_size(), 0);
}

#[test]
fn unspecified_addresses_are_all_zero() {
    assert_eq!(parse_addr("0.0.0.0"), Some(v4_unspecified()));
    assert_eq!(parse_addr("::"), Some(v6_unspecified()));
    assert!(!IpSet::default().contains_addr(&v4_unspecified()));
    assert!(CheckContext::default().features.is_empty());
}
