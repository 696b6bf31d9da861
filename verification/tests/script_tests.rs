use pbh_core::model::{Double, PeerData, TorrentData};
use pbh_core::script::{
    address_property, av_get, av_keys, av_long, canonical_address, downloader_property, is_blank,
    is_not_blank, peer_property, script_timed_out, torrent_property, LongOutcome, PeerAddressInfo,
    ScriptDownloader, ScriptValue,
};

fn text(s: &str) -> ScriptValue {
    ScriptValue::Text(s.to_string())
}

fn peer() -> PeerData {
    PeerData {
        client_name: Some("qBittorrent/4.5.0".into()),
        peer_id: None,
        dl_speed: 1,
        downloaded: 2,
        up_speed: 3,
        uploaded: 4,
        progress: Double { bits: 0.5f64.to_bits() },
        flags: Some("d u".into()),
        ip: "::ffff:1.2.3.4".into(),
        port: 6881,
        raw_ip: "1.2.3.4:6881".into(),
        connection: None,
    }
}

fn torrent() -> TorrentData {
    TorrentData {
        hash: "ABC".into(),
        name: "t".into(),
        progress: Double { bits: 1.0f64.to_bits() },
        total_size: 100,
        piece_size: 7,
        pieces_have: 3,
        completed_override: None,
        dlspeed: 8,
        upspeed: 9,
        is_private: None,
    }
}

fn shown(v: Option<ScriptValue>) -> String {
    format!("{v:?}")
}

#[test]
fn is_blank_matches_aviator() {
    assert!(is_blank(&text("")));
    assert!(is_blank(&text("  ")));
    assert!(!is_blank(&text("x")));
    assert!(is_not_blank(&text("x")));
    assert!(!is_not_blank(&text("")));
    assert!(!is_blank(&ScriptValue::Int(0)));
    assert!(!is_not_blank(&ScriptValue::Int(0)));
}

#[test]
fn is_blank_treats_null_as_blank() {
    assert!(is_blank(&ScriptValue::Unit));
    assert!(!is_not_blank(&ScriptValue::Unit));
}

#[test]
fn aviator_type_conversion_builtins() {
    assert_eq!(av_long(&ScriptValue::Int(2)), LongOutcome::Value(2));
    assert_eq!(av_long(&text(" 42 ")), LongOutcome::Value(42));
    assert_eq!(av_long(&text("abc")), LongOutcome::Unreadable);
    assert_eq!(av_long(&ScriptValue::Bool(true)), LongOutcome::NotText);
    let d = Double { bits: 2.9f64.to_bits() };
    assert_eq!(av_long(&ScriptValue::Number(d)), LongOutcome::Truncate(d));
}

#[test]
fn peers_show_their_properties_under_both_names() {
    let p = peer();
    for (snake, camel) in [
        ("peer_id", "peerId"),
        ("client_name", "clientName"),
        ("download_speed", "downloadSpeed"),
        ("upload_speed", "uploadSpeed"),
    ] {
        assert_eq!(shown(peer_property(&p, snake)), shown(peer_property(&p, camel)));
    }
    assert!(matches!(peer_property(&p, "peerId"), Some(ScriptValue::Text(t)) if t.is_empty()));
    assert!(matches!(peer_property(&p, "port"), Some(ScriptValue::Int(6881))));
    assert!(matches!(peer_property(&p, "uploaded"), Some(ScriptValue::Int(4))));
    assert!(peer_property(&p, "colour").is_none());
    let Some(ScriptValue::Address(address)) = peer_property(&p, "peerAddress") else {
        panic!("no address");
    };
    assert!(matches!(address_property(&address, "address"), Some(ScriptValue::Text(t)) if t == "1.2.3.4"));
    assert!(matches!(address_property(&address, "ip"), Some(ScriptValue::Text(t)) if t == "::ffff:1.2.3.4"));
}

#[test]
fn torrents_show_their_properties() {
    let t = torrent();
    assert!(matches!(torrent_property(&t, "id"), Some(ScriptValue::Text(x)) if x == "ABC"));
    assert!(matches!(torrent_property(&t, "private"), Some(ScriptValue::Bool(false))));
    assert!(matches!(torrent_property(&t, "seeding"), Some(ScriptValue::Bool(true))));
    assert!(matches!(torrent_property(&t, "rtUploadSpeed"), Some(ScriptValue::Int(9))));
    let Some(ScriptValue::Text(id)) = torrent_property(&t, "hashedIdentifier") else {
        panic!("no identifier");
    };
    assert_eq!(id, pbh_core::btn_transport::get_hashed_identifier("abc"));
    assert_eq!(t.completed_size(), 21);
    assert!(matches!(torrent_property(&t, "completedSize"), Some(ScriptValue::Int(21))));
    let d = ScriptDownloader { id: "1".into(), name: "qb".into() };
    assert!(matches!(downloader_property(&d, "name"), Some(ScriptValue::Text(x)) if x == "qb"));
    assert!(downloader_property(&d, "type").is_none());
}

#[test]
fn addresses_are_shown_in_their_usual_form() {
    assert_eq!(canonical_address("2001:DB8:0::1"), "2001:db8::1");
    assert_eq!(canonical_address("[::1]"), "::1");
    assert_eq!(canonical_address("not an address"), "not an address");
    let a = PeerAddressInfo { ip: "::ffff:8.8.8.8".into(), port: 1 };
    assert!(matches!(address_property(&a, "address"), Some(ScriptValue::Text(t)) if t == "8.8.8.8"));
    assert!(matches!(address_property(&a, "port"), Some(ScriptValue::Int(1))));
}

#[test]
fn keys_and_values_keep_their_order() {
    let items: Vec<String> = ["a", "1", "b", "2", "a", "3", "c"].iter().map(|s| s.to_string()).collect();
    assert_eq!(av_keys(items.len()), vec![0, 2, 4, 6]);
    assert_eq!(av_keys(0), Vec::<usize>::new());
    assert_eq!(av_get(&items, "a"), Some(1));
    assert_eq!(av_get(&items, "b"), Some(3));
    assert_eq!(av_get(&items, "c"), None);
    assert_eq!(av_get(&items, "1"), None);
}

#[test]
fn scripts_run_for_their_time() {
    assert!(!script_timed_out(0, i64::MAX));
    assert!(!script_timed_out(1000, 2500));
    assert!(script_timed_out(1000, 2501));
}
