//! Where addresses are: settings, divisions, records and databases.

use pbh_core::division::{parse_csv_line, DivisionTable};
use pbh_core::geo_data::{AsData, CityData, IpGeoData, NetworkData};
use pbh_core::geoip::{
    default_locale, external_switch, external_switch_bool, external_switch_i64, geo_cn_data,
    geo_cn_rev1, geoip_force_disabled, show_name, switch_env_key, CodeValue, GeoCnRecord,
    GeoIpConfig, GeoIpProvider, StaticGeoIp, NET_TYPE_DATACENTER_ALT, NET_TYPE_WIDEBAND,
    SWITCH_FORCE_DISABLE_IPDB,
};
use pbh_core::geoip_db::{GeoIpDb, GeoIpError};
use pbh_core::iputil::parse_addr;
use pbh_core::net::IpAddr;
use serde_json::Value;
use std::collections::HashMap;

fn addr(text: &str) -> IpAddr {
    parse_addr(text).unwrap()
}

fn no_env(_: &String) -> Option<String> {
    None
}

// -------------------------------------------------------------- small databases

/// The head of a value: its type and its size.
fn head(kind: u8, size: usize) -> Vec<u8> {
    assert!(size < 29 + 256);
    let (low, rest) = if size < 29 { (size as u8, None) } else { (29, Some((size - 29) as u8)) };
    let mut out = if kind < 8 { vec![(kind << 5) | low] } else { vec![low, kind - 7] };
    out.extend(rest);
    out
}

fn text(value: &str) -> Vec<u8> {
    let mut out = head(2, value.len());
    out.extend_from_slice(value.as_bytes());
    out
}

fn number(kind: u8, value: u64) -> Vec<u8> {
    let bytes = value.to_be_bytes();
    let start = bytes.iter().position(|byte| *byte != 0).unwrap_or(bytes.len());
    let mut out = head(kind, bytes.len() - start);
    out.extend_from_slice(&bytes[start..]);
    out
}

fn map(fields: Vec<(&str, Vec<u8>)>) -> Vec<u8> {
    let mut out = head(7, fields.len());
    for (key, value) in fields {
        out.extend(text(key));
        out.extend(value);
    }
    out
}

/// A database that has one record for all addresses.
fn database(kind: &str, record: Vec<u8>) -> Vec<u8> {
    let mut file: Vec<u8> = Vec::new();
    for _ in 0..2 {
        file.extend_from_slice(&[0, 0, 17]);
    }
    file.extend_from_slice(&[0; 16]);
    file.extend(record);
    file.extend_from_slice(b"\xab\xcd\xefMaxMind.com");
    let mut languages = head(11, 1);
    languages.extend(text("en"));
    file.extend(map(vec![
        ("binary_format_major_version", number(5, 2)),
        ("binary_format_minor_version", number(5, 0)),
        ("build_epoch", number(9, 1_700_000_000)),
        ("database_type", text(kind)),
        ("description", map(vec![("en", text("a small database"))])),
        ("ip_version", number(5, 4)),
        ("languages", languages),
        ("node_count", number(6, 1)),
        ("record_size", number(5, 24)),
    ]));
    file
}

fn city_database(iso: &str) -> Vec<u8> {
    let country_names = map(vec![("en", text("Some Country")), ("zh-CN", text("某国"))]);
    let city_names = map(vec![("en", text("Some City"))]);
    database(
        "GeoLite2-City",
        map(vec![
            ("city", map(vec![("geoname_id", number(6, 4321)), ("names", city_names)])),
            ("country", map(vec![("iso_code", text(iso)), ("names", country_names)])),
        ]),
    )
}

fn asn_database() -> Vec<u8> {
    database(
        "GeoLite2-ASN",
        map(vec![
            ("autonomous_system_number", number(6, 64512)),
            ("autonomous_system_organization", text("Some Org")),
        ]),
    )
}

/// The record that a database has of an address, if its texts and codes can be read.
fn records(database: &Vec<u8>, ip: IpAddr) -> Option<GeoCnRecord> {
    let reader = maxminddb::Reader::from_source(database).ok()?;
    let address = match ip {
        IpAddr::V4(v) => v.to_be_bytes().into(),
        IpAddr::V6(v) => v.to_be_bytes().into(),
    };
    let found = reader.lookup(address).ok()?.decode::<HashMap<String, Value>>().ok()??;
    let text = |key: &str| found.get(key).and_then(|v| v.as_str()).map(String::from);
    let code = |key: &str| match found.get(key) {
        Some(Value::Number(n)) => n.as_i64().map(CodeValue::Int),
        Some(Value::String(t)) => Some(CodeValue::Text(t.clone())),
        _ => None,
    };
    Some(GeoCnRecord {
        isp: text("isp"),
        net: text("net"),
        net_type: text("type"),
        province: text("province"),
        city: text("city"),
        districts: text("districts"),
        province_code: code("province_code"),
        city_code: code("city_code"),
        districts_code: code("districts_code"),
        division_code: code("division_code"),
    })
}

type Records = fn(&Vec<u8>, IpAddr) -> Option<GeoCnRecord>;

fn open_bytes(
    city: Option<Vec<u8>>,
    asn: Option<Vec<u8>>,
    geo_cn: Option<Vec<u8>>,
    locales: Vec<String>,
) -> Result<GeoIpDb<Records>, GeoIpError> {
    let paths = ["d/city", "d/asn", "d/geocn"].map(String::from);
    let read = |path: &String| {
        let file = match path.as_str() {
            "d/city" => &city,
            "d/asn" => &asn,
            _ => &geo_cn,
        };
        Ok(file.clone().unwrap())
    };
    GeoIpDb::open_files(
        city.as_ref().map(|_| &paths[0]),
        asn.as_ref().map(|_| &paths[1]),
        geo_cn.as_ref().map(|_| &paths[2]),
        locales,
        &read,
        records as Records,
    )
}

// ------------------------------------------------------------------------ tests

#[test]
fn load_missing_directory_is_err_and_never_panics() {
    let read = |_: &String| Err("no such file".to_string());
    match GeoIpDb::load("pbh-core-geoip-does-not-exist", &read, &no_env, records, &no_env) {
        Err(GeoIpError::Open { path, source }) => {
            assert_eq!(path, "pbh-core-geoip-does-not-exist/geoip/GeoIP-City.mmdb");
            assert_eq!(source, "no such file");
        }
        Ok(_) => panic!("loaded"),
    }
}

#[test]
fn databases_are_opened_in_turn() {
    let read = |path: &String| {
        if path.ends_with("GeoIP-City.mmdb") {
            Ok(city_database("CN"))
        } else if path.ends_with("GeoIP-ASN.mmdb") {
            Ok(b"no database".to_vec())
        } else {
            Err("no such file".to_string())
        }
    };
    let result = GeoIpDb::load_with_locales("d", Vec::new(), &read, &no_env, records);
    match result {
        Err(GeoIpError::Open { path, source }) => {
            assert_eq!(path, "d/geoip/GeoIP-ASN.mmdb");
            assert!(!source.is_empty());
        }
        Ok(_) => panic!("loaded"),
    }
}

#[test]
fn divisions_next_to_the_databases_come_first() {
    let geo_cn = database("GeoCN", map(vec![("division_code", text("46"))]));
    let read = |path: &String| {
        if path.ends_with("GeoIP-City.mmdb") {
            Ok(city_database("CN"))
        } else if path.ends_with("GeoIP-ASN.mmdb") {
            Ok(asn_database())
        } else {
            Ok(geo_cn.clone())
        }
    };
    let name = |tables: [Option<&str>; 2]| {
        let table = |path: &String| match path.as_str() {
            "d/geoip/ok_data_level3.csv" => tables[0].map(String::from),
            "d/ok_data_level3.csv" => tables[1].map(String::from),
            other => panic!("{other}"),
        };
        let db = GeoIpDb::load_with_locales("d", Vec::new(), &read, &table, records).unwrap();
        db.query_geo(addr("1.2.3.4")).city.unwrap().name
    };
    let near = Some("id,ext_name\n46,near\n");
    let far = Some("id,ext_name\n46,far\n");
    assert_eq!(name([near, far]).as_deref(), Some("near"));
    assert_eq!(name([None, far]).as_deref(), Some("far"));
    assert_eq!(name([Some("no header"), far]).as_deref(), Some("far"));
    assert_eq!(name([None, None]).as_deref(), Some("Some City"));
}

#[test]
fn what_is_no_database_cannot_be_opened() {
    let result = open_bytes(Some(Vec::new()), None, None, Vec::new());
    match result {
        Err(GeoIpError::Open { path, source }) => {
            assert_eq!(path, "d/city");
            assert!(!source.is_empty());
        }
        Ok(_) => panic!("opened"),
    }
}

#[test]
fn empty_provider_reports_no_data() {
    let provider = StaticGeoIp::new();
    assert_eq!(provider.query(addr("1.2.3.4")), None);
}

#[test]
fn static_provider_returns_exact_membership() {
    let mut provider = StaticGeoIp::new();
    let ip = addr("1.2.3.4");
    let data = IpGeoData {
        as_data: Some(AsData { number: Some(64512), ..AsData::empty() }),
        ..IpGeoData::default()
    };
    provider.insert(ip, data.copy());
    assert_eq!(provider.query(ip), Some(data));
    assert_eq!(provider.query(addr("1.2.3.5")), None);
}

#[test]
fn network_type_switch_matches_upstream_cases() {
    let mut config = GeoIpConfig::default();
    assert!(!config.network_type_hit("宽带"));
    config.network_type.insert(NET_TYPE_WIDEBAND.into());
    config.network_type.insert(NET_TYPE_DATACENTER_ALT.into());
    assert!(config.network_type_hit("宽带"));
    assert!(!config.network_type_hit("基站"));
    assert!(config.network_type_hit("数据中心"));
    assert!(config.network_type_hit("IDC"));
    assert!(!config.network_type_hit("未知类型"));
}

#[test]
fn net_type_config_is_empty_for_default() {
    assert!(GeoIpConfig::default().is_empty());
}

#[test]
fn merge_overwrites_only_when_requested() {
    let mut base = IpGeoData {
        network: Some(NetworkData { isp: Some("A".into()), net_type: None }),
        ..IpGeoData::default()
    };
    let other = IpGeoData {
        network: Some(NetworkData { isp: Some("B".into()), net_type: Some("宽带".into()) }),
        ..IpGeoData::default()
    };
    base.merge_from(&other, false);
    assert_eq!(base.network.as_ref().unwrap().isp.as_deref(), Some("A"));
    assert_eq!(base.network.as_ref().unwrap().net_type.as_deref(), Some("宽带"));
    base.merge_from(&other, true);
    assert_eq!(base.network.as_ref().unwrap().isp.as_deref(), Some("B"));
}

#[test]
fn merging_nothing_or_twice_changes_nothing() {
    let data = IpGeoData {
        city: Some(CityData { name: Some("X".into()), ..CityData::empty() }),
        as_data: Some(AsData { number: Some(1), ..AsData::empty() }),
        ..IpGeoData::default()
    };
    for overwrite in [false, true] {
        let mut merged = data.copy();
        merged.merge_from(&IpGeoData::default(), overwrite);
        assert_eq!(merged, data);
        merged.merge_from(&data, overwrite);
        assert_eq!(merged, data);
    }
}

#[test]
fn division_lookup_returns_prefix_path() {
    let mut table = DivisionTable::new();
    table.insert("11", "北京市");
    table.insert("1101", "北京市");
    table.insert("110101", "东城区");
    assert_eq!(table.lookup("110101"), vec!["北京市", "北京市", "东城区"]);
    assert!(table.lookup("999999").is_empty());
}

#[test]
fn divisions_are_read_from_csv() {
    let text = "\"id\",\"pid\",\"deep\",\"name\",\"p\",\"pinyin\",\"ext_id\",\"ext_name\"\n\
                11,0,0,\"北京\",\"b\",\"bei jing\",\"110000000000\",\"北京市\"\n\
                1101,11,1,\"北京\",\"b\",\"bei jing\",\"110100000000\",\"北京市\"\n\
                110101,1101,2,\"东城\",\"d\",\"dong cheng\",\"110101000000\",\"东城区\"\n";
    let table = DivisionTable::load(text).unwrap();
    assert_eq!(table.lookup("110101"), vec!["北京市", "北京市", "东城区"]);
    assert_eq!(table.lookup("1101"), vec!["北京市", "北京市"]);
}

#[test]
fn csv_line_parsing_handles_quotes() {
    assert_eq!(
        parse_csv_line("11,0,0,\"北京\",\"b\",\"bei jing\",\"110000000000\",\"北京市\""),
        vec!["11", "0", "0", "北京", "b", "bei jing", "110000000000", "北京市"]
    );
}

#[test]
fn quotes_keep_commas_and_may_be_doubled() {
    assert_eq!(parse_csv_line("\"a,b\",\"c\"\"d\""), vec!["a,b", "c\"d"]);
    assert_eq!(parse_csv_line(""), vec![""]);
}

#[test]
fn geo_cn_rev1_drops_record_without_division_code() {
    let record = GeoCnRecord { province: Some("海南省".into()), ..GeoCnRecord::default() };
    assert!(geo_cn_rev1(&record).is_none());
}

#[test]
fn geo_cn_rev1_builds_city_and_net_type() {
    let record = GeoCnRecord {
        isp: Some("中国电信".into()),
        net: Some("宽带".into()),
        province: Some("海南省".into()),
        city: Some("海口市".into()),
        districts: Some("美兰区".into()),
        province_code: Some(CodeValue::Int(460000)),
        ..GeoCnRecord::default()
    };
    let data = geo_cn_rev1(&record).unwrap();
    let city = data.city.unwrap();
    assert_eq!(city.name.as_deref(), Some("海南省 海口市 美兰区"));
    assert_eq!(city.iso, Some(86460000));
    assert_eq!(city.cn_province.as_deref(), Some("海南省"));
    let network = data.network.unwrap();
    assert_eq!(network.isp.as_deref(), Some("中国电信"));
    assert_eq!(network.net_type.as_deref(), Some("宽带"));
}

#[test]
fn records_with_a_division_are_looked_up() {
    let mut table = DivisionTable::new();
    table.insert("11", "北京市");
    table.insert("1101", "北京市");
    table.insert("110101", "东城区");
    let record = GeoCnRecord {
        isp: Some("电信".into()),
        net_type: Some("宽带".into()),
        division_code: Some(CodeValue::Text("110101".into())),
        ..GeoCnRecord::default()
    };
    assert!(geo_cn_data(&record, &None, None).is_none());
    let data = geo_cn_data(&record, &Some(table), None).unwrap();
    let city = data.city.unwrap();
    assert_eq!(city.name.as_deref(), Some("北京市 北京市 东城区"));
    assert_eq!(city.iso, Some(110101));
    assert_eq!(city.cn_districts.as_deref(), Some("东城区"));
    assert_eq!(data.network.unwrap().net_type.as_deref(), Some("宽带"));
}

#[test]
fn external_switch_uses_uppercase_env_key() {
    assert_eq!(external_switch("pbh.not.exists", &no_env), None);
    assert_eq!(switch_env_key("pbh.forceDisableIPDB"), "PBH_FORCEDISABLEIPDB");
    let env = |name: &String| match name.as_str() {
        "PBH_FORCEDISABLEIPDB" => Some("true".to_string()),
        "PBH_EMPTY" => Some(String::new()),
        "PBH_NUMBER" => Some("42".to_string()),
        _ => None,
    };
    assert_eq!(external_switch("pbh.forceDisableIPDB", &env), Some("true".to_string()));
    assert_eq!(external_switch("pbh.empty", &env), None);
    assert_eq!(external_switch_i64("pbh.number", 7, &env), 42);
    assert_eq!(external_switch_i64("pbh.forceDisableIPDB", 7, &env), 7);
    assert_eq!(
        geoip_force_disabled(&env),
        external_switch_bool(SWITCH_FORCE_DISABLE_IPDB, false, &env)
    );
    assert!(geoip_force_disabled(&env));
    assert!(!geoip_force_disabled(&no_env));
}

#[test]
fn locale_falls_back_to_en_us() {
    assert!(!default_locale(&no_env).is_empty());
    assert_eq!(default_locale(&no_env), "en_us");
}

#[test]
fn places_are_read_from_databases() {
    let locales = vec!["en".to_string()];
    let db =
        open_bytes(Some(city_database("DE")), Some(asn_database()), None, locales).unwrap();
    let data = db.query_geo(addr("1.2.3.4"));
    let city = data.city.unwrap();
    assert_eq!(city.name.as_deref(), Some("Some City"));
    assert_eq!(city.iso, Some(4321));
    let country = data.country.unwrap();
    assert_eq!(country.name.as_deref(), Some("Some Country"));
    assert_eq!(country.iso.as_deref(), Some("DE"));
    let asn = data.as_data.unwrap();
    assert_eq!(asn.number, Some(64512));
    assert_eq!(asn.organization.as_deref(), Some("Some Org"));
    assert_eq!(asn.ip_address.as_deref(), Some("1.2.3.4"));
    let network = asn.network.unwrap();
    assert_eq!(network.ip_address.as_deref(), Some("0.0.0.0"));
    assert_eq!(network.prefix_length, Some(1));
    assert_eq!(data.network.unwrap().isp.as_deref(), Some("Some Org"));
}

#[test]
fn names_come_in_the_wanted_language() {
    let locales = vec!["zh_cn".to_string(), "en".to_string()];
    let db = open_bytes(Some(city_database("TW")), None, None, locales).unwrap();
    let data = db.query_geo(addr("1.2.3.4"));
    assert_eq!(data.country.unwrap().name.as_deref(), Some("中国某国"));
    assert_eq!(data.city.unwrap().name.as_deref(), Some("Some City"));
    let name = show_name(Some("某国".to_string()), &Some("TW".to_string()), "en_us");
    assert_eq!(name.as_deref(), Some("某国"));
}

#[test]
fn chinese_places_are_filled_in() {
    let record = map(vec![
        ("isp", text("中国电信")),
        ("net", text("宽带")),
        ("province", text("海南省")),
        ("city", text("海口市")),
        ("districts", text("美兰区")),
        ("province_code", number(6, 460000)),
    ]);
    let geo_cn = database("GeoCN", record);
    let open = |iso: &str| {
        let city = Some(city_database(iso));
        open_bytes(city, None, Some(geo_cn.clone()), Vec::new()).unwrap()
    };
    let data = open("cn").query_geo(addr("1.2.3.4"));
    assert_eq!(data.city.unwrap().name.as_deref(), Some("海南省 海口市 美兰区"));
    assert_eq!(data.network.unwrap().isp.as_deref(), Some("中国电信"));
    assert_eq!(records(&geo_cn, addr("1.2.3.4")).unwrap().city.as_deref(), Some("海口市"));
    let data = open("DE").query_geo(addr("1.2.3.4"));
    assert_eq!(data.city.unwrap().name.as_deref(), Some("Some City"));
    assert!(data.network.is_none());
}

#[test]
fn record_that_cannot_be_read_tells_nothing() {
    let geo_cn = database("GeoCN", map(vec![("province", text("海南省"))]));
    let read = |path: &String| {
        if path == "d/city" {
            Ok(city_database("MO"))
        } else {
            Ok(geo_cn.clone())
        }
    };
    let asked = std::cell::Cell::new(0usize);
    let unreadable = |database: &Vec<u8>, ip: IpAddr| {
        assert_eq!(database, &geo_cn);
        assert_eq!(ip, addr("1.2.3.4"));
        asked.set(asked.get() + 1);
        None
    };
    let paths = ["d/city", "d/geocn"].map(String::from);
    let db = GeoIpDb::open_files(
        Some(&paths[0]),
        None,
        Some(&paths[1]),
        Vec::new(),
        &read,
        unreadable,
    )
    .unwrap();
    let data = db.query_geo(addr("1.2.3.4"));
    assert_eq!(asked.get(), 1);
    assert_eq!(data.city.unwrap().name.as_deref(), Some("Some City"));
}

#[test]
fn missing_databases_tell_nothing() {
    let db = open_bytes(None, None, None, Vec::new()).unwrap();
    assert_eq!(db.query_geo(addr("::1")), IpGeoData::default());
    assert_eq!(db.query(addr("::1")), Some(IpGeoData::default()));
}
