//! The settings of a profile and the modules that they call for.

use pbh_core::config::{
    ban_duration_from_text, default_banned_peer_id, default_pcb_excessive_threshold,
    default_pcb_fast_percentage, default_pcb_maximum_difference,
    default_pcb_rewind_maximum_difference, default_pipeline, default_ptr_ban_duration,
    default_ptr_rules, enabled_or_disabled, lenient_numbers,
    module_config_names, ActiveMonitoringConfig, AntiVampireConfig, AntiVampirePresets,
    AntiVampireXunleiPreset, AutoRangeBanConfig, BtnConfig, DefaultModule, ExpressionEngineConfig,
    IdleProtectionConfig, IpAddressBlockerConfig, IpDatabaseConfig, IpRuleListConfig,
    LenientNumber, ModuleSettings, MonitorSettings, MultiDialingBlockerConfig, NetTypeConfig,
    NetTypeFlags, PeerAnalyseServiceConfig, PeerIdBlacklistConfig, PeerRecordingConfig,
    ProfileConfig, ProgressCheatBlockerConfig, PtrBlacklistConfig, SessionAnalyseConfig, SwarmTrackingConfig,
    TrafficMonitoringConfig, TrafficSlidingCappingConfig,
};
use pbh_core::defaults::pcb;
use pbh_core::model::Double;
use pbh_core::textmap::TextMap;

fn readable(_: &Vec<String>) -> bool {
    true
}

fn names(config: &ProfileConfig) -> Vec<&'static str> {
    module_config_names(&config.build_pipeline(readable))
}

fn progress_cheat_blocker() -> ProgressCheatBlockerConfig {
    ProgressCheatBlockerConfig {
        enabled: Some(true),
        ban_duration_ms: 0,
        minimum_size: pcb::MINIMUM_SIZE,
        block_excessive_clients: true,
        excessive_threshold: default_pcb_excessive_threshold(),
        maximum_difference: default_pcb_maximum_difference(),
        rewind_maximum_difference: default_pcb_rewind_maximum_difference(),
        ipv4_prefix_length: pcb::IPV4_PREFIX_LENGTH,
        ipv6_prefix_length: pcb::IPV6_PREFIX_LENGTH,
        persist_duration_ms: pcb::PERSIST_DURATION_MS,
        max_wait_duration_ms: pcb::MAX_WAIT_DURATION_MS,
        fast_pcb_test_percentage: default_pcb_fast_percentage(),
        fast_pcb_test_block_duration_ms: pcb::FAST_PCB_TEST_BLOCK_DURATION_MS,
        enable_persist: true,
    }
}

fn peer_id_blacklist() -> PeerIdBlacklistConfig {
    PeerIdBlacklistConfig {
        enabled: Some(true),
        ban_duration_ms: 0,
        banned_peer_id: default_banned_peer_id(),
    }
}

fn blocker(net_type: NetTypeConfig) -> IpAddressBlockerConfig {
    IpAddressBlockerConfig {
        enabled: Some(true),
        ban_duration_ms: 0,
        ips: Vec::new(),
        ports: Vec::new(),
        asns: Vec::new(),
        regions: Vec::new(),
        cities: Vec::new(),
        net_type,
    }
}

#[test]
fn default_profile_disables_all_modules() {
    let config = ProfileConfig::default();
    assert!(config.build_pipeline(readable).modules.is_empty());
}

#[test]
fn module_order_follows_upstream_registration() {
    let mut cfg = ProfileConfig::default();
    cfg.module.peer_id_blacklist = Some(peer_id_blacklist());
    cfg.module.progress_cheat_blocker = Some(progress_cheat_blocker());
    assert_eq!(names(&cfg), vec!["peer-id-blacklist", "progress-cheat-blocker"]);
}

#[test]
fn net_type_flag_mapping_migrates_to_camel_case_tokens() {
    let flags = NetTypeFlags {
        wideband: true,
        base_station: false,
        government_and_enterprise_line: true,
        business_platform: false,
        backbone_network: false,
        ip_private_network: false,
        internet_cafe: false,
        iot: true,
        datacenter: true,
    };
    let tokens = NetTypeConfig::Flags(flags).to_tokens();
    assert_eq!(tokens, vec!["wideband", "governmentAndEnterpriseLine", "iot", "dataCenter"]);
}

#[test]
fn net_type_list_and_null_forms_are_accepted() {
    let list = NetTypeConfig::List(vec!["wideband".to_string(), "datacenter".to_string()]);
    let config = blocker(list);
    assert_eq!(config.net_type.to_tokens(), vec!["wideband", "datacenter"]);
    assert!(config.to_geo_config().network_type_hit("宽带"));
    assert!(config.to_geo_config().network_type_hit("IDC"));

    let config = blocker(NetTypeConfig::default());
    assert!(config.net_type.to_tokens().is_empty());
    assert!(!config.to_geo_config().network_type_hit("宽带"));
}

#[test]
fn asn_list_accepts_strings_and_numbers() {
    let mut config = blocker(NetTypeConfig::default());
    config.asns =
        lenient_numbers(&vec![LenientNumber::Text("0".to_string()), LenientNumber::Number(Some(64512))]);
    config.regions = vec!["CN".to_string()];
    config.cities = vec!["示例海南".to_string()];
    assert_eq!(config.asns, vec![0, 64512]);
    let geo = config.to_geo_config();
    assert!(geo.asns.contains(&0) && geo.asns.contains(&64512));
    assert!(geo.regions.contains("CN"));
    assert_eq!(geo.cities, vec!["示例海南".to_string()]);
    assert!(geo.network_type.is_empty());
}

#[test]
fn numbers_that_cannot_be_read_are_left_out() {
    let entries = vec![
        LenientNumber::Text("x".to_string()),
        LenientNumber::Text(" 12 ".to_string()),
        LenientNumber::Number(Some(-3)),
        LenientNumber::Number(None),
        LenientNumber::Other,
    ];
    assert_eq!(lenient_numbers(&entries), vec![12, -3]);
}

#[test]
fn missing_geo_dimensions_default_to_empty() {
    let mut config = blocker(NetTypeConfig::default());
    config.ips = vec!["1.2.3.0/24".to_string()];
    let geo = config.to_geo_config();
    assert!(geo.is_empty());
    assert!(!geo.network_type_hit("宽带"));
    assert!(!geo.network_type_hit("IDC"));
    assert!(!geo.network_type_hit("数据中心"));
}

#[test]
fn ip_database_section_matches_upstream_keys() {
    let defaulted = IpDatabaseConfig::default();
    assert!(!defaulted.auto_update);
    assert_eq!(defaulted.account_id, "");
    assert_eq!(defaulted.license_key, "");
    assert_eq!(defaulted.database_city, "GeoLite2-City");
    assert_eq!(defaulted.database_asn, "GeoLite2-ASN");
    assert_eq!(defaulted.database_geocn, "GeoCN");

    let partial = IpDatabaseConfig { auto_update: true, ..Default::default() };
    assert!(partial.auto_update);
    assert_eq!(partial.database_geocn, "GeoCN");
}

#[test]
fn btn_section_matches_upstream_profile_yml() {
    let defaulted = BtnConfig::default();
    assert!(enabled_or_disabled(&defaulted.enabled));
    assert_eq!(defaulted.enabled, Some(true));
    assert_eq!(defaulted.ban_duration_ms, 259_200_000);
    assert!(!enabled_or_disabled(&None));

    let none = ProfileConfig::default();
    assert!(none.module.btn.is_none());
    assert!(none.build_pipeline(readable).modules.is_empty());

    let mut enabled = ProfileConfig::default();
    enabled.module.auto_range_ban =
        Some(AutoRangeBanConfig { enabled: Some(true), ban_duration_ms: 0, ipv4: 30, ipv6: 48 });
    enabled.module.btn = Some(BtnConfig::default());
    enabled.module.ip_rule_list = Some(IpRuleListConfig {
        enabled: Some(true),
        ban_duration_ms: 0,
        check_interval_ms: 14_400_000,
        preload_banlist: false,
        rules: TextMap::new(),
    });
    let pipeline = enabled.build_pipeline(readable);
    assert_eq!(
        module_config_names(&pipeline),
        vec!["auto-range-ban", "btn", "ip-address-blocker-rules"]
    );
    assert!(matches!(
        pipeline.modules[1],
        ModuleSettings::BtnNetworkOnline { ban_duration_ms: 259_200_000 }
    ));
}

#[test]
fn reverse_names_are_checked_only_when_switched_on() {
    let section = |enabled| PtrBlacklistConfig {
        enabled,
        ban_duration_ms: default_ptr_ban_duration(),
        ptr_rules: default_ptr_rules(),
        dns_servers: Vec::new(),
    };
    let mut config = ProfileConfig::default();
    config.module.ptr_blacklist = Some(section(None));
    assert!(names(&config).is_empty());
    config.module.ptr_blacklist = Some(section(Some(false)));
    assert!(names(&config).is_empty());
    config.module.ptr_blacklist = Some(section(Some(true)));
    assert_eq!(names(&config), vec!["ptr-blacklist"]);
}

fn analyse() -> PeerAnalyseServiceConfig {
    PeerAnalyseServiceConfig {
        session_analyse: Some(SessionAnalyseConfig {
            enabled: Some(true),
            data_flush_interval_ms: 3_600_000,
            cleanup_interval_ms: 3_600_000,
            data_retention_time_ms: 15_552_000_000,
        }),
        swarm_tracking: Some(SwarmTrackingConfig {
            enabled: Some(true),
            data_flush_interval_ms: 3_600_000,
        }),
        peer_recording: Some(PeerRecordingConfig {
            enabled: Some(true),
            data_flush_interval_ms: 900_000,
            data_retention_time_ms: 5_184_000_000,
            data_cleanup_interval_ms: 604_800_000,
        }),
    }
}

#[test]
fn monitor_modules_are_built_outside_the_pipeline() {
    let mut cfg = ProfileConfig::default();
    cfg.module.active_monitoring =
        Some(ActiveMonitoringConfig { enabled: Some(true), ..Default::default() });
    cfg.module.peer_analyse_service = Some(analyse());

    let modules = cfg.build_monitor_modules();
    let names: Vec<&str> = modules.iter().map(|m| m.config_name()).collect();
    assert_eq!(
        names,
        vec![
            "active-monitoring",
            "peer-analyse-service.swarm-tracking",
            "peer-analyse-service.session-analyse",
            "peer-analyse-service.peer-recording"
        ]
    );
    assert!(cfg.build_pipeline(readable).modules.is_empty());

    let mut disabled = ProfileConfig::default();
    disabled.module.active_monitoring =
        Some(ActiveMonitoringConfig { enabled: Some(false), ..Default::default() });
    assert!(disabled.build_monitor_modules().is_empty());
    assert!(ProfileConfig::default().build_monitor_modules().is_empty());
}

#[test]
fn active_monitoring_section_matches_upstream_profile_yml() {
    let active = ActiveMonitoringConfig {
        enabled: Some(true),
        traffic_monitoring: TrafficMonitoringConfig { daily: -1 },
        traffic_sliding_capping: TrafficSlidingCappingConfig {
            enabled: false,
            profile_yml_max_allowed_upload_traffic: Some(25_000_000_000),
            max_speed: 0,
            min_speed: 0,
            ..Default::default()
        },
    };
    assert!(enabled_or_disabled(&active.enabled));
    let settings = active.to_settings();
    assert_eq!(settings.daily_traffic_capping, -1);
    assert!(!settings.use_traffic_sliding_capping);
    assert_eq!(settings.max_traffic_allowed_in_window_period, 0);
    assert_eq!(settings.traffic_sliding_capping_max_speed, 0);
    assert_eq!(settings.traffic_sliding_capping_min_speed, 0);

    let migrated = ActiveMonitoringConfig {
        enabled: Some(true),
        traffic_sliding_capping: TrafficSlidingCappingConfig {
            enabled: true,
            daily_max_allowed_upload_traffic: 53_687_091_200,
            max_speed: 10_485_760,
            min_speed: 0,
            ..Default::default()
        },
        ..Default::default()
    };
    let settings = migrated.to_settings();
    assert_eq!(settings.max_traffic_allowed_in_window_period, 53_687_091_200);
    assert_eq!(settings.traffic_sliding_capping_max_speed, 10_485_760);
    assert_eq!(settings.traffic_sliding_capping_min_speed, 0);
    assert!(settings.use_traffic_sliding_capping);
    assert_eq!(settings.daily_traffic_capping, -1);

    let defaulted = ActiveMonitoringConfig::default();
    assert_eq!(defaulted.enabled, None);
    assert_eq!(defaulted.to_settings().daily_traffic_capping, -1);
    assert_eq!(defaulted.to_settings().max_traffic_allowed_in_window_period, 0);
    assert!(!defaulted.to_settings().use_traffic_sliding_capping);
}

#[test]
fn peer_analyse_service_section_matches_upstream_profile_yml() {
    let analyse = analyse();

    let session = analyse.session_analyse.unwrap();
    assert!(enabled_or_disabled(&session.enabled));
    let settings = session.to_settings();
    assert_eq!(settings.cleanup_interval_ms, 3_600_000);
    assert_eq!(settings.data_flush_interval_ms, 3_600_000);
    assert_eq!(settings.data_retention_time_ms, 15_552_000_000);

    let swarm = analyse.swarm_tracking.unwrap();
    assert!(enabled_or_disabled(&swarm.enabled));
    assert_eq!(swarm.to_settings().data_flush_interval_ms, 3_600_000);

    let recording = analyse.peer_recording.unwrap();
    assert!(enabled_or_disabled(&recording.enabled));
    let settings = recording.to_settings();
    assert_eq!(settings.data_flush_interval_ms, 900_000);
    assert_eq!(settings.data_retention_time_ms, 5_184_000_000);
    assert_eq!(settings.data_cleanup_interval_ms, 604_800_000);

    let defaulted_session = SessionAnalyseConfig::default();
    assert_eq!(defaulted_session.enabled, None);
    assert_eq!(defaulted_session.cleanup_interval_ms, 0);
    assert_eq!(defaulted_session.data_flush_interval_ms, 0);
    assert_eq!(defaulted_session.data_retention_time_ms, 0);
    assert_eq!(SwarmTrackingConfig::default().data_flush_interval_ms, 0);
    let defaulted_recording = PeerRecordingConfig::default();
    assert_eq!(defaulted_recording.data_retention_time_ms, -1);
    assert_eq!(defaulted_recording.data_cleanup_interval_ms, -1);
    assert_eq!(defaulted_recording.data_flush_interval_ms, 20_000);

    assert!(ProfileConfig::default().module.peer_analyse_service.is_none());
    assert!(ProfileConfig::default().module.active_monitoring.is_none());
}

#[test]
fn pipeline_without_geoip_provider_matches_plain_pipeline() {
    let mut cfg = ProfileConfig::default();
    cfg.module.ip_address_blocker = Some(IpAddressBlockerConfig {
        ips: vec!["1.2.3.0/24".to_string()],
        asns: vec![64512],
        regions: vec!["CN".to_string()],
        cities: vec!["示例海南".to_string()],
        ..blocker(NetTypeConfig::default())
    });
    let plain = cfg.build_pipeline(readable);
    let without_geo = cfg.build_pipeline_with_geo(false, readable);
    assert_eq!(module_config_names(&plain), module_config_names(&without_geo));
    assert_eq!(module_config_names(&plain), vec!["ip-address-blocker"]);
    let with_geo = cfg.build_pipeline_with_geo(true, readable);
    assert!(matches!(plain.modules[0], ModuleSettings::IpBlacklist { with_geo: false, .. }));
    assert!(matches!(with_geo.modules[0], ModuleSettings::IpBlacklist { with_geo: true, .. }));
}

#[test]
fn all_modules_stand_in_their_order() {
    let mut cfg = ProfileConfig::default();
    let m = &mut cfg.module;
    m.anti_vampire = Some(AntiVampireConfig {
        enabled: Some(true),
        ban_duration_ms: 1,
        presets: AntiVampirePresets { xunlei: AntiVampireXunleiPreset { enabled: true } },
    });
    m.idle_connection_dos_protection = Some(IdleProtectionConfig {
        enabled: Some(true),
        ban_duration_ms: 2,
        max_allowed_idle_time_ms: 3,
        idle_speed_threshold: 4,
        min_status_change_percentage: Double { bits: 0 },
        reset_on_status_change: true,
        protect_mode: 0,
    });
    m.btn = Some(BtnConfig::default());
    m.auto_range_ban =
        Some(AutoRangeBanConfig { enabled: Some(true), ban_duration_ms: 5, ipv4: 30, ipv6: 48 });
    m.multi_dialing_blocker = Some(MultiDialingBlockerConfig {
        enabled: Some(true),
        ban_duration_ms: 6,
        subnet_mask_length: 24,
        subnet_mask_v6_length: 56,
        tolerate_num_ipv4: 2,
        tolerate_num_ipv6: 3,
        cache_lifespan_secs: 86_400,
        keep_hunting: true,
        keep_hunting_time_secs: 7,
    });
    m.progress_cheat_blocker = Some(progress_cheat_blocker());
    m.peer_id_blacklist = Some(peer_id_blacklist());
    m.expression_engine =
        Some(ExpressionEngineConfig { enabled: None, ban_duration_ms: 0, scripts_dir: None });
    m.ip_address_blocker = Some(blocker(NetTypeConfig::default()));
    assert_eq!(
        names(&cfg),
        vec![
            "ip-address-blocker",
            "peer-id-blacklist",
            "progress-cheat-blocker",
            "multi-dialing-blocker",
            "auto-range-ban",
            "btn",
            "idle-connection-dos-protection",
            "anti-vampire",
        ]
    );
    let pipeline = cfg.build_pipeline(readable);
    match &pipeline.modules[3] {
        ModuleSettings::MultiDialingBlocker(s) => {
            assert_eq!(s.cache_lifespan_ms, 86_400_000);
            assert_eq!(s.keep_hunting_time_ms, 7_000);
        }
        other => panic!("{other:?}"),
    }
    assert_eq!(pipeline.global_ban_duration_ms, cfg.ban_duration);
    assert!(pipeline.ignore.contains("192.168.1.1"));
    assert!(!pipeline.ignore.contains("8.8.8.8"));
}

#[test]
fn the_pipeline_without_a_profile_is_fixed() {
    let all = default_pipeline();
    assert_eq!(all.len(), 9);
    assert_eq!(all[0], DefaultModule::IpBlacklist);
    assert_eq!(
        all[6],
        DefaultModule::AutoRangeBan { ipv4: 30, ipv6: 48, ban_duration_ms: 604_800_000 }
    );
    assert_eq!(all[8], DefaultModule::AntiVampire);
}

#[test]
fn ban_durations_are_numbers_or_the_word_for_the_default() {
    assert_eq!(ban_duration_from_text("default"), Some(0));
    assert_eq!(ban_duration_from_text(" DeFault "), Some(0));
    assert_eq!(ban_duration_from_text(" "), Some(0));
    assert_eq!(ban_duration_from_text(" 259200000 "), Some(259_200_000));
    assert_eq!(ban_duration_from_text("-1"), Some(-1));
    assert_eq!(ban_duration_from_text("nonsense"), None);
    assert_eq!(
        MonitorSettings::SwarmTracking(SwarmTrackingConfig::default().to_settings()).config_name(),
        "peer-analyse-service.swarm-tracking"
    );
}

#[test]
fn sections_left_out_are_empty() {
    let lists = IpRuleListConfig::default();
    assert!(!lists.enabled());
    assert_eq!(lists.check_interval_ms, 0);
    assert!(ExpressionEngineConfig::default().scripts_dir.is_none());
    assert!(PeerAnalyseServiceConfig::default().peer_recording.is_none());
    assert!(!AntiVampirePresets::default().xunlei.enabled);
}
