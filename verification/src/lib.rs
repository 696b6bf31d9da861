//! Verified core of PeerBanHelper: rule configuration, ban bookkeeping, the BTN protocol, GeoIP
//! maintenance, AutoSTUN and the AviatorScript front end.
#![allow(unused_imports)]
pub mod text;
pub mod avscript;
pub mod net;
pub mod iputil;
pub mod wire;
pub mod auto_stun_probe;
pub mod auto_stun;
pub mod textmap;
pub mod i18n;
pub mod defaults;
pub mod model;
pub mod module;
pub mod banlist;
pub mod btn_codec;
pub mod btn_pow;
pub mod btn_store;
pub mod btn_report;
pub mod btn_json;
pub mod btn_http;
pub mod btn_ability;
pub mod btn_transport;
pub mod btn_exchange;
pub mod btn_query;
pub mod btn_schedule;
pub mod btn_submit;
pub mod btn_rounds;
pub mod btn_sync;
pub mod geo_data;
pub mod textset;
pub mod division;
pub mod geoip;
pub mod geoip_db;
pub mod config;
pub mod geoip_update;
pub mod auto_stun_forwarder;
pub mod script;
