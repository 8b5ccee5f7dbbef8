use flowdesk::macos::{is_accessible, is_trusted, prompt_for_access};
use flowdesk::network::{format_ipv4, local_ipv4_list, InterfaceAddress};
use flowdesk::settings::{
    config_dir_under, config_file, join_path, server_config_path, settings_file_under, AppConfig,
};
use flowdesk::supervisor::State;
use flowdesk::text::push_decimal;
use flowdesk::tray::tray_tooltip;

#[test]
fn decimal_rendering() {
    for (n, text) in [(0u64, "0"), (7, "7"), (10, "10"), (24800, "24800"), (u64::MAX, "18446744073709551615")] {
        let mut s = String::from("x=");
        push_decimal(&mut s, n);
        assert_eq!(s, format!("x={}", text));
    }
}

#[test]
fn settings_paths() {
    assert_eq!(join_path("/home/u/.config", "a"), "/home/u/.config/a");
    assert_eq!(join_path("/home/u/.config/", "a"), "/home/u/.config/a");
    assert_eq!(join_path("", "a"), "a");
    assert_eq!(config_dir_under(Some("/cfg")), "/cfg/com.flowdesk.app");
    assert_eq!(config_dir_under(None), "./com.flowdesk.app");
    assert_eq!(config_file("/cfg/com.flowdesk.app"), "/cfg/com.flowdesk.app/config.json");
    assert_eq!(settings_file_under(Some("/cfg")), "/cfg/com.flowdesk.app/config.json");
    assert_eq!(settings_file_under(None), "./com.flowdesk.app/config.json");
    assert_eq!(server_config_path("/cfg/com.flowdesk.app"), "/cfg/com.flowdesk.app/server.conf");
}

#[test]
fn default_settings() {
    let c = AppConfig::with_local_name("box");
    assert_eq!(c.screen_name, "box");
    assert_eq!(c.port, 24800);
    assert_eq!(c.interface, "");
    assert_eq!(c.log_level, "INFO");
    assert_eq!(c.language, "en");
    assert!(c.crypto_enabled && c.enable_drag_and_drop);
    assert!(!c.log_to_file && !c.require_client_certificate && !c.auto_hide);
    assert!(!c.auto_start && !c.minimize_to_tray);
    assert_eq!(c.log_filename, "");
    assert_eq!(c.server_config.screens[7].name, "box");
    let d = AppConfig::default();
    assert!(!d.screen_name.is_empty());
    assert_eq!(d.server_config.screens.len(), 15);
}

#[test]
fn tray_tooltips() {
    assert_eq!(tray_tooltip(State::Stopped), "FlowDesk — Stopped");
    assert_eq!(tray_tooltip(State::Starting), "FlowDesk — Starting…");
    assert_eq!(tray_tooltip(State::Connected), "FlowDesk — Running");
    assert_eq!(tray_tooltip(State::Disconnected), "FlowDesk — Disconnected");
    assert_eq!(tray_tooltip(State::Error), "FlowDesk — Error");
}

#[test]
fn no_accessibility_gate_here() {
    assert!(is_trusted(false));
    assert!(is_trusted(true));
    assert!(is_accessible());
    assert!(prompt_for_access());
}

#[test]
fn local_addresses_skip_loopback_and_ipv6() {
    let addrs = vec![
        InterfaceAddress::V4([127, 0, 0, 1]),
        InterfaceAddress::V4([192, 168, 1, 20]),
        InterfaceAddress::V6,
        InterfaceAddress::V4([127, 1, 2, 3]),
        InterfaceAddress::V4([10, 0, 0, 5]),
    ];
    assert_eq!(local_ipv4_list(&addrs), vec!["192.168.1.20", "10.0.0.5"]);
    assert_eq!(format_ipv4([255, 0, 10, 1]), "255.0.10.1");
    assert!(local_ipv4_list(&vec![]).is_empty());
}
