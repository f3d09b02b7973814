use wifi_password::config::WifiConfig;
use wifi_password::netplan::{opens_with, value_after};

const NETPLAN: &str = "network:\n  version: 2\n  wifis:\n    NM-56ffe0d9:\n      renderer: NetworkManager\n      match:\n        name: \"wlp2s0\"\n      access-points:\n        \"home-network\":\n          auth:\n            key-management: \"psk\"\n            password: \"s3cr3t\"\n          networkmanager:\n            uuid: \"56ffe0d9\"\n            name: \"home-network\"\n";

#[test]
fn netplan_name_and_password() {
    let c = WifiConfig::init_from_netplan(NETPLAN, "90-NM.yaml").unwrap();
    assert_eq!(c.ssid, "home-network");
    assert_eq!(c.password, "s3cr3t");
    assert_eq!(c.fname, "90-NM.yaml");
    assert_eq!(c.uuid, "");
}

#[test]
fn netplan_offset_rule_drops_one_trailing_char() {
    let text = "            name: \"home-network\",\n            password: \"s3cr3t\",\n";
    let c = WifiConfig::init_from_netplan(text, "f").unwrap();
    assert_eq!(c.ssid, "home-network\"");
    assert_eq!(c.password, "s3cr3t\"");
}

#[test]
fn netplan_crlf_lines() {
    let text = "            name: \"home\"\r\n            password: \"pw\"\r\n";
    let c = WifiConfig::init_from_netplan(text, "f").unwrap();
    assert_eq!(c.ssid, "home");
    assert_eq!(c.password, "pw");
}

#[test]
fn netplan_without_name_line() {
    let text = "network:\n  wifis:\n            password: \"s3cr3t\"\n        name: \"x\"\n";
    assert!(WifiConfig::init_from_netplan(text, "f").is_none());
    assert!(WifiConfig::init_from_netplan("", "f").is_none());
}

#[test]
fn netplan_without_password_line() {
    let text = "            name: \"guest\"\n";
    let c = WifiConfig::init_from_netplan(text, "f").unwrap();
    assert_eq!(c.ssid, "guest");
    assert_eq!(c.password, "");
}

#[test]
fn netplan_short_name_line_gives_nothing() {
    assert!(WifiConfig::init_from_netplan("            name", "f").is_none());
}

#[test]
fn netplan_helpers() {
    assert!(opens_with("            name: \"a\"", "            name"));
    assert!(!opens_with("  name", "            name"));
    assert_eq!(value_after("0123456789", 3), "345678");
    assert_eq!(value_after("01", 3), "");
}
