use wifi_password::config::WifiConfig;

const FULL: &str = "[connection]\nid=Home\nuuid=1234-abcd\ntype=wifi\n\n[wifi]\nmode=infrastructure\nssid=HomeNet\n\n[wifi-security]\nkey-mgmt=wpa-psk\npsk=pw123\n";

#[test]
fn nm_full_profile() {
    let c = WifiConfig::init_from_nm(FULL, "Home.nmconnection").unwrap();
    assert_eq!(c.ssid, "HomeNet");
    assert_eq!(c.password, "pw123");
    assert_eq!(c.uuid, "1234-abcd");
    assert_eq!(c.fname, "Home.nmconnection");
}

#[test]
fn nm_semicolon_ssid_uses_id() {
    let text = "[connection]\nid=Office\nuuid=u1\n[wifi]\nssid=79;102;102;\n[wifi-security]\npsk=x\n";
    let c = WifiConfig::init_from_nm(text, "o").unwrap();
    assert_eq!(c.ssid, "Office");
    assert_eq!(c.password, "x");
}

#[test]
fn nm_without_security_section() {
    let text = "[connection]\nid=Open\nuuid=u2\n[wifi]\nssid=Cafe\n";
    let c = WifiConfig::init_from_nm(text, "open").unwrap();
    assert_eq!(c.ssid, "Cafe");
    assert_eq!(c.password, "");
}

#[test]
fn nm_security_section_without_psk() {
    let text = "[connection]\nid=Open\nuuid=u2\n[wifi]\nssid=Cafe\n[wifi-security]\nkey-mgmt=none\n";
    let c = WifiConfig::init_from_nm(text, "open").unwrap();
    assert_eq!(c.password, "");
}

#[test]
fn nm_missing_required_fields() {
    let no_ssid = "[connection]\nid=A\nuuid=u\n[wifi]\nmode=infrastructure\n";
    let no_uuid = "[connection]\nid=A\n[wifi]\nssid=S\n";
    let no_id = "[connection]\nuuid=u\n[wifi]\nssid=S\n";
    let no_wifi = "[connection]\nid=A\nuuid=u\n";
    assert!(WifiConfig::init_from_nm(no_ssid, "f").is_none());
    assert!(WifiConfig::init_from_nm(no_uuid, "f").is_none());
    assert!(WifiConfig::init_from_nm(no_id, "f").is_none());
    assert!(WifiConfig::init_from_nm(no_wifi, "f").is_none());
}

#[test]
fn nm_unparsable_text() {
    assert!(WifiConfig::init_from_nm("[connection\nid=A\n", "f").is_none());
}

#[test]
fn nm_byte_order_mark_skipped() {
    let text = format!("\u{feff}{}", FULL);
    let c = WifiConfig::init_from_nm(&text, "bom").unwrap();
    assert_eq!(c.ssid, "HomeNet");
}

#[test]
fn nm_from_parsed_ini() {
    let ini = ini::Ini::load_from_str(FULL).unwrap();
    let c = WifiConfig::config_from_ini(&ini, "p").unwrap();
    assert_eq!(c.ssid, "HomeNet");
    assert_eq!(c.uuid, "1234-abcd");
    assert_eq!(c.password, "pw123");
}

#[test]
fn nm_empty_ssid_gives_nothing() {
    let text = "[connection]\nid=Home\nuuid=u\n[wifi]\nssid=\n[wifi-security]\npsk=pw\n";
    assert!(WifiConfig::init_from_nm(text, "f").is_none());
}

#[test]
fn nm_semicolon_ssid_with_empty_id_gives_nothing() {
    let text = "[connection]\nid=\nuuid=u\n[wifi]\nssid=1;2;\n";
    assert!(WifiConfig::init_from_nm(text, "f").is_none());
}
