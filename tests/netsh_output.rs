use wifi_password::netsh::{
    collect_present, from_netsh_outputs, key_from_output, key_query_command, list_command,
    pick_key, profile_names,
};

const LISTING: &str = "\r\nProfiles on interface Wi-Fi:\r\n\r\nGroup policy profiles (read only)\r\n---------------------------------\r\n    <None>\r\n\r\nUser profiles\r\n-------------\r\n    All User Profile     : home\r\n    All User Profile     : office\r\n\r\n";

#[test]
fn netsh_profile_names() {
    assert_eq!(profile_names(LISTING), vec!["home".to_string(), "office".to_string()]);
    assert!(profile_names("").is_empty());
}

#[test]
fn netsh_batch_with_and_without_key() {
    let names = profile_names(LISTING);
    let outputs = vec![
        "Profile home on interface Wi-Fi:\r\n    Name                   : home\r\nSecurity settings\r\n    Key Content            : abc123\r\n".to_string(),
        "Profile office on interface Wi-Fi:\r\nSecurity settings\r\n    Security key           : Absent\r\n".to_string(),
    ];
    let outputs_keys: Vec<String> = outputs.iter().map(|o| key_from_output(o)).collect();
    assert_eq!(outputs_keys, vec!["abc123".to_string(), "<EMPTY>".to_string()]);
    let batch = from_netsh_outputs(&names, &outputs);
    assert_eq!(batch.len(), 2);
    assert_eq!(batch[0].ssid, "home");
    assert_eq!(batch[0].password, "abc123");
    assert_eq!(batch[1].ssid, "office");
    assert_eq!(batch[1].password, "<EMPTY>");
    assert_eq!(batch[1].fname, "");
    assert_eq!(batch[1].uuid, "");
}

#[test]
fn netsh_chinese_key_label() {
    let out = "安全设置\r\n    关键内容            : 密码123\r\n";
    assert_eq!(key_from_output(out), "密码123");
}

#[test]
fn netsh_first_key_line_wins() {
    let out = "    Key Content : first\r\n    Key Content : second\r\n";
    assert_eq!(key_from_output(out), "first");
}

#[test]
fn netsh_commands() {
    assert_eq!(list_command(), "netsh wlan show profiles");
    assert_eq!(key_query_command("home"), "netsh wlan show profiles name=home key=clear");
}

#[test]
fn netsh_found_values() {
    let found = vec![None, Some("a".to_string()), None, Some("b".to_string())];
    assert_eq!(collect_present(&found), vec!["a".to_string(), "b".to_string()]);
    assert_eq!(pick_key(&found), "a");
    assert_eq!(pick_key(&vec![None, None]), "<EMPTY>");
}
