use vstd::prelude::*;

use crate::config::{opt_view, CredentialView, WifiConfig};

verus! {

#[verifier::external_type_specification]
#[verifier::external_body]
pub struct ExIni(ini::Ini);

#[verifier::external_type_specification]
#[verifier::external_body]
pub struct ExProperties(ini::Properties);

#[verifier::external_type_specification]
#[verifier::external_body]
pub struct ExParseError(ini::ParseError);

/// Section name to key to value, as a parsed INI text answers lookups.
pub type IniView = Map<Seq<char>, Map<Seq<char>, Seq<char>>>;

/// What the INI text `text` holds, or `None` where it does not parse.
pub uninterp spec fn ini_parse(text: Seq<char>) -> Option<IniView>;

/// What a parsed INI holds: for each section name, what its first section of
/// that name holds.
pub uninterp spec fn ini_entries(ini: ini::Ini) -> IniView;

/// What a section holds: for each key, its first value.
pub uninterp spec fn props_entries(p: ini::Properties) -> Map<Seq<char>, Seq<char>>;

/// Relies on `ini::Ini::load_from_str`: whether a text parses, and what it
/// then holds, depend on the text alone.
#[verifier::external_body]
fn load_ini(text: &str) -> (r: Result<ini::Ini, ini::ParseError>)
    ensures
        r is Ok <==> ini_parse(text@) is Some,
        r matches Ok(i) ==> ini_parse(text@) == Some(ini_entries(i)),
{
    ini::Ini::load_from_str(text)
}

/// Relies on `ini::Ini::section`: the first section named `name`, if any.
#[verifier::external_body]
fn section_of<'a>(ini: &'a ini::Ini, name: &str) -> (r: Option<&'a ini::Properties>)
    ensures
        r is Some <==> ini_entries(*ini).contains_key(name@),
        r matches Some(p) ==> props_entries(*p) == ini_entries(*ini)[name@],
{
    ini.section(Some(name))
}

/// Relies on `ini::Properties::get`: the first value of `key`, if any.
#[verifier::external_body]
fn property_of<'a>(p: &'a ini::Properties, key: &str) -> (r: Option<&'a str>)
    ensures
        r is Some <==> props_entries(*p).contains_key(key@),
        r matches Some(v) ==> v@ == props_entries(*p)[key@],
{
    p.get(key)
}

/// The value of `key` in section `sec`, if both are there.
pub open spec fn lookup(m: IniView, sec: Seq<char>, key: Seq<char>) -> Option<Seq<char>> {
    if m.contains_key(sec) && m[sec].contains_key(key) {
        Some(m[sec][key])
    } else {
        None
    }
}

/// The name a profile is shown under: its SSID, or the connection's id where
/// the SSID holds `;`.
pub open spec fn shown_ssid(ssid: Seq<char>, id: Seq<char>) -> Seq<char> {
    if ssid.contains(';') {
        id
    } else {
        ssid
    }
}

/// The record that a NetworkManager profile gives: the name, UUID and id are
/// required, the key defaults to empty, a name holding `;` gives way to the
/// connection's id, and a profile whose shown name is empty gives no record.
pub open spec fn nm_credential(m: IniView, fname: Seq<char>) -> Option<CredentialView> {
    match (lookup(m, "wifi"@, "ssid"@), lookup(m, "connection"@, "uuid"@), lookup(m, "connection"@, "id"@)) {
        (Some(ssid), Some(uuid), Some(id)) => if shown_ssid(ssid, id).len() == 0 {
            None
        } else {
            Some((
                shown_ssid(ssid, id),
                match lookup(m, "wifi-security"@, "psk"@) {
                    Some(p) => p,
                    None => seq![],
                },
                fname,
                uuid,
            ))
        },
        _ => None,
    }
}

/// `s` without a byte order mark at its start.
pub open spec fn without_bom(s: Seq<char>) -> Seq<char> {
    if s.len() > 0 && s[0] == '\u{feff}' {
        s.drop_first()
    } else {
        s
    }
}

/// The record that a profile's text gives.
pub open spec fn nm_file_credential(content: Seq<char>, fname: Seq<char>) -> Option<CredentialView> {
    match ini_parse(without_bom(content)) {
        Some(m) => nm_credential(m, fname),
        None => None,
    }
}

/// The value of `key` in section `sec` of a profile's text, if it parses.
pub open spec fn nm_value(content: Seq<char>, sec: Seq<char>, key: Seq<char>) -> Option<Seq<char>> {
    match ini_parse(without_bom(content)) {
        Some(m) => lookup(m, sec, key),
        None => None,
    }
}

/// A profile whose name, UUID and id are all there, and whose name is not
/// empty and holds no `;`, is shown under its name, verbatim.
pub proof fn lemma_nm_ssid_verbatim(content: Seq<char>, fname: Seq<char>, ssid: Seq<char>)
    requires
        nm_value(content, "wifi"@, "ssid"@) == Some(ssid),
        nm_value(content, "connection"@, "uuid"@) is Some,
        nm_value(content, "connection"@, "id"@) is Some,
        !ssid.contains(';'),
        ssid.len() > 0,
    ensures
        nm_file_credential(content, fname) matches Some(v) && v.0 == ssid,
{
}

/// A profile whose name holds `;` is shown under the connection's id, where
/// that id is not empty.
pub proof fn lemma_nm_ssid_from_id(content: Seq<char>, fname: Seq<char>, ssid: Seq<char>, id: Seq<char>)
    requires
        nm_value(content, "wifi"@, "ssid"@) == Some(ssid),
        nm_value(content, "connection"@, "uuid"@) is Some,
        nm_value(content, "connection"@, "id"@) == Some(id),
        ssid.contains(';'),
        id.len() > 0,
    ensures
        nm_file_credential(content, fname) matches Some(v) && v.0 == id,
{
}

/// A profile with no `wifi-security` section, whose shown name is not empty,
/// still gives a record, with an empty key.
pub proof fn lemma_nm_no_security(content: Seq<char>, fname: Seq<char>, ssid: Seq<char>, id: Seq<char>)
    requires
        ini_parse(without_bom(content)) matches Some(m) && !m.contains_key("wifi-security"@),
        nm_value(content, "wifi"@, "ssid"@) == Some(ssid),
        nm_value(content, "connection"@, "uuid"@) is Some,
        nm_value(content, "connection"@, "id"@) == Some(id),
        shown_ssid(ssid, id).len() > 0,
    ensures
        nm_file_credential(content, fname) matches Some(v) && v.1 == Seq::<char>::empty(),
{
}

/// A profile that lacks the name, the UUID or the id gives no record.
pub proof fn lemma_nm_required_fields(content: Seq<char>, fname: Seq<char>)
    requires
        nm_value(content, "wifi"@, "ssid"@) is None
            || nm_value(content, "connection"@, "uuid"@) is None
            || nm_value(content, "connection"@, "id"@) is None,
    ensures
        nm_file_credential(content, fname) is None,
{
}

/// A record that a profile gives never has an empty name.
pub proof fn lemma_nm_ssid_not_empty(content: Seq<char>, fname: Seq<char>)
    ensures
        nm_file_credential(content, fname) matches Some(v) ==> v.0.len() > 0,
{
}

/// The value of `key` in section `sec` of `ini`.
pub fn get_value<'a>(ini: &'a ini::Ini, sec: &str, key: &str) -> (r: Option<&'a str>)
    ensures
        r is Some <==> lookup(ini_entries(*ini), sec@, key@) is Some,
        r matches Some(v) ==> lookup(ini_entries(*ini), sec@, key@) == Some(v@),
{
    match section_of(ini, sec) {
        Some(p) => property_of(p, key),
        None => None,
    }
}

/// Whether `s` holds a semicolon.
pub fn has_semicolon(s: &str) -> (r: bool)
    ensures
        r == s@.contains(';'),
{
    let n = s.unicode_len();
    let mut i: usize = 0;
    while i < n
        invariant
            n == s@.len(),
            i <= n,
            forall|j: int| 0 <= j < i ==> s@[j] != ';',
        decreases n - i,
    {
        if s.get_char(i) == ';' {
            return true;
        }
        i = i + 1;
    }
    false
}

impl WifiConfig {
    /// The record that a parsed NetworkManager profile gives; `fname` is the
    /// file's name.
    pub fn config_from_ini(ini: &ini::Ini, fname: &str) -> (r: Option<WifiConfig>)
        ensures
            opt_view(r) == nm_credential(ini_entries(*ini), fname@),
    {
        let ssid = get_value(ini, "wifi", "ssid")?;
        let uuid = get_value(ini, "connection", "uuid")?;
        let id = get_value(ini, "connection", "id")?;
        let psk = match get_value(ini, "wifi-security", "psk") {
            Some(p) => p,
            None => "",
        };
        proof {
            reveal_strlit("");
        }
        let shown = if has_semicolon(ssid) { id } else { ssid };
        if shown.unicode_len() == 0 {
            return None;
        }
        Some(WifiConfig {
            ssid: String::from_str(shown),
            password: String::from_str(psk),
            fname: String::from_str(fname),
            uuid: String::from_str(uuid),
        })
    }

    /// The record that a NetworkManager profile's text gives; `fname` is the
    /// file's name. Nothing is returned where the text does not parse as INI
    /// or lacks the name, the UUID or the id.
    pub fn init_from_nm(content: &str, fname: &str) -> (r: Option<WifiConfig>)
        ensures
            opt_view(r) == nm_file_credential(content@, fname@),
    {
        let n = content.unicode_len();
        let body = if n > 0 && content.get_char(0) == '\u{feff}' {
            assert(content@.subrange(1, n as int) =~= content@.drop_first());
            content.substring_char(1, n)
        } else {
            content
        };
        match load_ini(body) {
            Ok(ini) => WifiConfig::config_from_ini(&ini, fname),
            Err(_) => None,
        }
    }
}

} // verus!
