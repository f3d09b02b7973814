use vstd::prelude::*;

use crate::config::WifiConfig;
use crate::text::{split_crlf, split_on_crlf, views};

verus! {

/// The first capture group of the leftmost-first match of the regular
/// expression `pattern` in `text`; `None` where the pattern does not compile,
/// nothing matches, or the group takes no part in the match.
pub uninterp spec fn regex_group1(pattern: Seq<char>, text: Seq<char>) -> Option<Seq<char>>;

/// Relies on `regex::Regex::new` and `regex::Regex::captures`: the first
/// capture group of the first match, a function of the two texts alone.
#[verifier::external_body]
fn first_group(pattern: &str, text: &str) -> (r: Option<String>)
    ensures
        r is Some <==> regex_group1(pattern@, text@) is Some,
        r matches Some(s) ==> regex_group1(pattern@, text@) == Some(s@),
{
    let re = regex::Regex::new(pattern).ok()?;
    let caps = re.captures(text)?;
    caps.get(1).map(|m| m.as_str().to_string())
}

/// The command that lists the saved wireless profiles.
pub fn list_command() -> (r: String)
    ensures
        r@ == "netsh wlan show profiles"@,
{
    String::from_str("netsh wlan show profiles")
}

/// What a profile line of the listing looks like; the group is the name.
pub open spec fn name_pattern() -> Seq<char> {
    ".*: (.+)$"@
}

/// A key line in English output; the group is the key.
pub open spec fn key_pattern_en() -> Seq<char> {
    ".*Key Content.*: (.+)$"@
}

/// A key line in Chinese output; the group is the key.
pub open spec fn key_pattern_zh() -> Seq<char> {
    ".*关键内容.*: (.+)$"@
}

/// What stands for a key that the output does not show.
pub open spec fn empty_marker() -> Seq<char> {
    "<EMPTY>"@
}

/// The contents of a list of strings that may be absent.
pub open spec fn opt_views(v: Seq<Option<String>>) -> Seq<Option<Seq<char>>> {
    v.map_values(|o: Option<String>| match o {
        Some(s) => Some(s@),
        None => None,
    })
}

/// The values present in `s`, in order.
pub open spec fn somes(s: Seq<Option<Seq<char>>>) -> Seq<Seq<char>>
    decreases s.len(),
{
    if s.len() == 0 {
        seq![]
    } else {
        let prev = somes(s.drop_last());
        match s.last() {
            Some(v) => prev.push(v),
            None => prev,
        }
    }
}

/// The first value present in `s`.
pub open spec fn first_some(s: Seq<Option<Seq<char>>>) -> Option<Seq<char>>
    decreases s.len(),
{
    if s.len() == 0 {
        None
    } else {
        match s[0] {
            Some(v) => Some(v),
            None => first_some(s.drop_first()),
        }
    }
}

/// The profile names that a listing shows, one per matching line.
pub open spec fn profile_names_of(listing: Seq<char>) -> Seq<Seq<char>> {
    somes(split_crlf(listing).map_values(|l: Seq<char>| regex_group1(name_pattern(), l)))
}

/// The key on one line: the English label first, then the Chinese one.
pub open spec fn key_capture(line: Seq<char>) -> Option<Seq<char>> {
    match regex_group1(key_pattern_en(), line) {
        Some(v) => Some(v),
        None => regex_group1(key_pattern_zh(), line),
    }
}

/// The key given the per-line findings: the first one, else the marker.
pub open spec fn chosen_key(found: Seq<Option<Seq<char>>>) -> Seq<char> {
    match first_some(found) {
        Some(v) => v,
        None => empty_marker(),
    }
}

/// The key that a profile's output shows.
pub open spec fn key_of(output: Seq<char>) -> Seq<char> {
    chosen_key(split_crlf(output).map_values(|l: Seq<char>| key_capture(l)))
}

/// The values present in `found`, in order.
pub fn collect_present(found: &Vec<Option<String>>) -> (r: Vec<String>)
    ensures
        views(r@) == somes(opt_views(found@)),
{
    let mut out: Vec<String> = Vec::new();
    let mut i: usize = 0;
    assert(opt_views(found@).take(0) =~= seq![]);
    assert(views(out@) =~= seq![]);
    while i < found.len()
        invariant
            i <= found.len(),
            views(out@) == somes(opt_views(found@).take(i as int)),
        decreases found.len() - i,
    {
        let ghost f = opt_views(found@);
        assert(f.take(i + 1).drop_last() =~= f.take(i as int));
        match &found[i] {
            Some(s) => {
                let ghost before = out@;
                out.push(s.clone());
                assert(views(out@) =~= views(before).push(s@));
            },
            None => {},
        }
        i = i + 1;
    }
    assert(opt_views(found@).take(found.len() as int) =~= opt_views(found@));
    out
}

/// The first value present in `found`, else the marker `<EMPTY>`.
pub fn pick_key(found: &Vec<Option<String>>) -> (r: String)
    ensures
        r@ == chosen_key(opt_views(found@)),
{
    let ghost f = opt_views(found@);
    let mut i: usize = 0;
    assert(f.skip(0) =~= f);
    while i < found.len()
        invariant
            f == opt_views(found@),
            i <= found.len(),
            first_some(f) == first_some(f.skip(i as int)),
        decreases found.len() - i,
    {
        assert(f.skip(i as int)[0] == f[i as int]);
        match &found[i] {
            Some(s) => {
                return s.clone();
            },
            None => {},
        }
        assert(f.skip(i as int).drop_first() =~= f.skip(i + 1));
        i = i + 1;
    }
    proof {
        reveal_strlit("<EMPTY>");
    }
    String::from_str("<EMPTY>")
}

/// The profile names that a listing shows, one per line that ends in
/// `: <name>`.
pub fn profile_names(listing: &str) -> (r: Vec<String>)
    ensures
        views(r@) == profile_names_of(listing@),
{
    let ls = split_on_crlf(listing);
    let ghost gl = split_crlf(listing@);
    let mut found: Vec<Option<String>> = Vec::new();
    let mut i: usize = 0;
    while i < ls.len()
        invariant
            views(ls@) == gl,
            i <= ls.len(),
            found.len() == i,
            forall|j: int| 0 <= j < i ==> #[trigger] opt_views(found@)[j] == regex_group1(name_pattern(), gl[j]),
        decreases ls.len() - i,
    {
        assert(gl[i as int] == ls@[i as int]@);
        let g = first_group(".*: (.+)$", ls[i].as_str());
        let ghost before = found@;
        found.push(g);
        assert(found@ == before.push(g));
        assert forall|j: int| 0 <= j < i + 1 implies #[trigger] opt_views(found@)[j] == regex_group1(name_pattern(), gl[j]) by {
            if j < i {
                assert(opt_views(found@)[j] == opt_views(before)[j]);
            }
        }
        i = i + 1;
    }
    assert(gl.take(ls.len() as int) =~= gl);
    assert(opt_views(found@) =~= gl.map_values(|l: Seq<char>| regex_group1(name_pattern(), l)));
    collect_present(&found)
}

/// The key that one profile's output shows: the value of the first line with
/// an English or Chinese key label, else `<EMPTY>`.
pub fn key_from_output(output: &str) -> (r: String)
    ensures
        r@ == key_of(output@),
{
    let ls = split_on_crlf(output);
    let ghost gl = split_crlf(output@);
    let mut found: Vec<Option<String>> = Vec::new();
    let mut i: usize = 0;
    while i < ls.len()
        invariant
            views(ls@) == gl,
            i <= ls.len(),
            found.len() == i,
            forall|j: int| 0 <= j < i ==> #[trigger] opt_views(found@)[j] == key_capture(gl[j]),
        decreases ls.len() - i,
    {
        assert(gl[i as int] == ls@[i as int]@);
        let line = ls[i].as_str();
        let g = match first_group(".*Key Content.*: (.+)$", line) {
            Some(v) => Some(v),
            None => first_group(".*关键内容.*: (.+)$", line),
        };
        let ghost before = found@;
        found.push(g);
        assert(found@ == before.push(g));
        assert forall|j: int| 0 <= j < i + 1 implies #[trigger] opt_views(found@)[j] == key_capture(gl[j]) by {
            if j < i {
                assert(opt_views(found@)[j] == opt_views(before)[j]);
            }
        }
        i = i + 1;
    }
    assert(gl.take(ls.len() as int) =~= gl);
    assert(opt_views(found@) =~= gl.map_values(|l: Seq<char>| key_capture(l)));
    pick_key(&found)
}

/// The command that shows the saved key of profile `name` in clear text.
pub fn key_query_command(name: &str) -> (r: String)
    ensures
        r@ == "netsh wlan show profiles name="@ + name@ + " key=clear"@,
{
    let head = String::from_str("netsh wlan show profiles name=");
    head.concat(name).concat(" key=clear")
}

/// The records for the listed profiles, given the output that each one's key
/// query gave, in the same order.
pub fn from_netsh_outputs(names: &Vec<String>, outputs: &Vec<String>) -> (r: Vec<WifiConfig>)
    requires
        names.len() == outputs.len(),
    ensures
        r.len() == names.len(),
        forall|i: int| 0 <= i < r.len() ==> r@[i]@ == (names@[i]@, key_of(outputs@[i]@), Seq::<char>::empty(), Seq::<char>::empty()),
{
    let mut out: Vec<WifiConfig> = Vec::new();
    let mut i: usize = 0;
    while i < names.len()
        invariant
            names.len() == outputs.len(),
            i <= names.len(),
            out.len() == i,
            forall|j: int| 0 <= j < i ==> out@[j]@ == (names@[j]@, key_of(outputs@[j]@), Seq::<char>::empty(), Seq::<char>::empty()),
        decreases names.len() - i,
    {
        let password = key_from_output(outputs[i].as_str());
        out.push(WifiConfig {
            ssid: names[i].clone(),
            password,
            fname: String::new(),
            uuid: String::new(),
        });
        i = i + 1;
    }
    out
}

} // verus!
