use vstd::prelude::*;

use crate::config::{opt_view, CredentialView, WifiConfig};
use crate::text::{chars_of, lines, lines_of, starts_with, views};

verus! {

/// What opens a line that holds the network's name.
pub open spec fn name_key() -> Seq<char> {
    "            name"@
}

/// What opens a line that holds the key.
pub open spec fn password_key() -> Seq<char> {
    "            password: "@
}

/// Where the value starts on a name line.
pub const NAME_OFFSET: usize = 19;

/// Where the value starts on a key line.
pub const PASSWORD_OFFSET: usize = 23;

/// The value on `line`: from `from` up to, not including, the last character.
/// A line too short to hold a value gives the empty value.
pub open spec fn cut(line: Seq<char>, from: int) -> Seq<char> {
    if line.len() > from {
        line.subrange(from, line.len() - 1)
    } else {
        seq![]
    }
}

/// The value on the last of `ls` that opens with `key`; empty if none does.
pub open spec fn last_value(ls: Seq<Seq<char>>, key: Seq<char>, from: int) -> Seq<char>
    decreases ls.len(),
{
    if ls.len() == 0 {
        seq![]
    } else if starts_with(ls.last(), key) {
        cut(ls.last(), from)
    } else {
        last_value(ls.drop_last(), key, from)
    }
}

/// The record that a netplan file's text gives, if its name is found.
pub open spec fn netplan_credential(content: Seq<char>, fname: Seq<char>) -> Option<CredentialView> {
    let ls = lines_of(content);
    let ssid = last_value(ls, name_key(), NAME_OFFSET as int);
    if ssid.len() == 0 {
        None
    } else {
        Some((ssid, last_value(ls, password_key(), PASSWORD_OFFSET as int), fname, seq![]))
    }
}

proof fn lemma_no_key_line(ls: Seq<Seq<char>>, key: Seq<char>, from: int)
    requires
        forall|k: int| 0 <= k < ls.len() ==> !starts_with(#[trigger] ls[k], key),
    ensures
        last_value(ls, key, from) == Seq::<char>::empty(),
    decreases ls.len(),
{
    if ls.len() > 0 {
        assert(!starts_with(ls[ls.len() - 1], key));
        lemma_no_key_line(ls.drop_last(), key, from);
    }
}

/// A netplan text with no line that opens with the name key gives no record,
/// whatever else it holds.
pub proof fn lemma_netplan_needs_name(content: Seq<char>, fname: Seq<char>)
    requires
        forall|k: int| 0 <= k < lines_of(content).len() ==> !starts_with(#[trigger] lines_of(content)[k], name_key()),
    ensures
        netplan_credential(content, fname) is None,
{
    lemma_no_key_line(lines_of(content), name_key(), NAME_OFFSET as int);
}

/// Whether `line` opens with `key`.
pub fn opens_with(line: &str, key: &str) -> (r: bool)
    ensures
        r == starts_with(line@, key@),
{
    let l = chars_of(line);
    let k = chars_of(key);
    if k.len() > l.len() {
        return false;
    }
    let mut i: usize = 0;
    while i < k.len()
        invariant
            l@ == line@,
            k@ == key@,
            k.len() <= l.len(),
            i <= k.len(),
            forall|j: int| 0 <= j < i ==> l@[j] == k@[j],
        decreases k.len() - i,
    {
        if l[i] != k[i] {
            assert(line@.take(key@.len() as int)[i as int] != key@[i as int]);
            return false;
        }
        i = i + 1;
    }
    assert(line@.take(key@.len() as int) =~= key@);
    true
}

/// The value on `line` that starts at `from`, the last character left out.
pub fn value_after(line: &str, from: usize) -> (r: String)
    ensures
        r@ == cut(line@, from as int),
{
    let n = line.unicode_len();
    if n > from {
        String::from_str(line.substring_char(from, n - 1))
    } else {
        String::new()
    }
}

impl WifiConfig {
    /// Reads the name and key from a netplan file's text, by the fixed column
    /// layout of the one generator it is written for; `fname` is the file's
    /// name. Nothing is returned where no name line gives a value.
    pub fn init_from_netplan(content: &str, fname: &str) -> (r: Option<WifiConfig>)
        ensures
            opt_view(r) == netplan_credential(content@, fname@),
    {
        let ls = lines(content);
        let ghost gl = lines_of(content@);
        let mut ssid = String::new();
        let mut psk = String::new();
        let mut i: usize = 0;
        while i < ls.len()
            invariant
                views(ls@) == gl,
                i <= ls.len(),
                ssid@ == last_value(gl.take(i as int), name_key(), NAME_OFFSET as int),
                psk@ == last_value(gl.take(i as int), password_key(), PASSWORD_OFFSET as int),
            decreases ls.len() - i,
        {
            let line = ls[i].as_str();
            assert(gl.take(i + 1).drop_last() =~= gl.take(i as int));
            assert(gl[i as int] == line@);
            if opens_with(line, "            name") {
                ssid = value_after(line, NAME_OFFSET);
            }
            if opens_with(line, "            password: ") {
                psk = value_after(line, PASSWORD_OFFSET);
            }
            i = i + 1;
        }
        assert(gl.take(ls.len() as int) =~= gl);
        if ssid.unicode_len() == 0 {
            return None;
        }
        Some(WifiConfig { ssid, password: psk, fname: String::from_str(fname), uuid: String::new() })
    }
}

} // verus!
