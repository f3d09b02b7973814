use vstd::prelude::*;
use vstd::utf8::{decode_utf8, valid_utf8};

use crate::text::{ascii_words, trim, trimmed_words, views};

verus! {

/// The text that GB18030 decoding of `b` gives, or `None` where `b` is not
/// well-formed GB18030.
pub uninterp spec fn gb18030_decode(b: Seq<u8>) -> Option<Seq<char>>;

/// Relies on `String::from_utf8`: the text where the bytes are valid UTF-8,
/// else an error.
#[verifier::external_body]
fn utf8_string(bytes: Vec<u8>) -> (r: Option<String>)
    ensures
        r is Some <==> valid_utf8(bytes@),
        r matches Some(s) ==> s@ == decode_utf8(bytes@),
{
    String::from_utf8(bytes).ok()
}

/// Relies on `encoding::all::GB18030` decoding with `DecoderTrap::Strict`:
/// the decoded text, or an error on any malformed sequence.
#[verifier::external_body]
fn gb18030_string(bytes: &[u8]) -> (r: Option<String>)
    ensures
        r is Some <==> gb18030_decode(bytes@) is Some,
        r matches Some(s) ==> gb18030_decode(bytes@) == Some(s@),
{
    encoding::Encoding::decode(encoding::all::GB18030, bytes, encoding::DecoderTrap::Strict).ok()
}

/// The text of a command's output: UTF-8 where the bytes are valid UTF-8,
/// else GB18030.
pub open spec fn output_text(b: Seq<u8>) -> Option<Seq<char>> {
    if valid_utf8(b) {
        Some(decode_utf8(b))
    } else {
        gb18030_decode(b)
    }
}

/// Output that is not UTF-8 but is well-formed GB18030 still decodes, to its
/// GB18030 text.
pub proof fn lemma_fallback_decodes(b: Seq<u8>)
    requires
        !valid_utf8(b),
        gb18030_decode(b) is Some,
    ensures
        output_text(b) == gb18030_decode(b),
        output_text(b) is Some,
{
}

/// Decodes a command's raw output: UTF-8 first, GB18030 where that fails;
/// nothing where both fail.
pub fn decode_output(bytes: &Vec<u8>) -> (r: Option<String>)
    ensures
        r is Some <==> output_text(bytes@) is Some,
        r matches Some(s) ==> output_text(bytes@) == Some(s@),
{
    match utf8_string(bytes.clone()) {
        Some(s) => Some(s),
        None => gb18030_string(bytes.as_slice()),
    }
}

/// Splits a command line into the program and its arguments: the trimmed
/// line's runs of characters other than ASCII white space. Nothing is
/// returned for a line with no such run.
pub fn command_words(cmd: &str) -> (r: Option<Vec<String>>)
    ensures
        r is None <==> ascii_words(trim(cmd@)).len() == 0,
        r matches Some(w) ==> views(w@) == ascii_words(trim(cmd@)),
{
    let words = trimmed_words(cmd);
    if words.len() == 0 {
        None
    } else {
        Some(words)
    }
}

} // verus!
