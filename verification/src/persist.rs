//! The JSON form in which the watched directories are saved.

use vstd::prelude::*;
use crate::pipeline::hex_digit;
use crate::text::{join_with, views};

verus! {

/// A character inside a JSON string as `serde_json` writes it: quote and
/// backslash escaped, the control characters below U+0020 written as short
/// escapes where JSON has one and as `\u00XX` otherwise.
pub open spec fn json_escaped_char(c: char) -> Seq<char> {
    if c == '"' {
        seq!['\\', '"']
    } else if c == '\\' {
        seq!['\\', '\\']
    } else if c == '\x08' {
        seq!['\\', 'b']
    } else if c == '\t' {
        seq!['\\', 't']
    } else if c == '\n' {
        seq!['\\', 'n']
    } else if c == '\x0C' {
        seq!['\\', 'f']
    } else if c == '\r' {
        seq!['\\', 'r']
    } else if (c as u32) < 0x20 {
        seq!['\\', 'u', '0', '0', hex_digit((c as u32 / 16) as nat), hex_digit((c as u32 % 16) as nat)]
    } else {
        seq![c]
    }
}

/// The escaped characters of a string.
pub open spec fn json_escaped(s: Seq<char>) -> Seq<char>
    decreases s.len(),
{
    if s.len() == 0 {
        seq![]
    } else {
        json_escaped(s.drop_last()) + json_escaped_char(s.last())
    }
}

/// A string as a JSON string literal.
pub open spec fn json_string(s: Seq<char>) -> Seq<char> {
    seq!['"'] + json_escaped(s) + seq!['"']
}

/// A list of strings as a compact JSON array, as `serde_json::to_string`
/// writes it.
pub open spec fn json_string_array(l: Seq<Seq<char>>) -> Seq<char> {
    seq!['['] + join_with(l.map_values(|s: Seq<char>| json_string(s)), seq![',']) + seq![']']
}

/// The list of strings that a JSON text holds, if it is a JSON array of
/// strings (`serde_json::from_str::<Vec<String>>`).
pub uninterp spec fn json_string_list_of(text: Seq<char>) -> Option<Seq<Seq<char>>>;

/// `serde_json::from_str::<Vec<String>>`, with a failure turned into
/// `None`. Claims that the result is `json_string_list_of` of the text, and
/// that a text in the form `serde_json` itself writes for a list of strings
/// reads back as that list (JSON's escapes stand for the characters they
/// replace).
#[verifier::external_body]
fn parse_string_list(text: &str) -> (r: Option<Vec<String>>)
    ensures
        r.deep_view() == json_string_list_of(text@),
        forall|l: Seq<Seq<char>>| text@ == json_string_array(l) ==> r.deep_view() == Some(l),
{
    serde_json::from_str::<Vec<String>>(text).ok()
}

/// `serde_json::to_string` on a list of strings, with a failure turned into
/// `None`. Claims the text its source writes: a compact array of string
/// literals escaped as `json_escaped_char` says. Claims success too: the
/// documented failures are a `Serialize` impl that fails or a map with
/// non-string keys, and a list of strings has neither (`String` serializes
/// as `serialize_str`, written into a `Vec<u8>`, whose writes do not fail).
#[verifier::external_body]
fn write_string_list(list: &Vec<String>) -> (r: Option<String>)
    ensures
        r is Some,
        r matches Some(t) ==> t@ == json_string_array(views(list@)),
{
    serde_json::to_string(list).ok()
}

/// The saved form of a list of directories: a compact JSON array of
/// strings. Writing a list of strings always succeeds.
pub fn encode_dir_list(dirs: &Vec<String>) -> (r: Option<String>)
    ensures
        r is Some,
        r matches Some(t) ==> t@ == json_string_array(views(dirs@)),
{
    write_string_list(dirs)
}

/// The directories of a saved list: the list the text holds, or none when
/// the text is not a JSON array of strings. A text written by
/// `encode_dir_list` gives back the list it was written from.
pub fn decode_dir_list(data: &str) -> (r: Vec<String>)
    ensures
        views(r@) == match json_string_list_of(data@) {
            Some(l) => l,
            None => seq![],
        },
        forall|l: Seq<Seq<char>>| data@ == json_string_array(l) ==> views(r@) == l,
{
    match parse_string_list(data) {
        Some(list) => {
            assert(views(list@) =~= list.deep_view());
            list
        },
        None => {
            let r: Vec<String> = Vec::new();
            assert(views(r@) =~= seq![]);
            r
        },
    }
}

} // verus!
