//! Trusted items: the calls into std functions that vstd does not specify and
//! into the outside crates. Each contract here is believed, not proved.

use unicode_segmentation::UnicodeSegmentation;
use vstd::prelude::*;
use vstd::utf8::{decode_utf8, is_ascii_chars, valid_utf8};

use crate::text::{has_prefix, views};
use crate::theme::{entry_views, TomlValue, TomlValueView};

verus! {

/// What `str::to_lowercase` returns for a string. It depends on the string
/// alone (the mapping is Unicode's, not a locale's).
pub uninterp spec fn lowercase(s: Seq<char>) -> Seq<char>;

/// The lower case of an ASCII character: `A`..`Z` become `a`..`z`, every other
/// character stays.
pub open spec fn ascii_lower_char(c: char) -> char {
    if 'A' <= c <= 'Z' {
        ((c as u32) + 32) as char
    } else {
        c
    }
}

/// `s` with `A`..`Z` turned into `a`..`z`.
pub open spec fn ascii_lowercase(s: Seq<char>) -> Seq<char> {
    s.map_values(|c: char| ascii_lower_char(c))
}

/// `str::to_lowercase`. The result is named; for ASCII text, whose Unicode
/// lower case is the ASCII one character by character, it is stated.
#[verifier::external_body]
pub(crate) fn to_lowercase(s: &str) -> (r: String)
    ensures
        r@ == lowercase(s@),
        is_ascii_chars(s@) ==> r@ == ascii_lowercase(s@),
{
    s.to_lowercase()
}

/// `String::from_utf8`: succeeds exactly on valid UTF-8 and then holds the
/// decoded characters.
#[verifier::external_body]
pub(crate) fn string_from_utf8(bytes: Vec<u8>) -> (r: Option<String>)
    ensures
        r is Some <==> valid_utf8(bytes@),
        r matches Some(s) ==> s@ == decode_utf8(bytes@),
{
    String::from_utf8(bytes).ok()
}

/// The index of the first pattern in `pats` that `s` begins with.
pub open spec fn matching_pattern(pats: Seq<Seq<char>>, s: Seq<char>) -> Option<int>
    decreases pats.len(),
{
    if pats.len() == 0 {
        None
    } else if has_prefix(s, pats[0]) {
        Some(0)
    } else {
        match matching_pattern(pats.skip(1), s) {
            Some(k) => Some(k + 1),
            None => None,
        }
    }
}

/// `s` with each match of a pattern replaced by the replacement of the same
/// index, matches found from the left and never overlapping.
pub open spec fn patterns_replaced(
    pats: Seq<Seq<char>>,
    reps: Seq<Seq<char>>,
    s: Seq<char>,
) -> Seq<char>
    decreases s.len(),
{
    if s.len() == 0 {
        s
    } else {
        match matching_pattern(pats, s) {
            Some(k) => if 0 <= k < pats.len() && 0 < pats[k].len() <= s.len() {
                reps[k] + patterns_replaced(pats, reps, s.skip(pats[k].len() as int))
            } else {
                seq![s[0]] + patterns_replaced(pats, reps, s.skip(1))
            },
            None => seq![s[0]] + patterns_replaced(pats, reps, s.skip(1)),
        }
    }
}

/// Patterns that the search below accepts: a few, distinct, short, and all of
/// one positive length.
pub open spec fn uniform_patterns(pats: Seq<Seq<char>>) -> bool {
    &&& 0 < pats.len() <= 64
    &&& forall|i: int| 0 <= i < pats.len() ==> 0 < #[trigger] pats[i].len() <= 64
    &&& forall|i: int, j: int|
        0 <= i < pats.len() && 0 <= j < pats.len() ==> #[trigger] pats[i].len()
            == #[trigger] pats[j].len()
    &&& forall|i: int, j: int|
        0 <= i < j < pats.len() ==> #[trigger] pats[i] != #[trigger] pats[j]
}

/// `aho_corasick::AhoCorasick::new(patterns)` followed by `replace_all`.
/// With the default (standard) match kind a match is reported as soon as it
/// ends; since all patterns have one length and differ, the match found first
/// is the leftmost one and it is unique, so the result is `patterns_replaced`.
#[verifier::external_body]
pub(crate) fn replace_patterns(
    haystack: &str,
    patterns: &Vec<String>,
    replacements: &Vec<String>,
) -> (r: String)
    requires
        uniform_patterns(views(patterns@)),
        replacements.len() == patterns.len(),
    ensures
        r@ == patterns_replaced(views(patterns@), views(replacements@), haystack@),
{
    let ac = aho_corasick::AhoCorasick::new(patterns).unwrap();
    ac.replace_all(haystack, replacements)
}

/// The number of extended grapheme clusters of a string (Unicode UAX #29).
/// It depends on the string alone.
pub uninterp spec fn grapheme_count(s: Seq<char>) -> nat;

/// `UnicodeSegmentation::graphemes(s, true).count()`. Clusters are non-empty
/// and together make up the string, so there are no more of them than
/// characters, and none exactly for the empty string. Between two ASCII
/// characters UAX #29 breaks everywhere but inside a `"\r\n"` pair, so ASCII
/// text without that pair has one cluster per character.
#[verifier::external_body]
pub(crate) fn count_graphemes(s: &str) -> (n: usize)
    ensures
        n == grapheme_count(s@),
        n <= s@.len(),
        n == 0 <==> s@.len() == 0,
        is_ascii_chars(s@) && (forall|i: int|
            0 <= i < s@.len() - 1 ==> !(#[trigger] s@[i] == '\r' && s@[i + 1] == '\n'))
            ==> n == s@.len(),
{
    s.graphemes(true).count()
}

/// The printable content of a string once its ANSI escape sequences are
/// removed, as `anstream::adapter::strip_str` computes it. It depends on the
/// string alone.
pub uninterp spec fn ansi_stripped(s: Seq<char>) -> Seq<char>;

/// `anstream::adapter::strip_str(s).to_string()`: the contract only names the
/// result.
#[verifier::external_body]
pub(crate) fn strip_ansi(s: &str) -> (r: String)
    ensures
        r@ == ansi_stripped(s@),
{
    anstream::adapter::strip_str(s).to_string()
}

/// The text of the TOML document made by inserting `entries`, in order, into
/// an empty `toml_edit::DocumentMut`. It depends on the entries alone.
pub uninterp spec fn toml_document_text(entries: Seq<(Seq<char>, TomlValueView)>) -> Seq<char>;

/// Builds a `toml_edit::DocumentMut` by assigning each entry (`doc[key] =
/// value(..)`, tables through `Table::from_iter`) and renders it with its
/// `Display` impl: the contract only names the result.
#[verifier::external_body]
pub(crate) fn render_toml_document(entries: &Vec<(String, TomlValue)>) -> (r: String)
    ensures
        r@ == toml_document_text(entry_views(entries@)),
{
    let mut doc = toml_edit::DocumentMut::new();
    for (key, value) in entries {
        doc[key.as_str()] = match value {
            TomlValue::Integer(i) => toml_edit::value(*i),
            TomlValue::Boolean(b) => toml_edit::value(*b),
            TomlValue::Text(s) => toml_edit::value(s.as_str()),
            TomlValue::Table(t) => toml_edit::Item::Table(
                t.iter().map(|(k, v)| (k.as_str(), v.as_str())).collect(),
            ),
        };
    }
    doc.to_string()
}

} // verus!
