//! Regular-expression matching and case mapping, done by the `regex` crate and by `std`.
use vstd::prelude::*;

verus! {

/// The capture groups of one match, each a string or `None` where the group took no part.
pub open spec fn groups_view(c: Vec<Option<String>>) -> Seq<Option<Seq<char>>> {
    c@.map_values(|g: Option<String>| match g {
        Some(s) => Some(s@),
        None => None::<Seq<char>>,
    })
}

/// The matches of a search, each given by its capture groups.
pub open spec fn captures_view(r: Option<Vec<Vec<Option<String>>>>) -> Option<Seq<Seq<Option<Seq<char>>>>> {
    match r {
        Some(v) => Some(v@.map_values(|c: Vec<Option<String>>| groups_view(c))),
        None => None,
    }
}

/// What compiling `pattern` as a regular expression and walking `captures_iter(text)` yields:
/// for each successive non-overlapping leftmost-first match, the text of each capture group
/// (group 0 being the whole match); `None` where `pattern` does not compile.
pub uninterp spec fn regex_captures(pattern: Seq<char>, text: Seq<char>) -> Option<Seq<Seq<Option<Seq<char>>>>>;

/// Whether the regular expression `pattern` matches somewhere in `text`; `None` where
/// `pattern` does not compile.
pub uninterp spec fn regex_matches(pattern: Seq<char>, text: Seq<char>) -> Option<bool>;

/// The lowercase mapping of a string (Unicode `Lowercase`).
pub uninterp spec fn lowercase(s: Seq<char>) -> Seq<char>;

/// The matches of `pattern` in `text`: `regex::Regex::new` followed by `Regex::captures_iter`,
/// each match read group by group with `Captures::iter` and `Match::as_str`. The result is
/// named by `regex_captures`; nothing more of the regex engine is stated.
#[verifier::external_body]
pub(crate) fn captures_all(pattern: &str, text: &str) -> (r: Option<Vec<Vec<Option<String>>>>)
    ensures
        captures_view(r) == regex_captures(pattern@, text@),
{
    let re = regex::Regex::new(pattern).ok()?;
    Some(
        re.captures_iter(text).map(
            |c| c.iter().map(|g| g.map(|m| m.as_str().to_string())).collect(),
        ).collect(),
    )
}

/// Whether `pattern` matches in `text`: `regex::Regex::new` followed by `Regex::is_match`.
/// The result is named by `regex_matches`.
#[verifier::external_body]
pub(crate) fn is_match(pattern: &str, text: &str) -> (r: Option<bool>)
    ensures
        r == regex_matches(pattern@, text@),
{
    let re = regex::Regex::new(pattern).ok()?;
    Some(re.is_match(text))
}

/// Every character of `s` is ASCII.
pub open spec fn is_ascii(s: Seq<char>) -> bool {
    forall|i: int| 0 <= i < s.len() ==> (s[i] as u32) < 128
}

/// ASCII lowercase of one character.
pub open spec fn ascii_lower_char(c: char) -> char {
    if 'A' <= c <= 'Z' {
        ((c as u32) + 32) as char
    } else {
        c
    }
}

/// ASCII lowercase of a string.
pub open spec fn ascii_lower(s: Seq<char>) -> Seq<char> {
    s.map_values(|c: char| ascii_lower_char(c))
}

/// `str::to_lowercase`. Its result is named by `lowercase`; on ASCII text it maps `A`–`Z`
/// to `a`–`z` and keeps every other character, as the Unicode mapping does there.
#[verifier::external_body]
pub(crate) fn to_lowercase(s: &str) -> (r: String)
    ensures
        r@ == lowercase(s@),
        is_ascii(s@) ==> r@ == ascii_lower(s@),
{
    s.to_lowercase()
}

} // verus!
