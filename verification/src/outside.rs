//! Calls into the `regex`, `base64`, `uuid` and `chrono` crates. Each item here is
//! trusted: its contract is believed, not proved.
use vstd::prelude::*;
use vstd::utf8::{encode_utf8, is_char_boundary};

verus! {

/// What `regex::Regex::new(pattern)` followed by `captures_iter(text)` yields:
/// `None` when the pattern does not compile, otherwise one entry per match,
/// each listing the text of every capture group (group 0 is the whole
/// match), `None` for a group that did not take part.
pub uninterp spec fn spec_regex_captures(pattern: Seq<char>, text: Seq<char>) -> Option<
    Seq<Seq<Option<Seq<char>>>>,
>;

/// Compiles `pattern` with `regex::Regex::new` and collects the capture
/// groups of every match of `captures_iter(text)` as owned strings.
/// Claimed: the result is `spec_regex_captures` of the pattern and the text;
/// the matching semantics are not restated.
#[verifier::external_body]
pub(crate) fn regex_captures(pattern: &str, text: &str) -> (r: Option<Vec<Vec<Option<String>>>>)
    ensures
        r.deep_view() == spec_regex_captures(pattern@, text@),
{
    regex::Regex::new(pattern).ok().map(
        |re|
            re.captures_iter(text).map(
                |c| c.iter().map(|g| g.map(|g| g.as_str().to_string())).collect(),
            ).collect(),
    )
}

/// What `regex::Regex::new(pattern)` followed by `find_iter(text)` yields:
/// `None` when the pattern does not compile, otherwise the start and end
/// byte offsets and the text of each successive match.
pub uninterp spec fn spec_regex_find_all(pattern: Seq<char>, text: Seq<char>) -> Option<
    Seq<(usize, usize, Seq<char>)>,
>;

/// Compiles `pattern` with `regex::Regex::new` and lists the matches of
/// `find_iter(text)` as `(start, end, text)`. Claimed: the result is
/// `spec_regex_find_all` of the pattern and the text, and, as the crate
/// documents for `Match::start`/`end`/`as_str`, each match has
/// `start <= end <= text.len()` on UTF-8 boundaries, its text being the
/// bytes `start..end` of the haystack.
#[verifier::external_body]
pub(crate) fn regex_find_all(pattern: &str, text: &str) -> (r: Option<Vec<(usize, usize, String)>>)
    ensures
        r.deep_view() == spec_regex_find_all(pattern@, text@),
        r matches Some(ms) ==> forall|i: int|
            0 <= i < ms.len() ==> {
                let (a, b, t) = #[trigger] ms@[i];
                &&& a <= b <= encode_utf8(text@).len()
                &&& is_char_boundary(encode_utf8(text@), a as int)
                &&& is_char_boundary(encode_utf8(text@), b as int)
                &&& encode_utf8(t@) == encode_utf8(text@).subrange(a as int, b as int)
            },
{
    regex::Regex::new(pattern).ok().map(
        |re| re.find_iter(text).map(|m| (m.start(), m.end(), m.as_str().to_string())).collect(),
    )
}

/// What `regex::Regex::new(pattern)` followed by
/// `replace_all(text, replacement)` yields: `None` when the pattern does not
/// compile, otherwise the text with every match replaced (with `$n` group
/// references expanded).
pub uninterp spec fn spec_regex_replace_all(
    pattern: Seq<char>,
    text: Seq<char>,
    replacement: Seq<char>,
) -> Option<Seq<char>>;

/// Compiles `pattern` with `regex::Regex::new` and applies
/// `replace_all(text, replacement)`. Claimed: the result is
/// `spec_regex_replace_all` of the three arguments.
#[verifier::external_body]
pub(crate) fn regex_replace_all(pattern: &str, text: &str, replacement: &str) -> (r: Option<String>)
    ensures
        r.deep_view() == spec_regex_replace_all(pattern@, text@, replacement@),
{
    regex::Regex::new(pattern).ok().map(|re| re.replace_all(text, replacement).to_string())
}

/// The characters that `regex_syntax::is_meta_character` reports.
pub open spec fn is_regex_meta(c: char) -> bool {
    c == '\\' || c == '.' || c == '+' || c == '*' || c == '?' || c == '(' || c == ')' || c == '|'
        || c == '[' || c == ']' || c == '{' || c == '}' || c == '^' || c == '$' || c == '#' || c
        == '&' || c == '-' || c == '~'
}

/// `text` with a backslash before every meta character.
pub open spec fn regex_escaped(text: Seq<char>) -> Seq<char> {
    text.flat_map(|c: char| if is_regex_meta(c) { seq!['\\', c] } else { seq![c] })
}

/// Calls `regex::escape`. Claimed, as its source (`regex_syntax::escape_into`)
/// shows: every meta character is preceded by a backslash, nothing else
/// changes.
#[verifier::external_body]
pub(crate) fn regex_escape(text: &str) -> (r: String)
    ensures
        r@ == regex_escaped(text@),
{
    regex::escape(text)
}

/// The alphabet of standard base64 (RFC 4648), indexed by six-bit value.
pub open spec fn base64_digit(v: int) -> char {
    "ABCDEFGHIJKLMNOPQRSTUVWXYZabcdefghijklmnopqrstuvwxyz0123456789+/"@[v]
}

/// Standard base64 with `=` padding: each three bytes become four digits, a
/// last one or two bytes become two or three digits and padding.
pub open spec fn base64_standard(b: Seq<u8>) -> Seq<char>
    decreases b.len(),
{
    if b.len() == 0 {
        seq![]
    } else if b.len() == 1 {
        seq![base64_digit(b[0] as int / 4), base64_digit((b[0] as int % 4) * 16), '=', '=']
    } else if b.len() == 2 {
        seq![
            base64_digit(b[0] as int / 4),
            base64_digit((b[0] as int % 4) * 16 + b[1] as int / 16),
            base64_digit((b[1] as int % 16) * 4),
            '=',
        ]
    } else {
        seq![
            base64_digit(b[0] as int / 4),
            base64_digit((b[0] as int % 4) * 16 + b[1] as int / 16),
            base64_digit((b[1] as int % 16) * 4 + b[2] as int / 64),
            base64_digit(b[2] as int % 64),
        ] + base64_standard(b.skip(3))
    }
}

/// Calls `base64::Engine::encode` with the `STANDARD` engine. Claimed, as
/// the crate documents it: the RFC 4648 standard alphabet with padding. The
/// crate panics when the length of the encoding overflows `usize`, which the
/// precondition rules out.
#[verifier::external_body]
pub(crate) fn base64_encode(data: &[u8]) -> (r: String)
    requires
        data@.len() <= usize::MAX / 2,
    ensures
        r@ == base64_standard(data@),
{
    base64::Engine::encode(&base64::engine::general_purpose::STANDARD, data)
}

/// Calls `uuid::Uuid::new_v4()` and renders it with `to_string`. The value
/// is random: nothing is stated of it.
#[verifier::external_body]
pub(crate) fn new_uuid_v4() -> (r: String) {
    uuid::Uuid::new_v4().to_string()
}

/// Calls `chrono::Utc::now()` and renders it with `to_rfc3339`. The value is
/// the current time: nothing is stated of it.
#[verifier::external_body]
pub(crate) fn now_rfc3339() -> (r: String) {
    chrono::Utc::now().to_rfc3339()
}

} // verus!
