//! Regular expressions the bot matches messages against, and plain substring search.
use vstd::prelude::*;

use crate::text::chars_of;

verus! {

/// Mentions of a user: `<@123>` or `<@!123>`.
pub fn user_mention_pattern() -> (p: &'static str)
    ensures
        p@ == user_mention_pattern_spec(),
{
    r"<@!?(\d+)>"
}

pub closed spec fn user_mention_pattern_spec() -> Seq<char> {
    r"<@!?(\d+)>"@
}

/// Mentions of a role: `<@&123>`.
pub fn role_mention_pattern() -> (p: &'static str)
    ensures
        p@ == role_mention_pattern_spec(),
{
    r"<@&(\d+)>"
}

pub closed spec fn role_mention_pattern_spec() -> Seq<char> {
    r"<@&(\d+)>"@
}

/// Any character other than an ASCII letter, an ASCII digit or a space.
pub fn not_alphanumeric_pattern() -> (p: &'static str)
    ensures
        p@ == not_alphanumeric_pattern_spec(),
{
    r"[^A-Za-z0-9 ]"
}

pub closed spec fn not_alphanumeric_pattern_spec() -> Seq<char> {
    r"[^A-Za-z0-9 ]"@
}

/// Links, with or without a scheme.
pub fn link_pattern() -> (p: &'static str)
    ensures
        p@ == link_pattern_spec(),
{
    r#"(?:(?:https?|ftp)://|\b(?:[a-z\d]+\.))(?:(?:[^\s()<>]+|\((?:[^\s()<>]+|(?:\([^\s()<>]+\)))?\))+(?:\((?:[^\s()<>]+|(?:\(?:[^\s()<>]+\)))?\)|[^\s`!()\[\]{};:'".,<>?«»“”‘’]))?"#
}

pub closed spec fn link_pattern_spec() -> Seq<char> {
    r#"(?:(?:https?|ftp)://|\b(?:[a-z\d]+\.))(?:(?:[^\s()<>]+|\((?:[^\s()<>]+|(?:\([^\s()<>]+\)))?\))+(?:\((?:[^\s()<>]+|(?:\(?:[^\s()<>]+\)))?\)|[^\s`!()\[\]{};:'".,<>?«»“”‘’]))?"#@
}

/// The playlist part of a video link: from `&list` or `?list` to the end.
pub fn list_parameter_pattern() -> (p: &'static str)
    ensures
        p@ == list_parameter_pattern_spec(),
{
    r"(&list).*|(\?list).*"
}

pub closed spec fn list_parameter_pattern_spec() -> Seq<char> {
    r"(&list).*|(\?list).*"@
}

/// Links to a playlist.
pub fn playlist_pattern() -> (p: &'static str)
    ensures
        p@ == playlist_pattern_spec(),
{
    r"playlist\?list="
}

pub closed spec fn playlist_pattern_spec() -> Seq<char> {
    r"playlist\?list="@
}

/// Custom emotes: `<:name:123>`.
pub fn emote_pattern() -> (p: &'static str)
    ensures
        p@ == emote_pattern_spec(),
{
    r"<:?(\w+:)(\d+)>"
}

pub closed spec fn emote_pattern_spec() -> Seq<char> {
    r"<:?(\w+:)(\d+)>"@
}

/// Animated emotes: `<a:name:123>`.
pub fn animated_emote_pattern() -> (p: &'static str)
    ensures
        p@ == animated_emote_pattern_spec(),
{
    r"<a:?(\w+:)(\d+)>"
}

pub closed spec fn animated_emote_pattern_spec() -> Seq<char> {
    r"<a:?(\w+:)(\d+)>"@
}

/// Punctuation and symbols the saved messages leave out.
pub fn punctuation_pattern() -> (p: &'static str)
    ensures
        p@ == punctuation_pattern_spec(),
{
    r#"[,.!"\#$()=?*<>{}\[\]\\\|Łł@*;:+~ˇ^˘°˛`´˝]"#
}

pub closed spec fn punctuation_pattern_spec() -> Seq<char> {
    r#"[,.!"\#$()=?*<>{}\[\]\\\|Łł@*;:+~ˇ^˘°˛`´˝]"#@
}

/// A text that is only an eighteen-digit id.
pub fn bare_user_id_pattern() -> (p: &'static str)
    ensures
        p@ == bare_user_id_pattern_spec(),
{
    r"^(\d{18})$"
}

pub closed spec fn bare_user_id_pattern_spec() -> Seq<char> {
    r"^(\d{18})$"@
}

/// A line feed.
pub fn line_feed_pattern() -> (p: &'static str)
    ensures
        p@ == line_feed_pattern_spec(),
{
    r"\n"
}

pub closed spec fn line_feed_pattern_spec() -> Seq<char> {
    r"\n"@
}

/// Two or three spaces in a row.
pub fn double_space_pattern() -> (p: &'static str)
    ensures
        p@ == double_space_pattern_spec(),
{
    r"[ ]{3}|[ ]{2}"
}

pub closed spec fn double_space_pattern_spec() -> Seq<char> {
    r"[ ]{3}|[ ]{2}"@
}

/// A run of upper-case letters.
pub fn uppercase_pattern() -> (p: &'static str)
    ensures
        p@ == uppercase_pattern_spec(),
{
    r"\p{Lu}+"
}

pub closed spec fn uppercase_pattern_spec() -> Seq<char> {
    r"\p{Lu}+"@
}

/// Whether the `regex` crate finds a match of `pattern` anywhere in `hay`
/// (`Regex::new(pattern)` then `Regex::is_match(hay)`; false when the pattern does not compile).
pub uninterp spec fn regex_is_match(pattern: Seq<char>, hay: Seq<char>) -> bool;

/// The text of the leftmost-first match of `pattern` in `hay`, as `regex::Regex::find`
/// gives it (`None` when there is none or the pattern does not compile).
pub uninterp spec fn regex_find(pattern: Seq<char>, hay: Seq<char>) -> Option<Seq<char>>;

/// `hay` with its leftmost-first match of `pattern` replaced by `rep`, as
/// `regex::Regex::replace` gives it (`hay` itself when the pattern does not compile).
pub uninterp spec fn regex_replace_first(pattern: Seq<char>, hay: Seq<char>, rep: Seq<char>) -> Seq<char>;

/// `hay` with every non-overlapping match of `pattern` replaced by `rep`, as
/// `regex::Regex::replace_all` gives it (`hay` itself when the pattern does not compile).
pub uninterp spec fn regex_replace_all(pattern: Seq<char>, hay: Seq<char>, rep: Seq<char>) -> Seq<char>;

/// The texts of the successive non-overlapping matches of `pattern` in `hay`, as
/// `regex::Regex::find_iter` gives them (none when the pattern does not compile).
pub uninterp spec fn regex_find_all(pattern: Seq<char>, hay: Seq<char>) -> Seq<Seq<char>>;

/// `regex::Regex::is_match`. Its contract names the answer and says nothing of how the
/// crate computes it.
#[verifier::external_body]
pub(crate) fn is_match(pattern: &str, hay: &str) -> (b: bool)
    ensures
        b == regex_is_match(pattern@, hay@),
{
    match regex::Regex::new(pattern) {
        Ok(re) => re.is_match(hay),
        Err(_) => false,
    }
}

/// `regex::Regex::find`, the matched text. The contract names the result; it adds what the
/// crate documents of `find` against `is_match`: a match is found exactly when there is one,
/// and its text is a piece of `hay`.
#[verifier::external_body]
pub(crate) fn find(pattern: &str, hay: &str) -> (r: Option<String>)
    ensures
        r matches Some(m) ==> regex_find(pattern@, hay@) == Some(m@),
        r is None ==> regex_find(pattern@, hay@) is None,
        r is Some <==> regex_is_match(pattern@, hay@),
{
    match regex::Regex::new(pattern) {
        Ok(re) => match re.find(hay) {
            Some(m) => Some(m.as_str().to_string()),
            None => None,
        },
        Err(_) => None,
    }
}

/// `regex::Regex::replace`, the first match only. The contract names the result; the crate
/// documents that a haystack without a match comes back unchanged.
#[verifier::external_body]
pub(crate) fn replace_first(pattern: &str, hay: &str, rep: &str) -> (r: String)
    ensures
        r@ == regex_replace_first(pattern@, hay@, rep@),
        !regex_is_match(pattern@, hay@) ==> r@ == hay@,
{
    match regex::Regex::new(pattern) {
        Ok(re) => re.replace(hay, regex::NoExpand(rep)).into_owned(),
        Err(_) => hay.to_string(),
    }
}

/// `regex::Regex::replace_all`, the replacement taken literally. The contract names the result;
/// the crate documents that a haystack without a match comes back unchanged.
#[verifier::external_body]
pub(crate) fn replace_all(pattern: &str, hay: &str, rep: &str) -> (r: String)
    ensures
        r@ == regex_replace_all(pattern@, hay@, rep@),
        !regex_is_match(pattern@, hay@) ==> r@ == hay@,
{
    match regex::Regex::new(pattern) {
        Ok(re) => re.replace_all(hay, regex::NoExpand(rep)).into_owned(),
        Err(_) => hay.to_string(),
    }
}

/// `regex::Regex::find_iter`, the text of each match. The contract names the result; the crate
/// documents that there is a match exactly when `is_match` says so.
#[verifier::external_body]
pub(crate) fn find_all(pattern: &str, hay: &str) -> (r: Vec<String>)
    ensures
        r@.len() == regex_find_all(pattern@, hay@).len(),
        forall|k: int| 0 <= k < r@.len() ==> (#[trigger] r@[k])@ == regex_find_all(pattern@, hay@)[k],
        r@.len() > 0 <==> regex_is_match(pattern@, hay@),
{
    match regex::Regex::new(pattern) {
        Ok(re) => re.find_iter(hay).map(|m| m.as_str().to_string()).collect(),
        Err(_) => Vec::new(),
    }
}

/// `needle` occurs in `hay` as a run of consecutive characters.
pub open spec fn has_infix(hay: Seq<char>, needle: Seq<char>) -> bool {
    exists|i: int| 0 <= i && i + needle.len() <= hay.len() && #[trigger] hay.subrange(i, i + needle.len()) == needle
}

/// Whether `needle` occurs in `hay`: `str::contains` with a string pattern.
pub fn contains_text(hay: &str, needle: &str) -> (b: bool)
    ensures
        b == has_infix(hay@, needle@),
{
    let h = chars_of(hay);
    let n = chars_of(needle);
    if n.len() > h.len() {
        return false;
    }
    let mut i: usize = 0;
    while i <= h.len() - n.len()
        invariant
            h@ == hay@,
            n@ == needle@,
            n@.len() <= h@.len(),
            i <= h@.len() - n@.len() + 1,
            forall|k: int| 0 <= k < i ==> #[trigger] h@.subrange(k, k + n@.len()) != n@,
        decreases h@.len() - i,
    {
        let mut j: usize = 0;
        while j < n.len() && h[i + j] == n[j]
            invariant
                i + n@.len() <= h@.len(),
                h@.len() == h.len(),
                n@.len() == n.len(),
                j <= n@.len(),
                forall|l: int| 0 <= l < j ==> h@[i + l] == n@[l],
            decreases n@.len() - j,
        {
            j = j + 1;
        }
        if j == n.len() {
            assert(h@.subrange(i as int, i + n@.len()) =~= n@);
            return true;
        }
        assert(h@.subrange(i as int, i + n@.len())[j as int] != n@[j as int]);
        i = i + 1;
    }
    proof {
        assert forall|k: int| 0 <= k && k + n@.len() <= h@.len() implies #[trigger] h@.subrange(k, k + n@.len()) != n@ by {
            assert(k < i);
        }
    }
    false
}

} // verus!
