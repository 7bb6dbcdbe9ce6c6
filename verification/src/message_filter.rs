//! Cleaning a message before it is saved for the chain: links, user and role mentions, emotes,
//! punctuation, line feeds and runs of spaces go, and upper-case letters are lower-cased, over
//! and over until nothing changes.
use vstd::prelude::*;

use crate::numbers::{is_digit, parse_u64, parse_u64_spec};
use crate::patterns::{
    animated_emote_pattern, animated_emote_pattern_spec, bare_user_id_pattern, bare_user_id_pattern_spec,
    uppercase_pattern, uppercase_pattern_spec, double_space_pattern, double_space_pattern_spec,
    emote_pattern, emote_pattern_spec, find, find_all, is_match, line_feed_pattern, line_feed_pattern_spec,
    link_pattern, link_pattern_spec, punctuation_pattern, punctuation_pattern_spec, regex_find,
    regex_find_all, regex_is_match, regex_replace_all, regex_replace_first, replace_all, replace_first,
    role_mention_pattern, role_mention_pattern_spec, user_mention_pattern, user_mention_pattern_spec,
};
use crate::text::{chars_of, lowercase, push_char, split_words, texts, to_lowercase, trim_whitespace, trim_ws, words_of};

verus! {

/// The least number of words of a saved message.
pub const MIN_NUM_OF_WORDS: usize = 5;

/// The replacements a cleaning may make for a text of `n` characters. A replacement removes
/// characters, turns a symbol or a line feed into a space, or lowers a letter, so cleaning a
/// text of `n` characters makes at most `4 n` of them before nothing changes; only mentions
/// replaced by names can add characters.
pub open spec fn cleaning_fuel(n: nat) -> nat {
    if 4 * n + 8 <= u64::MAX { 4 * n + 8 } else { u64::MAX as nat }
}

fn fuel_for(n: usize) -> (f: u64)
    ensures
        f == cleaning_fuel(n as nat),
{
    if (n as u64) <= (u64::MAX - 8) / 4 {
        4 * (n as u64) + 8
    } else {
        u64::MAX
    }
}

/// The patterns replaced by a space, in the order they are applied.
pub open spec fn blank_patterns() -> Seq<Seq<char>> {
    seq![
        emote_pattern_spec(),
        animated_emote_pattern_spec(),
        punctuation_pattern_spec(),
        bare_user_id_pattern_spec(),
        line_feed_pattern_spec(),
        double_space_pattern_spec(),
        role_mention_pattern_spec(),
    ]
}

/// Replacing every match of `p` by a space while `p` matches, one unit of fuel a time.
pub open spec fn blank_out(p: Seq<char>, s: Seq<char>, fuel: nat) -> (Seq<char>, nat)
    decreases fuel,
{
    if fuel == 0 || !regex_is_match(p, s) {
        (s, fuel)
    } else {
        blank_out(p, regex_replace_all(p, s, " "@), (fuel - 1) as nat)
    }
}

/// `blank_out` with each pattern from the `i`-th on, in order.
pub open spec fn blank_from(s: Seq<char>, fuel: nat, i: nat) -> (Seq<char>, nat)
    decreases blank_patterns().len() - i,
{
    if i >= blank_patterns().len() {
        (s, fuel)
    } else {
        let (t, f) = blank_out(blank_patterns()[i as int], s, fuel);
        blank_from(t, f, i + 1)
    }
}

/// Lower-casing the first run of upper-case letters while there is one, one unit of fuel a time.
pub open spec fn lower_words(s: Seq<char>, fuel: nat) -> (Seq<char>, nat)
    decreases fuel,
{
    if fuel == 0 || !regex_is_match(uppercase_pattern_spec(), s) {
        (s, fuel)
    } else {
        let m = regex_find(uppercase_pattern_spec(), s)->0;
        lower_words(regex_replace_first(uppercase_pattern_spec(), s, lowercase(m)), (fuel - 1) as nat)
    }
}

/// One round of cleaning a text: the blanking patterns, then the upper-case letters.
pub open spec fn string_round(s: Seq<char>, fuel: nat) -> (Seq<char>, nat) {
    let (a, f) = blank_from(s, fuel, 0);
    lower_words(a, f)
}

/// Rounds until a round changes nothing (or the fuel runs out).
pub open spec fn string_rounds(s: Seq<char>, fuel: nat) -> Seq<char>
    decreases fuel,
{
    let (t, f) = string_round(s, fuel);
    if f >= fuel {
        t
    } else {
        string_rounds(t, f)
    }
}

/// The fuel left when `string_rounds` stops.
pub open spec fn string_rounds_left(s: Seq<char>, fuel: nat) -> nat
    decreases fuel,
{
    let (t, f) = string_round(s, fuel);
    if f >= fuel {
        f
    } else {
        string_rounds_left(t, f)
    }
}

/// None of the patterns a round replaces matches `s`.
pub open spec fn fully_cleaned(s: Seq<char>) -> bool {
    &&& forall|i: int| 0 <= i < blank_patterns().len() ==> !regex_is_match(#[trigger] blank_patterns()[i], s)
    &&& !regex_is_match(uppercase_pattern_spec(), s)
}

proof fn lemma_blank_out_fuel(p: Seq<char>, s: Seq<char>, fuel: nat)
    ensures
        blank_out(p, s, fuel).1 <= fuel,
        blank_out(p, s, fuel).1 == fuel ==> blank_out(p, s, fuel).0 == s && (fuel == 0 || !regex_is_match(p, s)),
    decreases fuel,
{
    if fuel > 0 && regex_is_match(p, s) {
        lemma_blank_out_fuel(p, regex_replace_all(p, s, " "@), (fuel - 1) as nat);
    }
}

proof fn lemma_blank_from_fuel(s: Seq<char>, fuel: nat, i: nat)
    ensures
        blank_from(s, fuel, i).1 <= fuel,
        blank_from(s, fuel, i).1 == fuel ==> blank_from(s, fuel, i).0 == s && (fuel == 0
            || forall|j: int| i <= j < blank_patterns().len() ==> !regex_is_match(#[trigger] blank_patterns()[j], s)),
    decreases blank_patterns().len() - i,
{
    if i < blank_patterns().len() {
        let (t, f) = blank_out(blank_patterns()[i as int], s, fuel);
        lemma_blank_out_fuel(blank_patterns()[i as int], s, fuel);
        lemma_blank_from_fuel(t, f, i + 1);
    }
}

proof fn lemma_lower_words_fuel(s: Seq<char>, fuel: nat)
    ensures
        lower_words(s, fuel).1 <= fuel,
        lower_words(s, fuel).1 == fuel ==> lower_words(s, fuel).0 == s && (fuel == 0 || !regex_is_match(uppercase_pattern_spec(), s)),
    decreases fuel,
{
    if fuel > 0 && regex_is_match(uppercase_pattern_spec(), s) {
        let m = regex_find(uppercase_pattern_spec(), s)->0;
        lemma_lower_words_fuel(regex_replace_first(uppercase_pattern_spec(), s, lowercase(m)), (fuel - 1) as nat);
    }
}

proof fn lemma_string_round_fuel(s: Seq<char>, fuel: nat)
    ensures
        string_round(s, fuel).1 <= fuel,
        string_round(s, fuel).1 == fuel ==> string_round(s, fuel).0 == s && (fuel == 0 || fully_cleaned(s)),
{
    let (a, f) = blank_from(s, fuel, 0);
    lemma_blank_from_fuel(s, fuel, 0);
    lemma_lower_words_fuel(a, f);
}

/// Cleaning stops at a text none of its patterns matches, unless its budget of replacements
/// ran out first.
pub proof fn law_cleaning_stops_clean(s: Seq<char>, fuel: nat)
    ensures
        string_rounds_left(s, fuel) == 0 || fully_cleaned(string_rounds(s, fuel)),
    decreases fuel,
{
    let (t, f) = string_round(s, fuel);
    lemma_string_round_fuel(s, fuel);
    if f < fuel {
        law_cleaning_stops_clean(t, f);
    }
}

/// `s` without the spaces at its end.
pub open spec fn strip_trailing_spaces(s: Seq<char>) -> Seq<char>
    decreases s.len(),
{
    if s.len() > 0 && s.last() == ' ' {
        strip_trailing_spaces(s.drop_last())
    } else {
        s
    }
}

/// A text without its links and then without the spaces at its end.
pub open spec fn without_links(s: Seq<char>) -> Seq<char> {
    strip_trailing_spaces(regex_replace_all(link_pattern_spec(), s, ""@))
}

/// A text cleaned for the saved messages, trimmed.
pub open spec fn cleaned_text(msg: Seq<char>) -> Seq<char> {
    let start = without_links(msg);
    trim_ws(string_rounds(start, cleaning_fuel(start.len())))
}

/// Removes the links of a text, then the spaces at its end.
pub fn remove_links(content: &str) -> (s: String)
    ensures
        s@ == without_links(content@),
{
    let replaced = replace_all(link_pattern(), content, "");
    let c = chars_of(replaced.as_str());
    let mut end: usize = c.len();
    assert(c@.take(end as int) =~= c@);
    while end > 0 && c[end - 1] == ' '
        invariant
            end <= c@.len(),
            strip_trailing_spaces(c@) == strip_trailing_spaces(c@.take(end as int)),
        decreases end,
    {
        assert(c@.take(end as int).drop_last() =~= c@.take(end - 1));
        end = end - 1;
    }
    let mut s = String::new();
    let mut i: usize = 0;
    while i < end
        invariant
            i <= end <= c@.len(),
            s@ == c@.take(i as int),
        decreases end - i,
    {
        push_char(&mut s, c[i]);
        assert(s@ =~= c@.take(i + 1));
        i = i + 1;
    }
    s
}

fn blank_out_exec(p: &str, s: String, fuel: u64) -> (r: (String, u64))
    ensures
        (r.0@, r.1 as nat) == blank_out(p@, s@, fuel as nat),
{
    let mut cur = s;
    let mut f = fuel;
    while f > 0 && is_match(p, cur.as_str())
        invariant
            blank_out(p@, s@, fuel as nat) == blank_out(p@, cur@, f as nat),
        decreases f,
    {
        cur = replace_all(p, cur.as_str(), " ");
        f = f - 1;
    }
    (cur, f)
}

fn blank_all_exec(s: String, fuel: u64) -> (r: (String, u64))
    ensures
        (r.0@, r.1 as nat) == blank_from(s@, fuel as nat, 0),
{
    let patterns: Vec<&str> = vec![
        emote_pattern(),
        animated_emote_pattern(),
        punctuation_pattern(),
        bare_user_id_pattern(),
        line_feed_pattern(),
        double_space_pattern(),
        role_mention_pattern(),
    ];
    let mut cur = s;
    let mut f = fuel;
    let mut i: usize = 0;
    while i < patterns.len()
        invariant
            i <= patterns@.len(),
            patterns@.len() == blank_patterns().len(),
            forall|k: int| 0 <= k < patterns@.len() ==> #[trigger] patterns@[k]@ == blank_patterns()[k],
            blank_from(s@, fuel as nat, 0) == blank_from(cur@, f as nat, i as nat),
        decreases patterns@.len() - i,
    {
        let (t, g) = blank_out_exec(patterns[i], cur, f);
        cur = t;
        f = g;
        i = i + 1;
    }
    (cur, f)
}

fn lower_words_exec(s: String, fuel: u64) -> (r: (String, u64))
    ensures
        (r.0@, r.1 as nat) == lower_words(s@, fuel as nat),
{
    let p = uppercase_pattern();
    let mut cur = s;
    let mut f = fuel;
    while f > 0 && is_match(p, cur.as_str())
        invariant
            p@ == uppercase_pattern_spec(),
            lower_words(s@, fuel as nat) == lower_words(cur@, f as nat),
        decreases f,
    {
        let m = match find(p, cur.as_str()) {
            Some(m) => m,
            None => String::new(),
        };
        let low = to_lowercase(m.as_str());
        cur = replace_first(p, cur.as_str(), low.as_str());
        f = f - 1;
    }
    (cur, f)
}

/// A text cleaned for the saved messages: without links, emotes, role mentions, punctuation,
/// line feeds or runs of spaces, upper-case letters lower-cased, and trimmed.
pub fn filter_string_for_markov_file(msg: &str) -> (r: String)
    ensures
        r@ == cleaned_text(msg@),
{
    let start = remove_links(msg);
    let n = chars_of(start.as_str()).len();
    let fuel0 = fuel_for(n);
    let ghost s0 = start@;
    let mut cur = start;
    let mut fuel = fuel0;
    loop
        invariant_except_break
            string_rounds(s0, fuel0 as nat) == string_rounds(cur@, fuel as nat),
        ensures
            string_rounds(s0, fuel0 as nat) == cur@,
        decreases fuel,
    {
        let (a, f1) = blank_all_exec(cur, fuel);
        let (t, f2) = lower_words_exec(a, f1);
        if f2 >= fuel {
            cur = t;
            break;
        }
        cur = t;
        fuel = f2;
    }
    trim_whitespace(cur.as_str())
}

// ---------------------------------------------------------------------------------------------
// Messages, whose user mentions are replaced by names

/// A user a message mentions.
pub struct Mention {
    pub id: u64,
    pub name: String,
}

/// The ASCII digits of a text, in order.
pub open spec fn digits_in(s: Seq<char>) -> Seq<char>
    decreases s.len(),
{
    if s.len() == 0 {
        Seq::empty()
    } else if is_digit(s.last()) {
        digits_in(s.drop_last()).push(s.last())
    } else {
        digits_in(s.drop_last())
    }
}

/// The user id a mention writes: its digits read as a `u64`.
pub open spec fn mention_id(m: Seq<char>) -> Option<u64> {
    parse_u64_spec(digits_in(m))
}

/// The message mentions the user with this id.
pub open spec fn mentions_user(ms: Seq<Mention>, id: u64) -> bool {
    exists|k: int| 0 <= k < ms.len() && #[trigger] ms[k].id == id
}

/// The name of the first mentioned user with this id, or the empty name.
pub open spec fn name_of(ms: Seq<Mention>, id: u64) -> Seq<char>
    decreases ms.len(),
{
    if ms.len() == 0 {
        Seq::empty()
    } else if ms[0].id == id {
        ms[0].name@
    } else {
        name_of(ms.drop_first(), id)
    }
}

/// Every mention found writes the id of a user the message mentions, so each can be replaced
/// by a name.
pub open spec fn all_replaceable(found: Seq<Seq<char>>, ms: Seq<Mention>) -> bool {
    forall|k: int| 0 <= k < found.len() ==> (#[trigger] mention_id(found[k])) is Some
        && mentions_user(ms, mention_id(found[k])->0)
}

/// Replacing the user mentions one at a time by their names between spaces; `None` when a
/// mention's user cannot be found among the users the message mentions, or its digits do not
/// make a user id (the message is then not saved).
pub open spec fn user_pass(s: Seq<char>, fuel: nat, ms: Seq<Mention>) -> Option<(Seq<char>, nat)>
    decreases fuel,
{
    if fuel == 0 || !regex_is_match(user_mention_pattern_spec(), s) {
        Some((s, fuel))
    } else {
        let found = regex_find_all(user_mention_pattern_spec(), s);
        let first = regex_find(user_mention_pattern_spec(), s)->0;
        if !all_replaceable(found, ms) {
            None
        } else if mention_id(first) is None {
            None
        } else {
            user_pass(
                regex_replace_first(user_mention_pattern_spec(), s, " "@ + name_of(ms, mention_id(first)->0) + " "@),
                (fuel - 1) as nat,
                ms,
            )
        }
    }
}

/// One round of cleaning a message: its user mentions, then as a text.
pub open spec fn message_round(s: Seq<char>, fuel: nat, ms: Seq<Mention>) -> Option<(Seq<char>, nat)> {
    match user_pass(s, fuel, ms) {
        None => None,
        Some((a, f)) => Some(string_round(a, f)),
    }
}

/// Rounds until a round changes nothing (or the fuel runs out).
pub open spec fn message_rounds(s: Seq<char>, fuel: nat, ms: Seq<Mention>) -> Option<Seq<char>>
    decreases fuel,
{
    match message_round(s, fuel, ms) {
        None => None,
        Some((t, f)) => if f >= fuel { Some(t) } else { message_rounds(t, f, ms) },
    }
}

/// The fuel left when `message_rounds` stops (`None` when the message is not saved).
pub open spec fn message_rounds_left(s: Seq<char>, fuel: nat, ms: Seq<Mention>) -> Option<nat>
    decreases fuel,
{
    match message_round(s, fuel, ms) {
        None => None,
        Some((t, f)) => if f >= fuel { Some(f) } else { message_rounds_left(t, f, ms) },
    }
}

proof fn lemma_user_pass_fuel(s: Seq<char>, fuel: nat, ms: Seq<Mention>)
    ensures
        user_pass(s, fuel, ms) matches Some(p) ==> p.1 <= fuel
            && (p.1 == fuel ==> p.0 == s && (fuel == 0 || !regex_is_match(user_mention_pattern_spec(), s))),
    decreases fuel,
{
    if fuel > 0 && regex_is_match(user_mention_pattern_spec(), s) {
        let first = regex_find(user_mention_pattern_spec(), s)->0;
        if all_replaceable(regex_find_all(user_mention_pattern_spec(), s), ms) && mention_id(first) is Some {
            lemma_user_pass_fuel(
                regex_replace_first(user_mention_pattern_spec(), s, " "@ + name_of(ms, mention_id(first)->0) + " "@),
                (fuel - 1) as nat,
                ms,
            );
        }
    }
}

/// Cleaning a message stops at a text that has no user mention and none of the patterns of the
/// cleaning matches, unless its budget of replacements ran out first.
pub proof fn law_message_cleaning_stops_clean(s: Seq<char>, fuel: nat, ms: Seq<Mention>)
    ensures
        message_rounds(s, fuel, ms) matches Some(r) ==> message_rounds_left(s, fuel, ms) == Some(0nat)
            || (fully_cleaned(r) && !regex_is_match(user_mention_pattern_spec(), r)),
    decreases fuel,
{
    lemma_user_pass_fuel(s, fuel, ms);
    match user_pass(s, fuel, ms) {
        None => {},
        Some((a, f1)) => {
            lemma_string_round_fuel(a, f1);
            let (t, f) = string_round(a, f1);
            if f < fuel {
                law_message_cleaning_stops_clean(t, f, ms);
            }
        },
    }
}

/// The message as saved, if it is saved: cleaned and trimmed, and only with at least five words.
pub open spec fn filtered_message(content: Seq<char>, ms: Seq<Mention>) -> Option<Seq<char>> {
    let start = without_links(content);
    match message_rounds(start, cleaning_fuel(start.len()), ms) {
        None => None,
        Some(t) => if words_of(trim_ws(t)).len() < 5 { None } else { Some(trim_ws(t)) },
    }
}

fn digits_of(s: &str) -> (d: String)
    ensures
        d@ == digits_in(s@),
{
    let c = chars_of(s);
    let mut d = String::new();
    let mut i: usize = 0;
    assert(c@.take(0) =~= Seq::<char>::empty());
    while i < c.len()
        invariant
            i <= c@.len(),
            c@ == s@,
            d@ == digits_in(c@.take(i as int)),
        decreases c@.len() - i,
    {
        assert(c@.take(i + 1).drop_last() =~= c@.take(i as int));
        assert(c@.take(i + 1).last() == c@[i as int]);
        if '0' <= c[i] && c[i] <= '9' {
            push_char(&mut d, c[i]);
        }
        i = i + 1;
    }
    assert(c@.take(i as int) =~= c@);
    d
}

fn mention_id_exec(m: &str) -> (r: Option<u64>)
    ensures
        r == mention_id(m@),
{
    let d = digits_of(m);
    parse_u64(d.as_str())
}

fn is_mentioned(ms: &[Mention], id: u64) -> (b: bool)
    ensures
        b == mentions_user(ms@, id),
{
    let mut i: usize = 0;
    while i < ms.len()
        invariant
            i <= ms@.len(),
            forall|k: int| 0 <= k < i ==> ms@[k].id != id,
        decreases ms@.len() - i,
    {
        if ms[i].id == id {
            return true;
        }
        i = i + 1;
    }
    false
}

fn name_for(ms: &[Mention], id: u64) -> (s: String)
    ensures
        s@ == name_of(ms@, id),
{
    let mut i: usize = 0;
    assert(ms@.skip(0) =~= ms@);
    while i < ms.len()
        invariant
            i <= ms@.len(),
            name_of(ms@, id) == name_of(ms@.skip(i as int), id),
        decreases ms@.len() - i,
    {
        assert(ms@.skip(i as int).drop_first() =~= ms@.skip(i + 1));
        assert(ms@.skip(i as int)[0] == ms@[i as int]);
        if ms[i].id == id {
            return ms[i].name.clone();
        }
        i = i + 1;
    }
    assert(ms@.skip(i as int) =~= Seq::<Mention>::empty());
    String::new()
}

/// Whether every match's digits make the id of a user the message mentions.
fn mentions_replaceable(found: &Vec<String>, ms: &[Mention]) -> (b: bool)
    ensures
        b == all_replaceable(texts(found@), ms@),
{
    let mut i: usize = 0;
    while i < found.len()
        invariant
            i <= found@.len(),
            forall|k: int| 0 <= k < i ==> (#[trigger] mention_id(found@[k]@)) is Some
                && mentions_user(ms@, mention_id(found@[k]@)->0),
        decreases found@.len() - i,
    {
        assert(texts(found@)[i as int] == found@[i as int]@);
        match mention_id_exec(found[i].as_str()) {
            None => {
                return false;
            },
            Some(id) => {
                if !is_mentioned(ms, id) {
                    return false;
                }
            },
        }
        i = i + 1;
    }
    assert forall|k: int| 0 <= k < texts(found@).len() implies (#[trigger] mention_id(texts(found@)[k])) is Some
        && mentions_user(ms@, mention_id(texts(found@)[k])->0) by {
        assert(texts(found@)[k] == found@[k]@);
    }
    true
}

fn user_pass_exec(s: String, fuel: u64, ms: &[Mention]) -> (r: Option<(String, u64)>)
    ensures
        r matches Some(p) ==> user_pass(s@, fuel as nat, ms@) == Some((p.0@, p.1 as nat)),
        r is None ==> user_pass(s@, fuel as nat, ms@) is None,
{
    let p = user_mention_pattern();
    let mut cur = s;
    let mut f = fuel;
    while f > 0 && is_match(p, cur.as_str())
        invariant
            p@ == user_mention_pattern_spec(),
            user_pass(s@, fuel as nat, ms@) == user_pass(cur@, f as nat, ms@),
        decreases f,
    {
        let found = find_all(p, cur.as_str());
        let ghost fs = regex_find_all(user_mention_pattern_spec(), cur@);
        assert(texts(found@) =~= fs);
        if !mentions_replaceable(&found, ms) {
            return None;
        }
        let first = match find(p, cur.as_str()) {
            Some(m) => m,
            None => String::new(),
        };
        let id = match mention_id_exec(first.as_str()) {
            Some(id) => id,
            None => {
                return None;
            },
        };
        let name = name_for(ms, id);
        let rep = " ".to_string().concat(name.as_str()).concat(" ");
        cur = replace_first(p, cur.as_str(), rep.as_str());
        f = f - 1;
    }
    Some((cur, f))
}

/// A message as saved for the chain, given the users it mentions: cleaned like
/// `filter_string_for_markov_file`, with its user mentions first replaced by names, and only
/// when it has at least five words; `None` when it is not saved.
pub fn filter_message_for_markov_file(content: &str, mentions: &[Mention]) -> (r: Option<String>)
    ensures
        r matches Some(s) ==> filtered_message(content@, mentions@) == Some(s@),
        r is None ==> filtered_message(content@, mentions@) is None,
{
    let start = remove_links(content);
    let n = chars_of(start.as_str()).len();
    let fuel0 = fuel_for(n);
    let ghost s0 = start@;
    let mut cur = start;
    let mut fuel = fuel0;
    loop
        invariant_except_break
            message_rounds(s0, fuel0 as nat, mentions@) == message_rounds(cur@, fuel as nat, mentions@),
        invariant
            s0 == without_links(content@),
            fuel0 == cleaning_fuel(s0.len()),
        ensures
            message_rounds(s0, fuel0 as nat, mentions@) == Some(cur@),
        decreases fuel,
    {
        let (a, f1) = match user_pass_exec(cur, fuel, mentions) {
            Some(p) => p,
            None => {
                return None;
            },
        };
        let (b, f2) = blank_all_exec(a, f1);
        let (t, f3) = lower_words_exec(b, f2);
        if f3 >= fuel {
            cur = t;
            break;
        }
        cur = t;
        fuel = f3;
    }
    let trimmed = trim_whitespace(cur.as_str());
    let words = split_words(trimmed.as_str());
    if words.len() < MIN_NUM_OF_WORDS {
        return None;
    }
    Some(trimmed)
}

} // verus!
