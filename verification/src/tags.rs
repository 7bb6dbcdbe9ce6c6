//! Tags: words or phrases a server listens for, and the responses the bot gives to them.
use vstd::prelude::*;

use crate::patterns::{
    contains_text, has_infix, is_match, not_alphanumeric_pattern, not_alphanumeric_pattern_spec,
    regex_is_match, role_mention_pattern, role_mention_pattern_spec, user_mention_pattern,
    user_mention_pattern_spec,
};
use crate::text::{lowercase, split_words, texts, to_lowercase, trim_whitespace, trim_ws, words_of};

verus! {

/// A tag of a server: when a message holds `listener`, the bot answers `response`.
pub struct Tag {
    pub id: i32,
    pub listener: String,
    pub response: String,
    pub creator_name: String,
    pub creator_id: i64,
    pub server_id: i64,
}

/// A user the bot does not answer when they trip off a tag.
pub struct TagBlacklistedUser {
    pub user_id: i64,
}

/// The channel of a server where the bot posts its answers to tags.
pub struct TagChannel {
    pub server_id: i64,
    pub channel_id: i64,
}

/// Key under which the bot keeps the tag answer channels in its shared state.
pub struct TagResponseChannelIds;

/// Why a tag could not be stored.
#[derive(Debug, Clone, Copy, PartialEq, Eq, Structural)]
pub enum CreateTagError {
    TagWithSameListenerExists,
}

impl CreateTagError {
    /// The error's description.
    pub fn message(&self) -> (s: String)
        ensures
            s@ == "There already exists a tag with the same listener"@,
    {
        "There already exists a tag with the same listener".to_string()
    }
}

// ---------------------------------------------------------------------------------------------
// Finding the tag a message trips off

/// The words of the phrase `lw` stand in the message from word `i` on, one after another.
pub open spec fn phrase_at(words: Seq<Seq<char>>, lw: Seq<Seq<char>>, i: int) -> bool {
    &&& 0 <= i
    &&& i + lw.len() <= words.len()
    &&& forall|k: int| 0 <= k < lw.len() ==> #[trigger] words[i + k] == lw[k]
}

/// The message holds the phrase `lw`: its words stand one after another somewhere in it.
pub open spec fn phrase_found(words: Seq<Seq<char>>, lw: Seq<Seq<char>>) -> bool {
    exists|i: int| #[trigger] phrase_at(words, lw, i)
}

/// A message holds a phrase exactly when the whole phrase, every word of it in order, is a run
/// of consecutive words of the message.
pub proof fn law_phrase_found_is_a_run(words: Seq<Seq<char>>, lw: Seq<Seq<char>>)
    ensures
        phrase_found(words, lw) <==> exists|i: int| 0 <= i && i + lw.len() <= words.len() && #[trigger] words.subrange(i, i + lw.len()) == lw,
{
    if phrase_found(words, lw) {
        let i = choose|i: int| #[trigger] phrase_at(words, lw, i);
        assert(words.subrange(i, i + lw.len()) =~= lw) by {
            assert forall|k: int| 0 <= k < lw.len() implies words.subrange(i, i + lw.len())[k] == lw[k] by {
                assert(words[i + k] == lw[k]);
            }
        }
    }
    if exists|i: int| 0 <= i && i + lw.len() <= words.len() && #[trigger] words.subrange(i, i + lw.len()) == lw {
        let i = choose|i: int| 0 <= i && i + lw.len() <= words.len() && #[trigger] words.subrange(i, i + lw.len()) == lw;
        assert forall|k: int| 0 <= k < lw.len() implies #[trigger] words[i + k] == lw[k] by {
            assert(words.subrange(i, i + lw.len())[k] == words[i + k]);
        }
        assert(phrase_at(words, lw, i));
    }
}

/// A tag of several words whose phrase the message holds.
pub open spec fn phrase_hit(t: Tag, words: Seq<Seq<char>>) -> bool {
    words_of(t.listener@).len() > 1 && phrase_found(words, words_of(t.listener@))
}

/// A tag of a single word that is one of the message's words.
pub open spec fn word_hit(t: Tag, words: Seq<Seq<char>>) -> bool {
    words.contains(t.listener@) && words_of(t.listener@).len() < 2
}

/// The response of the first tag from index `i` on that `phrase_hit`s.
pub open spec fn first_phrase_from(tags: Seq<Tag>, words: Seq<Seq<char>>, i: int) -> Option<Seq<char>>
    decreases tags.len() - i,
{
    if i < 0 || i >= tags.len() {
        None
    } else if phrase_hit(tags[i], words) {
        Some(tags[i].response@)
    } else {
        first_phrase_from(tags, words, i + 1)
    }
}

/// The response of the first tag from index `i` on that `word_hit`s.
pub open spec fn first_word_from(tags: Seq<Tag>, words: Seq<Seq<char>>, i: int) -> Option<Seq<char>>
    decreases tags.len() - i,
{
    if i < 0 || i >= tags.len() {
        None
    } else if word_hit(tags[i], words) {
        Some(tags[i].response@)
    } else {
        first_word_from(tags, words, i + 1)
    }
}

/// The bot's answer to a message with `words` in a server with `tags`: none for a
/// blacklisted author; else the first phrase tag found, else the first single word tag found.
pub open spec fn tag_reply(tags: Seq<Tag>, words: Seq<Seq<char>>, blacklisted: bool) -> Option<Seq<char>> {
    if blacklisted {
        None
    } else {
        match first_phrase_from(tags, words, 0) {
            Some(r) => Some(r),
            None => first_word_from(tags, words, 0),
        }
    }
}

/// The listener of `t` occurs in a message with words `words`: a listener of several words as a
/// run of consecutive words, a listener of one word as one of the words.
pub open spec fn listener_occurs(t: Tag, words: Seq<Seq<char>>) -> bool {
    let lw = words_of(t.listener@);
    ||| lw.len() > 1 && exists|i: int| 0 <= i && i + lw.len() <= words.len() && #[trigger] words.subrange(i, i + lw.len()) == lw
    ||| lw.len() < 2 && words.contains(t.listener@)
}

proof fn lemma_first_phrase_from(tags: Seq<Tag>, words: Seq<Seq<char>>, i: int)
    requires
        0 <= i <= tags.len(),
    ensures
        first_phrase_from(tags, words, i) matches Some(r) ==> exists|k: int| i <= k < tags.len() && tags[k].response@ == r && #[trigger] phrase_hit(tags[k], words),
        (exists|k: int| i <= k < tags.len() && #[trigger] phrase_hit(tags[k], words)) ==> first_phrase_from(tags, words, i) is Some,
    decreases tags.len() - i,
{
    if i < tags.len() {
        lemma_first_phrase_from(tags, words, i + 1);
        if exists|k: int| i <= k < tags.len() && #[trigger] phrase_hit(tags[k], words) {
            let k = choose|k: int| i <= k < tags.len() && #[trigger] phrase_hit(tags[k], words);
            if k > i {
                assert(exists|k2: int| i + 1 <= k2 < tags.len() && #[trigger] phrase_hit(tags[k2], words));
            }
        }
    }
}

proof fn lemma_first_word_from(tags: Seq<Tag>, words: Seq<Seq<char>>, i: int)
    requires
        0 <= i <= tags.len(),
    ensures
        first_word_from(tags, words, i) matches Some(r) ==> exists|k: int| i <= k < tags.len() && tags[k].response@ == r && #[trigger] word_hit(tags[k], words),
        (exists|k: int| i <= k < tags.len() && #[trigger] word_hit(tags[k], words)) ==> first_word_from(tags, words, i) is Some,
    decreases tags.len() - i,
{
    if i < tags.len() {
        lemma_first_word_from(tags, words, i + 1);
        if exists|k: int| i <= k < tags.len() && #[trigger] word_hit(tags[k], words) {
            let k = choose|k: int| i <= k < tags.len() && #[trigger] word_hit(tags[k], words);
            if k > i {
                assert(exists|k2: int| i + 1 <= k2 < tags.len() && #[trigger] word_hit(tags[k2], words));
            }
        }
    }
}

/// The bot answers a message with a tag's response only when that tag's listener occurs in the
/// message, answers whenever some tag's listener occurs, and never answers an author who asked
/// not to be answered.
pub proof fn law_tag_answer_needs_its_listener(tags: Seq<Tag>, words: Seq<Seq<char>>)
    ensures
        tag_reply(tags, words, true) is None,
        tag_reply(tags, words, false) matches Some(r) ==> exists|k: int| 0 <= k < tags.len() && tags[k].response@ == r && #[trigger] listener_occurs(tags[k], words),
        (exists|k: int| 0 <= k < tags.len() && #[trigger] listener_occurs(tags[k], words)) ==> tag_reply(tags, words, false) is Some,
{
    lemma_first_phrase_from(tags, words, 0);
    lemma_first_word_from(tags, words, 0);
    assert forall|k: int| 0 <= k < tags.len() implies (#[trigger] listener_occurs(tags[k], words)
        <==> (phrase_hit(tags[k], words) || word_hit(tags[k], words))) by {
        law_phrase_found_is_a_run(words, words_of(tags[k].listener@));
    }
    if tag_reply(tags, words, false) is Some {
        let r = tag_reply(tags, words, false)->0;
        match first_phrase_from(tags, words, 0) {
            Some(_) => {
                let k = choose|k: int| 0 <= k < tags.len() && tags[k].response@ == r && #[trigger] phrase_hit(tags[k], words);
                assert(listener_occurs(tags[k], words));
            },
            None => {
                let k = choose|k: int| 0 <= k < tags.len() && tags[k].response@ == r && #[trigger] word_hit(tags[k], words);
                assert(listener_occurs(tags[k], words));
            },
        }
    }
    if exists|k: int| 0 <= k < tags.len() && #[trigger] listener_occurs(tags[k], words) {
        let k = choose|k: int| 0 <= k < tags.len() && #[trigger] listener_occurs(tags[k], words);
        if phrase_hit(tags[k], words) {
            assert(exists|k2: int| 0 <= k2 < tags.len() && #[trigger] phrase_hit(tags[k2], words));
        } else {
            assert(word_hit(tags[k], words));
            assert(exists|k2: int| 0 <= k2 < tags.len() && #[trigger] word_hit(tags[k2], words));
        }
    }
}

/// Whether the phrase `lw` starts at word `i` of `words`.
fn phrase_at_exec(words: &[String], lw: &Vec<String>, i: usize) -> (b: bool)
    requires
        i + lw@.len() <= words@.len(),
    ensures
        b == phrase_at(texts(words@), texts(lw@), i as int),
{
    let ghost ws = texts(words@);
    let ghost ls = texts(lw@);
    let n = words.len();
    let mut k: usize = 0;
    while k < lw.len()
        invariant
            k <= lw@.len(),
            n == words@.len(),
            i + lw@.len() <= words@.len(),
            ws == texts(words@),
            ls == texts(lw@),
            forall|q: int| 0 <= q < k ==> #[trigger] ws[i + q] == ls[q],
        decreases lw@.len() - k,
    {
        assert(ws[i + k] == words@[i + k]@);
        assert(ls[k as int] == lw@[k as int]@);
        if words[i + k] != lw[k] {
            assert(ws[i + k] != ls[k as int]);
            return false;
        }
        k = k + 1;
    }
    true
}

/// Whether the words of the phrase `lw` stand one after another in `words`.
fn phrase_in(words: &[String], lw: &Vec<String>) -> (b: bool)
    requires
        lw@.len() > 1,
    ensures
        b == phrase_found(texts(words@), texts(lw@)),
{
    let ghost ws = texts(words@);
    let ghost ls = texts(lw@);
    if lw.len() > words.len() {
        assert forall|i: int| !#[trigger] phrase_at(ws, ls, i) by {}
        return false;
    }
    let n = words.len();
    let last = n - lw.len();
    let mut i: usize = 0;
    while i <= last
        invariant
            n == words@.len(),
            last + lw@.len() == words@.len(),
            lw@.len() > 1,
            i <= last + 1,
            ws == texts(words@),
            ls == texts(lw@),
            forall|j: int| 0 <= j < i ==> !#[trigger] phrase_at(ws, ls, j),
        decreases last + 1 - i,
    {
        if phrase_at_exec(words, lw, i) {
            assert(phrase_at(ws, ls, i as int));
            return true;
        }
        i = i + 1;
    }
    assert forall|j: int| !#[trigger] phrase_at(ws, ls, j) by {
        if 0 <= j < i {
        }
    }
    false
}

/// Whether `w` is one of `words`.
fn has_word(words: &[String], w: &String) -> (b: bool)
    ensures
        b == texts(words@).contains(w@),
{
    let mut i: usize = 0;
    while i < words.len()
        invariant
            i <= words@.len(),
            forall|k: int| 0 <= k < i ==> #[trigger] texts(words@)[k] != w@,
        decreases words@.len() - i,
    {
        if words[i] == *w {
            assert(texts(words@)[i as int] == w@);
            return true;
        }
        i = i + 1;
    }
    false
}

/// The response to a message whose words are `words_in_message`, given the server's tags and
/// whether the author asked not to be answered.
pub fn check_for_tag_listeners(words_in_message: &[String], tags: &[Tag], is_user_blacklisted: bool) -> (r: Option<String>)
    ensures
        r matches Some(s) ==> tag_reply(tags@, texts(words_in_message@), is_user_blacklisted) == Some(s@),
        r is None ==> tag_reply(tags@, texts(words_in_message@), is_user_blacklisted) is None,
{
    let ghost ws = texts(words_in_message@);
    if is_user_blacklisted {
        return None;
    }
    let mut i: usize = 0;
    while i < tags.len()
        invariant
            i <= tags@.len(),
            ws == texts(words_in_message@),
            !is_user_blacklisted,
            first_phrase_from(tags@, ws, 0) == first_phrase_from(tags@, ws, i as int),
        decreases tags@.len() - i,
    {
        let listener_words = split_words(tags[i].listener.as_str());
        if listener_words.len() > 1 && phrase_in(words_in_message, &listener_words) {
            assert(phrase_hit(tags@[i as int], ws));
            let r = tags[i].response.clone();
            assert(r@ == tags@[i as int].response@);
            assert(first_phrase_from(tags@, ws, i as int) == Some(tags@[i as int].response@));
            assert(tag_reply(tags@, ws, is_user_blacklisted) == Some(r@));
            return Some(r);
        }
        assert(!phrase_hit(tags@[i as int], ws));
        i = i + 1;
    }
    let mut j: usize = 0;
    while j < tags.len()
        invariant
            j <= tags@.len(),
            ws == texts(words_in_message@),
            !is_user_blacklisted,
            first_phrase_from(tags@, ws, 0) is None,
            first_word_from(tags@, ws, 0) == first_word_from(tags@, ws, j as int),
        decreases tags@.len() - j,
    {
        let listener_words = split_words(tags[j].listener.as_str());
        if has_word(words_in_message, &tags[j].listener) && listener_words.len() < 2 {
            assert(word_hit(tags@[j as int], ws));
            let r = tags[j].response.clone();
            assert(r@ == tags@[j as int].response@);
            assert(first_word_from(tags@, ws, j as int) == Some(tags@[j as int].response@));
            assert(tag_reply(tags@, ws, is_user_blacklisted) == Some(r@));
            return Some(r);
        }
        assert(!word_hit(tags@[j as int], ws));
        j = j + 1;
    }
    None
}

// ---------------------------------------------------------------------------------------------
// Creating, removing and listing tags

/// A tag may be stored: neither text mentions a user or a role, the response does not ping
/// everyone, and the listener has only ASCII letters, digits and spaces.
pub open spec fn tag_valid(response: Seq<char>, listener: Seq<char>) -> bool {
    !(regex_is_match(user_mention_pattern_spec(), response)
        || regex_is_match(user_mention_pattern_spec(), listener)
        || regex_is_match(role_mention_pattern_spec(), response)
        || regex_is_match(role_mention_pattern_spec(), listener)
        || has_infix(response, "@everyone"@)
        || has_infix(response, "@here"@)
        || regex_is_match(not_alphanumeric_pattern_spec(), listener))
}

/// Whether a tag with this response and listener may be stored.
pub fn is_tag_valid(response: &str, listener: &str) -> (b: bool)
    ensures
        b == tag_valid(response@, listener@),
{
    let user = user_mention_pattern();
    let role = role_mention_pattern();
    !(is_match(user, response) || is_match(user, listener) || is_match(role, response) || is_match(role, listener)
        || contains_text(response, "@everyone") || contains_text(response, "@here")
        || is_match(not_alphanumeric_pattern(), listener))
}

/// What the bot does with a request to create a tag.
pub enum CreateTagStep {
    /// The request came from outside a server.
    OutsideServer,
    /// The tag is not valid.
    Invalid,
    /// Store a tag with this listener and response.
    Store { listener: String, response: String },
}

/// The step for a request to create a tag: the stored listener is lower-cased and trimmed,
/// the stored response trimmed.
pub fn create_tag_step(in_server: bool, listener: &str, response: &str) -> (s: CreateTagStep)
    ensures
        !in_server ==> s is OutsideServer,
        in_server && !tag_valid(response@, listener@) ==> s is Invalid,
        in_server && tag_valid(response@, listener@) ==> (s matches CreateTagStep::Store { listener: l, response: r }
            && l@ == trim_ws(lowercase(listener@)) && r@ == trim_ws(response@)),
{
    if !in_server {
        return CreateTagStep::OutsideServer;
    }
    if !is_tag_valid(response, listener) {
        return CreateTagStep::Invalid;
    }
    let lower = to_lowercase(listener);
    CreateTagStep::Store { listener: trim_whitespace(lower.as_str()), response: trim_whitespace(response) }
}

/// The reply to a request to create a tag that was stored, or refused by the store.
pub fn create_tag_reply(requested_listener: &str, outcome: &Result<Tag, CreateTagError>) -> (s: String)
    ensures
        outcome matches Ok(t) ==> s@ == "Created tag "@ + t.listener@,
        outcome is Err ==> s@ == "The tag \""@ + requested_listener@ + "\" already exists"@,
{
    match outcome {
        Ok(t) => "Created tag ".to_string().concat(t.listener.as_str()),
        Err(_) => "The tag \"".to_string().concat(requested_listener).concat("\" already exists"),
    }
}

/// The reply to a request to remove a tag, given the tag found under the listener, if any.
pub fn remove_tag_reply(requested_listener: &str, found: Option<&Tag>) -> (s: String)
    ensures
        found matches Some(t) ==> s@ == "Removed the tag "@ + t.listener@,
        found is None ==> s@ == "Couldn't find the tag "@ + requested_listener@,
{
    match found {
        Some(t) => "Removed the tag ".to_string().concat(t.listener.as_str()),
        None => "Couldn't find the tag ".to_string().concat(requested_listener),
    }
}

/// Each listener followed by `", "`, one after the other.
pub open spec fn listed(ls: Seq<Seq<char>>) -> Seq<char>
    decreases ls.len(),
{
    if ls.len() == 0 {
        Seq::empty()
    } else {
        listed(ls.drop_last()) + ls.last() + ", "@
    }
}

/// The listeners of the tags.
pub open spec fn listeners(tags: Seq<Tag>) -> Seq<Seq<char>> {
    tags.map_values(|t: Tag| t.listener@)
}

/// The list of a server's tags: the listeners separated by `", "`, or a note that there are none.
pub open spec fn tag_list_text(tags: Seq<Tag>) -> Seq<char> {
    let s = listed(listeners(tags));
    let t = if s.len() >= 2 { s.take(s.len() - 2) } else { Seq::empty() };
    if t.len() == 0 {
        "There are no tags in this server"@
    } else {
        t
    }
}

/// The list of a server's tags, as the bot posts it.
pub fn list_tags_message(tags: &[Tag]) -> (s: String)
    ensures
        s@ == tag_list_text(tags@),
{
    let mut message = String::new();
    let mut i: usize = 0;
    while i < tags.len()
        invariant
            i <= tags@.len(),
            message@ == listed(listeners(tags@.take(i as int))),
        decreases tags@.len() - i,
    {
        message.append(tags[i].listener.as_str());
        message.append(", ");
        assert(listeners(tags@.take(i + 1)).drop_last() =~= listeners(tags@.take(i as int)));
        i = i + 1;
    }
    assert(tags@.take(i as int) =~= tags@);
    let ghost s = message@;
    let chars = crate::text::chars_of(message.as_str());
    let keep: usize = if chars.len() >= 2 { chars.len() - 2 } else { 0 };
    let mut t = String::new();
    let mut k: usize = 0;
    while k < keep
        invariant
            k <= keep <= chars@.len(),
            chars@ == s,
            t@ == s.take(k as int),
        decreases keep - k,
    {
        crate::text::push_char(&mut t, chars[k]);
        assert(t@ =~= s.take(k + 1));
        k = k + 1;
    }
    if keep == 0 {
        "There are no tags in this server".to_string()
    } else {
        t
    }
}

/// The reply when a user toggles whether the bot pings them for tags; `was_blacklisted` is
/// whether they had asked not to be pinged before.
pub fn tag_ping_toggle_reply(was_blacklisted: bool) -> (s: String)
    ensures
        was_blacklisted ==> s@ == "I will now ping you when you trip off a tag"@,
        !was_blacklisted ==> s@ == "I won't ping you anymore when you trip off a tag"@,
{
    if was_blacklisted {
        "I will now ping you when you trip off a tag".to_string()
    } else {
        "I won't ping you anymore when you trip off a tag".to_string()
    }
}

/// The text of an answer posted in the server's tag channel: the answer alone when the
/// message was sent there, else preceded by a mention of the author.
pub fn tag_channel_text(same_channel: bool, author_mention: &str, response: &str) -> (s: String)
    ensures
        same_channel ==> s@ == response@,
        !same_channel ==> s@ == author_mention@ + " "@ + response@,
{
    if same_channel {
        response.to_string()
    } else {
        author_mention.to_string().concat(" ").concat(response)
    }
}

// ---------------------------------------------------------------------------------------------
// Listeners: tags kept in one list shared by every server

/// A listener and its response as plain texts.
pub open spec fn listener_view(l: (String, String)) -> (Seq<char>, Seq<char>) {
    (l.0@, l.1@)
}

/// A listener a message trips off: one of several words whose phrase the message holds, or a
/// single word among the message's words.
pub open spec fn listener_hit(l: (Seq<char>, Seq<char>), words: Seq<Seq<char>>) -> bool {
    if words_of(l.0).len() > 1 {
        phrase_found(words, words_of(l.0))
    } else {
        words.contains(l.0)
    }
}

/// The response of the first listener from index `i` on that a message trips off.
pub open spec fn first_listener_from(ls: Seq<(String, String)>, words: Seq<Seq<char>>, i: int) -> Option<Seq<char>>
    decreases ls.len() - i,
{
    if i < 0 || i >= ls.len() {
        None
    } else if listener_hit(listener_view(ls[i]), words) {
        Some(ls[i].1@)
    } else {
        first_listener_from(ls, words, i + 1)
    }
}

/// The response to a message with words `words_in_message`: that of the first listener, in
/// the order given, that it trips off; none for a user who asked not to be answered.
pub fn check_for_listened_words(words_in_message: &[String], listeners: &[(String, String)], is_user_blacklisted: bool) -> (r: Option<String>)
    ensures
        is_user_blacklisted ==> r is None,
        !is_user_blacklisted ==> (r matches Some(s) ==> first_listener_from(listeners@, texts(words_in_message@), 0) == Some(s@)),
        !is_user_blacklisted ==> (r is None ==> first_listener_from(listeners@, texts(words_in_message@), 0) is None),
{
    let ghost ws = texts(words_in_message@);
    if is_user_blacklisted {
        return None;
    }
    let mut i: usize = 0;
    while i < listeners.len()
        invariant
            i <= listeners@.len(),
            !is_user_blacklisted,
            ws == texts(words_in_message@),
            first_listener_from(listeners@, ws, 0) == first_listener_from(listeners@, ws, i as int),
        decreases listeners@.len() - i,
    {
        let lw = split_words(listeners[i].0.as_str());
        let hit = if lw.len() > 1 {
            phrase_in(words_in_message, &lw)
        } else {
            has_word(words_in_message, &listeners[i].0)
        };
        assert(listener_view(listeners@[i as int]).0 == listeners@[i as int].0@);
        if hit {
            let r = listeners[i].1.clone();
            assert(first_listener_from(listeners@, ws, i as int) == Some(listeners@[i as int].1@));
            return Some(r);
        }
        i = i + 1;
    }
    None
}

/// What storing a listener gives: the refusal of one with a mention, or the listener
/// (lower-cased, then trimmed) and the response (trimmed) to store.
pub fn set_listener(listener: &str, response: &str) -> (r: Result<(String, String), String>)
    ensures
        ({
            let mention = regex_is_match(user_mention_pattern_spec(), response@)
                || regex_is_match(user_mention_pattern_spec(), listener@)
                || regex_is_match(role_mention_pattern_spec(), response@)
                || regex_is_match(role_mention_pattern_spec(), listener@)
                || has_infix(response@, "@everyone"@)
                || has_infix(response@, "@here"@);
            &&& mention ==> (r matches Err(e) && e@ == "can't add a mention"@)
            &&& !mention ==> (r matches Ok(p) && p.0@ == trim_ws(lowercase(listener@)) && p.1@ == trim_ws(response@))
        }),
{
    let user = user_mention_pattern();
    let role = role_mention_pattern();
    if is_match(user, response) || is_match(user, listener) || is_match(role, response) || is_match(role, listener)
        || contains_text(response, "@everyone") || contains_text(response, "@here") {
        return Err("can't add a mention".to_string());
    }
    let lower = to_lowercase(listener);
    Ok((trim_whitespace(lower.as_str()), trim_whitespace(response)))
}

/// The listeners, each followed by `", "`, without the last two characters.
pub fn list_listeners_message(listeners: &[String]) -> (s: String)
    ensures
        ({
            let all = listed(texts(listeners@));
            s@ == (if all.len() >= 2 { all.take(all.len() - 2) } else { Seq::<char>::empty() })
        }),
{
    let mut message = String::new();
    let mut i: usize = 0;
    while i < listeners.len()
        invariant
            i <= listeners@.len(),
            message@ == listed(texts(listeners@.take(i as int))),
        decreases listeners@.len() - i,
    {
        message.append(listeners[i].as_str());
        message.append(", ");
        assert(texts(listeners@.take(i + 1)).drop_last() =~= texts(listeners@.take(i as int)));
        i = i + 1;
    }
    assert(listeners@.take(i as int) =~= listeners@);
    let ghost all = message@;
    let chars = crate::text::chars_of(message.as_str());
    let keep: usize = if chars.len() >= 2 { chars.len() - 2 } else { 0 };
    let mut t = String::new();
    let mut k: usize = 0;
    while k < keep
        invariant
            k <= keep <= chars@.len(),
            chars@ == all,
            t@ == all.take(k as int),
        decreases keep - k,
    {
        crate::text::push_char(&mut t, chars[k]);
        assert(t@ =~= all.take(k + 1));
        k = k + 1;
    }
    if keep == 0 {
        assert(t@ =~= Seq::<char>::empty());
    }
    t
}

/// The reply to removing a listener, given whether it existed.
pub fn remove_listener_reply(existed: bool) -> (s: String)
    ensures
        existed ==> s@ == "Successfully removed the tag"@,
        !existed ==> s@ == "That tag doesn't exist"@,
{
    if existed {
        "Successfully removed the tag".to_string()
    } else {
        "That tag doesn't exist".to_string()
    }
}

/// The reply when a user toggles whether the listeners answer them, given whether they were
/// blacklisted before.
pub fn listener_blacklist_reply(was_blacklisted: bool) -> (s: String)
    ensures
        was_blacklisted ==> s@ == "Removed user from the blacklist"@,
        !was_blacklisted ==> s@ == "Added user to the blacklist"@,
{
    if was_blacklisted {
        "Removed user from the blacklist".to_string()
    } else {
        "Added user to the blacklist".to_string()
    }
}

} // verus!
