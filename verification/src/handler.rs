//! What the bot does with a message it reads.
use vstd::prelude::*;

use crate::commands::{component_from_text, ComponentIds};
use crate::patterns::{is_match, regex_is_match, user_mention_pattern, user_mention_pattern_spec};
use crate::text::{chars_of, join_strings, join_words, lowercase, push_char, split_words, texts, to_lowercase, words_of};

verus! {

/// The reply to `/help` or to a mention of the bot with the word "help".
pub fn help_message() -> (s: &'static str)
    ensures
        s@ == help_message_text(),
{
    "All of my commands are slash commands.\n/ping: Pong!\n/id: gives you the user id of the selected user\n/stop-saving-my-messages: tell the bot not to store your messages and not to learn from them\n/continue-saving-my-messages: tell the bot to save and learn from your messages\n/tag create: create a tag that the bot will listen for and then respond to when it is said\n/tag remove: remove a tag\n/tag list: list out the current tags\n/tag stop-pinging-me: tell the bot not to ping you if you trip off a tag\n/tag response-channel: for admins only, set the channel where the bot will respond to tags\n/play: play a song from youtube in VC. Accepts both song titles and youtube links\n/skip: skip a song\n/stop: stop the current song and clear the queue\n/playing: check which song is currently playing\n/queue: check which songs are in the queue\n/queue-shuffle: shuffle all the songs in the queue\n/loop: loop the current song\n/swap_songs: swap 2 songs positions in the queue\n/version: check the version of the bot"
}

pub closed spec fn help_message_text() -> Seq<char> {
    "All of my commands are slash commands.\n/ping: Pong!\n/id: gives you the user id of the selected user\n/stop-saving-my-messages: tell the bot not to store your messages and not to learn from them\n/continue-saving-my-messages: tell the bot to save and learn from your messages\n/tag create: create a tag that the bot will listen for and then respond to when it is said\n/tag remove: remove a tag\n/tag list: list out the current tags\n/tag stop-pinging-me: tell the bot not to ping you if you trip off a tag\n/tag response-channel: for admins only, set the channel where the bot will respond to tags\n/play: play a song from youtube in VC. Accepts both song titles and youtube links\n/skip: skip a song\n/stop: stop the current song and clear the queue\n/playing: check which song is currently playing\n/queue: check which songs are in the queue\n/queue-shuffle: shuffle all the songs in the queue\n/loop: loop the current song\n/swap_songs: swap 2 songs positions in the queue\n/version: check the version of the bot"@
}

/// `s` with each line feed turned into a space.
pub open spec fn newlines_to_spaces(s: Seq<char>) -> Seq<char> {
    s.map_values(|c: char| if c == '\n' { ' ' } else { c })
}

/// The words of a message as the bot compares them: lower-cased, line feeds made spaces,
/// cut on single spaces.
pub open spec fn message_words_spec(content: Seq<char>) -> Seq<Seq<char>> {
    words_of(newlines_to_spaces(lowercase(content)))
}

/// The words of a message as the bot compares them.
pub fn message_words(content: &str) -> (w: Vec<String>)
    ensures
        texts(w@) == message_words_spec(content@),
{
    let lower = to_lowercase(content);
    let c = chars_of(lower.as_str());
    let mut s = String::new();
    let mut i: usize = 0;
    while i < c.len()
        invariant
            i <= c@.len(),
            c@ == lowercase(content@),
            s@ == newlines_to_spaces(c@).take(i as int),
        decreases c@.len() - i,
    {
        let x = if c[i] == '\n' { ' ' } else { c[i] };
        push_char(&mut s, x);
        assert(s@ =~= newlines_to_spaces(c@).take(i + 1));
        i = i + 1;
    }
    assert(newlines_to_spaces(c@).take(i as int) =~= newlines_to_spaces(c@));
    split_words(s.as_str())
}

/// The words that are not user mentions, in order.
pub open spec fn without_mentions(ws: Seq<Seq<char>>) -> Seq<Seq<char>>
    decreases ws.len(),
{
    if ws.len() == 0 {
        Seq::empty()
    } else {
        let p = without_mentions(ws.drop_last());
        if regex_is_match(user_mention_pattern_spec(), ws.last()) { p } else { p.push(ws.last()) }
    }
}

/// What the bot does with a message.
pub enum MessageAction {
    /// Nothing: the message comes from a bot.
    Ignore,
    /// Post the help text: the message mentions the bot and has the word "help".
    Help,
    /// Post a generated sentence, with the words of the message other than mentions as a
    /// prompt when there are several words.
    Generate { prompt: Option<String> },
    /// Look for the server's tags among these words.
    CheckTags { words: Vec<String> },
    /// Nothing more: a message outside a server that does not mention the bot.
    Nothing,
}

/// The action for a message (the message is offered to the saved messages first in any case
/// but a bot's).
pub fn message_action(author_is_bot: bool, mentions_bot: bool, in_guild: bool, content: &str) -> (a: MessageAction)
    ensures
        author_is_bot ==> a is Ignore,
        !author_is_bot && mentions_bot && message_words_spec(content@).contains("help"@) ==> a is Help,
        !author_is_bot && mentions_bot && !message_words_spec(content@).contains("help"@) ==> (a matches MessageAction::Generate { prompt } && (
            if message_words_spec(content@).len() > 1 {
                prompt matches Some(p) && p@ == join_words(without_mentions(message_words_spec(content@)))
            } else {
                prompt is None
            })),
        !author_is_bot && !mentions_bot && in_guild ==> (a matches MessageAction::CheckTags { words } && texts(words@) == message_words_spec(content@)),
        !author_is_bot && !mentions_bot && !in_guild ==> a is Nothing,
{
    if author_is_bot {
        return MessageAction::Ignore;
    }
    let words = message_words(content);
    let ghost ws = texts(words@);
    if mentions_bot {
        let mut has_help = false;
        let mut i: usize = 0;
        while i < words.len()
            invariant
                i <= words@.len(),
                ws == texts(words@),
                has_help == (exists|j: int| 0 <= j < i && #[trigger] ws[j] == "help"@),
            decreases words@.len() - i,
        {
            assert(ws[i as int] == words@[i as int]@);
            if crate::commands::text_eq(words[i].as_str(), "help") {
                has_help = true;
            }
            i = i + 1;
        }
        if has_help {
            return MessageAction::Help;
        }
        if words.len() > 1 {
            let mut kept: Vec<String> = Vec::new();
            let mut k: usize = 0;
            assert(ws.take(0) =~= Seq::<Seq<char>>::empty());
            while k < words.len()
                invariant
                    k <= words@.len(),
                    ws == texts(words@),
                    texts(kept@) == without_mentions(ws.take(k as int)),
                decreases words@.len() - k,
            {
                assert(ws.take(k + 1).drop_last() =~= ws.take(k as int));
                assert(ws[k as int] == words@[k as int]@);
                if !is_match(user_mention_pattern(), words[k].as_str()) {
                    let ghost before = texts(kept@);
                    kept.push(words[k].clone());
                    assert(texts(kept@) =~= before.push(ws[k as int]));
                }
                k = k + 1;
            }
            assert(ws.take(k as int) =~= ws);
            return MessageAction::Generate { prompt: Some(join_strings(&kept)) };
        }
        return MessageAction::Generate { prompt: None };
    }
    if in_guild {
        MessageAction::CheckTags { words }
    } else {
        MessageAction::Nothing
    }
}

/// The reply to `/id`: the user's name and id, or a request for a user.
pub fn user_id_reply(user: Option<(&str, u64)>) -> (s: String)
    ensures
        user matches Some((name, id)) ==> s@ == name@ + "'s id is "@ + crate::numbers::decimal(id as nat),
        user is None ==> s@ == "Please provide a valid user"@,
{
    match user {
        Some((name, id)) => name.to_string().concat("'s id is ").concat(crate::numbers::format_u64(id).as_str()),
        None => "Please provide a valid user".to_string(),
    }
}

/// The reply to `/version`.
pub fn version_reply(version: &str) -> (s: String)
    ensures
        s@ == "My current version is "@ + version@,
{
    "My current version is ".to_string().concat(version)
}

/// The message the bot sends the owner of a server it was just added to.
pub fn welcome_message() -> (s: &'static str)
    ensures
        s@ == welcome_message_text(),
{
    "
Hi, I was just invited to your server by an admin. I'm a general purpose bot. I can play music, chat and i also have tag functionality. Type /help if you want to see all of my commands.\n\n
Due to my chatting functionality I save every message that gets said in the server. These saved messages aren't linked to any usernames so they're anonymized.
The admins of the server can prevent the saving of messages in certain channels (/stop-saving-messages-channel) or in the whole server (/stop-saving-messages-server)
and the users can choose themselves if they don't want their messages saved (/stop-saving-my-messages)"
}

pub closed spec fn welcome_message_text() -> Seq<char> {
    "
Hi, I was just invited to your server by an admin. I'm a general purpose bot. I can play music, chat and i also have tag functionality. Type /help if you want to see all of my commands.\n\n
Due to my chatting functionality I save every message that gets said in the server. These saved messages aren't linked to any usernames so they're anonymized.
The admins of the server can prevent the saving of messages in certain channels (/stop-saving-messages-channel) or in the whole server (/stop-saving-messages-server)
and the users can choose themselves if they don't want their messages saved (/stop-saving-my-messages)"@
}

/// What a press of one of the bot's buttons or a choice in one of its menus does.
#[derive(Debug, Clone, Copy, PartialEq, Eq, Structural)]
pub enum ComponentAction {
    /// Toggle whether the user is pinged for tags.
    TogglePings,
    /// Show another page of the queue.
    ChangePage(ComponentIds),
    /// Skip the song playing.
    Skip,
    /// Play the chosen song now.
    PlayNow,
    /// Bring the chosen song to the front of the queue.
    BringToFront,
    /// Shuffle the queue.
    Shuffle,
}

/// The action of a component with id `custom_id`, or `None` for an id the bot does not know.
pub fn component_action(custom_id: &str) -> (a: Option<ComponentAction>)
    ensures
        component_from_text(custom_id@) is None ==> a is None,
        component_from_text(custom_id@) matches Some(c) ==> a == Some(match c {
            ComponentIds::BlacklistMeFromTags => ComponentAction::TogglePings,
            ComponentIds::QueueNext => ComponentAction::ChangePage(c),
            ComponentIds::QueuePrevious => ComponentAction::ChangePage(c),
            ComponentIds::QueueStart => ComponentAction::ChangePage(c),
            ComponentIds::QueueEnd => ComponentAction::ChangePage(c),
            ComponentIds::Skip => ComponentAction::Skip,
            ComponentIds::PlayNow => ComponentAction::PlayNow,
            ComponentIds::PlayNowMenu => ComponentAction::PlayNow,
            ComponentIds::BringToFront => ComponentAction::BringToFront,
            ComponentIds::BringToFrontMenu => ComponentAction::BringToFront,
            ComponentIds::Shuffle => ComponentAction::Shuffle,
        }),
{
    match ComponentIds::from_id(custom_id) {
        None => None,
        Some(c) => Some(match c {
            ComponentIds::BlacklistMeFromTags => ComponentAction::TogglePings,
            ComponentIds::QueueNext | ComponentIds::QueuePrevious | ComponentIds::QueueStart | ComponentIds::QueueEnd => {
                ComponentAction::ChangePage(c)
            },
            ComponentIds::Skip => ComponentAction::Skip,
            ComponentIds::PlayNow | ComponentIds::PlayNowMenu => ComponentAction::PlayNow,
            ComponentIds::BringToFront | ComponentIds::BringToFrontMenu => ComponentAction::BringToFront,
            ComponentIds::Shuffle => ComponentAction::Shuffle,
        }),
    }
}

/// A user a message mentions, and whether it is a bot.
pub struct MentionedUser {
    pub id: u64,
    pub is_bot: bool,
}

/// The first user a message mentions who is not a bot, if any.
pub fn get_first_mentioned_user(mentions: &[MentionedUser]) -> (r: Option<u64>)
    ensures
        r matches Some(id) ==> exists|i: int| 0 <= i < mentions@.len() && !mentions@[i].is_bot && mentions@[i].id == id
            && forall|k: int| 0 <= k < i ==> (#[trigger] mentions@[k]).is_bot,
        r is None ==> forall|k: int| 0 <= k < mentions@.len() ==> (#[trigger] mentions@[k]).is_bot,
{
    let mut i: usize = 0;
    while i < mentions.len()
        invariant
            i <= mentions@.len(),
            forall|k: int| 0 <= k < i ==> (#[trigger] mentions@[k]).is_bot,
        decreases mentions@.len() - i,
    {
        if !mentions[i].is_bot {
            return Some(mentions[i].id);
        }
        i = i + 1;
    }
    None
}

} // verus!
