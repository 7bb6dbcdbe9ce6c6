//! How the bot configures its Markov chain and answers with it.
use vstd::prelude::*;

use crate::markov::{
    ErrorType, ImportExport, InputData, Markov, MarkovResult, ResultFilter, Tables, inputs_view, add_inputs, tables_below, tables_wf,
};
use crate::blacklist::IdSet;
use crate::data_set::{data_set_entry, entry_text};
use crate::message_filter::{filter_message_for_markov_file, filtered_message, Mention};

verus! {

/// Number of words in a state of the bot's chain.
pub const MARKOV_STATE_SIZE: usize = 3;

/// Number of attempts the bot's chain makes per sentence.
pub const MARKOV_MAX_TRIES: u16 = 5000;

/// Key under which the bot keeps its chain in its shared state.
pub struct MarkovChain;

/// A user whose messages the bot does not learn from.
pub struct MarkovBlacklistedUser {
    pub user_id: i64,
}

/// A channel whose messages the bot does not learn from.
pub struct MarkovBlacklistedChannel {
    pub channel_id: i64,
}

/// A server whose messages the bot does not learn from.
pub struct MarkovBlacklistedServer {
    pub server_id: i64,
}

/// The criteria of the bot's chain: a score of at least 20 from at least 3 inputs.
pub open spec fn is_default_filter(f: ResultFilter) -> bool {
    &&& f.min_score == 20
    &&& f.min_refs == 3
    &&& f.min_words == 0
    &&& f.max_chars is None
    &&& f.forbidden@.len() == 0
}

/// Whether a generated sentence is good enough for the bot to post.
pub fn markov_filter(r: &MarkovResult) -> (b: bool)
    ensures
        b == (r.score >= 20 && r.refs@.len() >= 3),
{
    r.score >= 20 && r.refs.len() >= 3
}

/// `markov_filter` accepts exactly what the filter of the bot's chain accepts.
pub proof fn law_markov_filter_is_default_filter(f: ResultFilter, r: &MarkovResult)
    requires
        is_default_filter(f),
    ensures
        (r.score >= 20 && r.refs@.len() >= 3) == f.accepts_spec(r),
{
}

/// An empty chain with the bot's settings.
pub fn create_default_chain() -> (m: Markov)
    ensures
        m.wf(),
        m.refs_valid(),
        m.inputs().len() == 0,
        m.state_size() == MARKOV_STATE_SIZE,
        m.tables() == (Tables { start_words: Seq::empty(), end_words: Seq::empty(), corpus: Seq::empty() }),
        m.filter() matches Some(f) && is_default_filter(f),
        m.max_tries() == MARKOV_MAX_TRIES,
{
    let mut markov_chain = Markov::new();
    match markov_chain.set_state_size(MARKOV_STATE_SIZE) {
        Ok(_) => {},
        Err(_) => {},
    }
    markov_chain.set_max_tries(MARKOV_MAX_TRIES);
    markov_chain.set_filter(ResultFilter::thresholds(20, 3, 0));
    markov_chain
}

/// A chain over a stored corpus with the bot's settings.
pub fn create_default_chain_from_export(export: ImportExport) -> (m: Markov)
    ensures
        m.wf() == tables_wf(export.tables()),
        m.refs_valid() == tables_below(export.tables(), export.inputs().len()),
        m.inputs() == export.inputs(),
        m.state_size() == export.state_size(),
        m.tables() == export.tables(),
        m.filter() matches Some(f) && is_default_filter(f),
        m.max_tries() == MARKOV_MAX_TRIES,
{
    let mut markov_chain = Markov::from_export(export);
    markov_chain.set_max_tries(MARKOV_MAX_TRIES);
    markov_chain.set_filter(ResultFilter::thresholds(20, 3, 0));
    markov_chain
}

/// A new corpus built from the stored messages with the bot's settings, exported.
pub fn generate_new_corpus(messages: Vec<InputData>) -> (e: ImportExport)
    ensures
        e.wf(),
        e.inputs() == inputs_view(messages@),
        e.state_size() == MARKOV_STATE_SIZE,
        e.tables() == add_inputs(
            Tables { start_words: Seq::empty(), end_words: Seq::empty(), corpus: Seq::empty() },
            inputs_view(messages@),
            inputs_view(messages@),
            MARKOV_STATE_SIZE as nat,
            messages@.len(),
        ),
{
    let mut markov = create_default_chain();
    markov.add_to_corpus(messages);
    assert(Seq::<(Seq<char>, Option<Seq<char>>)>::empty() + inputs_view(messages@) =~= inputs_view(messages@));
    markov.export()
}

/// The criteria of the chat chain that `init_markov` builds: at least 5 words,
/// a score of at least 5, from at least 2 inputs.
pub open spec fn is_chat_filter(f: ResultFilter) -> bool {
    &&& f.min_score == 5
    &&& f.min_refs == 2
    &&& f.min_words == 5
    &&& f.max_chars is None
    &&& f.forbidden@.len() == 0
}

/// A chain of state size 2 over `input_data`, with 200 tries and the chat filter (`is_chat_filter`),
/// and the number of messages it was built from.
pub fn init_markov(input_data: Vec<InputData>) -> (r: (Markov, usize))
    ensures
        r.0.wf(),
        r.0.refs_valid(),
        r.1 == input_data@.len(),
        r.0.inputs() == inputs_view(input_data@),
        r.0.state_size() == 2,
        r.0.tables() == add_inputs(
            Tables { start_words: Seq::empty(), end_words: Seq::empty(), corpus: Seq::empty() },
            inputs_view(input_data@),
            inputs_view(input_data@),
            2,
            input_data@.len(),
        ),
        r.0.filter() matches Some(f) && is_chat_filter(f),
        r.0.max_tries() == 200,
{
    let mut markov_chain = Markov::new();
    match markov_chain.set_state_size(2) {
        Ok(_) => {},
        Err(_) => {},
    }
    markov_chain.set_max_tries(200);
    markov_chain.set_filter(ResultFilter::thresholds(5, 2, 5));
    let num_of_messages = input_data.len();
    markov_chain.add_to_corpus(input_data);
    assert(Seq::<(Seq<char>, Option<Seq<char>>)>::empty() + inputs_view(input_data@) =~= inputs_view(input_data@));
    (markov_chain, num_of_messages)
}

/// The reply the bot posts for an attempt to generate a sentence.
pub open spec fn generation_reply(r: Result<MarkovResult, ErrorType>, debug: bool) -> Seq<char> {
    match r {
        Ok(res) => if debug {
            res.text@ + " --debug"@
        } else {
            res.text@
        },
        Err(ErrorType::CorpusEmpty) => "The corpus is empty, try again later!"@,
        Err(ErrorType::TriesExceeded) => "couldn't generate a sentence, try again!"@,
        Err(ErrorType::CorpusNotEmpty) => "Try again later."@,
    }
}

/// The bot's reply from its chain: a generated sentence (marked in debug builds), or
/// why there is none.
pub fn generate_sentence(markov: &Markov, debug: bool) -> (reply: String)
    requires
        markov.wf(),
    ensures
        exists|r: Result<MarkovResult, ErrorType>|
            {
                &&& (r matches Err(e) && e == ErrorType::CorpusEmpty) <==> markov.tables().corpus.len() == 0
                &&& r matches Err(e) ==> e == ErrorType::CorpusEmpty || e == ErrorType::TriesExceeded
                &&& r matches Ok(res) ==> markov.is_generated(&res)
                &&& markov.tables().corpus.len() > 0 && markov.succeeds_whatever_drawn() ==> r is Ok
                &&& reply@ == generation_reply(r, debug)
            },
{
    let r = markov.generate();
    let reply = reply_for(&r, debug);
    assert(reply@ == generation_reply(r, debug));
    reply
}

/// The reply for a given outcome of `generate`.
pub fn reply_for(r: &Result<MarkovResult, ErrorType>, debug: bool) -> (reply: String)
    ensures
        reply@ == generation_reply(*r, debug),
{
    match r {
        Ok(res) => {
            let mut message = res.text.clone();
            if debug {
                message.append(" --debug");
            }
            message
        },
        Err(ErrorType::CorpusEmpty) => "The corpus is empty, try again later!".to_string(),
        Err(ErrorType::TriesExceeded) => "couldn't generate a sentence, try again!".to_string(),
        Err(ErrorType::CorpusNotEmpty) => "Try again later.".to_string(),
    }
}

/// Whether a message may be added to the stored messages: it was sent in a server,
/// neither its author, its channel nor its server is blacklisted, and it does not
/// mention the bot.
pub fn may_save_message(
    in_guild: bool,
    user_blacklisted: bool,
    channel_blacklisted: bool,
    server_blacklisted: bool,
    mentions_bot: bool,
) -> (b: bool)
    ensures
        b == (in_guild && !user_blacklisted && !channel_blacklisted && !server_blacklisted && !mentions_bot),
{
    if !in_guild {
        return false;
    }
    !(server_blacklisted || channel_blacklisted || user_blacklisted || mentions_bot)
}

/// Whether a message may be saved, from where it was sent and who sent it.
pub open spec fn message_may_be_saved(server_id: Option<i64>, user_id: i64, channel_id: i64, users: Set<i64>, channels: Set<i64>, servers: Set<i64>, mentions_bot: bool) -> bool {
    match server_id {
        None => false,
        Some(s) => !servers.contains(s) && !channels.contains(channel_id) && !users.contains(user_id) && !mentions_bot,
    }
}

/// The text appended to the saved messages for a message, if the bot saves it: one sent in a
/// server, by a user, in a channel and in a server none of which is blacklisted, that does
/// not mention the bot, and that still has five words once cleaned.
pub fn entry_for_message(
    server_id: Option<i64>,
    user_id: i64,
    channel_id: i64,
    users: &IdSet,
    channels: &IdSet,
    servers: &IdSet,
    mentions_bot: bool,
    content: &str,
    mentions: &[Mention],
) -> (r: Option<String>)
    ensures
        !message_may_be_saved(server_id, user_id, channel_id, users@, channels@, servers@, mentions_bot) ==> r is None,
        message_may_be_saved(server_id, user_id, channel_id, users@, channels@, servers@, mentions_bot) ==> match filtered_message(content@, mentions@) {
            Some(t) => r matches Some(e) && e@ == entry_text(t),
            None => r is None,
        },
{
    let in_guild = server_id.is_some();
    let server_blacklisted = match server_id {
        Some(s) => servers.contains(s),
        None => false,
    };
    if !may_save_message(in_guild, users.contains(user_id), channels.contains(channel_id), server_blacklisted, mentions_bot) {
        return None;
    }
    match filter_message_for_markov_file(content, mentions) {
        Some(t) => Some(data_set_entry(t.as_str())),
        None => None,
    }
}

} // verus!
