//! What the bot says and decides around a voice call: durations, song headings, the
//! "now playing" message, who may control the call, and how a play request is read.
use vstd::prelude::*;

use crate::numbers::{decimal, format_two_digits, format_u64, two_digits};
use crate::patterns::{
    contains_text, has_infix, is_match, link_pattern, link_pattern_spec, list_parameter_pattern,
    list_parameter_pattern_spec, playlist_pattern, playlist_pattern_spec, regex_is_match,
    regex_replace_first, replace_first,
};
use crate::commands::ComponentIds;
use crate::queue::{pairs_get, pairs_map};
use crate::text::{split_char, split_on, texts};

verus! {

/// What the bot reads of a song's metadata.
pub struct AuxMetadata {
    pub title: Option<String>,
    pub channel: Option<String>,
    /// The length, in whole seconds.
    pub duration_secs: Option<u64>,
    pub source_url: Option<String>,
    pub thumbnail: Option<String>,
}

/// What the bot keeps with a queued song: its metadata and who queued it.
pub struct MyAuxMetadata {
    pub aux_metadata: AuxMetadata,
    pub queued_by: String,
}

/// A text, or `"Unknown"` when there is none.
pub open spec fn or_unknown(s: Option<String>) -> Seq<char> {
    match s {
        Some(t) => t@,
        None => "Unknown"@,
    }
}

/// `m:ss` for a number of seconds: whole minutes, then the seconds left on two digits.
pub open spec fn minutes_seconds_text(secs: nat) -> Seq<char> {
    decimal(secs / 60) + ":"@ + two_digits(secs % 60)
}

/// A duration as `m:ss`.
pub fn minutes_seconds(secs: u64) -> (s: String)
    ensures
        s@ == minutes_seconds_text(secs as nat),
{
    let minutes = secs / 60;
    let seconds = secs - minutes * 60;
    format_u64(minutes).concat(":").concat(format_two_digits(seconds).as_str())
}

/// How far the song playing is: its position and its length, each as `m:ss`.
pub fn playing_progress(position_secs: u64, duration_secs: u64) -> (s: String)
    ensures
        s@ == minutes_seconds_text(position_secs as nat) + " / "@ + minutes_seconds_text(duration_secs as nat),
{
    minutes_seconds(position_secs).concat(" / ").concat(minutes_seconds(duration_secs).as_str())
}

/// `hhh:mmm:sss` for a number of seconds: hours, minutes and seconds, each on at least two digits.
pub open spec fn queue_length_text(secs: nat) -> Seq<char> {
    two_digits(secs / 60 / 60) + "h:"@ + two_digits(secs / 60 % 60) + "m:"@ + two_digits(secs % 60) + "s"@
}

/// The length of the whole queue, as the queue message shows it.
pub fn queue_length(secs: u64) -> (s: String)
    ensures
        s@ == queue_length_text(secs as nat),
{
    let hours = secs / 60 / 60;
    let minutes = secs / 60 % 60;
    let seconds = secs % 60;
    format_two_digits(hours).concat("h:").concat(format_two_digits(minutes).as_str()).concat("m:").concat(
        format_two_digits(seconds).as_str(),
    ).concat("s")
}

/// The sum of durations.
pub open spec fn sum_secs(d: Seq<u64>) -> nat
    decreases d.len(),
{
    if d.len() == 0 {
        0
    } else {
        sum_secs(d.drop_last()) + d.last() as nat
    }
}

/// The total of the durations, when it fits in a `u64`.
pub fn total_duration(durations: &[u64]) -> (r: Option<u64>)
    ensures
        r matches Some(t) ==> t == sum_secs(durations@),
        r is None ==> sum_secs(durations@) > u64::MAX,
{
    let mut total: u64 = 0;
    let mut i: usize = 0;
    assert(durations@.take(0) =~= Seq::<u64>::empty());
    while i < durations.len()
        invariant
            i <= durations@.len(),
            total == sum_secs(durations@.take(i as int)),
        decreases durations@.len() - i,
    {
        assert(durations@.take(i + 1).drop_last() =~= durations@.take(i as int));
        if total > u64::MAX - durations[i] {
            proof {
                lemma_sum_secs_prefix(durations@, i + 1);
            }
            return None;
        }
        total = total + durations[i];
        i = i + 1;
    }
    assert(durations@.take(i as int) =~= durations@);
    Some(total)
}

/// A sum over a prefix is at most the whole sum.
pub proof fn lemma_sum_secs_prefix(d: Seq<u64>, k: int)
    requires
        0 <= k <= d.len(),
    ensures
        sum_secs(d.take(k)) <= sum_secs(d),
    decreases d.len() - k,
{
    if k < d.len() {
        lemma_sum_secs_prefix(d, k + 1);
        assert(d.take(k + 1).drop_last() =~= d.take(k));
    } else {
        assert(d.take(k) =~= d);
    }
}

/// The heading of the song at 0-based `index` in the queue message: `"n. title | channel"`.
pub open spec fn song_heading_text(index: nat, t: MyAuxMetadata) -> Seq<char> {
    decimal(index + 1) + ". "@ + or_unknown(t.aux_metadata.title) + " | "@ + or_unknown(t.aux_metadata.channel)
}

/// The heading of the song at 0-based `index` in the queue message.
pub fn song_heading(index: usize, t: &MyAuxMetadata) -> (s: String)
    requires
        index < u64::MAX,
    ensures
        s@ == song_heading_text(index as nat, *t),
{
    let title = match &t.aux_metadata.title {
        Some(x) => x.clone(),
        None => "Unknown".to_string(),
    };
    let channel = match &t.aux_metadata.channel {
        Some(x) => x.clone(),
        None => "Unknown".to_string(),
    };
    format_u64(index as u64 + 1).concat(". ").concat(title.as_str()).concat(" | ").concat(channel.as_str())
}

/// The line under a song's heading: its duration and who queued it.
pub open spec fn song_subheading_text(t: MyAuxMetadata) -> Seq<char> {
    let secs: nat = match t.aux_metadata.duration_secs {
        Some(d) => d as nat,
        None => 0,
    };
    minutes_seconds_text(secs) + " | Queued by **"@ + t.queued_by@ + "**"@
}

/// The line under a song's heading.
pub fn song_subheading(t: &MyAuxMetadata) -> (s: String)
    ensures
        s@ == song_subheading_text(*t),
{
    let secs: u64 = match t.aux_metadata.duration_secs {
        Some(d) => d,
        None => 0,
    };
    minutes_seconds(secs).concat(" | Queued by **").concat(t.queued_by.as_str()).concat("**")
}

/// The description of the queue message: its size and total length.
pub fn queue_description(queue_len: usize, total_secs: u64) -> (s: String)
    ensures
        s@ == "Current size: **"@ + decimal(queue_len as nat) + "** | Total queue length: **"@
            + queue_length_text(total_secs as nat) + "**"@,
{
    "Current size: **".to_string().concat(format_u64(queue_len as u64).as_str()).concat(
        "** | Total queue length: **",
    ).concat(queue_length(total_secs).as_str()).concat("**")
}

/// The text of the reply to a queued song: `"Playing"` when it is the only song, else its
/// position.
pub fn queued_reply(queue_len: usize) -> (s: String)
    ensures
        queue_len == 1 ==> s@ == "Playing"@,
        queue_len != 1 ==> s@ == "Position in queue: "@ + decimal(queue_len as nat),
{
    if queue_len == 1 {
        "Playing".to_string()
    } else {
        "Position in queue: ".to_string().concat(format_u64(queue_len as u64).as_str())
    }
}

/// The buttons under the reply to a queued song: skip when it is the only song (it plays
/// now), else bring to front and play now, in that order.
pub fn queued_reply_buttons(queue_len: usize) -> (b: Vec<ComponentIds>)
    ensures
        queue_len == 1 ==> b@ == seq![ComponentIds::Skip],
        queue_len != 1 ==> b@ == seq![ComponentIds::BringToFront, ComponentIds::PlayNow],
{
    let mut b: Vec<ComponentIds> = Vec::new();
    if queue_len == 1 {
        b.push(ComponentIds::Skip);
    } else {
        b.push(ComponentIds::BringToFront);
        b.push(ComponentIds::PlayNow);
    }
    b
}

/// The estimated wait before a newly queued song plays (shown with the reply when the song
/// does not play at once): the length of the queue, the new song
/// included, less the new song's own length.
pub fn time_until_playing(durations: &[u64], this_secs: u64) -> (s: String)
    requires
        sum_secs(durations@) <= u64::MAX,
        this_secs <= sum_secs(durations@),
    ensures
        s@ == minutes_seconds_text((sum_secs(durations@) - this_secs) as nat),
{
    let total = match total_duration(durations) {
        Some(t) => t,
        None => 0,
    };
    minutes_seconds(total - this_secs)
}

/// Which of its records of a call's messages the bot files a reply under.
#[derive(Debug, Clone, Copy, PartialEq, Eq, Structural)]
pub enum MessageSlot {
    NowPlaying,
    PositionInQueue,
    Neither,
}

/// The record a reply is filed under: `"Playing"` in its text makes it the "now playing"
/// message, else `"Position in queue"` makes it a position message.
pub fn slot_for_reply(content: &str) -> (slot: MessageSlot)
    ensures
        has_infix(content@, "Playing"@) ==> slot == MessageSlot::NowPlaying,
        !has_infix(content@, "Playing"@) && has_infix(content@, "Position in queue"@) ==> slot == MessageSlot::PositionInQueue,
        !has_infix(content@, "Playing"@) && !has_infix(content@, "Position in queue"@) ==> slot == MessageSlot::Neither,
{
    if contains_text(content, "Playing") {
        MessageSlot::NowPlaying
    } else if contains_text(content, "Position in queue") {
        MessageSlot::PositionInQueue
    } else {
        MessageSlot::Neither
    }
}

/// The last message about the call in its text channel, as the bot sees it.
pub enum LastMessageType {
    /// The "now playing" message, and whether it carries a shuffle button.
    NowPlaying { has_shuffle_button: bool },
    /// The reply that queued a song, with the link of the song it shows.
    PositionInQueue { song_url: String },
    /// Neither is the last message of the channel.
    Neither,
}

/// Which message is the last one of the channel: the "now playing" message when it exists and
/// is the last one, else the position message when it exists and is the last one.
pub fn last_message_type(now_playing_is_last: bool, position_is_last: bool, position_song_url: Option<String>, now_playing_has_shuffle: bool) -> (k: LastMessageType)
    requires
        position_is_last ==> position_song_url is Some,
    ensures
        now_playing_is_last ==> (k matches LastMessageType::NowPlaying { has_shuffle_button: b } && b == now_playing_has_shuffle),
        !now_playing_is_last && position_is_last ==> (k matches LastMessageType::PositionInQueue { song_url: u }
            && Some(u) == position_song_url),
        !now_playing_is_last && !position_is_last ==> k is Neither,
{
    if now_playing_is_last {
        return LastMessageType::NowPlaying { has_shuffle_button: now_playing_has_shuffle };
    }
    if position_is_last {
        match position_song_url {
            Some(u) => LastMessageType::PositionInQueue { song_url: u },
            None => LastMessageType::Neither,
        }
    } else {
        LastMessageType::Neither
    }
}

/// What the bot does when a song starts.
#[derive(Debug, Clone, Copy, PartialEq, Eq, Structural)]
pub enum NowPlayingAction {
    /// Edit the "now playing" message to show the song, with a skip button and, when the
    /// message had one, a shuffle button.
    EditNowPlaying { with_shuffle: bool },
    /// Turn the position message of this song into the "now playing" message.
    PromotePosition,
    /// Post a new "now playing" message.
    SendNew,
}

/// The action for a song that starts, given the last message of the channel.
pub fn now_playing_action(last: &LastMessageType, track_url: &str) -> (a: NowPlayingAction)
    ensures
        last matches LastMessageType::NowPlaying { has_shuffle_button: b } ==> a == (NowPlayingAction::EditNowPlaying { with_shuffle: *b }),
        last matches LastMessageType::PositionInQueue { song_url: u } ==>
            a == (if u@ == track_url@ { NowPlayingAction::PromotePosition } else { NowPlayingAction::SendNew }),
        last is Neither ==> a == NowPlayingAction::SendNew,
{
    match last {
        LastMessageType::NowPlaying { has_shuffle_button } => NowPlayingAction::EditNowPlaying { with_shuffle: *has_shuffle_button },
        LastMessageType::PositionInQueue { song_url } => {
            if crate::commands::text_eq(song_url.as_str(), track_url) {
                NowPlayingAction::PromotePosition
            } else {
                NowPlayingAction::SendNew
            }
        },
        LastMessageType::Neither => NowPlayingAction::SendNew,
    }
}

/// The message recorded for each server in a list of records, later records winning and a
/// record without a message clearing it.
pub open spec fn recorded(v: Seq<(u64, Option<u64>)>) -> Map<u64, u64> {
    Map::new(
        |g: u64| pairs_map(v).contains_key(g) && pairs_map(v)[g] is Some,
        |g: u64| pairs_map(v)[g]->0,
    )
}

/// The bot's messages about the call of each server, by message id: the "now playing"
/// message, the reply that queued the last song, and the queue message.
pub struct VoiceMessages {
    last_now_playing: Vec<(u64, Option<u64>)>,
    last_position_in_queue: Vec<(u64, Option<u64>)>,
    queue: Vec<(u64, Option<u64>)>,
}

fn record(v: &mut Vec<(u64, Option<u64>)>, guild_id: u64, message: Option<u64>)
    ensures
        pairs_map(final(v)@) == pairs_map(old(v)@).insert(guild_id, message),
{
    let ghost before = v@;
    v.push((guild_id, message));
    assert(v@.drop_last() =~= before);
}

fn recorded_message(v: &Vec<(u64, Option<u64>)>, guild_id: u64) -> (r: Option<u64>)
    ensures
        r matches Some(m) ==> recorded(v@).contains_key(guild_id) && recorded(v@)[guild_id] == m,
        r is None ==> !recorded(v@).contains_key(guild_id),
{
    match pairs_get(v, guild_id) {
        Some(m) => m,
        None => None,
    }
}

impl VoiceMessages {
    /// The "now playing" message of each server.
    pub closed spec fn now_playing(&self) -> Map<u64, u64> {
        recorded(self.last_now_playing@)
    }

    /// The reply that queued the last song, for each server.
    pub closed spec fn position_in_queue(&self) -> Map<u64, u64> {
        recorded(self.last_position_in_queue@)
    }

    /// The queue message of each server.
    pub closed spec fn queue_messages(&self) -> Map<u64, u64> {
        recorded(self.queue@)
    }

    /// No message recorded.
    pub fn new() -> (m: VoiceMessages)
        ensures
            m.now_playing() == Map::<u64, u64>::empty(),
            m.position_in_queue() == Map::<u64, u64>::empty(),
            m.queue_messages() == Map::<u64, u64>::empty(),
    {
        let m = VoiceMessages { last_now_playing: Vec::new(), last_position_in_queue: Vec::new(), queue: Vec::new() };
        assert(m.now_playing() =~= Map::<u64, u64>::empty());
        assert(m.position_in_queue() =~= Map::<u64, u64>::empty());
        assert(m.queue_messages() =~= Map::<u64, u64>::empty());
        m
    }

    /// The server's "now playing" message, if any.
    pub fn get_now_playing(&self, guild_id: u64) -> (r: Option<u64>)
        ensures
            r matches Some(m) ==> self.now_playing().contains_key(guild_id) && self.now_playing()[guild_id] == m,
            r is None ==> !self.now_playing().contains_key(guild_id),
    {
        recorded_message(&self.last_now_playing, guild_id)
    }

    /// The server's position message, if any.
    pub fn get_position_in_queue(&self, guild_id: u64) -> (r: Option<u64>)
        ensures
            r matches Some(m) ==> self.position_in_queue().contains_key(guild_id) && self.position_in_queue()[guild_id] == m,
            r is None ==> !self.position_in_queue().contains_key(guild_id),
    {
        recorded_message(&self.last_position_in_queue, guild_id)
    }

    /// The server's queue message, if any.
    pub fn get_queue_message(&self, guild_id: u64) -> (r: Option<u64>)
        ensures
            r matches Some(m) ==> self.queue_messages().contains_key(guild_id) && self.queue_messages()[guild_id] == m,
            r is None ==> !self.queue_messages().contains_key(guild_id),
    {
        recorded_message(&self.queue, guild_id)
    }

    /// Records the server's queue message.
    pub fn set_queue_message(&mut self, guild_id: u64, message_id: u64)
        ensures
            final(self).queue_messages() == old(self).queue_messages().insert(guild_id, message_id),
            final(self).now_playing() == old(self).now_playing(),
            final(self).position_in_queue() == old(self).position_in_queue(),
    {
        record(&mut self.queue, guild_id, Some(message_id));
        assert(self.queue_messages() =~= old(self).queue_messages().insert(guild_id, message_id));
    }

    /// Records a reply to a queued song under the record its text calls for.
    pub fn record_reply(&mut self, guild_id: u64, slot: MessageSlot, message_id: u64)
        ensures
            slot == MessageSlot::NowPlaying ==> final(self).now_playing() == old(self).now_playing().insert(guild_id, message_id)
                && final(self).position_in_queue() == old(self).position_in_queue(),
            slot == MessageSlot::PositionInQueue ==> final(self).position_in_queue() == old(self).position_in_queue().insert(guild_id, message_id)
                && final(self).now_playing() == old(self).now_playing(),
            slot == MessageSlot::Neither ==> final(self).now_playing() == old(self).now_playing()
                && final(self).position_in_queue() == old(self).position_in_queue(),
            final(self).queue_messages() == old(self).queue_messages(),
    {
        match slot {
            MessageSlot::NowPlaying => {
                record(&mut self.last_now_playing, guild_id, Some(message_id));
                assert(self.now_playing() =~= old(self).now_playing().insert(guild_id, message_id));
            },
            MessageSlot::PositionInQueue => {
                record(&mut self.last_position_in_queue, guild_id, Some(message_id));
                assert(self.position_in_queue() =~= old(self).position_in_queue().insert(guild_id, message_id));
            },
            MessageSlot::Neither => {},
        }
    }

    /// Records what became of the messages when a song started: the edited "now playing"
    /// message stays, a promoted position message becomes the "now playing" message and is no
    /// longer a position message, and a new message is the "now playing" message.
    pub fn record_now_playing(&mut self, guild_id: u64, action: NowPlayingAction, new_message_id: u64)
        requires
            action == NowPlayingAction::PromotePosition ==> old(self).position_in_queue().contains_key(guild_id),
            action matches NowPlayingAction::EditNowPlaying { .. } ==> old(self).now_playing().contains_key(guild_id),
        ensures
            action matches NowPlayingAction::EditNowPlaying { .. } ==> final(self).now_playing() == old(self).now_playing()
                && final(self).position_in_queue() == old(self).position_in_queue(),
            action == NowPlayingAction::PromotePosition ==> final(self).now_playing()
                == old(self).now_playing().insert(guild_id, old(self).position_in_queue()[guild_id])
                && final(self).position_in_queue() == old(self).position_in_queue().remove(guild_id),
            action == NowPlayingAction::SendNew ==> final(self).now_playing() == old(self).now_playing().insert(guild_id, new_message_id)
                && final(self).position_in_queue() == old(self).position_in_queue(),
            final(self).queue_messages() == old(self).queue_messages(),
    {
        match action {
            NowPlayingAction::EditNowPlaying { .. } => {
                match recorded_message(&self.last_now_playing, guild_id) {
                    Some(m) => {
                        record(&mut self.last_now_playing, guild_id, Some(m));
                        assert(self.now_playing() =~= old(self).now_playing());
                    },
                    None => {},
                }
            },
            NowPlayingAction::PromotePosition => {
                match recorded_message(&self.last_position_in_queue, guild_id) {
                    Some(m) => {
                        record(&mut self.last_position_in_queue, guild_id, None);
                        assert(self.position_in_queue() =~= old(self).position_in_queue().remove(guild_id));
                        record(&mut self.last_now_playing, guild_id, Some(m));
                        assert(self.now_playing() =~= old(self).now_playing().insert(guild_id, m));
                    },
                    None => {},
                }
            },
            NowPlayingAction::SendNew => {
                record(&mut self.last_now_playing, guild_id, Some(new_message_id));
                assert(self.now_playing() =~= old(self).now_playing().insert(guild_id, new_message_id));
            },
        }
    }
}

/// Whether the bot is in a voice channel other than the user's: always when the user is in
/// none, never when the bot is in none.
pub fn is_bot_in_another_voice_channel(user_channel: Option<u64>, bot_channel: Option<u64>) -> (b: bool)
    ensures
        b == match user_channel {
            None => true,
            Some(u) => match bot_channel {
                None => false,
                Some(c) => u != c,
            },
        },
{
    match user_channel {
        None => true,
        Some(u) => match bot_channel {
            None => false,
            Some(c) => u != c,
        },
    }
}

/// Whether a play request is refused: the bot plays in another channel and its queue is not empty.
pub fn play_refused(bot_in_another_channel: bool, queue_len: Option<usize>) -> (b: bool)
    ensures
        b == (bot_in_another_channel && (queue_len matches Some(n) && n > 0)),
{
    bot_in_another_channel && match queue_len {
        Some(n) => n > 0,
        None => false,
    }
}

/// Whether a voice channel with `members` members (the bot counted) holds only the bot.
pub fn is_channel_empty(members: usize) -> (b: bool)
    ensures
        b == (members == 1),
{
    members == 1
}

/// Whether the bot leaves after a voice state change: someone left a channel, the bot is in a
/// call, the channel left is the bot's, and only the bot remains in it.
pub fn should_leave_after_update(left_channel: Option<u64>, bot_channel: Option<u64>, members_left: usize) -> (b: bool)
    ensures
        b == (left_channel is Some && bot_channel is Some && left_channel == bot_channel && members_left == 1),
{
    match left_channel {
        None => false,
        Some(l) => match bot_channel {
            None => false,
            Some(c) => l == c && members_left == 1,
        },
    }
}

/// How many more times the current song is to be played.
#[derive(Debug, Clone, Copy, PartialEq, Eq, Structural)]
pub enum LoopState {
    Infinite,
    Finite(usize),
}

/// Whether the loop command turns looping on (it turns it off otherwise): on exactly when the
/// song is not looping.
pub fn loop_turns_on(state: LoopState) -> (on: bool)
    ensures
        on == (state == LoopState::Finite(0)),
{
    match state {
        LoopState::Finite(n) => n == 0,
        LoopState::Infinite => false,
    }
}

/// The reply of the loop command.
pub fn loop_reply(turned_on: bool) -> (s: String)
    ensures
        turned_on ==> s@ == "Looping the current song."@,
        !turned_on ==> s@ == "No longer looping the current song."@,
{
    if turned_on {
        "Looping the current song.".to_string()
    } else {
        "No longer looping the current song.".to_string()
    }
}

/// What the bot makes of the attachment of a message someone asked it to play.
#[derive(Debug, Clone, Copy, PartialEq, Eq, Structural)]
pub enum AttachmentCheck {
    /// The message has no attachment.
    Missing,
    /// The attachment is neither a video nor audio.
    NotMedia,
    /// The attachment can be played.
    Playable,
}

/// The check of a message's first attachment, from whether there is one and its content type
/// (a video or audio type names `video` or `audio`).
pub fn check_attachment(has_attachment: bool, content_type: Option<&str>) -> (c: AttachmentCheck)
    ensures
        !has_attachment ==> c == AttachmentCheck::Missing,
        has_attachment && (content_type matches Some(t) && (has_infix(t@, "video"@) || has_infix(t@, "audio"@))) ==> c == AttachmentCheck::Playable,
        has_attachment && !(content_type matches Some(t) && (has_infix(t@, "video"@) || has_infix(t@, "audio"@))) ==> c == AttachmentCheck::NotMedia,
{
    if !has_attachment {
        return AttachmentCheck::Missing;
    }
    match content_type {
        Some(t) => {
            if contains_text(t, "video") || contains_text(t, "audio") {
                AttachmentCheck::Playable
            } else {
                AttachmentCheck::NotMedia
            }
        },
        None => AttachmentCheck::NotMedia,
    }
}

/// The reply to a request to play a message's attachment.
pub fn attachment_reply(c: AttachmentCheck) -> (s: String)
    ensures
        c == AttachmentCheck::Missing ==> s@ == "Message must contain an attachment"@,
        c == AttachmentCheck::NotMedia ==> s@ == "The attachment in the message is not a video or audio file"@,
        c == AttachmentCheck::Playable ==> s@ == "Playing the attachment now"@,
{
    match c {
        AttachmentCheck::Missing => "Message must contain an attachment".to_string(),
        AttachmentCheck::NotMedia => "The attachment in the message is not a video or audio file".to_string(),
        AttachmentCheck::Playable => "Playing the attachment now".to_string(),
    }
}

/// Where a play request gets its songs from.
pub enum SourceQuery {
    /// A playlist link, whose songs a listing gives.
    Playlist { url: String },
    /// A video link, without its playlist part.
    Video { url: String },
    /// A search for the first video found.
    Search { query: String },
}

/// How a play request is read: a link to a playlist, a link to a video (its playlist part
/// removed), or words to search for.
pub fn classify_query(query: &str) -> (r: SourceQuery)
    ensures
        regex_is_match(link_pattern_spec(), query@) && regex_is_match(playlist_pattern_spec(), query@) ==>
            (r matches SourceQuery::Playlist { url } && url@ == query@),
        regex_is_match(link_pattern_spec(), query@) && !regex_is_match(playlist_pattern_spec(), query@) ==>
            (r matches SourceQuery::Video { url } && url@ == regex_replace_first(list_parameter_pattern_spec(), query@, ""@)),
        !regex_is_match(link_pattern_spec(), query@) ==> (r matches SourceQuery::Search { query: q } && q@ == "ytsearch:"@ + query@),
{
    if is_match(link_pattern(), query) {
        if is_match(playlist_pattern(), query) {
            return SourceQuery::Playlist { url: query.to_string() };
        }
        return SourceQuery::Video { url: replace_first(list_parameter_pattern(), query, "") };
    }
    SourceQuery::Search { query: "ytsearch:".to_string().concat(query) }
}

/// The lines that are not empty, in order.
pub open spec fn nonempty_lines(ls: Seq<Seq<char>>) -> Seq<Seq<char>>
    decreases ls.len(),
{
    if ls.len() == 0 {
        Seq::empty()
    } else {
        let p = nonempty_lines(ls.drop_last());
        if ls.last().len() > 0 { p.push(ls.last()) } else { p }
    }
}

/// The ids listed, one per line, with empty lines left out.
pub open spec fn listed_ids(output: Seq<char>) -> Seq<Seq<char>> {
    nonempty_lines(split_on(output, '\n'))
}

/// The video links of the ids that a playlist listing prints, one per line.
pub fn playlist_video_urls(output: &str) -> (urls: Vec<String>)
    ensures
        urls@.len() == listed_ids(output@).len(),
        forall|k: int| 0 <= k < urls@.len() ==> (#[trigger] urls@[k])@ == "https://www.youtube.com/watch?v="@ + listed_ids(output@)[k],
{
    let lines = split_char(output, '\n');
    let ghost ls = texts(lines@);
    let mut urls: Vec<String> = Vec::new();
    let mut i: usize = 0;
    assert(nonempty_lines(ls.take(0)) =~= Seq::<Seq<char>>::empty());
    while i < lines.len()
        invariant
            i <= lines@.len(),
            ls == texts(lines@),
            ls == split_on(output@, '\n'),
            urls@.len() == nonempty_lines(ls.take(i as int)).len(),
            forall|k: int| 0 <= k < urls@.len() ==> (#[trigger] urls@[k])@ == "https://www.youtube.com/watch?v="@
                + nonempty_lines(ls.take(i as int))[k],
        decreases lines@.len() - i,
    {
        let ghost before = nonempty_lines(ls.take(i as int));
        assert(ls.take(i + 1).drop_last() =~= ls.take(i as int));
        assert(ls.take(i + 1).last() == ls[i as int]);
        assert(ls[i as int] == lines@[i as int]@);
        if !lines[i].as_str().is_empty() {
            urls.push("https://www.youtube.com/watch?v=".to_string().concat(lines[i].as_str()));
        }
        i = i + 1;
    }
    assert(ls.take(i as int) =~= ls);
    urls
}

/// Whether the bot adds the songs fetched so far while filling the queue from a playlist: after
/// the first song and after every tenth one (by 0-based position).
pub open spec fn flushes_at(i: nat) -> bool {
    i % 10 == 0
}

/// How many songs of a playlist of `n` (after its first, which plays at once) end up queued
/// when nothing stops the filling: those up to the last position where the bot adds.
pub open spec fn filled_count(n: nat) -> nat {
    if n == 0 { 0 } else { ((n - 1) / 10 * 10 + 1) as nat }
}

/// Whether the bot adds the songs fetched so far after fetching the one at position `i`.
pub fn flushes_after(i: usize) -> (b: bool)
    ensures
        b == flushes_at(i as nat),
{
    i % 10 == 0
}

/// Filling adds exactly the songs up to the last position where it adds: at most nine fetched
/// songs at the end of the playlist are never added.
pub proof fn law_filled_count(n: nat)
    ensures
        filled_count(n) <= n,
        n > 0 ==> n - filled_count(n) <= 9,
        n > 0 ==> flushes_at((filled_count(n) - 1) as nat),
        forall|i: nat| filled_count(n) <= i < n ==> !#[trigger] flushes_at(i),
{
    if n > 0 {
        let f = filled_count(n);
        assert(f - 1 == (n - 1) / 10 * 10);
        assert forall|i: nat| f <= i < n implies !#[trigger] flushes_at(i) by {
            assert((n - 1) / 10 * 10 <= n - 1);
            assert(i / 10 == (n - 1) / 10) by (nonlinear_arith)
                requires (n - 1) / 10 * 10 + 1 <= i, i <= n - 1;
        }
    }
}

} // verus!
