use markov_bot::blacklist::{
    ban_user_from_editing_tags, continue_saving_my_messages, set_tag_response_channel, stop_saving_my_messages,
    toggle_channel_saving, toggle_server_saving, IdSet, ResponseChannels,
};
use markov_bot::chain::{
    create_default_chain, entry_for_message, generate_new_corpus, init_markov, markov_filter, reply_for,
    MARKOV_MAX_TRIES, MARKOV_STATE_SIZE,
};
use markov_bot::commands::{get_full_command_name, ComponentIds, OptionKind, UserCommand};
use markov_bot::data_set::{data_set_entry, messages_from_data_set, split_paragraphs};
use markov_bot::download::{
    attachment_extension, attachment_name, attachment_posted_extension, after_failed_download, check_download, download_source, downloaded_extension,
    first_post_limit, formats_show_sizes, stage_args, ytdlp_next, YtdlpNext, YtdlpStage, next_max_filesize, over_limit, post_file_step, PostAction, PostEvent, ytdlp_args, ytdlp_plain_args, DownloadCheck,
    DownloadFileFromMessageError, DownloadSource, FailedDownloadStep, GetGuildChannelError,
};
use markov_bot::markov::{ErrorType, InputData, MarkovResult};
use markov_bot::memes::{find_saved_meme, meme_attachment_name, meme_categories, ordered_meme_step, plan_meme_save, plan_new_meme, random_meme, upload_meme_step, MemeFile, MemeSave, UploadStep};
use markov_bot::message_filter::{filter_message_for_markov_file, filter_string_for_markov_file, remove_links, Mention};
use markov_bot::numbers::{format_i64, format_two_digits, format_u64, parse_i64, parse_u64, parse_usize};
use markov_bot::options::{CommandOption, GetOptionFromCommand, OptionValue, SubCommandData};
use markov_bot::patterns::contains_text;
use markov_bot::queue::{
    bring_to_front, clamp_queue_start, format_page, get_queue_start, get_queue_start_from_button,
    get_queue_start_from_queue_message, play_now, position_of_title, select_menu_options, shuffle_command, shuffle_queue, QueueData, refill_after_shuffle, take_after_current,
    skip_number, skip_type_from_str, skip_until, skipped_title, swap_restarts_current, take_chars,
    try_get_queue_start, SkipType, SongQueue, Swapable, SwapableError,
};
use markov_bot::tags::{
    check_for_listened_words, check_for_tag_listeners, create_tag_reply, create_tag_step, is_tag_valid, list_tags_message,
    remove_tag_reply, tag_channel_text, tag_ping_toggle_reply, CreateTagError, CreateTagStep, Tag,
};
use markov_bot::text::{join_strings, split_words, trim_whitespace};
use markov_bot::voice::{
    classify_query, is_bot_in_another_voice_channel, last_message_type, loop_reply, loop_turns_on,
    minutes_seconds, now_playing_action, play_refused, playlist_video_urls, queue_description, queue_length,
    queued_reply, queued_reply_buttons, should_leave_after_update, slot_for_reply, song_heading, song_subheading, time_until_playing,
    total_duration, flushes_after, LastMessageType, LoopState, MessageSlot, NowPlayingAction, SourceQuery,
    AuxMetadata, MyAuxMetadata,
};

fn words(s: &str) -> Vec<String> {
    s.split(' ').map(|w| w.to_string()).collect()
}

fn tag(id: i32, listener: &str, response: &str) -> Tag {
    Tag {
        id,
        listener: listener.to_string(),
        response: response.to_string(),
        creator_name: "someone".to_string(),
        creator_id: 1,
        server_id: 2,
    }
}

// ---------------------------------------------------------------- text and numbers

#[test]
fn split_and_join_words_round_trip() {
    let w = split_words("a b  c");
    assert_eq!(w, vec!["a", "b", "", "c"]);
    assert_eq!(join_strings(&w), "a b  c");
}

#[test]
fn trim_removes_unicode_whitespace() {
    assert_eq!(trim_whitespace("\u{a0} hi there \n"), "hi there");
}

#[test]
fn numbers_format_and_parse() {
    assert_eq!(format_u64(0), "0");
    assert_eq!(format_u64(1234567), "1234567");
    assert_eq!(format_two_digits(7), "07");
    assert_eq!(format_two_digits(123), "123");
    assert_eq!(format_i64(-42), "-42");
    assert_eq!(format_i64(i64::MIN), i64::MIN.to_string());
    assert_eq!(parse_i64("-17"), Some(-17));
    assert_eq!(parse_i64("+17"), Some(17));
    assert_eq!(parse_i64("9223372036854775808"), None);
    assert_eq!(parse_i64("-9223372036854775808"), Some(i64::MIN));
    assert_eq!(parse_i64(""), None);
    assert_eq!(parse_i64("-"), None);
    assert_eq!(parse_i64("12a"), None);
    assert_eq!(parse_u64("18446744073709551615"), Some(u64::MAX));
    assert_eq!(parse_u64("18446744073709551616"), None);
    assert_eq!(parse_usize("-1"), None);
    assert_eq!(parse_usize("42"), Some(42));
}

#[test]
fn numbers_round_trip() {
    for n in [0u64, 9, 10, 99, 100, 65535, 9_000_000_000] {
        assert_eq!(parse_i64(&format_u64(n)), Some(n as i64));
    }
}

// ---------------------------------------------------------------- tags

#[test]
fn tag_phrase_is_found() {
    let tags = vec![tag(1, "good morning", "hi!")];
    assert_eq!(check_for_tag_listeners(&words("well good morning all"), &tags, false), Some("hi!".to_string()));
}

#[test]
fn tag_phrase_after_a_false_start_is_found() {
    // a phrase is found wherever its words stand one after another
    let tags = vec![tag(1, "a b", "found")];
    assert_eq!(check_for_tag_listeners(&words("a a b"), &tags, false), Some("found".to_string()));
    assert_eq!(check_for_tag_listeners(&words("a b"), &tags, false), Some("found".to_string()));
    assert_eq!(check_for_tag_listeners(&words("b a"), &tags, false), None);
    let listeners = vec![("a b".to_string(), "shared".to_string())];
    assert_eq!(check_for_listened_words(&words("x a a b"), &listeners, false), Some("shared".to_string()));
}

#[test]
fn tag_phrase_wins_over_single_word() {
    let tags = vec![tag(1, "cat", "meow"), tag(2, "big dog", "woof")];
    assert_eq!(check_for_tag_listeners(&words("a cat and a big dog"), &tags, false), Some("woof".to_string()));
    assert_eq!(check_for_tag_listeners(&words("a cat"), &tags, false), Some("meow".to_string()));
}

#[test]
fn tag_blacklisted_user_gets_nothing() {
    let tags = vec![tag(1, "cat", "meow")];
    assert_eq!(check_for_tag_listeners(&words("cat"), &tags, true), None);
}

#[test]
fn tag_validity() {
    assert!(is_tag_valid("hello there", "hi"));
    assert!(!is_tag_valid("<@123>", "hi"));
    assert!(!is_tag_valid("hello", "<@!123>"));
    assert!(!is_tag_valid("<@&5>", "hi"));
    assert!(!is_tag_valid("ping @everyone", "hi"));
    assert!(!is_tag_valid("ping @here", "hi"));
    assert!(!is_tag_valid("fine", "hi!"));
}

#[test]
fn tag_creation_steps() {
    assert!(matches!(create_tag_step(false, "hi", "there"), CreateTagStep::OutsideServer));
    assert!(matches!(create_tag_step(true, "hi!", "there"), CreateTagStep::Invalid));
    match create_tag_step(true, " Good Morning ", "  hello ") {
        CreateTagStep::Store { listener, response } => {
            assert_eq!(listener, "good morning");
            assert_eq!(response, "hello");
        }
        _ => panic!("expected a tag to store"),
    }
}

#[test]
fn tag_replies() {
    let t = tag(1, "cat", "meow");
    assert_eq!(create_tag_reply("Cat", &Ok(tag(1, "cat", "meow"))), "Created tag cat");
    assert_eq!(create_tag_reply("Cat", &Err(CreateTagError::TagWithSameListenerExists)), "The tag \"Cat\" already exists");
    assert_eq!(remove_tag_reply("cat", Some(&t)), "Removed the tag cat");
    assert_eq!(remove_tag_reply("dog", None), "Couldn't find the tag dog");
    assert_eq!(tag_ping_toggle_reply(true), "I will now ping you when you trip off a tag");
    assert_eq!(tag_ping_toggle_reply(false), "I won't ping you anymore when you trip off a tag");
    assert_eq!(tag_channel_text(true, "<@1>", "meow"), "meow");
    assert_eq!(tag_channel_text(false, "<@1>", "meow"), "<@1> meow");
    assert_eq!(CreateTagError::TagWithSameListenerExists.message(), "There already exists a tag with the same listener");
}

#[test]
fn tag_list_message() {
    assert_eq!(list_tags_message(&[]), "There are no tags in this server");
    assert_eq!(list_tags_message(&[tag(1, "a", "x"), tag(2, "b c", "y")]), "a, b c");
}

// ---------------------------------------------------------------- blacklists

#[test]
fn id_set_toggle_twice_restores() {
    let mut s = IdSet::new();
    s.insert(5);
    assert!(!s.toggle(7));
    assert!(s.contains(7));
    assert!(s.toggle(7));
    assert!(!s.contains(7));
    assert!(s.contains(5));
    assert_eq!(s.len(), 1);
}

#[test]
fn saving_replies() {
    let mut users = IdSet::new();
    assert_eq!(stop_saving_my_messages(&mut users, 3, "bob"), "Added bob to data collection blacklist");
    assert_eq!(stop_saving_my_messages(&mut users, 3, "bob"), "I'm already not saving your messages");
    assert_eq!(continue_saving_my_messages(&mut users, 3, "bob"), "removed bob from data collection blacklist");
    assert!(!users.contains(3));
    let mut channels = IdSet::new();
    assert_eq!(toggle_channel_saving(&mut channels, 9), "Stopping message saving in this channel");
    assert_eq!(toggle_channel_saving(&mut channels, 9), "Continuing message saving in this channel");
    let mut servers = IdSet::new();
    assert_eq!(toggle_server_saving(&mut servers, None), "This command can only be used in a server");
    assert_eq!(toggle_server_saving(&mut servers, Some(4)), "Stopping message saving in this server");
    assert_eq!(toggle_server_saving(&mut servers, Some(4)), "Continuing message saving in this server");
}

#[test]
fn response_channel_read_after_write() {
    let mut channels = ResponseChannels::new();
    assert_eq!(channels.get(1), None);
    assert_eq!(set_tag_response_channel(&mut channels, Some(1), 10), "Successfully set this channel as the tag response channel");
    channels.set(2, 20);
    channels.set(1, 11);
    assert_eq!(channels.get(1), Some(11));
    assert_eq!(channels.get(2), Some(20));
    assert_eq!(set_tag_response_channel(&mut channels, None, 5), "You can only use this command in a server");
}

#[test]
fn tag_ban_replies() {
    let mut banned = IdSet::new();
    assert_eq!(ban_user_from_editing_tags(&mut banned, false, true, 1), vec!["Can't run this command outside of a server"]);
    assert_eq!(ban_user_from_editing_tags(&mut banned, true, true, 1), vec!["Banned user from editing tags"]);
    assert_eq!(
        ban_user_from_editing_tags(&mut banned, true, false, 1),
        vec!["Only moderators can run this command", "Unbanned user from editing tags"]
    );
    assert!(!banned.contains(1));
}

// ---------------------------------------------------------------- commands

#[test]
fn component_ids_round_trip() {
    for c in [
        ComponentIds::BlacklistMeFromTags,
        ComponentIds::QueueNext,
        ComponentIds::QueuePrevious,
        ComponentIds::Skip,
        ComponentIds::PlayNow,
        ComponentIds::PlayNowMenu,
        ComponentIds::BringToFront,
        ComponentIds::BringToFrontMenu,
        ComponentIds::QueueStart,
        ComponentIds::QueueEnd,
        ComponentIds::Shuffle,
    ] {
        assert_eq!(ComponentIds::from_id(&c.id()), Some(c));
    }
    assert_eq!(ComponentIds::QueueNext.id(), "QueueNext");
    assert_eq!(ComponentIds::from_id("nope"), None);
}

#[test]
fn user_command_names() {
    assert_eq!(UserCommand::from_name("tag create"), Some(UserCommand::create_tag));
    assert_eq!(UserCommand::from_name("loop"), Some(UserCommand::loop_song));
    assert_eq!(UserCommand::from_name("Download from Link"), Some(UserCommand::download_from_message_link));
    assert_eq!(UserCommand::from_name("loop_song"), None);
    assert_eq!(UserCommand::swap_songs.name(), "swap-songs");
    assert_eq!(UserCommand::meme_post.sub_command(), Some("post".to_string()));
    assert_eq!(UserCommand::ping.sub_command(), None);
    assert_eq!(UserCommand::from_name(&UserCommand::queue_shuffle.name()), Some(UserCommand::queue_shuffle));
}

#[test]
fn full_command_names() {
    assert_eq!(get_full_command_name("ping", &[]), "ping");
    let opts = vec![(OptionKind::SubCommand, "create".to_string()), (OptionKind::Other, "x".to_string())];
    assert_eq!(get_full_command_name("tag", &opts), "tag create");
    let opts = vec![(OptionKind::SubCommandGroup, "g".to_string()), (OptionKind::SubCommand, "s".to_string())];
    assert_eq!(get_full_command_name("cmd", &opts), "cmd s g");
}

#[test]
fn command_options() {
    let data = SubCommandData {
        options: vec![
            CommandOption { name: "tag".to_string(), value: OptionValue::String("cats".to_string()) },
            CommandOption { name: "ordered".to_string(), value: OptionValue::Boolean(true) },
            CommandOption { name: "n".to_string(), value: OptionValue::Integer(3) },
        ],
    };
    assert_eq!(data.get_string("tag"), "cats");
    assert_eq!(data.get_optional_bool("ordered"), Some(true));
    assert_eq!(data.get_optional_bool("ephemeral"), None);
}

// ---------------------------------------------------------------- queue

#[test]
fn queue_start_from_page_text() {
    assert_eq!(get_queue_start("Page 1"), 1);
    assert_eq!(get_queue_start("Page 2"), 10);
    assert_eq!(get_queue_start_from_queue_message("Page 5"), 40);
    assert_eq!(try_get_queue_start("Page"), None);
    assert_eq!(try_get_queue_start("Page x"), None);
    assert_eq!(try_get_queue_start("Page 0"), None);
    assert_eq!(format_page(1), "Page 1");
    assert_eq!(format_page(11), "Page 2");
    assert_eq!(format_page(40), "Page 5");
}

#[test]
fn page_round_trip() {
    for s in [1usize, 9, 10, 11, 20, 35, 99, 100] {
        let back = get_queue_start(&format_page(s));
        assert_eq!(back / 10 + 1, s / 10 + 1);
    }
}

#[test]
fn queue_buttons() {
    assert_eq!(get_queue_start_from_button("Page 1", ComponentIds::QueueNext, 25), 11);
    assert_eq!(get_queue_start_from_button("Page 3", ComponentIds::QueueNext, 25), 20);
    assert_eq!(get_queue_start_from_button("Page 2", ComponentIds::QueuePrevious, 25), 1);
    assert_eq!(get_queue_start_from_button("Page 4", ComponentIds::QueuePrevious, 45), 20);
    assert_eq!(get_queue_start_from_button("Page 4", ComponentIds::QueueStart, 45), 1);
    assert_eq!(get_queue_start_from_button("Page 1", ComponentIds::QueueEnd, 45), 40);
    assert_eq!(get_queue_start_from_button("Page 1", ComponentIds::QueueEnd, 7), 1);
}

#[test]
fn queue_start_clamping() {
    assert_eq!(clamp_queue_start(5, 30), 5);
    assert_eq!(clamp_queue_start(31, 30), 20);
    assert_eq!(clamp_queue_start(40, 35), 20);
    assert_eq!(clamp_queue_start(20, 3), 1);
}

#[test]
fn queue_select_menus() {
    let headings: Vec<String> = (0..25).map(|i| format!("{}. song", i + 1)).collect();
    let first = select_menu_options(&headings, 1);
    assert_eq!(first.len(), 9);
    assert_eq!(first[0], ("2. song".to_string(), "1".to_string()));
    let second = select_menu_options(&headings, 11);
    assert_eq!(second.len(), 10);
    assert_eq!(second[0].1, "10");
    let small = select_menu_options(&headings[..1], 1);
    assert_eq!(small, vec![("Queue isn't big enough".to_string(), "-1".to_string())]);
    assert_eq!(take_chars("héllo", 2), "hé");
}

#[test]
fn swapping_songs() {
    let mut q = SongQueue { tracks: vec![1, 2, 3, 4] };
    assert_eq!(q.swap(2, 4), Ok(()));
    assert_eq!(q.tracks, vec![1, 4, 3, 2]);
    assert_eq!(q.swap(1, 9), Err(SwapableError::IndexOutOfBounds));
    assert_eq!(q.swap(0, 2), Err(SwapableError::IndexOutOfBounds));
    assert_eq!(q.swap(3, 3), Err(SwapableError::CannotSwapSameSong));
    // either order of the two positions swaps the same songs
    assert_eq!(q.swap(4, 2), Ok(()));
    assert_eq!(q.tracks, vec![1, 2, 3, 4]);
    assert_eq!(q.swap(5, 2), Err(SwapableError::IndexOutOfBounds));
    assert_eq!(q.tracks, vec![1, 2, 3, 4]);
    let mut empty: SongQueue<u8> = SongQueue { tracks: vec![] };
    assert_eq!(empty.swap(1, 2), Err(SwapableError::NothingIsPlaying));
    assert!(swap_restarts_current(1, 3));
    assert!(!swap_restarts_current(2, 3));
    assert_eq!(SwapableError::NothingIsPlaying.message(), "Can't swap any songs if the queue is empty");
}

#[test]
fn reordering_songs() {
    let mut q = SongQueue { tracks: vec!["a", "b", "c", "d"] };
    bring_to_front(&mut q, 3);
    assert_eq!(q.tracks, vec!["a", "d", "b", "c"]);
    play_now(&mut q, 2);
    assert_eq!(q.tracks, vec!["b", "a", "d", "c"]);
    let titles: Vec<String> = q.tracks.iter().map(|s| s.to_string()).collect();
    assert_eq!(position_of_title(&titles, &"d".to_string()), Some(2));
    assert_eq!(position_of_title(&titles, &"z".to_string()), None);
}

#[test]
fn shuffling_keeps_the_current_song_and_the_songs() {
    let mut q = SongQueue { tracks: (0..50).collect::<Vec<u32>>() };
    shuffle_queue(&mut q);
    assert_eq!(q.tracks[0], 0);
    assert_ne!(q.tracks, (0..50).collect::<Vec<u32>>());
    let mut sorted = q.tracks.clone();
    sorted.sort();
    assert_eq!(sorted, (0..50).collect::<Vec<u32>>());
}

#[test]
fn skipping_songs() {
    assert_eq!(skip_type_from_str("number"), Some(SkipType::Number));
    assert_eq!(skip_type_from_str("until"), Some(SkipType::Until));
    assert_eq!(skip_type_from_str("other"), None);
    let mut q = SongQueue { tracks: vec![1, 2, 3, 4, 5] };
    assert!(skip_number(&mut q, 3));
    assert_eq!(q.tracks, vec![1, 2, 4, 5]);
    assert!(!skip_number(&mut q, 9));
    assert!(skip_number(&mut q, 1));
    assert_eq!(q.tracks, vec![2, 4, 5]);
    let mut q = SongQueue { tracks: vec![1, 2, 3, 4, 5] };
    assert!(skip_until(&mut q, 4));
    assert_eq!(q.tracks, vec![4, 5]);
    let mut q = SongQueue { tracks: vec![1, 2] };
    assert!(!skip_until(&mut q, 10));
    assert!(q.tracks.is_empty());
    assert_eq!(skipped_title(3), "Song skipped, 2 left in queue.");
}

// ---------------------------------------------------------------- voice

#[test]
fn durations() {
    assert_eq!(minutes_seconds(125), "2:05");
    assert_eq!(minutes_seconds(3600), "60:00");
    assert_eq!(queue_length(3725), "01h:02m:05s");
    assert_eq!(queue_length(360000), "100h:00m:00s");
    assert_eq!(total_duration(&[10, 20, 30]), Some(60));
    assert_eq!(total_duration(&[u64::MAX, 1]), None);
    assert_eq!(time_until_playing(&[100, 50, 30], 30), "2:30");
    assert_eq!(queue_description(3, 61), "Current size: **3** | Total queue length: **00h:01m:01s**");
}

#[test]
fn song_texts() {
    let t = MyAuxMetadata {
        aux_metadata: AuxMetadata {
            title: Some("Song".to_string()),
            channel: None,
            duration_secs: Some(61),
            source_url: None,
            thumbnail: None,
        },
        queued_by: "bob".to_string(),
    };
    assert_eq!(song_heading(0, &t), "1. Song | Unknown");
    assert_eq!(song_subheading(&t), "1:01 | Queued by **bob**");
    assert_eq!(queued_reply(1), "Playing");
    assert_eq!(queued_reply(4), "Position in queue: 4");
    assert_eq!(slot_for_reply("Playing"), MessageSlot::NowPlaying);
    assert_eq!(slot_for_reply("Position in queue: 4"), MessageSlot::PositionInQueue);
    assert_eq!(slot_for_reply("Invalid link"), MessageSlot::Neither);
}

#[test]
fn now_playing_decisions() {
    let np = last_message_type(true, true, Some("u".to_string()), true);
    assert_eq!(now_playing_action(&np, "x"), NowPlayingAction::EditNowPlaying { with_shuffle: true });
    let pos = last_message_type(false, true, Some("u".to_string()), false);
    assert_eq!(now_playing_action(&pos, "u"), NowPlayingAction::PromotePosition);
    assert_eq!(now_playing_action(&pos, "v"), NowPlayingAction::SendNew);
    let other = last_message_type(false, false, None, false);
    assert!(matches!(other, LastMessageType::Neither));
    assert_eq!(now_playing_action(&other, "v"), NowPlayingAction::SendNew);
}

#[test]
fn voice_channel_checks() {
    assert!(is_bot_in_another_voice_channel(None, Some(1)));
    assert!(!is_bot_in_another_voice_channel(Some(1), None));
    assert!(!is_bot_in_another_voice_channel(Some(1), Some(1)));
    assert!(is_bot_in_another_voice_channel(Some(1), Some(2)));
    assert!(play_refused(true, Some(2)));
    assert!(!play_refused(true, Some(0)));
    assert!(!play_refused(false, Some(2)));
    assert!(should_leave_after_update(Some(3), Some(3), 1));
    assert!(!should_leave_after_update(Some(3), Some(4), 1));
    assert!(!should_leave_after_update(Some(3), Some(3), 2));
    assert!(loop_turns_on(LoopState::Finite(0)));
    assert!(!loop_turns_on(LoopState::Finite(2)));
    assert!(!loop_turns_on(LoopState::Infinite));
    assert_eq!(loop_reply(true), "Looping the current song.");
}

#[test]
fn play_queries() {
    match classify_query("never gonna give you up") {
        SourceQuery::Search { query } => assert_eq!(query, "ytsearch:never gonna give you up"),
        _ => panic!("expected a search"),
    }
    match classify_query("https://www.youtube.com/watch?v=abc&list=xyz") {
        SourceQuery::Video { url } => assert_eq!(url, "https://www.youtube.com/watch?v=abc"),
        _ => panic!("expected a video"),
    }
    match classify_query("https://www.youtube.com/playlist?list=xyz") {
        SourceQuery::Playlist { url } => assert_eq!(url, "https://www.youtube.com/playlist?list=xyz"),
        _ => panic!("expected a playlist"),
    }
    assert_eq!(
        playlist_video_urls("a1\n\nb2\n"),
        vec!["https://www.youtube.com/watch?v=a1", "https://www.youtube.com/watch?v=b2"]
    );
}

#[test]
fn playlist_filling_batches() {
    let flushes: Vec<usize> = (0..25).filter(|&i| flushes_after(i)).collect();
    assert_eq!(flushes, vec![0, 10, 20]);
}

// ---------------------------------------------------------------- downloads

#[test]
fn download_sources() {
    assert!(matches!(download_source("look https://example.com/a.mp4 here", false), Ok(DownloadSource::Link { url }) if url == "https://example.com/a.mp4"));
    assert!(matches!(download_source("no link here", true), Ok(DownloadSource::Attachment)));
    assert_eq!(download_source("no link here", false).err(), Some(DownloadFileFromMessageError::NoLinkFound));
}

#[test]
fn download_arguments_and_steps() {
    let args = ytdlp_args(50, "u");
    assert_eq!(args, vec!["-f", "b[filesize<50M]/b[filesize_approx<50M]/b", "-o", "-", "--max-filesize", "50M", "u"]);
    assert_eq!(ytdlp_plain_args(10, "u"), vec!["-o", "-", "--max-filesize", "10M", "u"]);
    assert_eq!(after_failed_download("ERROR: Requested format is not available"), FailedDownloadStep::ListFormats);
    assert_eq!(after_failed_download("ERROR: 404"), FailedDownloadStep::Fail(DownloadFileFromMessageError::UnsupportedLink));
    assert!(formats_show_sizes("ID EXT FILESIZE"));
    assert!(over_limit(10_000_001, 10));
    assert!(!over_limit(10_000_000, 10));
    assert_eq!(next_max_filesize(50), Some(10));
    assert_eq!(next_max_filesize(10), None);
    assert_eq!(DownloadFileFromMessageError::FileTooLarge.message(), "File too large");
    assert_eq!(GetGuildChannelError::ChannelNotInGuild.message(), "The requested channel doesn't exist in the guild");
}

#[test]
fn attachment_names() {
    assert_eq!(attachment_extension("clip.MP4"), Some("MP4".to_string()));
    assert_eq!(attachment_extension("a.tar.gz"), Some("gz".to_string()));
    assert_eq!(attachment_extension(".bashrc"), None);
    assert_eq!(attachment_extension("noext"), None);
    assert_eq!(attachment_extension(".."), None);
    assert_eq!(attachment_extension("a."), Some(String::new()));
    assert_eq!(attachment_name(1_575_072_100, "mp4"), "doki-100.mp4");
    assert_eq!(attachment_posted_extension("clip.ts", DownloadCheck::Convert), Some("mp4".to_string()));
    assert_eq!(attachment_posted_extension("clip.webm", DownloadCheck::Keep), Some("webm".to_string()));
    assert_eq!(attachment_posted_extension("clip", DownloadCheck::Keep), None);
}

#[test]
fn downloaded_bytes_are_checked() {
    let png: Vec<u8> = vec![0x89, 0x50, 0x4E, 0x47, 0x0D, 0x0A, 0x1A, 0x0A, 0, 0, 0, 13, 0x49, 0x48, 0x44, 0x52];
    assert_eq!(check_download(&png), Ok(DownloadCheck::Keep));
    let zip: Vec<u8> = vec![0x50, 0x4B, 0x03, 0x04, 20, 0, 0, 0, 0, 0, 0, 0, 0, 0, 0, 0];
    assert_eq!(check_download(&zip), Err(DownloadFileFromMessageError::UnsupportedLink));
    let mut ts = vec![0u8; 376];
    ts[0] = 0x47;
    ts[188] = 0x47;
    assert_eq!(check_download(&ts), Ok(DownloadCheck::Convert));
    assert_eq!(downloaded_extension(&png), "png");
    assert_eq!(downloaded_extension(&ts), "ts");
}

// ---------------------------------------------------------------- memes

#[test]
fn meme_categories_and_names() {
    assert_eq!(meme_categories("Cat cute"), vec!["cat", "cute"]);
    let cats = vec!["cat".to_string(), "cute".to_string()];
    let m = plan_new_meme(77, "MP4", &cats, 4);
    assert_eq!(m.folder, "cat");
    assert_eq!(m.name, "cat_5");
    assert_eq!(m.extension, "mp4");
    assert_eq!(m.hash, 77);
    let saved = vec![MemeFile { id: 4, folder: "cat".to_string(), name: "cat_1".to_string(), extension: "png".to_string(), hash: 77 }];
    assert_eq!(find_saved_meme(77, &saved), Some(4));
    assert_eq!(find_saved_meme(78, &saved), None);
    // the same bytes hash alike within a run, so saving them twice finds the first file
    let (h, first) = plan_meme_save(&[1, 2, 3], "mp4", &cats, 0, &[]);
    let new = match first {
        MemeSave::New(n) => n,
        MemeSave::Existing(_) => panic!("nothing was saved yet"),
    };
    assert_eq!(new.hash, h);
    assert_eq!(new.name, "cat_1");
    let stored = vec![MemeFile { id: 9, folder: new.folder, name: new.name, extension: new.extension, hash: h }];
    let (h2, second) = plan_meme_save(&[1, 2, 3], "mp4", &cats, 1, &stored);
    assert_eq!(h2, h);
    assert!(matches!(second, MemeSave::Existing(9)));
    let f = MemeFile { id: 1, folder: "cat".to_string(), name: "cat_1".to_string(), extension: "png".to_string(), hash: 0 };
    assert_eq!(meme_attachment_name(&f), "cat_1.png");
}

#[test]
fn ordered_memes_cycle() {
    let files = [7, 3, 12];
    // a server without a saved position starts at the oldest file of the category
    assert_eq!(ordered_meme_step(&files, None), (3, 7));
    assert_eq!(ordered_meme_step(&files, Some(7)), (7, 12));
    assert_eq!(ordered_meme_step(&files, Some(12)), (12, 3));
    // a saved position that is not one of the category's files: the oldest again
    assert_eq!(ordered_meme_step(&[5, 9], Some(1)), (5, 9));
    assert_eq!(ordered_meme_step(&[5, 9], Some(7)), (5, 9));
    // the posts go round: 3, 7, 12, 3, ...
    let mut cursor = 3;
    let mut posted = vec![];
    for _ in 0..4 {
        let (p, next) = ordered_meme_step(&files, Some(cursor));
        posted.push(p);
        cursor = next;
    }
    assert_eq!(posted, vec![3, 7, 12, 3]);
}

#[test]
fn random_memes() {
    assert_eq!(random_meme(&[]), None);
    for _ in 0..20 {
        let m = random_meme(&[4, 5, 6]).unwrap();
        assert!([4, 5, 6].contains(&m));
    }
}

// ---------------------------------------------------------------- saved messages

#[test]
fn saved_messages_read_back() {
    let messages = ["first message here", "second one", ""];
    let mut file = String::new();
    for m in messages {
        file.push_str(&data_set_entry(m));
    }
    assert_eq!(split_paragraphs(&file), vec!["first message here", "second one", "", ""]);
    let inputs = messages_from_data_set("a b\n\nc d");
    assert_eq!(inputs.len(), 2);
    assert_eq!(inputs[1].text, "c d");
    assert_eq!(inputs[1].meta, None);
    assert_eq!(split_paragraphs("a\n\n\nb"), vec!["a", "\nb"]);
}

#[test]
fn message_cleaning() {
    assert_eq!(remove_links("see https://example.com   "), "see");
    assert_eq!(filter_string_for_markov_file("Hello, World!  How are you?"), "hello world how are you");
    assert_eq!(filter_string_for_markov_file("line one\nline two <:smile:123> ok"), "line one line two ok");
    let none: Vec<Mention> = vec![];
    assert_eq!(
        filter_message_for_markov_file("This is a Fine message indeed", &none),
        Some("this is a fine message indeed".to_string())
    );
    assert_eq!(filter_message_for_markov_file("too short", &none), None);
    // every upper-case letter is lowered, not only those that start a word
    assert_eq!(
        filter_message_for_markov_file("THIS is A Fine MESSAGE indeed", &none),
        Some("this is a fine message indeed".to_string())
    );
    let mentioned = vec![Mention { id: 42, name: "bob".to_string() }];
    // a mention is replaced by the user's name
    assert_eq!(
        filter_message_for_markov_file("hey <@42> how are you doing", &mentioned),
        Some("hey bob how are you doing".to_string())
    );
    assert_eq!(
        filter_message_for_markov_file("<@42> is a really nice person", &mentioned),
        Some("bob is a really nice person".to_string())
    );
    // a mention of a user the message does not list cannot be named: not saved
    assert_eq!(filter_message_for_markov_file("hey <@7> how are you doing", &mentioned), None);
    assert!(contains_text("abc", "bc"));
    assert!(!contains_text("abc", "cb"));
}

// ---------------------------------------------------------------- the bot's chain

#[test]
fn bot_chain_settings() {
    let chain = create_default_chain();
    assert_eq!(chain.get_state_size(), MARKOV_STATE_SIZE);
    assert_eq!(chain.corpus_len(), 0);
    assert_eq!(reply_for(&chain.generate(), false), "The corpus is empty, try again later!");
    assert_eq!(MARKOV_MAX_TRIES, 5000);
}

#[test]
fn bot_chain_replies() {
    let ok = MarkovResult { text: "a b c".to_string(), score: 30, refs: vec![0, 1, 2], tries: 1 };
    assert!(markov_filter(&ok));
    let low = MarkovResult { text: "a b c".to_string(), score: 19, refs: vec![0, 1, 2], tries: 1 };
    assert!(!markov_filter(&low));
    assert_eq!(reply_for(&Ok(ok), true), "a b c --debug");
    assert_eq!(reply_for(&Err(ErrorType::TriesExceeded), false), "couldn't generate a sentence, try again!");
    assert_eq!(reply_for(&Err(ErrorType::CorpusNotEmpty), false), "Try again later.");
}

#[test]
fn bot_corpus_from_messages() {
    let msgs: Vec<InputData> = ["one two three four five", "two three four five six"]
        .iter()
        .map(|s| InputData { text: s.to_string(), meta: None })
        .collect();
    let export = generate_new_corpus(msgs);
    assert!(export.is_well_formed());
    let msgs: Vec<InputData> = ["one two three", "four five six"]
        .iter()
        .map(|s| InputData { text: s.to_string(), meta: None })
        .collect();
    let (chain, n) = init_markov(msgs);
    assert_eq!(n, 2);
    assert_eq!(chain.get_state_size(), 2);
}

#[test]
fn bot_saves_messages() {
    let users = IdSet::new();
    let channels = IdSet::new();
    let mut servers = IdSet::new();
    let none: Vec<Mention> = vec![];
    let text = "this message has enough words";
    assert_eq!(entry_for_message(Some(1), 2, 3, &users, &channels, &servers, false, text, &none), Some(format!("{text}\n\n")));
    assert_eq!(entry_for_message(None, 2, 3, &users, &channels, &servers, false, text, &none), None);
    assert_eq!(entry_for_message(Some(1), 2, 3, &users, &channels, &servers, true, text, &none), None);
    servers.insert(1);
    assert_eq!(entry_for_message(Some(1), 2, 3, &users, &channels, &servers, false, text, &none), None);
}

#[test]
fn posting_a_file_tries_two_limits() {
    assert_eq!(first_post_limit(), 50);
    assert!(matches!(post_file_step(50, PostEvent::Posted), PostAction::Stop));
    assert!(matches!(post_file_step(50, PostEvent::PostFailed), PostAction::Download(10)));
    match post_file_step(10, PostEvent::PostFailed) {
        PostAction::Reply(t) => assert_eq!(t, "Video too large"),
        _ => panic!("a second failed post gives up"),
    }
    match post_file_step(50, PostEvent::DownloadFailed(DownloadFileFromMessageError::FileTooLarge)) {
        PostAction::Reply(t) => assert_eq!(t, "File too large"),
        _ => panic!("a failed download is answered"),
    }
}

#[test]
fn shuffle_command_replies() {
    let mut q = SongQueue { tracks: vec![1, 2, 3, 4, 5] };
    let mut data = QueueData::new();
    assert_eq!(shuffle_command(false, &mut q, &mut data, 7), "You must be in a voice channel to use that command!");
    assert_eq!(q.tracks, vec![1, 2, 3, 4, 5]);
    assert_eq!(shuffle_command(true, &mut q, &mut data, 7), "Shuffled the queue");
    assert_eq!(q.tracks[0], 1);
    let mut sorted = q.tracks.clone();
    sorted.sort();
    assert_eq!(sorted, vec![1, 2, 3, 4, 5]);
}

#[test]
fn ytdlp_runs_in_order() {
    assert_eq!(ytdlp_next(YtdlpStage::Download, 50, true, "", 10, ""), YtdlpNext::Done);
    assert_eq!(ytdlp_next(YtdlpStage::Download, 50, false, "", 0, "ERROR: Requested format is not available"), YtdlpNext::Run(YtdlpStage::ListFormats));
    assert_eq!(ytdlp_next(YtdlpStage::Download, 50, false, "", 0, "ERROR: 404"), YtdlpNext::Fail(DownloadFileFromMessageError::UnsupportedLink));
    assert_eq!(ytdlp_next(YtdlpStage::ListFormats, 50, true, "ID EXT FILESIZE", 0, ""), YtdlpNext::Fail(DownloadFileFromMessageError::FileTooLarge));
    assert_eq!(ytdlp_next(YtdlpStage::ListFormats, 50, true, "ID EXT", 0, ""), YtdlpNext::Run(YtdlpStage::PlainDownload));
    assert_eq!(ytdlp_next(YtdlpStage::PlainDownload, 10, true, "", 10_000_001, ""), YtdlpNext::Fail(DownloadFileFromMessageError::FileTooLarge));
    assert_eq!(ytdlp_next(YtdlpStage::PlainDownload, 10, true, "", 10_000_000, ""), YtdlpNext::Done);
    assert_eq!(stage_args(YtdlpStage::ListFormats, 50, "u"), vec!["--list-formats", "u"]);
    assert_eq!(stage_args(YtdlpStage::PlainDownload, 10, "u"), vec!["-o", "-", "--max-filesize", "10M", "u"]);
}

#[test]
fn shuffle_takes_and_puts_back_in_reverse() {
    let mut q = SongQueue { tracks: vec![1, 2, 3, 4] };
    let rest = take_after_current(&mut q);
    assert_eq!(q.tracks, vec![1]);
    assert_eq!(rest, vec![4, 3, 2]);
    // the songs go back the last first
    refill_after_shuffle(&mut q, vec![9, 8, 7]);
    assert_eq!(q.tracks, vec![1, 7, 8, 9]);
    let mut q2 = SongQueue { tracks: vec![5] };
    refill_after_shuffle(&mut q2, vec![]);
    assert_eq!(q2.tracks, vec![5]);
}

#[test]
fn queued_reply_has_its_buttons() {
    assert_eq!(queued_reply_buttons(1), vec![ComponentIds::Skip]);
    assert_eq!(queued_reply_buttons(3), vec![ComponentIds::BringToFront, ComponentIds::PlayNow]);
}

#[test]
fn upload_always_has_tags() {
    match upload_meme_step("Cat cute") {
        UploadStep::Save { categories, reply } => {
            assert_eq!(categories, vec!["cat", "cute"]);
            assert!(reply.starts_with("Saved meme."));
        }
        UploadStep::NoTags(_) => panic!("a typed text always has a tag"),
    }
    assert!(matches!(upload_meme_step(""), UploadStep::Save { .. }));
}
