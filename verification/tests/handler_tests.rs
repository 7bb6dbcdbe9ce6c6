use markov_bot::commands::{ButtonIds, ComponentIds};
use markov_bot::handler::{
    component_action, get_first_mentioned_user, help_message, message_action, message_words, user_id_reply,
    version_reply, welcome_message, ComponentAction, MentionedUser, MessageAction,
};
use markov_bot::memes::ordered_meme_step;
use markov_bot::queue::{
    play_last_now, skip_songs, PendingSkip, QueueData, SkipOutcome, SkipType, SongQueue, Swapable,
};
use markov_bot::tags::{
    check_for_listened_words, list_listeners_message, listener_blacklist_reply, remove_listener_reply, set_listener,
};
use markov_bot::voice::{
    attachment_reply, check_attachment, playing_progress, AttachmentCheck, MessageSlot, NowPlayingAction, VoiceMessages,
};

fn words(s: &str) -> Vec<String> {
    s.split(' ').map(|w| w.to_string()).collect()
}

#[test]
fn message_words_are_lowercased_and_split() {
    assert_eq!(message_words("Hello\nWorld  x"), vec!["hello", "world", "", "x"]);
}

#[test]
fn message_actions() {
    assert!(matches!(message_action(true, true, true, "help"), MessageAction::Ignore));
    assert!(matches!(message_action(false, true, true, "<@1> HELP me"), MessageAction::Help));
    match message_action(false, true, true, "<@1> tell me something") {
        MessageAction::Generate { prompt: Some(p) } => assert_eq!(p, "tell me something"),
        _ => panic!("expected a prompt"),
    }
    assert!(matches!(message_action(false, true, true, "<@1>"), MessageAction::Generate { prompt: None }));
    match message_action(false, false, true, "Good Morning") {
        MessageAction::CheckTags { words } => assert_eq!(words, vec!["good", "morning"]),
        _ => panic!("expected a tag check"),
    }
    assert!(matches!(message_action(false, false, false, "hi"), MessageAction::Nothing));
}

#[test]
fn component_actions() {
    assert_eq!(component_action("QueueEnd"), Some(ComponentAction::ChangePage(ComponentIds::QueueEnd)));
    assert_eq!(component_action("PlayNowMenu"), Some(ComponentAction::PlayNow));
    assert_eq!(component_action("BlacklistMeFromTags"), Some(ComponentAction::TogglePings));
    assert_eq!(component_action("Unknown"), None);
    assert_eq!(ButtonIds::from_id(&ButtonIds::BlacklistMeFromTags.id()), Some(ButtonIds::BlacklistMeFromTags));
}

#[test]
fn small_replies() {
    assert_eq!(user_id_reply(Some(("bob", 42))), "bob's id is 42");
    assert_eq!(user_id_reply(None), "Please provide a valid user");
    assert_eq!(version_reply("1.2.3"), "My current version is 1.2.3");
    assert!(help_message().starts_with("All of my commands are slash commands."));
    assert!(welcome_message().contains("/stop-saving-my-messages"));
    let users = [MentionedUser { id: 1, is_bot: true }, MentionedUser { id: 2, is_bot: false }];
    assert_eq!(get_first_mentioned_user(&users), Some(2));
    assert_eq!(get_first_mentioned_user(&users[..1]), None);
}

#[test]
fn listeners() {
    let ls = vec![("big dog".to_string(), "woof".to_string()), ("cat".to_string(), "meow".to_string())];
    assert_eq!(check_for_listened_words(&words("a cat"), &ls, false), Some("meow".to_string()));
    assert_eq!(check_for_listened_words(&words("a big dog"), &ls, false), Some("woof".to_string()));
    assert_eq!(check_for_listened_words(&words("a big dog"), &ls, true), None);
    assert_eq!(set_listener(" Cat ", " meow "), Ok(("cat".to_string(), "meow".to_string())));
    assert_eq!(set_listener("cat", "hi @everyone"), Err("can't add a mention".to_string()));
    assert_eq!(list_listeners_message(&["a".to_string(), "b".to_string()]), "a, b");
    assert_eq!(list_listeners_message(&[]), "");
    assert_eq!(remove_listener_reply(true), "Successfully removed the tag");
    assert_eq!(remove_listener_reply(false), "That tag doesn't exist");
    assert_eq!(listener_blacklist_reply(true), "Removed user from the blacklist");
    assert_eq!(listener_blacklist_reply(false), "Added user to the blacklist");
}

#[test]
fn attachments() {
    assert_eq!(check_attachment(false, None), AttachmentCheck::Missing);
    assert_eq!(check_attachment(true, Some("video/mp4")), AttachmentCheck::Playable);
    assert_eq!(check_attachment(true, Some("audio/ogg")), AttachmentCheck::Playable);
    assert_eq!(check_attachment(true, Some("image/png")), AttachmentCheck::NotMedia);
    assert_eq!(check_attachment(true, None), AttachmentCheck::NotMedia);
    assert_eq!(attachment_reply(AttachmentCheck::Playable), "Playing the attachment now");
    let mut q = SongQueue { tracks: vec![1, 2, 3] };
    play_last_now(&mut q);
    assert_eq!(q.tracks, vec![3, 1, 2]);
    assert_eq!(playing_progress(65, 200), "1:05 / 3:20");
}

#[test]
fn skip_requests() {
    let mut q = SongQueue { tracks: vec![1, 2, 3] };
    assert_eq!(skip_songs(&mut q, false, None), SkipOutcome::Skipped);
    assert_eq!(q.tracks, vec![2, 3]);
    let r = skip_songs(&mut q, true, Some((SkipType::Until, 3)));
    assert_eq!(r, SkipOutcome::Deferred(PendingSkip { skip_type: SkipType::Until, track_number: 3 }));
    assert_eq!(q.tracks, vec![2, 3]);
    assert_eq!(skip_songs(&mut q, false, Some((SkipType::Number, 5))), SkipOutcome::Failed);
    assert_eq!(skip_songs(&mut q, false, Some((SkipType::Number, 2))), SkipOutcome::Skipped);
    assert_eq!(q.tracks, vec![2]);
}

#[test]
fn queue_state_per_server() {
    let mut d = QueueData::new();
    assert!(!d.is_filling(1));
    d.stop_filling(1);
    assert!(!d.is_filling(1));
    d.start_filling(1);
    d.start_filling(2);
    assert!(d.is_filling(1));
    d.stop_filling(1);
    assert!(!d.is_filling(1));
    assert!(d.is_filling(2));
    let p = PendingSkip { skip_type: SkipType::Number, track_number: 4 };
    d.defer_skip(2, p);
    assert_eq!(d.pending_skip(2), Some(p));
    assert_eq!(d.pending_skip(1), None);
    d.mark_shuffled(2);
}

#[test]
fn swapping_twice_restores_the_queue() {
    let mut q = SongQueue { tracks: vec!['a', 'b', 'c', 'd'] };
    q.swap(2, 4).unwrap();
    q.swap(2, 4).unwrap();
    assert_eq!(q.tracks, vec!['a', 'b', 'c', 'd']);
}

#[test]
fn two_servers_keep_their_own_positions() {
    // the example of the memes module: files A, B, C posted in servers X and Y
    let files = [1, 2, 3];
    let (x1, x_next) = ordered_meme_step(&files, None);
    let (x2, _) = ordered_meme_step(&files, Some(x_next));
    let (y1, y_next) = ordered_meme_step(&files, None);
    let (y2, _) = ordered_meme_step(&files, Some(y_next));
    assert_eq!((x1, x2), (1, 2));
    assert_eq!((y1, y2), (1, 2));
}

#[test]
fn voice_message_records() {
    let mut m = VoiceMessages::new();
    assert_eq!(m.get_now_playing(1), None);
    m.record_reply(1, MessageSlot::PositionInQueue, 10);
    m.record_reply(1, MessageSlot::Neither, 11);
    assert_eq!(m.get_position_in_queue(1), Some(10));
    m.record_now_playing(1, NowPlayingAction::PromotePosition, 99);
    assert_eq!(m.get_now_playing(1), Some(10));
    assert_eq!(m.get_position_in_queue(1), None);
    m.record_now_playing(1, NowPlayingAction::SendNew, 12);
    assert_eq!(m.get_now_playing(1), Some(12));
    m.record_now_playing(1, NowPlayingAction::EditNowPlaying { with_shuffle: false }, 13);
    assert_eq!(m.get_now_playing(1), Some(12));
    m.set_queue_message(2, 20);
    assert_eq!(m.get_queue_message(2), Some(20));
    assert_eq!(m.get_queue_message(1), None);
}
