//! The names of the bot's slash commands and of the ids of its buttons and menus.
use vstd::prelude::*;

use crate::text::chars_of;

verus! {

/// Whether two texts are equal, character by character.
pub fn text_eq(a: &str, b: &str) -> (r: bool)
    ensures
        r == (a@ == b@),
{
    let x = chars_of(a);
    let y = chars_of(b);
    if x.len() != y.len() {
        return false;
    }
    let mut i: usize = 0;
    while i < x.len()
        invariant
            x@ == a@,
            y@ == b@,
            x@.len() == y@.len(),
            i <= x@.len(),
            forall|k: int| 0 <= k < i ==> x@[k] == y@[k],
        decreases x@.len() - i,
    {
        if x[i] != y[i] {
            return false;
        }
        i = i + 1;
    }
    assert(x@ =~= y@);
    true
}

/// The index of the first name from `i` on that equals `s`.
pub open spec fn find_name(s: Seq<char>, names: Seq<Seq<char>>, i: int) -> Option<int>
    decreases names.len() - i,
{
    if i < 0 || i >= names.len() {
        None
    } else if names[i] == s {
        Some(i)
    } else {
        find_name(s, names, i + 1)
    }
}

/// Among distinct names, searching for the name at `k` finds `k`.
pub proof fn lemma_find_name(names: Seq<Seq<char>>, k: int, i: int)
    requires
        0 <= i <= k < names.len(),
        forall|a: int, b: int| 0 <= a < b < names.len() ==> names[a] != names[b],
    ensures
        find_name(names[k], names, i) == Some(k),
    decreases k - i,
{
    if i < k {
        assert(names[i] != names[k]);
        lemma_find_name(names, k, i + 1);
    }
}

/// The ids of the bot's buttons and menus.
#[derive(Debug, Clone, Copy, PartialEq, Eq, Structural)]
pub enum ComponentIds {
    BlacklistMeFromTags,
    QueueNext,
    QueuePrevious,
    Skip,
    PlayNow,
    PlayNowMenu,
    BringToFront,
    BringToFrontMenu,
    QueueStart,
    QueueEnd,
    Shuffle,
}

/// The names of all the component ids, in declaration order.
pub open spec fn component_names() -> Seq<Seq<char>> {
    seq!["BlacklistMeFromTags"@, "QueueNext"@, "QueuePrevious"@, "Skip"@, "PlayNow"@, "PlayNowMenu"@, "BringToFront"@, "BringToFrontMenu"@, "QueueStart"@, "QueueEnd"@, "Shuffle"@]
}

/// All the component ids, in declaration order.
pub open spec fn all_components() -> Seq<ComponentIds> {
    seq![ComponentIds::BlacklistMeFromTags, ComponentIds::QueueNext, ComponentIds::QueuePrevious, ComponentIds::Skip, ComponentIds::PlayNow, ComponentIds::PlayNowMenu, ComponentIds::BringToFront, ComponentIds::BringToFrontMenu, ComponentIds::QueueStart, ComponentIds::QueueEnd, ComponentIds::Shuffle]
}

/// The id of a component, the variant's name.
pub open spec fn component_id_text(c: ComponentIds) -> Seq<char> {
    match c {
        ComponentIds::BlacklistMeFromTags => component_names()[0],
        ComponentIds::QueueNext => component_names()[1],
        ComponentIds::QueuePrevious => component_names()[2],
        ComponentIds::Skip => component_names()[3],
        ComponentIds::PlayNow => component_names()[4],
        ComponentIds::PlayNowMenu => component_names()[5],
        ComponentIds::BringToFront => component_names()[6],
        ComponentIds::BringToFrontMenu => component_names()[7],
        ComponentIds::QueueStart => component_names()[8],
        ComponentIds::QueueEnd => component_names()[9],
        ComponentIds::Shuffle => component_names()[10],
    }
}

/// The component with a given id, if any.
pub open spec fn component_from_text(s: Seq<char>) -> Option<ComponentIds> {
    match find_name(s, component_names(), 0) {
        Some(i) => Some(all_components()[i]),
        None => None,
    }
}

impl ComponentIds {
    /// The id of a component, the variant's name. `to_string` gives it.
    pub fn id(&self) -> (s: String)
        ensures
            s@ == component_id_text(*self),
    {
        match self {
            ComponentIds::BlacklistMeFromTags => "BlacklistMeFromTags".to_string(),
            ComponentIds::QueueNext => "QueueNext".to_string(),
            ComponentIds::QueuePrevious => "QueuePrevious".to_string(),
            ComponentIds::Skip => "Skip".to_string(),
            ComponentIds::PlayNow => "PlayNow".to_string(),
            ComponentIds::PlayNowMenu => "PlayNowMenu".to_string(),
            ComponentIds::BringToFront => "BringToFront".to_string(),
            ComponentIds::BringToFrontMenu => "BringToFrontMenu".to_string(),
            ComponentIds::QueueStart => "QueueStart".to_string(),
            ComponentIds::QueueEnd => "QueueEnd".to_string(),
            ComponentIds::Shuffle => "Shuffle".to_string(),
        }
    }

    /// The component with a given id, if any. `from_str` gives it.
    pub fn from_id(s: &str) -> (r: Option<ComponentIds>)
        ensures
            r == component_from_text(s@),
    {
        let names: Vec<&str> = vec!["BlacklistMeFromTags", "QueueNext", "QueuePrevious", "Skip", "PlayNow", "PlayNowMenu", "BringToFront", "BringToFrontMenu", "QueueStart", "QueueEnd", "Shuffle"];
        let items: Vec<ComponentIds> = vec![ComponentIds::BlacklistMeFromTags, ComponentIds::QueueNext, ComponentIds::QueuePrevious, ComponentIds::Skip, ComponentIds::PlayNow, ComponentIds::PlayNowMenu, ComponentIds::BringToFront, ComponentIds::BringToFrontMenu, ComponentIds::QueueStart, ComponentIds::QueueEnd, ComponentIds::Shuffle];
        assert(names@.len() == component_names().len());
        assert(forall|k: int| 0 <= k < names@.len() ==> #[trigger] names@[k]@ == component_names()[k]);
        assert(items@ == all_components());
        let mut i: usize = 0;
        while i < names.len()
            invariant
                i <= names@.len(),
                names@.len() == component_names().len(),
                items@ == all_components(),
                forall|k: int| 0 <= k < names@.len() ==> #[trigger] names@[k]@ == component_names()[k],
                find_name(s@, component_names(), 0) == find_name(s@, component_names(), i as int),
            decreases names@.len() - i,
        {
            if text_eq(s, names[i]) {
                return Some(items[i]);
            }
            i = i + 1;
        }
        None
    }
}

/// Reading back the id of a component gives the component.
pub proof fn law_component_id_round_trip(c: ComponentIds)
    ensures
        component_from_text(component_id_text(c)) == Some(c),
{
    reveal_strlit("BlacklistMeFromTags");
    reveal_strlit("QueueNext");
    reveal_strlit("QueuePrevious");
    reveal_strlit("Skip");
    reveal_strlit("PlayNow");
    reveal_strlit("PlayNowMenu");
    reveal_strlit("BringToFront");
    reveal_strlit("BringToFrontMenu");
    reveal_strlit("QueueStart");
    reveal_strlit("QueueEnd");
    reveal_strlit("Shuffle");
    assert(component_names()[0].len() != component_names()[1].len());
    assert(component_names()[0].len() != component_names()[2].len());
    assert(component_names()[0].len() != component_names()[3].len());
    assert(component_names()[0].len() != component_names()[4].len());
    assert(component_names()[0].len() != component_names()[5].len());
    assert(component_names()[0].len() != component_names()[6].len());
    assert(component_names()[0].len() != component_names()[7].len());
    assert(component_names()[0].len() != component_names()[8].len());
    assert(component_names()[0].len() != component_names()[9].len());
    assert(component_names()[0].len() != component_names()[10].len());
    assert(component_names()[1].len() != component_names()[2].len());
    assert(component_names()[1].len() != component_names()[3].len());
    assert(component_names()[1].len() != component_names()[4].len());
    assert(component_names()[1].len() != component_names()[5].len());
    assert(component_names()[1].len() != component_names()[6].len());
    assert(component_names()[1].len() != component_names()[7].len());
    assert(component_names()[1].len() != component_names()[8].len());
    assert(component_names()[1].len() != component_names()[9].len());
    assert(component_names()[1].len() != component_names()[10].len());
    assert(component_names()[2].len() != component_names()[3].len());
    assert(component_names()[2].len() != component_names()[4].len());
    assert(component_names()[2].len() != component_names()[5].len());
    assert(component_names()[2].len() != component_names()[6].len());
    assert(component_names()[2].len() != component_names()[7].len());
    assert(component_names()[2].len() != component_names()[8].len());
    assert(component_names()[2].len() != component_names()[9].len());
    assert(component_names()[2].len() != component_names()[10].len());
    assert(component_names()[3].len() != component_names()[4].len());
    assert(component_names()[3].len() != component_names()[5].len());
    assert(component_names()[3].len() != component_names()[6].len());
    assert(component_names()[3].len() != component_names()[7].len());
    assert(component_names()[3].len() != component_names()[8].len());
    assert(component_names()[3].len() != component_names()[9].len());
    assert(component_names()[3].len() != component_names()[10].len());
    assert(component_names()[4].len() != component_names()[5].len());
    assert(component_names()[4].len() != component_names()[6].len());
    assert(component_names()[4].len() != component_names()[7].len());
    assert(component_names()[4].len() != component_names()[8].len());
    assert(component_names()[4].len() != component_names()[9].len());
    assert(component_names()[4][0] != component_names()[10][0]);
    assert(component_names()[5].len() != component_names()[6].len());
    assert(component_names()[5].len() != component_names()[7].len());
    assert(component_names()[5].len() != component_names()[8].len());
    assert(component_names()[5].len() != component_names()[9].len());
    assert(component_names()[5].len() != component_names()[10].len());
    assert(component_names()[6].len() != component_names()[7].len());
    assert(component_names()[6].len() != component_names()[8].len());
    assert(component_names()[6].len() != component_names()[9].len());
    assert(component_names()[6].len() != component_names()[10].len());
    assert(component_names()[7].len() != component_names()[8].len());
    assert(component_names()[7].len() != component_names()[9].len());
    assert(component_names()[7].len() != component_names()[10].len());
    assert(component_names()[8].len() != component_names()[9].len());
    assert(component_names()[8].len() != component_names()[10].len());
    assert(component_names()[9].len() != component_names()[10].len());
    let ns = component_names();
    assert(forall|i: int, j: int| 0 <= i < j < ns.len() ==> ns[i] != ns[j]);
    let k: int = match c {
        ComponentIds::BlacklistMeFromTags => 0,
        ComponentIds::QueueNext => 1,
        ComponentIds::QueuePrevious => 2,
        ComponentIds::Skip => 3,
        ComponentIds::PlayNow => 4,
        ComponentIds::PlayNowMenu => 5,
        ComponentIds::BringToFront => 6,
        ComponentIds::BringToFrontMenu => 7,
        ComponentIds::QueueStart => 8,
        ComponentIds::QueueEnd => 9,
        ComponentIds::Shuffle => 10,
    };
    lemma_find_name(ns, k, 0);
}

/// The ids of the buttons under the listeners' answers.
#[derive(Debug, Clone, Copy, PartialEq, Eq, Structural)]
pub enum ButtonIds {
    BlacklistMeFromTags,
}

impl ButtonIds {
    /// The id of the button: what `to_string` gives.
    pub fn id(&self) -> (s: String)
        ensures
            s@ == "BlacklistMeFromTags"@,
    {
        "BlacklistMeFromTags".to_string()
    }

    /// The button with id `s`: what `from_str` gives.
    pub fn from_id(s: &str) -> (r: Option<ButtonIds>)
        ensures
            r == (if s@ == "BlacklistMeFromTags"@ { Some(ButtonIds::BlacklistMeFromTags) } else { None }),
    {
        if text_eq(s, "BlacklistMeFromTags") {
            Some(ButtonIds::BlacklistMeFromTags)
        } else {
            None
        }
    }
}

/// The bot's slash commands.
#[allow(non_camel_case_types)]
#[derive(Debug, Clone, Copy, PartialEq, Eq, Structural)]
pub enum UserCommand {
    ping,
    id,
    stop_saving_my_messages,
    continue_saving_my_messages,
    stop_saving_messages_channel,
    stop_saving_messages_server,
    help,
    version,
    download,
    download_from_message_link,
    create_tag,
    remove_tag,
    tag_list,
    blacklist_me_from_tags,
    tag_response_channel,
    play,
    play_from_attachment,
    skip,
    stop,
    playing,
    queue,
    queue_shuffle,
    loop_song,
    swap_songs,
    upload_meme,
    meme_post,
    meme_categories,
    meme_upload,
}

/// The names of all the slash commands, in declaration order.
pub open spec fn command_names() -> Seq<Seq<char>> {
    seq!["ping"@, "id"@, "stop-saving-my-messages"@, "continue-saving-my-messages"@, "stop-saving-messages-channel"@, "stop-saving-messages-server"@, "help"@, "version"@, "download"@, "Download from Link"@, "tag create"@, "tag remove"@, "tag list"@, "tag stop-pinging-me"@, "tag response-channel"@, "play"@, "Play Now"@, "skip"@, "stop"@, "playing"@, "queue"@, "shuffle-queue"@, "loop"@, "swap-songs"@, "Upload meme"@, "meme post"@, "meme categories"@, "meme upload"@]
}

/// All the slash commands, in declaration order.
pub open spec fn all_commands() -> Seq<UserCommand> {
    seq![UserCommand::ping, UserCommand::id, UserCommand::stop_saving_my_messages, UserCommand::continue_saving_my_messages, UserCommand::stop_saving_messages_channel, UserCommand::stop_saving_messages_server, UserCommand::help, UserCommand::version, UserCommand::download, UserCommand::download_from_message_link, UserCommand::create_tag, UserCommand::remove_tag, UserCommand::tag_list, UserCommand::blacklist_me_from_tags, UserCommand::tag_response_channel, UserCommand::play, UserCommand::play_from_attachment, UserCommand::skip, UserCommand::stop, UserCommand::playing, UserCommand::queue, UserCommand::queue_shuffle, UserCommand::loop_song, UserCommand::swap_songs, UserCommand::upload_meme, UserCommand::meme_post, UserCommand::meme_categories, UserCommand::meme_upload]
}

/// The full name under which a command is called.
pub open spec fn command_name_text(c: UserCommand) -> Seq<char> {
    match c {
        UserCommand::ping => command_names()[0],
        UserCommand::id => command_names()[1],
        UserCommand::stop_saving_my_messages => command_names()[2],
        UserCommand::continue_saving_my_messages => command_names()[3],
        UserCommand::stop_saving_messages_channel => command_names()[4],
        UserCommand::stop_saving_messages_server => command_names()[5],
        UserCommand::help => command_names()[6],
        UserCommand::version => command_names()[7],
        UserCommand::download => command_names()[8],
        UserCommand::download_from_message_link => command_names()[9],
        UserCommand::create_tag => command_names()[10],
        UserCommand::remove_tag => command_names()[11],
        UserCommand::tag_list => command_names()[12],
        UserCommand::blacklist_me_from_tags => command_names()[13],
        UserCommand::tag_response_channel => command_names()[14],
        UserCommand::play => command_names()[15],
        UserCommand::play_from_attachment => command_names()[16],
        UserCommand::skip => command_names()[17],
        UserCommand::stop => command_names()[18],
        UserCommand::playing => command_names()[19],
        UserCommand::queue => command_names()[20],
        UserCommand::queue_shuffle => command_names()[21],
        UserCommand::loop_song => command_names()[22],
        UserCommand::swap_songs => command_names()[23],
        UserCommand::upload_meme => command_names()[24],
        UserCommand::meme_post => command_names()[25],
        UserCommand::meme_categories => command_names()[26],
        UserCommand::meme_upload => command_names()[27],
    }
}

/// The command called under a full name, if any.
pub open spec fn command_from_text(s: Seq<char>) -> Option<UserCommand> {
    match find_name(s, command_names(), 0) {
        Some(i) => Some(all_commands()[i]),
        None => None,
    }
}

impl UserCommand {
    /// The full name under which a command is called. `to_string` gives it.
    pub fn name(&self) -> (s: String)
        ensures
            s@ == command_name_text(*self),
    {
        match self {
            UserCommand::ping => "ping".to_string(),
            UserCommand::id => "id".to_string(),
            UserCommand::stop_saving_my_messages => "stop-saving-my-messages".to_string(),
            UserCommand::continue_saving_my_messages => "continue-saving-my-messages".to_string(),
            UserCommand::stop_saving_messages_channel => "stop-saving-messages-channel".to_string(),
            UserCommand::stop_saving_messages_server => "stop-saving-messages-server".to_string(),
            UserCommand::help => "help".to_string(),
            UserCommand::version => "version".to_string(),
            UserCommand::download => "download".to_string(),
            UserCommand::download_from_message_link => "Download from Link".to_string(),
            UserCommand::create_tag => "tag create".to_string(),
            UserCommand::remove_tag => "tag remove".to_string(),
            UserCommand::tag_list => "tag list".to_string(),
            UserCommand::blacklist_me_from_tags => "tag stop-pinging-me".to_string(),
            UserCommand::tag_response_channel => "tag response-channel".to_string(),
            UserCommand::play => "play".to_string(),
            UserCommand::play_from_attachment => "Play Now".to_string(),
            UserCommand::skip => "skip".to_string(),
            UserCommand::stop => "stop".to_string(),
            UserCommand::playing => "playing".to_string(),
            UserCommand::queue => "queue".to_string(),
            UserCommand::queue_shuffle => "shuffle-queue".to_string(),
            UserCommand::loop_song => "loop".to_string(),
            UserCommand::swap_songs => "swap-songs".to_string(),
            UserCommand::upload_meme => "Upload meme".to_string(),
            UserCommand::meme_post => "meme post".to_string(),
            UserCommand::meme_categories => "meme categories".to_string(),
            UserCommand::meme_upload => "meme upload".to_string(),
        }
    }

    /// The command called under a full name, if any. `from_str` gives it.
    pub fn from_name(s: &str) -> (r: Option<UserCommand>)
        ensures
            r == command_from_text(s@),
    {
        let names: Vec<&str> = vec!["ping", "id", "stop-saving-my-messages", "continue-saving-my-messages", "stop-saving-messages-channel", "stop-saving-messages-server", "help", "version", "download", "Download from Link", "tag create", "tag remove", "tag list", "tag stop-pinging-me", "tag response-channel", "play", "Play Now", "skip", "stop", "playing", "queue", "shuffle-queue", "loop", "swap-songs", "Upload meme", "meme post", "meme categories", "meme upload"];
        let items: Vec<UserCommand> = vec![UserCommand::ping, UserCommand::id, UserCommand::stop_saving_my_messages, UserCommand::continue_saving_my_messages, UserCommand::stop_saving_messages_channel, UserCommand::stop_saving_messages_server, UserCommand::help, UserCommand::version, UserCommand::download, UserCommand::download_from_message_link, UserCommand::create_tag, UserCommand::remove_tag, UserCommand::tag_list, UserCommand::blacklist_me_from_tags, UserCommand::tag_response_channel, UserCommand::play, UserCommand::play_from_attachment, UserCommand::skip, UserCommand::stop, UserCommand::playing, UserCommand::queue, UserCommand::queue_shuffle, UserCommand::loop_song, UserCommand::swap_songs, UserCommand::upload_meme, UserCommand::meme_post, UserCommand::meme_categories, UserCommand::meme_upload];
        assert(names@.len() == command_names().len());
        assert(forall|k: int| 0 <= k < names@.len() ==> #[trigger] names@[k]@ == command_names()[k]);
        assert(items@ == all_commands());
        let mut i: usize = 0;
        while i < names.len()
            invariant
                i <= names@.len(),
                names@.len() == command_names().len(),
                items@ == all_commands(),
                forall|k: int| 0 <= k < names@.len() ==> #[trigger] names@[k]@ == command_names()[k],
                find_name(s@, command_names(), 0) == find_name(s@, command_names(), i as int),
            decreases names@.len() - i,
        {
            if text_eq(s, names[i]) {
                return Some(items[i]);
            }
            i = i + 1;
        }
        None
    }
}

/// Reading back the full name of a command gives the command.
pub proof fn law_command_name_round_trip(c: UserCommand)
    ensures
        command_from_text(command_name_text(c)) == Some(c),
{
    reveal_strlit("ping");
    reveal_strlit("id");
    reveal_strlit("stop-saving-my-messages");
    reveal_strlit("continue-saving-my-messages");
    reveal_strlit("stop-saving-messages-channel");
    reveal_strlit("stop-saving-messages-server");
    reveal_strlit("help");
    reveal_strlit("version");
    reveal_strlit("download");
    reveal_strlit("Download from Link");
    reveal_strlit("tag create");
    reveal_strlit("tag remove");
    reveal_strlit("tag list");
    reveal_strlit("tag stop-pinging-me");
    reveal_strlit("tag response-channel");
    reveal_strlit("play");
    reveal_strlit("Play Now");
    reveal_strlit("skip");
    reveal_strlit("stop");
    reveal_strlit("playing");
    reveal_strlit("queue");
    reveal_strlit("shuffle-queue");
    reveal_strlit("loop");
    reveal_strlit("swap-songs");
    reveal_strlit("Upload meme");
    reveal_strlit("meme post");
    reveal_strlit("meme categories");
    reveal_strlit("meme upload");
    assert(command_names()[0].len() != command_names()[1].len());
    assert(command_names()[0].len() != command_names()[2].len());
    assert(command_names()[0].len() != command_names()[3].len());
    assert(command_names()[0].len() != command_names()[4].len());
    assert(command_names()[0].len() != command_names()[5].len());
    assert(command_names()[0][0] != command_names()[6][0]);
    assert(command_names()[0].len() != command_names()[7].len());
    assert(command_names()[0].len() != command_names()[8].len());
    assert(command_names()[0].len() != command_names()[9].len());
    assert(command_names()[0].len() != command_names()[10].len());
    assert(command_names()[0].len() != command_names()[11].len());
    assert(command_names()[0].len() != command_names()[12].len());
    assert(command_names()[0].len() != command_names()[13].len());
    assert(command_names()[0].len() != command_names()[14].len());
    assert(command_names()[0][1] != command_names()[15][1]);
    assert(command_names()[0].len() != command_names()[16].len());
    assert(command_names()[0][0] != command_names()[17][0]);
    assert(command_names()[0][0] != command_names()[18][0]);
    assert(command_names()[0].len() != command_names()[19].len());
    assert(command_names()[0].len() != command_names()[20].len());
    assert(command_names()[0].len() != command_names()[21].len());
    assert(command_names()[0][0] != command_names()[22][0]);
    assert(command_names()[0].len() != command_names()[23].len());
    assert(command_names()[0].len() != command_names()[24].len());
    assert(command_names()[0].len() != command_names()[25].len());
    assert(command_names()[0].len() != command_names()[26].len());
    assert(command_names()[0].len() != command_names()[27].len());
    assert(command_names()[1].len() != command_names()[2].len());
    assert(command_names()[1].len() != command_names()[3].len());
    assert(command_names()[1].len() != command_names()[4].len());
    assert(command_names()[1].len() != command_names()[5].len());
    assert(command_names()[1].len() != command_names()[6].len());
    assert(command_names()[1].len() != command_names()[7].len());
    assert(command_names()[1].len() != command_names()[8].len());
    assert(command_names()[1].len() != command_names()[9].len());
    assert(command_names()[1].len() != command_names()[10].len());
    assert(command_names()[1].len() != command_names()[11].len());
    assert(command_names()[1].len() != command_names()[12].len());
    assert(command_names()[1].len() != command_names()[13].len());
    assert(command_names()[1].len() != command_names()[14].len());
    assert(command_names()[1].len() != command_names()[15].len());
    assert(command_names()[1].len() != command_names()[16].len());
    assert(command_names()[1].len() != command_names()[17].len());
    assert(command_names()[1].len() != command_names()[18].len());
    assert(command_names()[1].len() != command_names()[19].len());
    assert(command_names()[1].len() != command_names()[20].len());
    assert(command_names()[1].len() != command_names()[21].len());
    assert(command_names()[1].len() != command_names()[22].len());
    assert(command_names()[1].len() != command_names()[23].len());
    assert(command_names()[1].len() != command_names()[24].len());
    assert(command_names()[1].len() != command_names()[25].len());
    assert(command_names()[1].len() != command_names()[26].len());
    assert(command_names()[1].len() != command_names()[27].len());
    assert(command_names()[2].len() != command_names()[3].len());
    assert(command_names()[2].len() != command_names()[4].len());
    assert(command_names()[2].len() != command_names()[5].len());
    assert(command_names()[2].len() != command_names()[6].len());
    assert(command_names()[2].len() != command_names()[7].len());
    assert(command_names()[2].len() != command_names()[8].len());
    assert(command_names()[2].len() != command_names()[9].len());
    assert(command_names()[2].len() != command_names()[10].len());
    assert(command_names()[2].len() != command_names()[11].len());
    assert(command_names()[2].len() != command_names()[12].len());
    assert(command_names()[2].len() != command_names()[13].len());
    assert(command_names()[2].len() != command_names()[14].len());
    assert(command_names()[2].len() != command_names()[15].len());
    assert(command_names()[2].len() != command_names()[16].len());
    assert(command_names()[2].len() != command_names()[17].len());
    assert(command_names()[2].len() != command_names()[18].len());
    assert(command_names()[2].len() != command_names()[19].len());
    assert(command_names()[2].len() != command_names()[20].len());
    assert(command_names()[2].len() != command_names()[21].len());
    assert(command_names()[2].len() != command_names()[22].len());
    assert(command_names()[2].len() != command_names()[23].len());
    assert(command_names()[2].len() != command_names()[24].len());
    assert(command_names()[2].len() != command_names()[25].len());
    assert(command_names()[2].len() != command_names()[26].len());
    assert(command_names()[2].len() != command_names()[27].len());
    assert(command_names()[3].len() != command_names()[4].len());
    assert(command_names()[3][0] != command_names()[5][0]);
    assert(command_names()[3].len() != command_names()[6].len());
    assert(command_names()[3].len() != command_names()[7].len());
    assert(command_names()[3].len() != command_names()[8].len());
    assert(command_names()[3].len() != command_names()[9].len());
    assert(command_names()[3].len() != command_names()[10].len());
    assert(command_names()[3].len() != command_names()[11].len());
    assert(command_names()[3].len() != command_names()[12].len());
    assert(command_names()[3].len() != command_names()[13].len());
    assert(command_names()[3].len() != command_names()[14].len());
    assert(command_names()[3].len() != command_names()[15].len());
    assert(command_names()[3].len() != command_names()[16].len());
    assert(command_names()[3].len() != command_names()[17].len());
    assert(command_names()[3].len() != command_names()[18].len());
    assert(command_names()[3].len() != command_names()[19].len());
    assert(command_names()[3].len() != command_names()[20].len());
    assert(command_names()[3].len() != command_names()[21].len());
    assert(command_names()[3].len() != command_names()[22].len());
    assert(command_names()[3].len() != command_names()[23].len());
    assert(command_names()[3].len() != command_names()[24].len());
    assert(command_names()[3].len() != command_names()[25].len());
    assert(command_names()[3].len() != command_names()[26].len());
    assert(command_names()[3].len() != command_names()[27].len());
    assert(command_names()[4].len() != command_names()[5].len());
    assert(command_names()[4].len() != command_names()[6].len());
    assert(command_names()[4].len() != command_names()[7].len());
    assert(command_names()[4].len() != command_names()[8].len());
    assert(command_names()[4].len() != command_names()[9].len());
    assert(command_names()[4].len() != command_names()[10].len());
    assert(command_names()[4].len() != command_names()[11].len());
    assert(command_names()[4].len() != command_names()[12].len());
    assert(command_names()[4].len() != command_names()[13].len());
    assert(command_names()[4].len() != command_names()[14].len());
    assert(command_names()[4].len() != command_names()[15].len());
    assert(command_names()[4].len() != command_names()[16].len());
    assert(command_names()[4].len() != command_names()[17].len());
    assert(command_names()[4].len() != command_names()[18].len());
    assert(command_names()[4].len() != command_names()[19].len());
    assert(command_names()[4].len() != command_names()[20].len());
    assert(command_names()[4].len() != command_names()[21].len());
    assert(command_names()[4].len() != command_names()[22].len());
    assert(command_names()[4].len() != command_names()[23].len());
    assert(command_names()[4].len() != command_names()[24].len());
    assert(command_names()[4].len() != command_names()[25].len());
    assert(command_names()[4].len() != command_names()[26].len());
    assert(command_names()[4].len() != command_names()[27].len());
    assert(command_names()[5].len() != command_names()[6].len());
    assert(command_names()[5].len() != command_names()[7].len());
    assert(command_names()[5].len() != command_names()[8].len());
    assert(command_names()[5].len() != command_names()[9].len());
    assert(command_names()[5].len() != command_names()[10].len());
    assert(command_names()[5].len() != command_names()[11].len());
    assert(command_names()[5].len() != command_names()[12].len());
    assert(command_names()[5].len() != command_names()[13].len());
    assert(command_names()[5].len() != command_names()[14].len());
    assert(command_names()[5].len() != command_names()[15].len());
    assert(command_names()[5].len() != command_names()[16].len());
    assert(command_names()[5].len() != command_names()[17].len());
    assert(command_names()[5].len() != command_names()[18].len());
    assert(command_names()[5].len() != command_names()[19].len());
    assert(command_names()[5].len() != command_names()[20].len());
    assert(command_names()[5].len() != command_names()[21].len());
    assert(command_names()[5].len() != command_names()[22].len());
    assert(command_names()[5].len() != command_names()[23].len());
    assert(command_names()[5].len() != command_names()[24].len());
    assert(command_names()[5].len() != command_names()[25].len());
    assert(command_names()[5].len() != command_names()[26].len());
    assert(command_names()[5].len() != command_names()[27].len());
    assert(command_names()[6].len() != command_names()[7].len());
    assert(command_names()[6].len() != command_names()[8].len());
    assert(command_names()[6].len() != command_names()[9].len());
    assert(command_names()[6].len() != command_names()[10].len());
    assert(command_names()[6].len() != command_names()[11].len());
    assert(command_names()[6].len() != command_names()[12].len());
    assert(command_names()[6].len() != command_names()[13].len());
    assert(command_names()[6].len() != command_names()[14].len());
    assert(command_names()[6][0] != command_names()[15][0]);
    assert(command_names()[6].len() != command_names()[16].len());
    assert(command_names()[6][0] != command_names()[17][0]);
    assert(command_names()[6][0] != command_names()[18][0]);
    assert(command_names()[6].len() != command_names()[19].len());
    assert(command_names()[6].len() != command_names()[20].len());
    assert(command_names()[6].len() != command_names()[21].len());
    assert(command_names()[6][0] != command_names()[22][0]);
    assert(command_names()[6].len() != command_names()[23].len());
    assert(command_names()[6].len() != command_names()[24].len());
    assert(command_names()[6].len() != command_names()[25].len());
    assert(command_names()[6].len() != command_names()[26].len());
    assert(command_names()[6].len() != command_names()[27].len());
    assert(command_names()[7].len() != command_names()[8].len());
    assert(command_names()[7].len() != command_names()[9].len());
    assert(command_names()[7].len() != command_names()[10].len());
    assert(command_names()[7].len() != command_names()[11].len());
    assert(command_names()[7].len() != command_names()[12].len());
    assert(command_names()[7].len() != command_names()[13].len());
    assert(command_names()[7].len() != command_names()[14].len());
    assert(command_names()[7].len() != command_names()[15].len());
    assert(command_names()[7].len() != command_names()[16].len());
    assert(command_names()[7].len() != command_names()[17].len());
    assert(command_names()[7].len() != command_names()[18].len());
    assert(command_names()[7][0] != command_names()[19][0]);
    assert(command_names()[7].len() != command_names()[20].len());
    assert(command_names()[7].len() != command_names()[21].len());
    assert(command_names()[7].len() != command_names()[22].len());
    assert(command_names()[7].len() != command_names()[23].len());
    assert(command_names()[7].len() != command_names()[24].len());
    assert(command_names()[7].len() != command_names()[25].len());
    assert(command_names()[7].len() != command_names()[26].len());
    assert(command_names()[7].len() != command_names()[27].len());
    assert(command_names()[8].len() != command_names()[9].len());
    assert(command_names()[8].len() != command_names()[10].len());
    assert(command_names()[8].len() != command_names()[11].len());
    assert(command_names()[8][0] != command_names()[12][0]);
    assert(command_names()[8].len() != command_names()[13].len());
    assert(command_names()[8].len() != command_names()[14].len());
    assert(command_names()[8].len() != command_names()[15].len());
    assert(command_names()[8][0] != command_names()[16][0]);
    assert(command_names()[8].len() != command_names()[17].len());
    assert(command_names()[8].len() != command_names()[18].len());
    assert(command_names()[8].len() != command_names()[19].len());
    assert(command_names()[8].len() != command_names()[20].len());
    assert(command_names()[8].len() != command_names()[21].len());
    assert(command_names()[8].len() != command_names()[22].len());
    assert(command_names()[8].len() != command_names()[23].len());
    assert(command_names()[8].len() != command_names()[24].len());
    assert(command_names()[8].len() != command_names()[25].len());
    assert(command_names()[8].len() != command_names()[26].len());
    assert(command_names()[8].len() != command_names()[27].len());
    assert(command_names()[9].len() != command_names()[10].len());
    assert(command_names()[9].len() != command_names()[11].len());
    assert(command_names()[9].len() != command_names()[12].len());
    assert(command_names()[9].len() != command_names()[13].len());
    assert(command_names()[9].len() != command_names()[14].len());
    assert(command_names()[9].len() != command_names()[15].len());
    assert(command_names()[9].len() != command_names()[16].len());
    assert(command_names()[9].len() != command_names()[17].len());
    assert(command_names()[9].len() != command_names()[18].len());
    assert(command_names()[9].len() != command_names()[19].len());
    assert(command_names()[9].len() != command_names()[20].len());
    assert(command_names()[9].len() != command_names()[21].len());
    assert(command_names()[9].len() != command_names()[22].len());
    assert(command_names()[9].len() != command_names()[23].len());
    assert(command_names()[9].len() != command_names()[24].len());
    assert(command_names()[9].len() != command_names()[25].len());
    assert(command_names()[9].len() != command_names()[26].len());
    assert(command_names()[9].len() != command_names()[27].len());
    assert(command_names()[10][4] != command_names()[11][4]);
    assert(command_names()[10].len() != command_names()[12].len());
    assert(command_names()[10].len() != command_names()[13].len());
    assert(command_names()[10].len() != command_names()[14].len());
    assert(command_names()[10].len() != command_names()[15].len());
    assert(command_names()[10].len() != command_names()[16].len());
    assert(command_names()[10].len() != command_names()[17].len());
    assert(command_names()[10].len() != command_names()[18].len());
    assert(command_names()[10].len() != command_names()[19].len());
    assert(command_names()[10].len() != command_names()[20].len());
    assert(command_names()[10].len() != command_names()[21].len());
    assert(command_names()[10].len() != command_names()[22].len());
    assert(command_names()[10][0] != command_names()[23][0]);
    assert(command_names()[10].len() != command_names()[24].len());
    assert(command_names()[10].len() != command_names()[25].len());
    assert(command_names()[10].len() != command_names()[26].len());
    assert(command_names()[10].len() != command_names()[27].len());
    assert(command_names()[11].len() != command_names()[12].len());
    assert(command_names()[11].len() != command_names()[13].len());
    assert(command_names()[11].len() != command_names()[14].len());
    assert(command_names()[11].len() != command_names()[15].len());
    assert(command_names()[11].len() != command_names()[16].len());
    assert(command_names()[11].len() != command_names()[17].len());
    assert(command_names()[11].len() != command_names()[18].len());
    assert(command_names()[11].len() != command_names()[19].len());
    assert(command_names()[11].len() != command_names()[20].len());
    assert(command_names()[11].len() != command_names()[21].len());
    assert(command_names()[11].len() != command_names()[22].len());
    assert(command_names()[11][0] != command_names()[23][0]);
    assert(command_names()[11].len() != command_names()[24].len());
    assert(command_names()[11].len() != command_names()[25].len());
    assert(command_names()[11].len() != command_names()[26].len());
    assert(command_names()[11].len() != command_names()[27].len());
    assert(command_names()[12].len() != command_names()[13].len());
    assert(command_names()[12].len() != command_names()[14].len());
    assert(command_names()[12].len() != command_names()[15].len());
    assert(command_names()[12][0] != command_names()[16][0]);
    assert(command_names()[12].len() != command_names()[17].len());
    assert(command_names()[12].len() != command_names()[18].len());
    assert(command_names()[12].len() != command_names()[19].len());
    assert(command_names()[12].len() != command_names()[20].len());
    assert(command_names()[12].len() != command_names()[21].len());
    assert(command_names()[12].len() != command_names()[22].len());
    assert(command_names()[12].len() != command_names()[23].len());
    assert(command_names()[12].len() != command_names()[24].len());
    assert(command_names()[12].len() != command_names()[25].len());
    assert(command_names()[12].len() != command_names()[26].len());
    assert(command_names()[12].len() != command_names()[27].len());
    assert(command_names()[13].len() != command_names()[14].len());
    assert(command_names()[13].len() != command_names()[15].len());
    assert(command_names()[13].len() != command_names()[16].len());
    assert(command_names()[13].len() != command_names()[17].len());
    assert(command_names()[13].len() != command_names()[18].len());
    assert(command_names()[13].len() != command_names()[19].len());
    assert(command_names()[13].len() != command_names()[20].len());
    assert(command_names()[13].len() != command_names()[21].len());
    assert(command_names()[13].len() != command_names()[22].len());
    assert(command_names()[13].len() != command_names()[23].len());
    assert(command_names()[13].len() != command_names()[24].len());
    assert(command_names()[13].len() != command_names()[25].len());
    assert(command_names()[13].len() != command_names()[26].len());
    assert(command_names()[13].len() != command_names()[27].len());
    assert(command_names()[14].len() != command_names()[15].len());
    assert(command_names()[14].len() != command_names()[16].len());
    assert(command_names()[14].len() != command_names()[17].len());
    assert(command_names()[14].len() != command_names()[18].len());
    assert(command_names()[14].len() != command_names()[19].len());
    assert(command_names()[14].len() != command_names()[20].len());
    assert(command_names()[14].len() != command_names()[21].len());
    assert(command_names()[14].len() != command_names()[22].len());
    assert(command_names()[14].len() != command_names()[23].len());
    assert(command_names()[14].len() != command_names()[24].len());
    assert(command_names()[14].len() != command_names()[25].len());
    assert(command_names()[14].len() != command_names()[26].len());
    assert(command_names()[14].len() != command_names()[27].len());
    assert(command_names()[15].len() != command_names()[16].len());
    assert(command_names()[15][0] != command_names()[17][0]);
    assert(command_names()[15][0] != command_names()[18][0]);
    assert(command_names()[15].len() != command_names()[19].len());
    assert(command_names()[15].len() != command_names()[20].len());
    assert(command_names()[15].len() != command_names()[21].len());
    assert(command_names()[15][0] != command_names()[22][0]);
    assert(command_names()[15].len() != command_names()[23].len());
    assert(command_names()[15].len() != command_names()[24].len());
    assert(command_names()[15].len() != command_names()[25].len());
    assert(command_names()[15].len() != command_names()[26].len());
    assert(command_names()[15].len() != command_names()[27].len());
    assert(command_names()[16].len() != command_names()[17].len());
    assert(command_names()[16].len() != command_names()[18].len());
    assert(command_names()[16].len() != command_names()[19].len());
    assert(command_names()[16].len() != command_names()[20].len());
    assert(command_names()[16].len() != command_names()[21].len());
    assert(command_names()[16].len() != command_names()[22].len());
    assert(command_names()[16].len() != command_names()[23].len());
    assert(command_names()[16].len() != command_names()[24].len());
    assert(command_names()[16].len() != command_names()[25].len());
    assert(command_names()[16].len() != command_names()[26].len());
    assert(command_names()[16].len() != command_names()[27].len());
    assert(command_names()[17][1] != command_names()[18][1]);
    assert(command_names()[17].len() != command_names()[19].len());
    assert(command_names()[17].len() != command_names()[20].len());
    assert(command_names()[17].len() != command_names()[21].len());
    assert(command_names()[17][0] != command_names()[22][0]);
    assert(command_names()[17].len() != command_names()[23].len());
    assert(command_names()[17].len() != command_names()[24].len());
    assert(command_names()[17].len() != command_names()[25].len());
    assert(command_names()[17].len() != command_names()[26].len());
    assert(command_names()[17].len() != command_names()[27].len());
    assert(command_names()[18].len() != command_names()[19].len());
    assert(command_names()[18].len() != command_names()[20].len());
    assert(command_names()[18].len() != command_names()[21].len());
    assert(command_names()[18][0] != command_names()[22][0]);
    assert(command_names()[18].len() != command_names()[23].len());
    assert(command_names()[18].len() != command_names()[24].len());
    assert(command_names()[18].len() != command_names()[25].len());
    assert(command_names()[18].len() != command_names()[26].len());
    assert(command_names()[18].len() != command_names()[27].len());
    assert(command_names()[19].len() != command_names()[20].len());
    assert(command_names()[19].len() != command_names()[21].len());
    assert(command_names()[19].len() != command_names()[22].len());
    assert(command_names()[19].len() != command_names()[23].len());
    assert(command_names()[19].len() != command_names()[24].len());
    assert(command_names()[19].len() != command_names()[25].len());
    assert(command_names()[19].len() != command_names()[26].len());
    assert(command_names()[19].len() != command_names()[27].len());
    assert(command_names()[20].len() != command_names()[21].len());
    assert(command_names()[20].len() != command_names()[22].len());
    assert(command_names()[20].len() != command_names()[23].len());
    assert(command_names()[20].len() != command_names()[24].len());
    assert(command_names()[20].len() != command_names()[25].len());
    assert(command_names()[20].len() != command_names()[26].len());
    assert(command_names()[20].len() != command_names()[27].len());
    assert(command_names()[21].len() != command_names()[22].len());
    assert(command_names()[21].len() != command_names()[23].len());
    assert(command_names()[21].len() != command_names()[24].len());
    assert(command_names()[21].len() != command_names()[25].len());
    assert(command_names()[21].len() != command_names()[26].len());
    assert(command_names()[21].len() != command_names()[27].len());
    assert(command_names()[22].len() != command_names()[23].len());
    assert(command_names()[22].len() != command_names()[24].len());
    assert(command_names()[22].len() != command_names()[25].len());
    assert(command_names()[22].len() != command_names()[26].len());
    assert(command_names()[22].len() != command_names()[27].len());
    assert(command_names()[23].len() != command_names()[24].len());
    assert(command_names()[23].len() != command_names()[25].len());
    assert(command_names()[23].len() != command_names()[26].len());
    assert(command_names()[23].len() != command_names()[27].len());
    assert(command_names()[24].len() != command_names()[25].len());
    assert(command_names()[24].len() != command_names()[26].len());
    assert(command_names()[24][0] != command_names()[27][0]);
    assert(command_names()[25].len() != command_names()[26].len());
    assert(command_names()[25].len() != command_names()[27].len());
    assert(command_names()[26].len() != command_names()[27].len());
    let ns = command_names();
    assert(forall|i: int, j: int| 0 <= i < j < ns.len() ==> ns[i] != ns[j]);
    let k: int = match c {
        UserCommand::ping => 0,
        UserCommand::id => 1,
        UserCommand::stop_saving_my_messages => 2,
        UserCommand::continue_saving_my_messages => 3,
        UserCommand::stop_saving_messages_channel => 4,
        UserCommand::stop_saving_messages_server => 5,
        UserCommand::help => 6,
        UserCommand::version => 7,
        UserCommand::download => 8,
        UserCommand::download_from_message_link => 9,
        UserCommand::create_tag => 10,
        UserCommand::remove_tag => 11,
        UserCommand::tag_list => 12,
        UserCommand::blacklist_me_from_tags => 13,
        UserCommand::tag_response_channel => 14,
        UserCommand::play => 15,
        UserCommand::play_from_attachment => 16,
        UserCommand::skip => 17,
        UserCommand::stop => 18,
        UserCommand::playing => 19,
        UserCommand::queue => 20,
        UserCommand::queue_shuffle => 21,
        UserCommand::loop_song => 22,
        UserCommand::swap_songs => 23,
        UserCommand::upload_meme => 24,
        UserCommand::meme_post => 25,
        UserCommand::meme_categories => 26,
        UserCommand::meme_upload => 27,
    };
    lemma_find_name(ns, k, 0);
}

/// The name of the sub command of a command that is one, under its parent command.
pub open spec fn sub_command_text(c: UserCommand) -> Option<Seq<char>> {
    match c {
        UserCommand::create_tag => Some("create"@),
        UserCommand::remove_tag => Some("remove"@),
        UserCommand::tag_list => Some("list"@),
        UserCommand::blacklist_me_from_tags => Some("stop-pinging-me"@),
        UserCommand::tag_response_channel => Some("response-channel"@),
        UserCommand::meme_post => Some("post"@),
        UserCommand::meme_categories => Some("categories"@),
        UserCommand::meme_upload => Some("upload"@),
        _ => None,
    }
}

impl UserCommand {
    /// The name of the command under its parent, for a sub command.
    pub fn sub_command(&self) -> (r: Option<String>)
        ensures
            r matches Some(s) ==> sub_command_text(*self) == Some(s@),
            r is None ==> sub_command_text(*self) is None,
    {
        match self {
            UserCommand::create_tag => Some("create".to_string()),
            UserCommand::remove_tag => Some("remove".to_string()),
            UserCommand::tag_list => Some("list".to_string()),
            UserCommand::blacklist_me_from_tags => Some("stop-pinging-me".to_string()),
            UserCommand::tag_response_channel => Some("response-channel".to_string()),
            UserCommand::meme_post => Some("post".to_string()),
            UserCommand::meme_categories => Some("categories".to_string()),
            UserCommand::meme_upload => Some("upload".to_string()),
            _ => None,
        }
    }
}

/// The kind of an option of a called command, as far as its full name is concerned.
#[derive(Debug, Clone, Copy, PartialEq, Eq, Structural)]
pub enum OptionKind {
    SubCommand,
    SubCommandGroup,
    Other,
}

/// The name of the last option of kind `k` among `opts`.
pub open spec fn last_of_kind(opts: Seq<(OptionKind, Seq<char>)>, k: OptionKind) -> Option<Seq<char>>
    decreases opts.len(),
{
    if opts.len() == 0 {
        None
    } else if opts.last().0 == k {
        Some(opts.last().1)
    } else {
        last_of_kind(opts.drop_last(), k)
    }
}

/// The full name of a called command: its name, then the name of its last sub command option,
/// then that of its last sub command group option, each after a space when present.
pub open spec fn full_command_name(name: Seq<char>, opts: Seq<(OptionKind, Seq<char>)>) -> Seq<char> {
    let a = last_of_kind(opts, OptionKind::SubCommand);
    let b = last_of_kind(opts, OptionKind::SubCommandGroup);
    let with_a = match a { Some(x) => name + " "@ + x, None => name };
    match b { Some(y) => with_a + " "@ + y, None => with_a }
}

/// The options as plain values.
pub open spec fn options_view(opts: Seq<(OptionKind, String)>) -> Seq<(OptionKind, Seq<char>)> {
    opts.map_values(|o: (OptionKind, String)| (o.0, o.1@))
}

/// The full name of a called command with name `name` and top-level options `options`.
pub fn get_full_command_name(name: &str, options: &[(OptionKind, String)]) -> (s: String)
    ensures
        s@ == full_command_name(name@, options_view(options@)),
{
    let ghost ov = options_view(options@);
    let mut a: Option<usize> = None;
    let mut b: Option<usize> = None;
    let mut i: usize = 0;
    assert(ov.take(0) =~= Seq::<(OptionKind, Seq<char>)>::empty());
    while i < options.len()
        invariant
            i <= options@.len(),
            ov == options_view(options@),
            a matches Some(k) ==> k < i && last_of_kind(ov.take(i as int), OptionKind::SubCommand) == Some(ov[k as int].1),
            a is None ==> last_of_kind(ov.take(i as int), OptionKind::SubCommand) is None,
            b matches Some(k) ==> k < i && last_of_kind(ov.take(i as int), OptionKind::SubCommandGroup) == Some(ov[k as int].1),
            b is None ==> last_of_kind(ov.take(i as int), OptionKind::SubCommandGroup) is None,
        decreases options@.len() - i,
    {
        assert(ov.take(i + 1).drop_last() =~= ov.take(i as int));
        assert(ov.take(i + 1).last() == ov[i as int]);
        match options[i].0 {
            OptionKind::SubCommand => { a = Some(i); },
            OptionKind::SubCommandGroup => { b = Some(i); },
            OptionKind::Other => {},
        }
        i = i + 1;
    }
    assert(ov.take(i as int) =~= ov);
    let mut s = name.to_string();
    match a {
        Some(k) => {
            s = s.concat(" ").concat(options[k].1.as_str());
        },
        None => {},
    }
    match b {
        Some(k) => {
            s = s.concat(" ").concat(options[k].1.as_str());
        },
        None => {},
    }
    s
}

} // verus!
