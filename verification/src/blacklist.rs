//! Sets of ids (users, channels, servers the bot leaves alone) and the map from a server to
//! its tag answer channel, with the replies of the commands that change them.
use vstd::prelude::*;

use crate::tags::TagChannel;

verus! {

/// A set of ids, each stored once.
pub struct IdSet {
    ids: Vec<i64>,
}

impl View for IdSet {
    type V = Set<i64>;

    closed spec fn view(&self) -> Set<i64> {
        self.ids@.to_set()
    }
}

impl IdSet {
    /// No id is stored twice.
    pub closed spec fn wf(&self) -> bool {
        self.ids@.no_duplicates()
    }

    /// The empty set.
    pub fn new() -> (s: IdSet)
        ensures
            s.wf(),
            s@ == Set::<i64>::empty(),
    {
        let s = IdSet { ids: Vec::new() };
        assert(s.ids@.to_set() =~= Set::<i64>::empty());
        s
    }

    /// The number of ids.
    pub fn len(&self) -> (n: usize)
        requires
            self.wf(),
        ensures
            n == self@.len(),
    {
        proof {
            self.ids@.unique_seq_to_set();
        }
        self.ids.len()
    }

    fn position(&self, id: i64) -> (r: Option<usize>)
        ensures
            r matches Some(i) ==> i < self.ids@.len() && self.ids@[i as int] == id,
            r is None ==> !self.ids@.contains(id),
    {
        let mut i: usize = 0;
        while i < self.ids.len()
            invariant
                i <= self.ids@.len(),
                forall|k: int| 0 <= k < i ==> self.ids@[k] != id,
            decreases self.ids@.len() - i,
        {
            if self.ids[i] == id {
                return Some(i);
            }
            i = i + 1;
        }
        None
    }

    /// Whether `id` is in the set.
    pub fn contains(&self, id: i64) -> (b: bool)
        ensures
            b == self@.contains(id),
    {
        self.position(id).is_some()
    }

    /// Adds `id`.
    pub fn insert(&mut self, id: i64)
        requires
            old(self).wf(),
        ensures
            final(self).wf(),
            final(self)@ == old(self)@.insert(id),
    {
        match self.position(id) {
            Some(_) => {
                assert(self.ids@.to_set() =~= self.ids@.to_set().insert(id));
            },
            None => {
                let ghost before = self.ids@;
                self.ids.push(id);
                proof {
                    assert(self.ids@ == before.push(id));
                    assert forall|a: int, b: int| 0 <= a < b < self.ids@.len() implies self.ids@[a] != self.ids@[b] by {
                        if b == before.len() {
                            assert(before.contains(before[a]));
                        }
                    }
                    assert(self.ids@.to_set() =~= before.to_set().insert(id)) by {
                        assert forall|x: i64| self.ids@.to_set().contains(x) <==> before.to_set().insert(id).contains(x) by {
                            if before.contains(x) {
                                let k = choose|k: int| 0 <= k < before.len() && before[k] == x;
                                assert(self.ids@[k] == x);
                            }
                            if self.ids@.contains(x) && x != id {
                                let k = choose|k: int| 0 <= k < self.ids@.len() && self.ids@[k] == x;
                                assert(before[k] == x);
                            }
                            if x == id {
                                assert(self.ids@[before.len() as int] == id);
                            }
                        }
                    }
                }
            },
        }
    }

    /// Removes `id`.
    pub fn remove(&mut self, id: i64)
        requires
            old(self).wf(),
        ensures
            final(self).wf(),
            final(self)@ == old(self)@.remove(id),
    {
        match self.position(id) {
            Some(i) => {
                let ghost before = self.ids@;
                self.ids.remove(i);
                proof {
                    assert(self.ids@ == before.remove(i as int));
                    assert forall|a: int, b: int| 0 <= a < b < self.ids@.len() implies self.ids@[a] != self.ids@[b] by {
                        let a2 = if a < i { a } else { a + 1 };
                        let b2 = if b < i { b } else { b + 1 };
                        assert(self.ids@[a] == before[a2]);
                        assert(self.ids@[b] == before[b2]);
                    }
                    assert forall|x: i64| self.ids@.to_set().contains(x) <==> before.to_set().remove(id).contains(x) by {
                        if self.ids@.contains(x) {
                            let k = choose|k: int| 0 <= k < self.ids@.len() && self.ids@[k] == x;
                            let k2 = if k < i { k } else { k + 1 };
                            assert(before[k2] == x);
                            assert(k2 != i as int);
                            assert(before.contains(x));
                        }
                        if before.contains(x) && x != id {
                            let k = choose|k: int| 0 <= k < before.len() && before[k] == x;
                            assert(k != i as int);
                            let k2 = if k < i { k } else { k - 1 };
                            assert(self.ids@[k2] == x);
                        }
                    }
                    assert(self.ids@.to_set() =~= before.to_set().remove(id));
                }
            },
            None => {
                assert(self.ids@.to_set() =~= self.ids@.to_set().remove(id));
            },
        }
    }

    /// Adds `id` when it is absent and removes it when present; answers whether it was present.
    pub fn toggle(&mut self, id: i64) -> (was_present: bool)
        requires
            old(self).wf(),
        ensures
            final(self).wf(),
            was_present == old(self)@.contains(id),
            final(self)@ == toggled(old(self)@, id),
    {
        if self.contains(id) {
            self.remove(id);
            true
        } else {
            self.insert(id);
            false
        }
    }
}

/// The set with `id` added when absent and removed when present.
pub open spec fn toggled(s: Set<i64>, id: i64) -> Set<i64> {
    if s.contains(id) {
        s.remove(id)
    } else {
        s.insert(id)
    }
}

/// Toggling an id twice gives back the set it started from.
pub proof fn law_toggle_twice(s: Set<i64>, id: i64)
    ensures
        toggled(toggled(s, id), id) == s,
{
    if s.contains(id) {
        assert(s.remove(id).insert(id) =~= s);
    } else {
        assert(s.insert(id).remove(id) =~= s);
    }
}

/// The reply to a user asking the bot to stop saving their messages; `name` is how the bot
/// calls them. Adds them to the set unless they are already in it.
pub fn stop_saving_my_messages(users: &mut IdSet, user_id: i64, name: &str) -> (reply: String)
    requires
        old(users).wf(),
    ensures
        final(users).wf(),
        final(users)@ == old(users)@.insert(user_id),
        old(users)@.contains(user_id) ==> reply@ == "I'm already not saving your messages"@,
        !old(users)@.contains(user_id) ==> reply@ == "Added "@ + name@ + " to data collection blacklist"@,
{
    if users.contains(user_id) {
        assert(users@.insert(user_id) =~= users@);
        return "I'm already not saving your messages".to_string();
    }
    users.insert(user_id);
    "Added ".to_string().concat(name).concat(" to data collection blacklist")
}

/// The reply to a user asking the bot to save their messages again. Removes them from the set.
pub fn continue_saving_my_messages(users: &mut IdSet, user_id: i64, name: &str) -> (reply: String)
    requires
        old(users).wf(),
    ensures
        final(users).wf(),
        final(users)@ == old(users)@.remove(user_id),
        reply@ == "removed "@ + name@ + " from data collection blacklist"@,
{
    users.remove(user_id);
    "removed ".to_string().concat(name).concat(" from data collection blacklist")
}

/// The reply to the command that stops (or resumes) saving the messages of a channel.
pub fn toggle_channel_saving(channels: &mut IdSet, channel_id: i64) -> (reply: String)
    requires
        old(channels).wf(),
    ensures
        final(channels).wf(),
        old(channels)@.contains(channel_id) ==> final(channels)@ == old(channels)@.remove(channel_id)
            && reply@ == "Continuing message saving in this channel"@,
        !old(channels)@.contains(channel_id) ==> final(channels)@ == old(channels)@.insert(channel_id)
            && reply@ == "Stopping message saving in this channel"@,
{
    if channels.toggle(channel_id) {
        "Continuing message saving in this channel".to_string()
    } else {
        "Stopping message saving in this channel".to_string()
    }
}

/// The reply to the command that stops (or resumes) saving the messages of a server; it
/// changes nothing when called outside a server.
pub fn toggle_server_saving(servers: &mut IdSet, server_id: Option<i64>) -> (reply: String)
    requires
        old(servers).wf(),
    ensures
        final(servers).wf(),
        server_id is None ==> final(servers)@ == old(servers)@ && reply@ == "This command can only be used in a server"@,
        server_id matches Some(s) ==> final(servers)@ == toggled(old(servers)@, s),
        server_id matches Some(s) ==> (old(servers)@.contains(s) ==> reply@ == "Continuing message saving in this server"@),
        server_id matches Some(s) ==> (!old(servers)@.contains(s) ==> reply@ == "Stopping message saving in this server"@),
{
    match server_id {
        None => "This command can only be used in a server".to_string(),
        Some(s) => {
            if servers.toggle(s) {
                "Continuing message saving in this server".to_string()
            } else {
                "Stopping message saving in this server".to_string()
            }
        },
    }
}

/// The channel of each server where the bot answers tags.
pub struct ResponseChannels {
    entries: Vec<TagChannel>,
}

/// The servers of a list of entries, mapped to their channels.
pub open spec fn channel_map(v: Seq<TagChannel>) -> Map<i64, i64>
    decreases v.len(),
{
    if v.len() == 0 {
        Map::empty()
    } else {
        channel_map(v.drop_last()).insert(v.last().server_id, v.last().channel_id)
    }
}

impl View for ResponseChannels {
    type V = Map<i64, i64>;

    closed spec fn view(&self) -> Map<i64, i64> {
        channel_map(self.entries@)
    }
}

impl ResponseChannels {
    /// No channel yet.
    pub fn new() -> (r: ResponseChannels)
        ensures
            r@ == Map::<i64, i64>::empty(),
    {
        ResponseChannels { entries: Vec::new() }
    }

    /// The channel of `server_id`, if one was set.
    pub fn get(&self, server_id: i64) -> (r: Option<i64>)
        ensures
            r matches Some(c) ==> self@.contains_key(server_id) && self@[server_id] == c,
            r is None ==> !self@.contains_key(server_id),
    {
        let mut i: usize = self.entries.len();
        assert(self.entries@.take(i as int) =~= self.entries@);
        while i > 0
            invariant
                i <= self.entries@.len(),
                forall|k: int| i <= k < self.entries@.len() ==> #[trigger] self.entries@[k].server_id != server_id,
                channel_map(self.entries@).contains_key(server_id) ==> channel_map(self.entries@.take(i as int)).contains_key(server_id),
                channel_map(self.entries@).contains_key(server_id) ==> channel_map(self.entries@)[server_id] == channel_map(self.entries@.take(i as int))[server_id],
                !channel_map(self.entries@).contains_key(server_id) ==> !channel_map(self.entries@.take(i as int)).contains_key(server_id),
            decreases i,
        {
            let ghost t = self.entries@.take(i as int);
            assert(t.drop_last() =~= self.entries@.take(i - 1));
            assert(t.last() == self.entries@[i - 1]);
            if self.entries[i - 1].server_id == server_id {
                return Some(self.entries[i - 1].channel_id);
            }
            i = i - 1;
        }
        assert(self.entries@.take(0) =~= Seq::<TagChannel>::empty());
        None
    }

    /// Makes `channel_id` the channel of `server_id`.
    pub fn set(&mut self, server_id: i64, channel_id: i64)
        ensures
            final(self)@ == old(self)@.insert(server_id, channel_id),
    {
        let ghost before = self.entries@;
        self.entries.push(TagChannel { server_id, channel_id });
        assert(self.entries@.drop_last() =~= before);
    }
}

/// What a read gives back of a write: after setting a server's channel, reading it gives that
/// channel, and every other server keeps its own.
pub proof fn law_response_channel_read_after_write(m: Map<i64, i64>, server_id: i64, channel_id: i64, other: i64)
    requires
        other != server_id,
    ensures
        m.insert(server_id, channel_id).contains_key(server_id),
        m.insert(server_id, channel_id)[server_id] == channel_id,
        m.insert(server_id, channel_id).contains_key(other) == m.contains_key(other),
        m.contains_key(other) ==> m.insert(server_id, channel_id)[other] == m[other],
{
}

/// The reply to the command that makes the current channel the server's tag channel; it
/// changes nothing when called outside a server.
pub fn set_tag_response_channel(channels: &mut ResponseChannels, server_id: Option<i64>, channel_id: i64) -> (reply: String)
    ensures
        server_id is None ==> final(channels)@ == old(channels)@ && reply@ == "You can only use this command in a server"@,
        server_id matches Some(s) ==> final(channels)@ == old(channels)@.insert(s, channel_id)
            && reply@ == "Successfully set this channel as the tag response channel"@,
{
    match server_id {
        None => "You can only use this command in a server".to_string(),
        Some(s) => {
            channels.set(s, channel_id);
            "Successfully set this channel as the tag response channel".to_string()
        },
    }
}

/// The replies the bot attempts, in order, when someone toggles whether a user may edit the
/// server's tags; `banned` is the server's set of users who may not, which is toggled for
/// `user_id` inside a server whether or not the caller may moderate (the refusal for a
/// caller who may not is sent first and does not stop the command).
pub fn ban_user_from_editing_tags(banned: &mut IdSet, in_server: bool, caller_may_moderate: bool, user_id: i64) -> (replies: Vec<String>)
    requires
        old(banned).wf(),
    ensures
        final(banned).wf(),
        !in_server ==> final(banned)@ == old(banned)@ && replies@.len() == 1
            && replies@[0]@ == "Can't run this command outside of a server"@,
        in_server ==> {
            let n = replies@.len();
            &&& n == (if caller_may_moderate { 1int } else { 2int })
            &&& !caller_may_moderate ==> replies@[0]@ == "Only moderators can run this command"@
            &&& old(banned)@.contains(user_id) ==> final(banned)@ == old(banned)@.remove(user_id)
                && replies@[n - 1]@ == "Unbanned user from editing tags"@
            &&& !old(banned)@.contains(user_id) ==> final(banned)@ == old(banned)@.insert(user_id)
                && replies@[n - 1]@ == "Banned user from editing tags"@
        },
{
    let mut replies: Vec<String> = Vec::new();
    if !in_server {
        replies.push("Can't run this command outside of a server".to_string());
        return replies;
    }
    if !caller_may_moderate {
        replies.push("Only moderators can run this command".to_string());
    }
    if banned.toggle(user_id) {
        replies.push("Unbanned user from editing tags".to_string());
    } else {
        replies.push("Banned user from editing tags".to_string());
    }
    replies
}

} // verus!
