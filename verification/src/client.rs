//! The client's own state: who it is, which channels it knows and which one
//! it is connected to.
use vstd::prelude::*;
use crate::model::{Channel, ChannelView, Message, User, UserView, channels_view, users_view,
    messages_view, empty_channel_view};
use crate::text::{contains, is_substring};
use crate::ident::{random_alphanumeric, is_alphanumeric};
use crate::protocol::{newline, all_zero, is_only_zeros};

verus! {

/// The number of characters of a client id.
pub const ID_LEN: usize = 30;

/// The client as the rest of the program sees it.
#[derive(Debug)]
pub struct Client {
    pub id: String,
    pub inited: bool,
    pub connected: bool,
    pub connected_to: Channel,
    pub username: String,
    pub channelpool: Vec<Channel>,
}

pub struct ClientView {
    pub id: Seq<char>,
    pub inited: bool,
    pub connected: bool,
    pub connected_to: ChannelView,
    pub username: Seq<char>,
    pub channelpool: Seq<ChannelView>,
}

impl View for Client {
    type V = ClientView;

    open spec fn view(&self) -> ClientView {
        ClientView {
            id: self.id@,
            inited: self.inited,
            connected: self.connected,
            connected_to: self.connected_to@,
            username: self.username@,
            channelpool: channels_view(self.channelpool@),
        }
    }
}

/// `c` without its member list.
pub open spec fn without_users(c: ChannelView) -> ChannelView {
    ChannelView { id: c.id, channel_name: c.channel_name, users: None, chat_msgs: c.chat_msgs }
}

/// `c` with the member list `users`.
pub open spec fn with_users(c: ChannelView, users: Seq<UserView>) -> ChannelView {
    ChannelView { id: c.id, channel_name: c.channel_name, users: Some(users), chat_msgs: c.chat_msgs }
}

/// The client right after start-up: unnamed, unconnected, without channels.
pub open spec fn fresh_client() -> ClientView {
    ClientView {
        id: Seq::empty(),
        inited: false,
        connected: false,
        connected_to: empty_channel_view(),
        username: Seq::empty(),
        channelpool: Seq::empty(),
    }
}

/// The state reached by disconnecting: no current channel, and no member
/// list kept for any known channel.
pub open spec fn disconnected(c: ClientView) -> ClientView {
    ClientView {
        connected: false,
        connected_to: empty_channel_view(),
        channelpool: c.channelpool.map_values(|ch: ChannelView| without_users(ch)),
        ..c
    }
}

/// The state reached by entering `channel` with the fetched `history`.
pub open spec fn entered(c: ClientView, channel: ChannelView, history: Seq<crate::model::MessageView>) -> ClientView {
    ClientView {
        connected: true,
        connected_to: crate::chat::with_history(channel, history),
        ..c
    }
}

/// Some known channel's id occurs in `text`, so `text` names a known channel.
pub open spec fn is_known_channel(pool: Seq<ChannelView>, text: Seq<char>) -> bool {
    exists|i: int| 0 <= i < pool.len() && is_substring(#[trigger] pool[i].id, text)
}

/// The view of a channel that may be missing.
pub open spec fn channel_opt_view(c: Option<Channel>) -> Option<ChannelView> {
    match c {
        Some(ch) => Some(ch@),
        None => None,
    }
}

/// The answer to an "add channel" request: a reply the server left all
/// zero adds nothing; otherwise the channel it describes is added.
/// The new state and whether a channel was added.
pub open spec fn finish_outcome(c: ClientView, reply: Seq<u8>, decoded: Option<ChannelView>) -> (ClientView, bool) {
    if all_zero(reply) {
        (c, false)
    } else {
        (ClientView { channelpool: c.channelpool.push(decoded->0), ..c }, true)
    }
}

/// One whole submission of `text`: a text naming a known channel is not
/// sent and adds nothing; otherwise the server's reply decides.
pub open spec fn submit_outcome(c: ClientView, text: Seq<char>, reply: Seq<u8>, decoded: Option<ChannelView>) -> (
    ClientView,
    bool,
) {
    if is_known_channel(c.channelpool, text) {
        (c, false)
    } else {
        finish_outcome(c, reply, decoded)
    }
}

/// The position of the first channel at or after `from` whose id occurs in
/// `current`, or the length of `pool` when there is none.
pub open spec fn first_member_channel(pool: Seq<ChannelView>, current: Seq<char>, from: int) -> int
    decreases pool.len() - from,
{
    if from >= pool.len() || from < 0 {
        pool.len() as int
    } else if is_substring(pool[from].id, current) {
        from
    } else {
        first_member_channel(pool, current, from + 1)
    }
}

/// The names listed beside the chat: walking the known channels in order,
/// every channel whose id contains the current channel's id contributes its
/// members' names; the walk stops at the first such channel that has no
/// member list.
pub open spec fn visible_names(pool: Seq<ChannelView>, current: Seq<char>) -> Seq<Seq<char>>
    decreases pool.len(),
{
    if pool.len() == 0 {
        Seq::empty()
    } else if is_substring(current, pool[0].id) {
        match pool[0].users {
            Some(u) => u.map_values(|x: UserView| x.name) + visible_names(pool.drop_first(), current),
            None => Seq::empty(),
        }
    } else {
        visible_names(pool.drop_first(), current)
    }
}

/// The line that asks the server to join `channel_id` as `username` with
/// client id `id`.
pub open spec fn join_line_of(channel_id: Seq<char>, username: Seq<char>, id: Seq<char>) -> Seq<char> {
    channel_id + seq![' '] + username + seq![' '] + id + seq!['\n']
}

/// A single space as a text.
pub fn space() -> (t: &'static str)
    ensures
        t@ == seq![' '],
{
    proof {
        reveal_strlit(" ");
    }
    let t = " ";
    assert(t@ =~= seq![' ']);
    t
}

impl Client {
    /// A client that has not been set up yet.
    pub fn new() -> (c: Client)
        ensures
            c@ == fresh_client(),
    {
        let c = Client {
            id: String::new(),
            inited: false,
            connected: false,
            connected_to: Channel::empty(),
            username: String::new(),
            channelpool: Vec::new(),
        };
        assert(c@.channelpool =~= Seq::<ChannelView>::empty());
        c
    }

    /// A set-up client with the given id and user name.
    pub fn initialized(id: String, username: String) -> (c: Client)
        ensures
            c@ == (ClientView { id: id@, username: username@, inited: true, ..fresh_client() }),
    {
        let mut c = Client::new();
        c.id = id;
        c.username = username;
        c.inited = true;
        c
    }

    /// Sets up a client under `username` with a fresh random id of `ID_LEN`
    /// letters and digits.
    pub fn with_random_id(username: String) -> (c: Client)
        ensures
            c@.id.len() == ID_LEN,
            forall|i: int| 0 <= i < c@.id.len() ==> is_alphanumeric(#[trigger] c@.id[i]),
            c@ == (ClientView { id: c@.id, username: username@, inited: true, ..fresh_client() }),
    {
        let id = random_alphanumeric(ID_LEN);
        Client::initialized(id, username)
    }

    /// Leaves the current channel. Returns the id of the channel that was
    /// left, which the server is told.
    pub fn disconnect(&mut self) -> (left: String)
        ensures
            left@ == old(self)@.connected_to.id,
            final(self)@ == disconnected(old(self)@),
    {
        let left = self.connected_to.id.clone();
        self.connected = false;
        self.connected_to = Channel::empty();
        let n = self.channelpool.len();
        let ghost pool0 = self.channelpool@;
        let ghost s0 = self@;
        let mut i: usize = 0;
        while i < n
            invariant
                self@.id == s0.id,
                self@.inited == s0.inited,
                self@.connected == s0.connected,
                self@.connected_to == s0.connected_to,
                self@.username == s0.username,
                n == self.channelpool@.len(),
                pool0.len() == n,
                i <= n,
                forall|k: int| 0 <= k < i ==> #[trigger] self.channelpool@[k]@ == without_users(pool0[k]@),
                forall|k: int| i <= k < n ==> #[trigger] self.channelpool@[k] == pool0[k],
            decreases n - i,
        {
            let mut c = self.channelpool.remove(i);
            c.users = None;
            self.channelpool.insert(i, c);
            i = i + 1;
        }
        assert(channels_view(self.channelpool@) =~= channels_view(pool0).map_values(
            |ch: ChannelView| without_users(ch),
        ));
        assert(self@ == disconnected(old(self)@));
        left
    }

    /// Prepares joining a channel: a connected client first leaves its
    /// channel, and the id to announce for that is returned.
    pub fn begin_connect(&mut self) -> (left: Option<String>)
        ensures
            old(self)@.connected ==> left is Some && left->0@ == old(self)@.connected_to.id
                && final(self)@ == disconnected(old(self)@),
            !old(self)@.connected ==> left is None && final(self)@ == old(self)@,
    {
        if self.connected {
            Some(self.disconnect())
        } else {
            None
        }
    }

    /// The line that asks the server to join `channel`.
    pub fn join_line(&self, channel: &Channel) -> (line: String)
        ensures
            line@ == join_line_of(channel@.id, self@.username, self@.id),
    {
        let mut line = channel.id.clone();
        line.append(space());
        line.append(self.username.as_str());
        line.append(space());
        line.append(self.id.as_str());
        line.append(newline());
        assert(line@ =~= join_line_of(channel@.id, self@.username, self@.id));
        line
    }

    /// Enters `channel` with the chat history fetched from the server.
    pub fn enter_channel(&mut self, channel: Channel, history: Vec<Message>)
        ensures
            final(self)@ == entered(old(self)@, channel@, messages_view(history@)),
    {
        let mut channel = channel;
        channel.chat_msgs = Some(history);
        self.connected_to = channel;
        self.connected = true;
    }

    /// Whether `text` names a channel that is already known: some known
    /// channel's id occurs in it.
    pub fn is_duplicate_channel(&self, text: &str) -> (dup: bool)
        ensures
            dup == exists|i: int| 0 <= i < self@.channelpool.len()
                && is_substring(#[trigger] self@.channelpool[i].id, text@),
    {
        let n = self.channelpool.len();
        let mut i: usize = 0;
        while i < n
            invariant
                n == self.channelpool@.len(),
                i <= n,
                forall|k: int| 0 <= k < i ==> !is_substring(#[trigger] self@.channelpool[k].id, text@),
            decreases n - i,
        {
            if contains(text, self.channelpool[i].id.as_str()) {
                assert(is_substring(self@.channelpool[i as int].id, text@));
                return true;
            }
            i = i + 1;
        }
        false
    }

    /// Starts adding the channel named by `text`: `None` when it is already
    /// known, otherwise the line that asks the server for it.
    pub fn start_add_channel(&self, text: &str) -> (request: Option<String>)
        ensures
            request is None <==> exists|i: int| 0 <= i < self@.channelpool.len()
                && is_substring(#[trigger] self@.channelpool[i].id, text@),
            request is Some ==> request->0@ == crate::protocol::line_of(text@),
    {
        if self.is_duplicate_channel(text) {
            None
        } else {
            Some(crate::protocol::signal_line(text))
        }
    }

    /// Takes the server's reply to an "add channel" request: a reply left all
    /// zero adds nothing, any other adds the channel decoded from it.
    /// Returns whether a channel was added.
    pub fn finish_add_channel(&mut self, reply: &[u8], decoded: Option<Channel>) -> (added: bool)
        requires
            !all_zero(reply@) ==> decoded is Some,
        ensures
            (final(self)@, added) == finish_outcome(old(self)@, reply@, channel_opt_view(decoded)),
    {
        if is_only_zeros(reply) {
            false
        } else {
            match decoded {
                Some(channel) => {
                    self.accept_channel(channel);
                    true
                },
                None => false,
            }
        }
    }

    /// Adds a channel the server has described to the known channels.
    pub fn accept_channel(&mut self, channel: Channel)
        ensures
            final(self)@ == (ClientView {
                channelpool: old(self)@.channelpool.push(channel@),
                ..old(self)@
            }),
    {
        self.channelpool.push(channel);
        assert(channels_view(self.channelpool@) =~= channels_view(old(self).channelpool@).push(channel@));
    }

    /// Stores the member list fetched for the current channel in the first
    /// known channel whose id occurs in the current channel's id.
    pub fn set_channel_users(&mut self, users: Vec<User>)
        ensures
            ({
                let pool = old(self)@.channelpool;
                let at = first_member_channel(pool, old(self)@.connected_to.id, 0);
                final(self)@ == (ClientView {
                    channelpool: if at < pool.len() {
                        pool.update(at, with_users(pool[at], users_view(users@)))
                    } else {
                        pool
                    },
                    ..old(self)@
                })
            }),
    {
        let ghost pool = old(self)@.channelpool;
        let ghost current = old(self)@.connected_to.id;
        let n = self.channelpool.len();
        let mut i: usize = 0;
        while i < n
            invariant
                n == self.channelpool@.len(),
                i <= n,
                self@ == old(self)@,
                pool == self@.channelpool,
                current == self@.connected_to.id,
                first_member_channel(pool, current, i as int) == first_member_channel(pool, current, 0),
            decreases n - i,
        {
            if contains(self.connected_to.id.as_str(), self.channelpool[i].id.as_str()) {
                let mut c = self.channelpool.remove(i);
                c.users = Some(users);
                self.channelpool.insert(i, c);
                assert(channels_view(self.channelpool@) =~= pool.update(
                    i as int,
                    with_users(pool[i as int], users_view(users@)),
                ));
                return;
            }
            i = i + 1;
        }
    }

    /// The member names listed beside the chat.
    pub fn visible_users(&self) -> (names: Vec<String>)
        ensures
            names@.map_values(|s: String| s@) == visible_names(self@.channelpool, self@.connected_to.id),
    {
        let ghost pool = self@.channelpool;
        let ghost current = self@.connected_to.id;
        let mut names: Vec<String> = Vec::new();
        assert(names@.map_values(|s: String| s@) =~= Seq::<Seq<char>>::empty());
        assert(pool.skip(0) =~= pool);
        let n = self.channelpool.len();
        let mut i: usize = 0;
        while i < n
            invariant
                n == pool.len(),
                pool == self@.channelpool,
                current == self@.connected_to.id,
                i <= n,
                names@.map_values(|s: String| s@) + visible_names(pool.skip(i as int), current)
                    == visible_names(pool, current),
            decreases n - i,
        {
            let ghost before = names@;
            assert(pool.skip(i as int).drop_first() =~= pool.skip(i + 1));
            assert(pool.skip(i as int)[0] == pool[i as int]);
            let c = &self.channelpool[i];
            if contains(c.id.as_str(), self.connected_to.id.as_str()) {
                match &c.users {
                    Some(us) => {
                        let mut j: usize = 0;
                        while j < us.len()
                            invariant
                                j <= us@.len(),
                                names@.map_values(|s: String| s@) == before.map_values(|s: String| s@)
                                    + users_view(us@).take(j as int).map_values(|x: UserView| x.name),
                            decreases us@.len() - j,
                        {
                            let ghost prev = names@;
                            names.push(us[j].name.clone());
                            assert(names@.map_values(|s: String| s@) =~= before.map_values(|s: String| s@)
                                + users_view(us@).take(j + 1).map_values(|x: UserView| x.name)) by {
                                assert(names@ == prev.push(us@[j as int].name));
                                assert(users_view(us@).take(j + 1) =~= users_view(us@).take(j as int).push(us@[j as int]@));
                                assert(names@.map_values(|s: String| s@) =~= prev.map_values(|s: String| s@).push(us@[j as int].name@));
                            }
                            j = j + 1;
                        }
                        assert(users_view(us@).take(us@.len() as int) =~= users_view(us@));
                        assert(names@.map_values(|s: String| s@) + visible_names(pool.skip(i + 1), current)
                            =~= visible_names(pool, current));
                    },
                    None => {
                        assert(names@.map_values(|s: String| s@) =~= visible_names(pool, current));
                        return names;
                    },
                }
            }
            i = i + 1;
        }
        assert(pool.skip(n as int) =~= Seq::<ChannelView>::empty());
        assert(names@.map_values(|s: String| s@) =~= visible_names(pool, current));
        names
    }
}

} // verus!
