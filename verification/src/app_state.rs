//! The state behind the client's window and the rules its controls follow.
use vstd::prelude::*;
use crate::model::{Channel, ChannelView, empty_channel_view};
use crate::client::{Client, ClientView, fresh_client, space};
use crate::text::{contains, is_substring, truncate_bytes, cut_allowed, utf8, decimal, push_decimal};
use crate::protocol::newline;

verus! {

/// The longest user name, in bytes.
pub const USERNAME_MAX_LEN: usize = 16;

/// The longest chat message, in bytes.
pub const CHAT_TEXT_MAX_LEN: usize = 255;

/// The client together with the texts of the window's input fields.
pub struct App {
    pub client: Client,
    pub chat_text: String,
    pub username_text: String,
    pub join_channel_text: String,
    pub current_channel_text: String,
    pub connect_window: bool,
}

pub struct AppView {
    pub client: ClientView,
    pub chat_text: Seq<char>,
    pub username_text: Seq<char>,
    pub join_channel_text: Seq<char>,
    pub current_channel_text: Seq<char>,
    pub connect_window: bool,
}

impl View for App {
    type V = AppView;

    open spec fn view(&self) -> AppView {
        AppView {
            client: self.client@,
            chat_text: self.chat_text@,
            username_text: self.username_text@,
            join_channel_text: self.join_channel_text@,
            current_channel_text: self.current_channel_text@,
            connect_window: self.connect_window,
        }
    }
}

/// The window before anything happened: empty fields, dialog closed.
pub open spec fn fresh_app() -> AppView {
    AppView {
        client: fresh_client(),
        chat_text: Seq::empty(),
        username_text: Seq::empty(),
        join_channel_text: Seq::empty(),
        current_channel_text: Seq::empty(),
        connect_window: false,
    }
}

/// The window with the connection dialog opened or closed.
pub open spec fn toggled(a: AppView) -> AppView {
    AppView { connect_window: !a.connect_window, ..a }
}

/// The last position before `upto` of a channel satisfying `p`, or -1.
pub open spec fn last_index_where(pool: Seq<ChannelView>, p: spec_fn(ChannelView) -> bool, upto: int) -> int
    decreases upto,
{
    if upto <= 0 {
        -1
    } else if p(pool[upto - 1]) {
        upto - 1
    } else {
        last_index_where(pool, p, upto - 1)
    }
}

/// A channel is meant by a selection text when its name occurs in it.
pub open spec fn named_in(text: Seq<char>) -> spec_fn(ChannelView) -> bool {
    |c: ChannelView| is_substring(c.channel_name, text)
}

/// A channel is meant by a typed channel id when its id occurs in it.
pub open spec fn id_in(text: Seq<char>) -> spec_fn(ChannelView) -> bool {
    |c: ChannelView| is_substring(c.id, text)
}

/// The channel that the selection text picks: the last known channel whose
/// name occurs in it, or the empty channel.
pub open spec fn selected_channel_of(pool: Seq<ChannelView>, text: Seq<char>) -> ChannelView {
    let at = last_index_where(pool, named_in(text), pool.len() as int);
    if at >= 0 {
        pool[at]
    } else {
        empty_channel_view()
    }
}

/// The line sent for a chat message: current channel id, client id, user
/// name and text, separated by spaces and ended by a newline.
pub open spec fn chat_line_of(channel_id: Seq<char>, id: Seq<char>, username: Seq<char>, text: Seq<char>) -> Seq<char> {
    channel_id + seq![' '] + id + seq![' '] + username + seq![' '] + text + seq!['\n']
}

/// The counter shown under the chat field: used bytes, a slash, the limit.
pub open spec fn counter_text(used: nat) -> Seq<char> {
    decimal(used) + seq!['/'] + decimal(CHAT_TEXT_MAX_LEN as nat)
}

/// The last position before `upto` of a channel satisfying `p`, found by a walk.
fn last_where(pool: &Vec<Channel>, text: &str, by_name: bool) -> (at: Option<usize>)
    ensures
        ({
            let p = if by_name { named_in(text@) } else { id_in(text@) };
            let k = last_index_where(crate::model::channels_view(pool@), p, pool@.len() as int);
            &&& at is None <==> k == -1
            &&& at is Some ==> at->0 == k && k < pool@.len()
        }),
{
    let ghost views = crate::model::channels_view(pool@);
    let ghost p = if by_name { named_in(text@) } else { id_in(text@) };
    let mut found: Option<usize> = None;
    let n = pool.len();
    let mut i: usize = 0;
    while i < n
        invariant
            n == pool@.len(),
            views == crate::model::channels_view(pool@),
            p == (if by_name { named_in(text@) } else { id_in(text@) }),
            i <= n,
            found is None <==> last_index_where(views, p, i as int) == -1,
            found is Some ==> found->0 == last_index_where(views, p, i as int) && found->0 < i,
        decreases n - i,
    {
        let c = &pool[i];
        let hit = if by_name {
            contains(text, c.channel_name.as_str())
        } else {
            contains(text, c.id.as_str())
        };
        assert(views[i as int] == pool@[i as int]@);
        assert(hit == p(views[i as int]));
        if hit {
            found = Some(i);
        }
        i = i + 1;
    }
    found
}

impl App {
    /// The window at start-up.
    pub fn new() -> (a: App)
        ensures
            a@ == fresh_app(),
    {
        App {
            client: Client::new(),
            chat_text: String::new(),
            username_text: String::new(),
            join_channel_text: String::new(),
            current_channel_text: String::new(),
            connect_window: false,
        }
    }

    /// Opens the connection dialog when it is closed and closes it when open.
    pub fn toggle_connection_window(&mut self)
        ensures
            final(self)@ == toggled(old(self)@),
    {
        if self.connect_window {
            self.connect_window = false;
        } else {
            self.connect_window = true;
        }
    }

    /// Whether the connection dialog is open.
    pub fn connection_window(&self) -> (open: bool)
        ensures
            open == self@.connect_window,
    {
        self.connect_window
    }

    /// Fills the fields once the client is set up and its saved channels are
    /// known: the user name, and the first channel as the selection.
    pub fn after_init(&mut self)
        ensures
            final(self)@ == (AppView {
                username_text: old(self)@.client.username,
                current_channel_text: if old(self)@.client.channelpool.len() > 0 {
                    old(self)@.client.channelpool[0].channel_name
                } else {
                    old(self)@.current_channel_text
                },
                ..old(self)@
            }),
    {
        self.username_text = self.client.username.clone();
        if self.client.channelpool.len() > 0 {
            self.current_channel_text = self.client.channelpool[0].channel_name.clone();
        }
    }

    /// Takes an edit of the user name field: the name is cut to
    /// `USERNAME_MAX_LEN` bytes and becomes the client's user name.
    pub fn edit_username(&mut self)
        requires
            cut_allowed(old(self)@.username_text, USERNAME_MAX_LEN as nat),
        ensures
            utf8(old(self)@.username_text).len() <= USERNAME_MAX_LEN ==> final(self)@.username_text
                == old(self)@.username_text,
            utf8(old(self)@.username_text).len() > USERNAME_MAX_LEN ==> utf8(final(self)@.username_text)
                == utf8(old(self)@.username_text).take(USERNAME_MAX_LEN as int),
            final(self)@ == (AppView {
                username_text: final(self)@.username_text,
                client: ClientView { username: final(self)@.username_text, ..old(self)@.client },
                ..old(self)@
            }),
    {
        let name = truncate_bytes(&self.username_text, USERNAME_MAX_LEN);
        self.client.username = name.clone();
        self.username_text = name;
    }

    /// Takes the answer to "Add Channel": when the server added a channel,
    /// the last known channel whose id occurs in the typed text becomes the
    /// selection; the typed text is cleared either way.
    pub fn channel_added(&mut self, accepted: bool)
        ensures
            ({
                let pool = old(self)@.client.channelpool;
                let at = last_index_where(pool, id_in(old(self)@.join_channel_text), pool.len() as int);
                final(self)@ == (AppView {
                    join_channel_text: Seq::empty(),
                    current_channel_text: if accepted && at >= 0 {
                        pool[at].channel_name
                    } else {
                        old(self)@.current_channel_text
                    },
                    ..old(self)@
                })
            }),
    {
        if accepted {
            let at = last_where(&self.client.channelpool, self.join_channel_text.as_str(), false);
            match at {
                Some(i) => {
                    self.current_channel_text = self.client.channelpool[i].channel_name.clone();
                },
                None => {},
            }
        }
        self.join_channel_text = String::new();
    }

    /// The channel to join: the last known channel whose name occurs in the
    /// selection, or the empty channel when none does.
    pub fn selected_channel(&self) -> (c: Channel)
        ensures
            c@ == selected_channel_of(self@.client.channelpool, self@.current_channel_text),
    {
        match last_where(&self.client.channelpool, self.current_channel_text.as_str(), true) {
            Some(i) => self.client.channelpool[i].clone(),
            None => Channel::empty(),
        }
    }

    /// Keeps the chat field within `CHAT_TEXT_MAX_LEN` bytes.
    pub fn clamp_chat_text(&mut self)
        requires
            cut_allowed(old(self)@.chat_text, CHAT_TEXT_MAX_LEN as nat),
        ensures
            utf8(old(self)@.chat_text).len() <= CHAT_TEXT_MAX_LEN ==> final(self)@.chat_text
                == old(self)@.chat_text,
            utf8(old(self)@.chat_text).len() > CHAT_TEXT_MAX_LEN ==> utf8(final(self)@.chat_text)
                == utf8(old(self)@.chat_text).take(CHAT_TEXT_MAX_LEN as int),
            final(self)@ == (AppView { chat_text: final(self)@.chat_text, ..old(self)@ }),
    {
        self.chat_text = truncate_bytes(&self.chat_text, CHAT_TEXT_MAX_LEN);
    }

    /// A chat message is sent when the field lost focus by Enter while the
    /// client is connected over an open connection.
    pub fn should_send_chat(&self, lost_focus: bool, has_connection: bool, enter_pressed: bool) -> (send: bool)
        ensures
            send == (lost_focus && has_connection && self@.client.connected && enter_pressed),
    {
        lost_focus && has_connection && self.client.connected && enter_pressed
    }

    /// The line that sends the typed chat message; the field is emptied.
    pub fn take_chat_line(&mut self) -> (line: String)
        ensures
            line@ == chat_line_of(
                old(self)@.client.connected_to.id,
                old(self)@.client.id,
                old(self)@.client.username,
                old(self)@.chat_text,
            ),
            final(self)@ == (AppView { chat_text: Seq::empty(), ..old(self)@ }),
    {
        let mut line = self.client.connected_to.id.clone();
        line.append(space());
        line.append(self.client.id.as_str());
        line.append(space());
        line.append(self.client.username.as_str());
        line.append(space());
        line.append(self.chat_text.as_str());
        line.append(newline());
        assert(line@ =~= chat_line_of(
            self@.client.connected_to.id,
            self@.client.id,
            self@.client.username,
            self@.chat_text,
        ));
        self.chat_text = String::new();
        line
    }

    /// The counter under the chat field, and whether the field is full.
    pub fn chat_counter(&self) -> (c: (String, bool))
        ensures
            c.0@ == counter_text(utf8(self@.chat_text).len()),
            c.1 == (utf8(self@.chat_text).len() == CHAT_TEXT_MAX_LEN),
    {
        let used = self.chat_text.as_str().as_bytes().len();
        let mut text = String::new();
        push_decimal(&mut text, used);
        proof {
            reveal_strlit("/");
        }
        text.append("/");
        push_decimal(&mut text, CHAT_TEXT_MAX_LEN);
        assert(text@ =~= counter_text(utf8(self@.chat_text).len()));
        (text, used == CHAT_TEXT_MAX_LEN)
    }
}

} // verus!
