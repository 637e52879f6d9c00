//! The data exchanged with the chat server: users, chat messages and channels.
use vstd::prelude::*;

verus! {

/// A member of a channel.
#[derive(Debug)]
pub struct User {
    pub name: String,
    pub id: String,
}

/// One chat message as the server stores it.
#[derive(Debug)]
pub struct Message {
    pub id: String,
    pub sender_id: String,
    pub sender: String,
    pub date: String,
    pub content: String,
}

/// A chat channel: its identity, and, once fetched, its members and history.
#[derive(Debug)]
pub struct Channel {
    pub id: String,
    pub channel_name: String,
    pub users: Option<Vec<User>>,
    pub chat_msgs: Option<Vec<Message>>,
}

pub struct UserView {
    pub name: Seq<char>,
    pub id: Seq<char>,
}

pub struct MessageView {
    pub id: Seq<char>,
    pub sender_id: Seq<char>,
    pub sender: Seq<char>,
    pub date: Seq<char>,
    pub content: Seq<char>,
}

pub struct ChannelView {
    pub id: Seq<char>,
    pub channel_name: Seq<char>,
    pub users: Option<Seq<UserView>>,
    pub chat_msgs: Option<Seq<MessageView>>,
}

impl View for User {
    type V = UserView;

    open spec fn view(&self) -> UserView {
        UserView { name: self.name@, id: self.id@ }
    }
}

impl View for Message {
    type V = MessageView;

    open spec fn view(&self) -> MessageView {
        MessageView {
            id: self.id@,
            sender_id: self.sender_id@,
            sender: self.sender@,
            date: self.date@,
            content: self.content@,
        }
    }
}

/// The views of a list of users.
pub open spec fn users_view(v: Seq<User>) -> Seq<UserView> {
    v.map_values(|u: User| u@)
}

/// The views of a list of messages.
pub open spec fn messages_view(v: Seq<Message>) -> Seq<MessageView> {
    v.map_values(|m: Message| m@)
}

impl View for Channel {
    type V = ChannelView;

    open spec fn view(&self) -> ChannelView {
        ChannelView {
            id: self.id@,
            channel_name: self.channel_name@,
            users: match self.users {
                Some(u) => Some(users_view(u@)),
                None => None,
            },
            chat_msgs: match self.chat_msgs {
                Some(m) => Some(messages_view(m@)),
                None => None,
            },
        }
    }
}

/// The views of a list of channels.
pub open spec fn channels_view(v: Seq<Channel>) -> Seq<ChannelView> {
    v.map_values(|c: Channel| c@)
}

/// The channel that stands for "no channel": every field empty.
pub open spec fn empty_channel_view() -> ChannelView {
    ChannelView {
        id: Seq::empty(),
        channel_name: Seq::empty(),
        users: None,
        chat_msgs: None,
    }
}

impl Clone for User {
    fn clone(&self) -> (r: Self)
        ensures
            r@ == self@,
    {
        User { name: self.name.clone(), id: self.id.clone() }
    }
}

impl Clone for Message {
    fn clone(&self) -> (r: Self)
        ensures
            r@ == self@,
    {
        Message {
            id: self.id.clone(),
            sender_id: self.sender_id.clone(),
            sender: self.sender.clone(),
            date: self.date.clone(),
            content: self.content.clone(),
        }
    }
}

/// A copy of a list of users.
pub fn clone_users(v: &Vec<User>) -> (r: Vec<User>)
    ensures
        users_view(r@) == users_view(v@),
{
    let mut r: Vec<User> = Vec::new();
    for i in 0..v.len()
        invariant
            r@.len() == i,
            users_view(r@) == users_view(v@).take(i as int),
    {
        let ghost before = r@;
        let x = v[i].clone();
        r.push(x);
        assert(r@ == before.push(x));
        assert(users_view(r@) =~= users_view(before).push(x@));
        assert(users_view(r@) =~= users_view(v@).take(i + 1));
    }
    assert(users_view(v@).take(v@.len() as int) =~= users_view(v@));
    r
}

/// A copy of a list of messages.
pub fn clone_messages(v: &Vec<Message>) -> (r: Vec<Message>)
    ensures
        messages_view(r@) == messages_view(v@),
{
    let mut r: Vec<Message> = Vec::new();
    for i in 0..v.len()
        invariant
            r@.len() == i,
            messages_view(r@) == messages_view(v@).take(i as int),
    {
        let ghost before = r@;
        let x = v[i].clone();
        r.push(x);
        assert(r@ == before.push(x));
        assert(messages_view(r@) =~= messages_view(before).push(x@));
        assert(messages_view(r@) =~= messages_view(v@).take(i + 1));
    }
    assert(messages_view(v@).take(v@.len() as int) =~= messages_view(v@));
    r
}

impl Clone for Channel {
    fn clone(&self) -> (r: Self)
        ensures
            r@ == self@,
    {
        let users = match &self.users {
            Some(u) => Some(clone_users(u)),
            None => None,
        };
        let chat_msgs = match &self.chat_msgs {
            Some(m) => Some(clone_messages(m)),
            None => None,
        };
        Channel {
            id: self.id.clone(),
            channel_name: self.channel_name.clone(),
            users,
            chat_msgs,
        }
    }
}

impl Channel {
    /// The channel with every field empty, used while not connected.
    pub fn empty() -> (c: Channel)
        ensures
            c@ == empty_channel_view(),
    {
        Channel { id: String::new(), channel_name: String::new(), users: None, chat_msgs: None }
    }
}

} // verus!
