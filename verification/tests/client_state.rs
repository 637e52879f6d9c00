use chat_client::client::{Client, ID_LEN};
use chat_client::model::{Channel, Message, User};

fn chan(id: &str, name: &str) -> Channel {
    Channel { id: id.to_string(), channel_name: name.to_string(), users: None, chat_msgs: None }
}

fn user(name: &str) -> User {
    User { name: name.to_string(), id: format!("id-{}", name) }
}

#[test]
fn new_client_is_empty() {
    let c = Client::new();
    assert!(c.id.is_empty() && c.username.is_empty() && c.channelpool.is_empty());
    assert!(!c.inited && !c.connected);
    assert!(c.connected_to.id.is_empty() && c.connected_to.chat_msgs.is_none());
}

#[test]
fn random_id_is_alphanumeric() {
    let c = Client::with_random_id("alice".to_string());
    assert_eq!(c.id.chars().count(), ID_LEN);
    assert!(c.id.chars().all(|ch| ch.is_ascii_alphanumeric()));
    assert_eq!(c.username, "alice");
    assert!(c.inited && !c.connected);
    let d = Client::with_random_id("alice".to_string());
    assert_ne!(c.id, d.id);
}

#[test]
fn initialized_keeps_id_and_name() {
    let c = Client::initialized("abc".to_string(), "bob".to_string());
    assert_eq!(c.id, "abc");
    assert_eq!(c.username, "bob");
    assert!(c.inited);
}

#[test]
fn join_line_format() {
    let c = Client::initialized("ID1".to_string(), "bob".to_string());
    assert_eq!(c.join_line(&chan("ch9", "general")), "ch9 bob ID1\n");
}

#[test]
fn enter_then_disconnect() {
    let mut c = Client::initialized("ID1".to_string(), "bob".to_string());
    let mut a = chan("a", "A");
    a.users = Some(vec![user("x")]);
    c.accept_channel(a);
    c.accept_channel(chan("b", "B"));
    assert!(c.begin_connect().is_none());
    let history = vec![Message {
        id: "m1".to_string(),
        sender_id: "s".to_string(),
        sender: "x".to_string(),
        date: "d t".to_string(),
        content: "hi".to_string(),
    }];
    c.enter_channel(chan("b", "B"), history);
    assert!(c.connected);
    assert_eq!(c.connected_to.id, "b");
    assert_eq!(c.connected_to.chat_msgs.as_ref().unwrap()[0].id, "m1");
    let left = c.begin_connect();
    assert_eq!(left.as_deref(), Some("b"));
    assert!(!c.connected);
    assert!(c.connected_to.id.is_empty() && c.connected_to.chat_msgs.is_none());
    assert!(c.channelpool.iter().all(|ch| ch.users.is_none()));
    assert_eq!(c.channelpool.len(), 2);
    assert_eq!(c.channelpool[0].id, "a");
}

#[test]
fn disconnect_returns_left_channel() {
    let mut c = Client::new();
    c.enter_channel(chan("room", "Room"), vec![]);
    assert_eq!(c.disconnect(), "room");
    assert_eq!(c.disconnect(), "");
    assert!(!c.connected);
}

#[test]
fn duplicate_channel_detection() {
    let mut c = Client::new();
    assert!(!c.is_duplicate_channel("abc"));
    c.accept_channel(chan("abc", "ABC"));
    assert!(c.is_duplicate_channel("abc"));
    assert!(c.is_duplicate_channel("xabcx"));
    assert!(!c.is_duplicate_channel("ab"));
    c.accept_channel(chan("", "nameless"));
    assert!(c.is_duplicate_channel("anything"));
}

#[test]
fn set_users_on_first_matching_channel() {
    let mut c = Client::new();
    c.accept_channel(chan("x", "X"));
    c.accept_channel(chan("ab", "AB"));
    c.accept_channel(chan("abc", "ABC"));
    c.enter_channel(chan("abc", "ABC"), vec![]);
    c.set_channel_users(vec![user("u1"), user("u2")]);
    assert!(c.channelpool[0].users.is_none());
    let got: Vec<String> = c.channelpool[1].users.as_ref().unwrap().iter().map(|u| u.name.clone()).collect();
    assert_eq!(got, vec!["u1", "u2"]);
    assert!(c.channelpool[2].users.is_none());
}

#[test]
fn set_users_without_match_changes_nothing() {
    let mut c = Client::new();
    c.accept_channel(chan("x", "X"));
    c.enter_channel(chan("abc", "ABC"), vec![]);
    c.set_channel_users(vec![user("u1")]);
    assert!(c.channelpool[0].users.is_none());
}

#[test]
fn visible_users_of_current_channel() {
    let mut c = Client::new();
    let mut a = chan("a1", "A");
    a.users = Some(vec![user("p"), user("q")]);
    let mut b = chan("b1", "B");
    b.users = Some(vec![user("r")]);
    c.accept_channel(a);
    c.accept_channel(b);
    c.enter_channel(chan("a1", "A"), vec![]);
    assert_eq!(c.visible_users(), vec!["p", "q"]);
}

#[test]
fn visible_users_stop_at_channel_without_list() {
    let mut c = Client::new();
    let mut a = chan("a1", "A");
    a.users = Some(vec![user("p")]);
    let mut a2 = chan("a1x", "A2");
    a2.users = Some(vec![user("z")]);
    c.accept_channel(a);
    c.accept_channel(chan("a1y", "none"));
    c.accept_channel(a2);
    c.enter_channel(chan("a1", "A"), vec![]);
    assert_eq!(c.visible_users(), vec!["p"]);
}

#[test]
fn start_add_channel_request() {
    let mut c = Client::new();
    assert_eq!(c.start_add_channel("abc").as_deref(), Some("abc\n"));
    c.accept_channel(chan("abc", "ABC"));
    assert!(c.start_add_channel("abc").is_none());
    assert_eq!(c.start_add_channel("xyz").as_deref(), Some("xyz\n"));
}

#[test]
fn finish_add_channel_reply() {
    let mut c = Client::new();
    assert!(!c.finish_add_channel(&[0u8; 255], None));
    assert!(c.channelpool.is_empty());
    assert!(!c.finish_add_channel(&[0u8; 8], Some(chan("x", "X"))));
    assert!(c.channelpool.is_empty());
    let mut reply = [0u8; 255];
    reply[3] = 9;
    assert!(c.finish_add_channel(&reply, Some(chan("x", "X"))));
    assert_eq!(c.channelpool.len(), 1);
    assert_eq!(c.channelpool[0].id, "x");
    assert!(c.finish_add_channel(&reply, Some(chan("y", "Y"))));
    assert_eq!(c.channelpool[1].id, "y");
    assert_eq!(c.channelpool[0].id, "x");
}
