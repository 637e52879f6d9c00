use chat_client::app_state::App;
use chat_client::chat::CHAT_MAX_SIZE;
use chat_client::client::Client;
use chat_client::config::{default_config, init_user, saved_channel_ids, store_channels, store_username};
use chat_client::model::{Channel, Message, User};
use chat_client::protocol::{signal_line, strip_signal_line};
use chat_client::text::truncate_bytes;

fn chan(id: &str) -> Channel {
    Channel { id: id.to_string(), channel_name: format!("n{}", id), users: None, chat_msgs: None }
}

fn msg(id: &str) -> Message {
    Message {
        id: id.to_string(),
        sender_id: "s".to_string(),
        sender: "x".to_string(),
        date: "d t".to_string(),
        content: "c".to_string(),
    }
}

#[test]
fn law_toggle_twice_values() {
    let mut a = App::new();
    a.chat_text = "keep".to_string();
    a.toggle_connection_window();
    a.toggle_connection_window();
    assert!(!a.connection_window());
    assert_eq!(a.chat_text, "keep");
}

#[test]
fn law_signal_round_trip_values() {
    assert_eq!(strip_signal_line(&signal_line("ADDCHANNEL")), "ADDCHANNEL");
}

#[test]
fn law_disconnect_twice_values() {
    let mut c = Client::new();
    let mut a = chan("a");
    a.users = Some(vec![User { name: "p".to_string(), id: "q".to_string() }]);
    c.accept_channel(a);
    c.enter_channel(chan("a"), vec![]);
    assert_eq!(c.disconnect(), "a");
    assert_eq!(c.disconnect(), "");
    assert!(!c.connected);
    assert_eq!(c.channelpool.len(), 1);
    assert!(c.channelpool[0].users.is_none());
}

#[test]
fn law_history_bounded_values() {
    let mut ch = chan("a");
    ch.chat_msgs = Some(vec![]);
    for i in 0..(3 * CHAT_MAX_SIZE) {
        ch.merge_chat_messages(vec![msg(&format!("m{}-", i))]);
        assert!(ch.chat_msgs.as_ref().unwrap().len() <= CHAT_MAX_SIZE);
        assert_eq!(ch.chat_msgs.as_ref().unwrap().last().unwrap().id, format!("m{}-", i));
    }
}

#[test]
fn law_known_channel_is_duplicate_values() {
    let mut c = Client::new();
    c.accept_channel(chan("room7"));
    assert!(c.is_duplicate_channel("join room7 please"));
}

#[test]
fn law_username_read_back_values() {
    let mut conf = default_config();
    store_username(&mut conf, &"zed".to_string());
    assert_eq!(init_user(&mut conf).unwrap().username, "\"zed\"");
}

#[test]
fn law_channels_read_back_values() {
    let mut conf = default_config();
    let pool = vec![chan("1"), chan("22"), chan("1")];
    store_channels(&mut conf, &pool);
    assert_eq!(saved_channel_ids(&conf), vec!["1", "22", "1"]);
}

#[test]
fn law_cut_twice_values() {
    let s = "öööööööööö".to_string();
    let once = truncate_bytes(&s, 16);
    let twice = truncate_bytes(&once, 16);
    assert_eq!(once, twice);
    assert!(once.len() <= 16);
}

#[test]
fn law_saved_channels_restore_values() {
    let mut conf = default_config();
    store_channels(&mut conf, &vec![chan("a1"), chan("b2"), chan("c3")]);
    let mut c = Client::new();
    let mut reply = vec![0u8; 255];
    reply[0] = 1;
    for id in saved_channel_ids(&conf) {
        if c.start_add_channel(&id).is_some() {
            assert!(c.finish_add_channel(&reply, Some(chan(&id))));
        }
    }
    let ids: Vec<String> = c.channelpool.iter().map(|ch| ch.id.clone()).collect();
    assert_eq!(ids, vec!["a1", "b2", "c3"]);
}

#[test]
fn law_one_submission_values() {
    let mut c = Client::new();
    c.accept_channel(chan("a"));
    assert!(c.start_add_channel("xa").is_none());
    assert_eq!(c.channelpool.len(), 1);
    let added = c.finish_add_channel(&[0u8; 4], None);
    assert!(!added);
    assert_eq!(c.channelpool.len(), 1);
    let added = c.finish_add_channel(&[5u8; 4], Some(chan("b")));
    assert!(added);
    assert_eq!(c.channelpool.len(), 2);
    assert_eq!(c.channelpool[0].id, "a");
}
