use chat_client::app_state::{App, CHAT_TEXT_MAX_LEN, USERNAME_MAX_LEN};
use chat_client::client::Client;
use chat_client::model::Channel;

fn chan(id: &str, name: &str) -> Channel {
    Channel { id: id.to_string(), channel_name: name.to_string(), users: None, chat_msgs: None }
}

#[test]
fn new_app_is_empty() {
    let a = App::new();
    assert!(!a.connection_window());
    assert!(a.chat_text.is_empty() && a.username_text.is_empty());
    assert!(a.join_channel_text.is_empty() && a.current_channel_text.is_empty());
}

#[test]
fn toggle_twice_restores() {
    let mut a = App::new();
    a.toggle_connection_window();
    assert!(a.connection_window());
    a.toggle_connection_window();
    assert!(!a.connection_window());
}

#[test]
fn after_init_fills_fields() {
    let mut a = App::new();
    a.client = Client::initialized("id".to_string(), "carol".to_string());
    a.after_init();
    assert_eq!(a.username_text, "carol");
    assert_eq!(a.current_channel_text, "");
    a.client.accept_channel(chan("1", "first"));
    a.client.accept_channel(chan("2", "second"));
    a.after_init();
    assert_eq!(a.current_channel_text, "first");
}

#[test]
fn username_is_cut_to_limit() {
    assert_eq!(USERNAME_MAX_LEN, 16);
    let mut a = App::new();
    a.username_text = "abcdefghijklmnopqrst".to_string();
    a.edit_username();
    assert_eq!(a.username_text, "abcdefghijklmnop");
    assert_eq!(a.client.username, "abcdefghijklmnop");
    a.username_text = "dave".to_string();
    a.edit_username();
    assert_eq!(a.client.username, "dave");
}

#[test]
fn channel_added_selects_matching_channel() {
    let mut a = App::new();
    a.client.accept_channel(chan("42", "answers"));
    a.client.accept_channel(chan("7", "seven"));
    a.current_channel_text = "old".to_string();
    a.join_channel_text = "42".to_string();
    a.channel_added(true);
    assert_eq!(a.current_channel_text, "answers");
    assert!(a.join_channel_text.is_empty());
    a.join_channel_text = "7".to_string();
    a.channel_added(false);
    assert_eq!(a.current_channel_text, "answers");
    assert!(a.join_channel_text.is_empty());
}

#[test]
fn channel_added_last_match_wins() {
    let mut a = App::new();
    a.client.accept_channel(chan("4", "four"));
    a.client.accept_channel(chan("42", "fortytwo"));
    a.join_channel_text = "42".to_string();
    a.channel_added(true);
    assert_eq!(a.current_channel_text, "fortytwo");
}

#[test]
fn selected_channel_by_name() {
    let mut a = App::new();
    a.client.accept_channel(chan("1", "general"));
    a.client.accept_channel(chan("2", "random"));
    a.current_channel_text = "random".to_string();
    assert_eq!(a.selected_channel().id, "2");
    a.current_channel_text = "nothing".to_string();
    let c = a.selected_channel();
    assert!(c.id.is_empty() && c.channel_name.is_empty());
}

#[test]
fn chat_text_is_cut_to_limit() {
    let mut a = App::new();
    a.chat_text = "x".repeat(300);
    a.clamp_chat_text();
    assert_eq!(a.chat_text.len(), CHAT_TEXT_MAX_LEN);
    a.chat_text = "hello".to_string();
    a.clamp_chat_text();
    assert_eq!(a.chat_text, "hello");
}

#[test]
fn send_condition() {
    let mut a = App::new();
    assert!(!a.should_send_chat(true, true, true));
    a.client.enter_channel(chan("c", "C"), vec![]);
    assert!(a.should_send_chat(true, true, true));
    assert!(!a.should_send_chat(false, true, true));
    assert!(!a.should_send_chat(true, false, true));
    assert!(!a.should_send_chat(true, true, false));
}

#[test]
fn chat_line_format_and_clear() {
    let mut a = App::new();
    a.client = Client::initialized("CID".to_string(), "eve".to_string());
    a.client.enter_channel(chan("room1", "Room"), vec![]);
    a.chat_text = "hello there".to_string();
    assert_eq!(a.take_chat_line(), "room1 CID eve hello there\n");
    assert!(a.chat_text.is_empty());
}

#[test]
fn chat_counter_text() {
    let mut a = App::new();
    assert_eq!(a.chat_counter(), ("0/255".to_string(), false));
    a.chat_text = "ä".to_string();
    assert_eq!(a.chat_counter(), ("2/255".to_string(), false));
    a.chat_text = "y".repeat(255);
    assert_eq!(a.chat_counter(), ("255/255".to_string(), true));
}
