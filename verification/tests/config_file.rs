use chat_client::config::{channel_key_string, default_config, init_user, saved_channel_ids, store_channels,
    store_username};
use chat_client::model::Channel;
use ini::Ini;

fn chan(id: &str) -> Channel {
    Channel { id: id.to_string(), channel_name: format!("name {}", id), users: None, chat_msgs: None }
}

#[test]
fn default_config_has_empty_name() {
    let mut conf = default_config();
    assert_eq!(conf.get_from(Some("User"), "name"), Some(""));
    let c = init_user(&mut conf).unwrap();
    assert_eq!(c.username, "");
    assert_eq!(c.id.len(), 30);
}

#[test]
fn init_user_without_name() {
    let mut conf = Ini::new();
    assert!(init_user(&mut conf).is_none());
}

#[test]
fn username_read_back_quoted() {
    let mut conf = default_config();
    store_username(&mut conf, &"bob".to_string());
    assert_eq!(conf.get_from(Some("User"), "name"), Some("\"bob\""));
    let c = init_user(&mut conf).unwrap();
    assert_eq!(c.username, "\"bob\"");
}

#[test]
fn username_survives_file_round_trip() {
    let mut conf = default_config();
    store_username(&mut conf, &"bob".to_string());
    let mut out = Vec::new();
    conf.write_to(&mut out).unwrap();
    let text = String::from_utf8(out).unwrap();
    let mut loaded = Ini::load_from_str(&text).unwrap();
    let c = init_user(&mut loaded).unwrap();
    assert_eq!(c.username, "bob");
}

#[test]
fn channel_keys() {
    assert_eq!(channel_key_string(1), "channel1");
    assert_eq!(channel_key_string(12), "channel12");
}

#[test]
fn channels_read_back_in_order() {
    let mut conf = default_config();
    store_channels(&mut conf, &vec![chan("a"), chan("b"), chan("c")]);
    assert_eq!(saved_channel_ids(&conf), vec!["a", "b", "c"]);
    assert_eq!(conf.get_from(Some("Channels"), "channel2"), Some("b"));
    store_channels(&mut conf, &vec![chan("z")]);
    assert_eq!(saved_channel_ids(&conf), vec!["z"]);
    assert_eq!(conf.get_from(Some("Channels"), "channel2"), None);
    assert_eq!(conf.get_from(Some("User"), "name"), Some(""));
}

#[test]
fn no_channels_removes_section() {
    let mut conf = default_config();
    store_channels(&mut conf, &vec![chan("a")]);
    store_channels(&mut conf, &vec![]);
    assert!(conf.section(Some("Channels")).is_none());
    assert!(saved_channel_ids(&conf).is_empty());
}

#[test]
fn saved_channels_from_file_text() {
    let conf = Ini::load_from_str("[User]\nname=x\n[Channels]\nchannel1=id1\nchannel2=id2\n").unwrap();
    assert_eq!(saved_channel_ids(&conf), vec!["id1", "id2"]);
}
