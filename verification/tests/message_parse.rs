use commandservice::message::parse_command_name;
use commandservice::Identity;
use commandservice::Message;

fn user() -> Identity {
    Identity { channel_id: "chan-1".to_string() }
}

#[test]
fn a_bang_and_a_name_match_command_syntax() {
    assert_eq!(parse_command_name("!ping"), Some("ping".to_string()));
    assert_eq!(parse_command_name("!ping with args"), Some("ping".to_string()));
    assert_eq!(parse_command_name("!p"), Some("p".to_string()));
}

#[test]
fn plain_text_does_not_match_command_syntax() {
    assert_eq!(parse_command_name("hello"), None);
    assert_eq!(parse_command_name(""), None);
    assert_eq!(parse_command_name("!"), None);
    assert_eq!(parse_command_name("! spaced"), None);
    assert_eq!(parse_command_name("ping!"), None);
}

#[test]
fn a_message_carries_its_command_info() {
    let m = Message::new(user(), "!roll 2d6".to_string());
    assert!(m.has_command_info);
    assert_eq!(m.command_name, "roll");
    assert_eq!(m.message, "!roll 2d6");
    assert_eq!(m.user.channel_id, "chan-1");
}

#[test]
fn a_plain_message_carries_no_command_info() {
    let m = Message::new(user(), "good evening".to_string());
    assert!(!m.has_command_info);
    assert_eq!(m.command_name, "");
    assert_eq!(m.message, "good evening");
}
