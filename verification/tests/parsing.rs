use command_bot::irc::parse_line;
use command_bot::irc::IrcMessage;
use command_bot::irc::privmsg_line;
use command_bot::irc::join_line;
use command_bot::irc::pass_line;
use command_bot::irc::nick_line;
use command_bot::irc::IrcClientBuilder;
use command_bot::dispatch::parse_admin;
use command_bot::dispatch::meta_command_of;
use command_bot::dispatch::AdminCommand;
use command_bot::irc::ChannelMessage;
use command_bot::text::trim;
use command_bot::text::find_char;
use command_bot::text::find_seq;
use command_bot::text::str_eq;
use command_bot::dispatch::route_line;
use command_bot::dispatch::LineRoute;

#[test]
fn parses_standard_channel_message() {
    let line = ":alice!a@a.tmi.twitch.tv PRIVMSG #mychan :#set !hi hello there\r\n";
    match parse_line(line) {
        IrcMessage::ChannelMessage(m) => {
            assert_eq!(m.user, "alice");
            assert_eq!(m.channel, "mychan");
            assert_eq!(m.message, "#set !hi hello there");
        }
        IrcMessage::Unknown(_) => panic!("expected a channel message"),
    }
}

#[test]
fn passes_through_non_privmsg_lines() {
    let line = "PING :tmi.twitch.tv\r\n";
    match parse_line(line) {
        IrcMessage::Unknown(l) => assert_eq!(l, line),
        IrcMessage::ChannelMessage(_) => panic!("expected passthrough"),
    }
}

#[test]
fn rejects_line_without_crlf() {
    let line = ":alice!a@a.tmi.twitch.tv PRIVMSG #mychan :hello";
    assert!(matches!(parse_line(line), IrcMessage::Unknown(_)));
}

#[test]
fn rejects_line_without_at_sign() {
    let line = ":alice!a.tmi.twitch.tv PRIVMSG #mychan :hello\r\n";
    assert!(matches!(parse_line(line), IrcMessage::Unknown(_)));
}

#[test]
fn rejects_line_with_foreign_host() {
    let line = ":alice!a@a.example.org PRIVMSG #mychan :hello\r\n";
    assert!(matches!(parse_line(line), IrcMessage::Unknown(_)));
}

#[test]
fn parses_message_containing_colon() {
    let line = ":bob!b@b.tmi.twitch.tv PRIVMSG #chan :a :b\r\n";
    match parse_line(line) {
        IrcMessage::ChannelMessage(m) => {
            assert_eq!(m.channel, "chan");
            assert_eq!(m.message, "a :b");
        }
        IrcMessage::Unknown(_) => panic!("expected a channel message"),
    }
}

#[test]
fn meta_command_strips_prefix_and_trims() {
    let m = ChannelMessage {
        user: String::from("alice"),
        channel: String::from("mychan"),
        message: String::from("#set !hi hello there"),
    };
    let meta = meta_command_of(&m).expect("starts with prefix");
    assert_eq!(meta.channel, "mychan");
    assert_eq!(meta.user, "alice");
    assert_eq!(meta.message, "set !hi hello there");
}

#[test]
fn meta_command_requires_prefix() {
    let m = ChannelMessage {
        user: String::from("alice"),
        channel: String::from("mychan"),
        message: String::from("just chatting"),
    };
    assert!(meta_command_of(&m).is_none());
}

#[test]
fn admin_set_with_response_text() {
    match parse_admin("set !hi hello there") {
        AdminCommand::SetRule { match_expression, response_text } => {
            assert_eq!(match_expression, "!hi");
            assert_eq!(response_text, "hello there");
        }
        _ => panic!("expected a set"),
    }
}

#[test]
fn admin_set_without_response_text_is_usage_error() {
    assert!(matches!(parse_admin("set !hi"), AdminCommand::UsageError));
}

#[test]
fn admin_remove_takes_first_token() {
    match parse_admin("remove !hi these are ignored") {
        AdminCommand::RemoveRule { match_expression } => assert_eq!(match_expression, "!hi"),
        _ => panic!("expected a remove"),
    }
}

#[test]
fn bare_prefix_yields_empty_command_text() {
    let m = ChannelMessage {
        user: String::from("alice"),
        channel: String::from("mychan"),
        message: String::from("#"),
    };
    let meta = meta_command_of(&m).expect("starts with prefix");
    assert_eq!(meta.message, "");
    assert!(matches!(parse_admin(""), AdminCommand::NotACommand));
}

#[test]
fn admin_unknown_verb_is_ignored() {
    assert!(matches!(parse_admin("frobnicate !hi x"), AdminCommand::NotACommand));
}

#[test]
fn admin_verb_without_space_is_ignored() {
    assert!(matches!(parse_admin("set"), AdminCommand::NotACommand));
}

#[test]
fn outbound_lines_have_wire_shape() {
    assert_eq!(privmsg_line("mychan", "@alice Command has been set!"),
        "PRIVMSG #mychan :@alice Command has been set!");
    assert_eq!(join_line("mychan"), "JOIN #mychan");
    assert_eq!(pass_line("oauth-token"), "PASS oauth-token");
    assert_eq!(nick_line("botname"), "NICK botname");
}

#[test]
fn login_lines_send_password_before_nickname() {
    let b = IrcClientBuilder::create("irc.example:6667").nick("botname").pass("token");
    let lines = b.login_lines();
    assert_eq!(lines, vec![String::from("PASS token"), String::from("NICK botname")]);
}

#[test]
fn login_lines_without_credentials_are_empty() {
    let b = IrcClientBuilder::create("irc.example:6667");
    assert!(b.login_lines().is_empty());
}

#[test]
fn command_lines_route_to_the_dispatcher() {
    let line = ":alice!a@a.tmi.twitch.tv PRIVMSG #mychan :#remove !hi\r\n";
    match route_line(line) {
        LineRoute::Dispatch(c) => {
            assert_eq!(c.channel, "mychan");
            assert_eq!(c.user, "alice");
            assert_eq!(c.message, "remove !hi");
        }
        LineRoute::Passthrough(_) => panic!("expected a dispatch"),
    }
}

#[test]
fn non_command_lines_pass_through_for_broadcast() {
    let chatter = ":bob!b@b.tmi.twitch.tv PRIVMSG #chan :just chatting\r\n";
    match route_line(chatter) {
        LineRoute::Passthrough(l) => assert_eq!(l, chatter),
        LineRoute::Dispatch(_) => panic!("expected passthrough"),
    }
    let ping = "PING :tmi.twitch.tv\r\n";
    match route_line(ping) {
        LineRoute::Passthrough(l) => assert_eq!(l, ping),
        LineRoute::Dispatch(_) => panic!("expected passthrough"),
    }
}

#[test]
fn text_helpers_find_and_trim() {
    assert!(str_eq("abc", "abc"));
    assert!(!str_eq("abc", "abd"));
    assert_eq!(find_char("hello world", ' ', 0), Some(5));
    assert_eq!(find_char("hello", ' ', 0), None);
    assert_eq!(find_seq("x PRIVMSG #c", " PRIVMSG #", 0), Some(1));
    assert_eq!(find_seq("nothing here", " PRIVMSG #", 0), None);
    assert_eq!(trim("  spaced out \t"), "spaced out");
    assert_eq!(trim(""), "");
}
