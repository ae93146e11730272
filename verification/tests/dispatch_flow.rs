use command_bot::dispatch::CommandProcessor;
use command_bot::dispatch::MetaCommand;
use command_bot::dispatch::conclude_set;
use command_bot::dispatch::conclude_remove;
use command_bot::models::StoreError;
use command_bot::store::CommandTable;
use command_bot::cache::CommandCache;
use command_bot::registry::UpdateServer;
use command_bot::json::commands_json;
use command_bot::config::Config;
use command_bot::config::TwitchConfig;

fn processor() -> CommandProcessor {
    CommandProcessor::create(CommandTable::new(), CommandCache::new(), UpdateServer::default())
}

fn meta(channel: &str, user: &str, message: &str) -> MetaCommand {
    MetaCommand {
        channel: String::from(channel),
        user: String::from(user),
        message: String::from(message),
    }
}

#[test]
fn set_command_stores_confirms_and_broadcasts() {
    let mut p = processor();
    let sub = p.update_server.register();
    let replies = p.handle(meta("mychan", "alice", "set !hi hello there"));
    assert_eq!(replies, vec![String::from("PRIVMSG #mychan :@alice Command has been set!")]);
    let rows = p.db.list_all();
    assert_eq!(rows.len(), 1);
    assert_eq!(rows[0].channel, "mychan");
    assert_eq!(rows[0].match_expression, "!hi");
    assert_eq!(rows[0].response_text, "hello there");
    let inbox = p.update_server.delivered(sub).expect("still registered");
    assert_eq!(
        inbox,
        &vec![String::from(
            "[{\"channel\":\"mychan\",\"match_expression\":\"!hi\",\
             \"response_text\":\"hello there\"}]"
        )]
    );
}

#[test]
fn broadcast_payload_matches_refreshed_cache() {
    let mut p = processor();
    let sub = p.update_server.register();
    p.handle(meta("mychan", "alice", "set !hi hello there"));
    let payload = commands_json(p.commands.read());
    let inbox = p.update_server.delivered(sub).unwrap();
    assert_eq!(inbox.last().unwrap(), &payload);
    assert_eq!(p.commands.version(), 1);
    assert_eq!(commands_json(&p.db.list_all()), payload);
}

#[test]
fn second_set_through_dispatcher_replaces() {
    let mut p = processor();
    p.handle(meta("mychan", "alice", "set !hi hello there"));
    p.handle(meta("mychan", "bob", "set !hi howdy"));
    let rows = p.db.list_all();
    assert_eq!(rows.len(), 1);
    assert_eq!(rows[0].response_text, "howdy");
    assert_eq!(p.commands.version(), 2);
}

#[test]
fn set_without_response_text_replies_usage_and_calls_no_store() {
    let mut p = processor();
    let sub = p.update_server.register();
    let replies = p.handle(meta("mychan", "alice", "set !hi"));
    assert_eq!(
        replies,
        vec![String::from(
            "PRIVMSG #mychan :@alice set command should be in the form: \
             \"#set match_expression command\"!"
        )]
    );
    assert_eq!(p.db.len(), 0);
    assert_eq!(p.commands.version(), 0);
    assert_eq!(p.update_server.delivered(sub).unwrap().len(), 0);
}

#[test]
fn remove_command_deletes_confirms_and_broadcasts() {
    let mut p = processor();
    p.handle(meta("mychan", "alice", "set !hi hello there"));
    let sub = p.update_server.register();
    let replies = p.handle(meta("mychan", "alice", "remove !hi"));
    assert_eq!(replies, vec![String::from("PRIVMSG #mychan :@alice Command has been removed!")]);
    assert_eq!(p.db.len(), 0);
    assert_eq!(p.commands.version(), 2);
    assert_eq!(p.update_server.delivered(sub).unwrap(), &vec![String::from("[]")]);
}

#[test]
fn remove_of_missing_rule_reports_and_stays_silent() {
    let mut p = processor();
    let sub = p.update_server.register();
    let replies = p.handle(meta("mychan", "alice", "remove !absent"));
    assert_eq!(
        replies,
        vec![String::from("PRIVMSG #mychan :@alice Command could not be removed, does it exist?")]
    );
    assert_eq!(p.db.len(), 0);
    assert_eq!(p.commands.version(), 0);
    assert_eq!(p.update_server.delivered(sub).unwrap().len(), 0);
}

#[test]
fn unknown_verbs_and_plain_chatter_are_ignored() {
    let mut p = processor();
    assert!(p.handle(meta("mychan", "alice", "dance !hi x")).is_empty());
    assert!(p.handle(meta("mychan", "alice", "set")).is_empty());
    assert_eq!(p.db.len(), 0);
    assert_eq!(p.commands.version(), 0);
}

#[test]
fn rules_are_scoped_to_their_channel() {
    let mut p = processor();
    p.handle(meta("one", "alice", "set !hi a"));
    p.handle(meta("two", "bob", "set !hi b"));
    assert_eq!(p.db.len(), 2);
    let replies = p.handle(meta("one", "alice", "remove !hi"));
    assert_eq!(replies, vec![String::from("PRIVMSG #one :@alice Command has been removed!")]);
    let rows = p.db.list_all();
    assert_eq!(rows.len(), 1);
    assert_eq!(rows[0].channel, "two");
}

#[test]
fn store_failure_earns_generic_failure_replies() {
    let failed: Result<usize, StoreError> = Err(StoreError::StorageFault(String::from("down")));
    let (broadcast, reply) = conclude_set("alice", &failed);
    assert!(!broadcast);
    assert_eq!(reply, "@alice Command could not be set, ask the bot owner to check logs!");
    let (broadcast, reply) = conclude_remove("alice", &failed);
    assert!(!broadcast);
    assert_eq!(reply, "@alice Command could not be removed, ask the bot owner to check logs!");
}

#[test]
fn successful_outcomes_conclude_with_confirmations() {
    let ok: Result<usize, StoreError> = Ok(1);
    let (broadcast, reply) = conclude_set("alice", &ok);
    assert!(broadcast);
    assert_eq!(reply, "@alice Command has been set!");
    let (broadcast, reply) = conclude_remove("alice", &ok);
    assert!(broadcast);
    assert_eq!(reply, "@alice Command has been removed!");
    let none: Result<usize, StoreError> = Ok(0);
    let (broadcast, reply) = conclude_remove("alice", &none);
    assert!(!broadcast);
    assert_eq!(reply, "@alice Command could not be removed, does it exist?");
}

#[test]
fn config_values_carry_through() {
    let config = Config {
        twitch: TwitchConfig {
            username: String::from("botname"),
            token: String::from("token"),
            irc_server: String::from("irc.chat:6667"),
            channels: vec![String::from("mychan")],
        },
    };
    assert_eq!(config.twitch.channels.len(), 1);
    assert_eq!(config.twitch.irc_server, "irc.chat:6667");
}
