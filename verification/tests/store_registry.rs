use command_bot::store::CommandTable;
use command_bot::models::CreateCommand;
use command_bot::models::RemoveCommand;
use command_bot::cache::CommandCache;
use command_bot::registry::UpdateServer;
use command_bot::json::commands_json;

fn create(channel: &str, me: &str, rt: &str) -> CreateCommand {
    CreateCommand {
        channel: String::from(channel),
        match_expression: String::from(me),
        response_text: String::from(rt),
    }
}

#[test]
fn second_set_with_same_key_replaces() {
    let mut table = CommandTable::new();
    assert_eq!(table.upsert(create("mychan", "!hi", "hello there")), 1);
    assert_eq!(table.upsert(create("mychan", "!hi", "howdy")), 2);
    let rows = table.list_all();
    assert_eq!(rows.len(), 1);
    assert_eq!(rows[0].channel, "mychan");
    assert_eq!(rows[0].match_expression, "!hi");
    assert_eq!(rows[0].response_text, "howdy");
}

#[test]
fn same_expression_in_two_channels_makes_two_rules() {
    let mut table = CommandTable::new();
    assert_eq!(table.upsert(create("one", "!hi", "a")), 1);
    assert_eq!(table.upsert(create("two", "!hi", "b")), 1);
    assert_eq!(table.len(), 2);
}

#[test]
fn remove_deletes_exactly_the_key() {
    let mut table = CommandTable::new();
    table.upsert(create("one", "!hi", "a"));
    table.upsert(create("one", "!bye", "b"));
    let gone = table.remove(&RemoveCommand {
        channel: String::from("one"),
        match_expression: String::from("!hi"),
    });
    assert_eq!(gone, 1);
    let rows = table.list_all();
    assert_eq!(rows.len(), 1);
    assert_eq!(rows[0].match_expression, "!bye");
}

#[test]
fn remove_of_missing_key_reports_zero_rows() {
    let mut table = CommandTable::new();
    table.upsert(create("one", "!hi", "a"));
    let gone = table.remove(&RemoveCommand {
        channel: String::from("one"),
        match_expression: String::from("!absent"),
    });
    assert_eq!(gone, 0);
    assert_eq!(table.len(), 1);
}

#[test]
fn cache_swaps_whole_snapshot_and_counts_versions() {
    let mut table = CommandTable::new();
    table.upsert(create("one", "!hi", "a"));
    let mut cache = CommandCache::new();
    assert_eq!(cache.version(), 0);
    assert_eq!(cache.read().len(), 0);
    cache.refresh(table.list_all());
    assert_eq!(cache.version(), 1);
    assert_eq!(cache.read().len(), 1);
    assert_eq!(cache.read()[0].match_expression, "!hi");
}

#[test]
fn cache_update_selects_all_from_the_table() {
    let mut table = CommandTable::new();
    table.upsert(create("one", "!hi", "a"));
    let mut cache = CommandCache::new();
    cache.update(&table);
    assert_eq!(cache.version(), 1);
    assert_eq!(cache.read().len(), 1);
    assert_eq!(cache.read()[0].response_text, "a");
}

#[test]
fn broadcast_reaches_every_healthy_subscriber() {
    let mut server = UpdateServer::default();
    let a = server.register();
    let b = server.register();
    let c = server.register();
    assert_eq!(server.client_count(), 3);
    server.send_update("payload-1");
    for id in [a, b, c] {
        let inbox = server.delivered(id).expect("registered");
        assert_eq!(inbox, &vec![String::from("payload-1")]);
    }
}

#[test]
fn failing_sink_does_not_block_the_others() {
    let mut server = UpdateServer::default();
    let a = server.register();
    let b = server.register();
    let c = server.register();
    server.set_sink_health(b, false);
    server.send_update("payload-2");
    assert_eq!(server.delivered(a).unwrap().len(), 1);
    assert_eq!(server.delivered(b).unwrap().len(), 0);
    assert_eq!(server.delivered(c).unwrap().len(), 1);
    assert_eq!(server.client_count(), 3);
}

#[test]
fn registration_ids_are_unique_and_unregister_isolates() {
    let mut server = UpdateServer::default();
    let a = server.register();
    let b = server.register();
    assert_ne!(a, b);
    server.unregister(a);
    server.send_update("after-unregister");
    assert!(server.delivered(a).is_none());
    assert_eq!(server.delivered(b).unwrap(), &vec![String::from("after-unregister")]);
}

#[test]
fn unregister_of_unknown_id_changes_nothing() {
    let mut server = UpdateServer::default();
    let a = server.register();
    server.unregister(a + 17);
    assert_eq!(server.client_count(), 1);
}

#[test]
fn json_payload_for_empty_table_is_empty_array() {
    let table = CommandTable::new();
    assert_eq!(commands_json(&table.list_all()), "[]");
}

#[test]
fn json_payload_lists_rules_in_table_order() {
    let mut table = CommandTable::new();
    table.upsert(create("one", "!hi", "hello"));
    table.upsert(create("two", "!bye", "bye"));
    assert_eq!(
        commands_json(&table.list_all()),
        "[{\"channel\":\"one\",\"match_expression\":\"!hi\",\"response_text\":\"hello\"},\
         {\"channel\":\"two\",\"match_expression\":\"!bye\",\"response_text\":\"bye\"}]"
    );
}

#[test]
fn json_payload_escapes_quotes_backslashes_and_controls() {
    let mut table = CommandTable::new();
    table.upsert(create("c", "!q", "say \"hi\" \\ twice\tnow\n"));
    assert_eq!(
        commands_json(&table.list_all()),
        "[{\"channel\":\"c\",\"match_expression\":\"!q\",\
         \"response_text\":\"say \\\"hi\\\" \\\\ twice\\tnow\\n\"}]"
    );
}

#[test]
fn json_payload_escapes_other_control_characters() {
    let mut table = CommandTable::new();
    table.upsert(create("c", "!b", "bell\u{7}end"));
    assert_eq!(
        commands_json(&table.list_all()),
        "[{\"channel\":\"c\",\"match_expression\":\"!b\",\"response_text\":\"bell\\u0007end\"}]"
    );
}
