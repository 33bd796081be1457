use workbench::kv::client::{client_step, ClientStep};
use workbench::kv::protocol::process_command;
use workbench::kv::replication::Replication;
use workbench::kv::storage::Storage;

fn fresh() -> (Storage, Replication) {
    (Storage::new(), Replication::new())
}

#[test]
fn set_then_get_returns_value() {
    let (mut s, r) = fresh();
    assert_eq!(process_command("SET a 1", &mut s, &r).0, "OK\n");
    assert_eq!(process_command("GET a", &mut s, &r).0, "Value: 1\n");
}

#[test]
fn get_missing_key_is_not_found() {
    let (mut s, r) = fresh();
    assert_eq!(process_command("GET nothing", &mut s, &r).0, "Key not found\n");
}

#[test]
fn set_overwrites_and_keeps_other_keys() {
    let (mut s, r) = fresh();
    process_command("SET a 1", &mut s, &r).0;
    process_command("SET b 2", &mut s, &r).0;
    process_command("SET a 3", &mut s, &r).0;
    assert_eq!(process_command("GET a", &mut s, &r).0, "Value: 3\n");
    assert_eq!(process_command("GET b", &mut s, &r).0, "Value: 2\n");
}

#[test]
fn delete_then_get_is_not_found() {
    let (mut s, r) = fresh();
    process_command("SET a 1", &mut s, &r).0;
    assert_eq!(process_command("DELETE a", &mut s, &r).0, "OK\n");
    assert_eq!(process_command("GET a", &mut s, &r).0, "Key not found\n");
    assert_eq!(process_command("DELETE a", &mut s, &r).0, "OK\n");
}

#[test]
fn list_of_empty_store() {
    let (mut s, r) = fresh();
    assert_eq!(process_command("LIST", &mut s, &r).0, "No key-value pairs stored\n");
}

#[test]
fn list_shows_every_entry_once() {
    let (mut s, r) = fresh();
    process_command("SET a 1", &mut s, &r).0;
    process_command("SET b 2", &mut s, &r).0;
    process_command("SET a 5", &mut s, &r).0;
    let reply = process_command("LIST", &mut s, &r).0;
    assert!(reply.starts_with("Stored key-value pairs:\n"));
    let body: Vec<&str> = reply["Stored key-value pairs:\n".len()..].lines().collect();
    assert_eq!(body.len(), 2);
    assert!(body.contains(&"a: 5"));
    assert!(body.contains(&"b: 2"));
    assert!(reply.ends_with('\n'));
}

#[test]
fn invalid_commands() {
    let (mut s, r) = fresh();
    assert_eq!(process_command("get a", &mut s, &r).0, "Invalid command\n");
    assert_eq!(process_command("SET a", &mut s, &r).0, "Invalid command\n");
    assert_eq!(process_command("GET a b", &mut s, &r).0, "Invalid command\n");
    assert_eq!(process_command("", &mut s, &r).0, "Invalid command\n");
    assert_eq!(process_command("LIST all", &mut s, &r).0, "Invalid command\n");
}

#[test]
fn whitespace_around_tokens_is_ignored() {
    let (mut s, r) = fresh();
    assert_eq!(process_command("  SET\tk   v \n", &mut s, &r).0, "OK\n");
    assert_eq!(process_command("GET k\n", &mut s, &r).0, "Value: v\n");
}

#[test]
fn storage_operations() {
    let mut s = Storage::new();
    assert!(s.is_empty());
    s.set("x", "1");
    s.set("y", "2");
    assert_eq!(s.get("x").map(|v| v.as_str()), Some("1"));
    s.delete("x");
    assert_eq!(s.get("x"), None);
    let all = s.list_all();
    assert_eq!(all, vec![("y".to_string(), "2".to_string())]);
    Replication::new().replicate(&s);
    assert_eq!(s.get("y").map(|v| v.as_str()), Some("2"));
}

#[test]
fn client_input_handling() {
    assert!(matches!(client_step("  exit \n"), ClientStep::Exit));
    match client_step(" GET a \n") {
        ClientStep::Send(c) => assert_eq!(c, "GET a"),
        ClientStep::Exit => panic!("expected a command"),
    }
    match client_step("exits") {
        ClientStep::Send(c) => assert_eq!(c, "exits"),
        ClientStep::Exit => panic!("expected a command"),
    }
}

#[test]
fn updates_are_replicated_once() {
    let mut s = Storage::new();
    let r = Replication::new();
    let (reply, note) = process_command("SET k v", &mut s, &r);
    assert_eq!(reply, "OK\n");
    assert_eq!(note.as_deref(), Some("Replicating data to other nodes"));
    assert_eq!(s.get("k").map(|v| v.as_str()), Some("v"));
    let (reply, note) = process_command("DELETE k", &mut s, &r);
    assert_eq!(reply, "OK\n");
    assert_eq!(note.as_deref(), Some("Replicating data to other nodes"));
    let (reply, note) = process_command("DELETE k", &mut s, &r);
    assert_eq!(reply, "OK\n");
    assert!(note.is_some());
    assert_eq!(s.get("k"), None);
}

#[test]
fn reads_are_not_replicated() {
    let mut s = Storage::new();
    let r = Replication::new();
    assert_eq!(process_command("GET k", &mut s, &r).1, None);
    assert_eq!(process_command("LIST", &mut s, &r).1, None);
    assert_eq!(process_command("SET k", &mut s, &r).1, None);
    assert_eq!(r.replicate(&s), "Replicating data to other nodes");
}

#[test]
fn last_update_of_a_key_wins() {
    let mut s = Storage::new();
    s.set("a", "1");
    s.set("b", "2");
    s.delete("a");
    s.set("c", "3");
    s.set("b", "4");
    s.set("a", "5");
    s.delete("c");
    assert_eq!(s.get("a").map(|v| v.as_str()), Some("5"));
    assert_eq!(s.get("b").map(|v| v.as_str()), Some("4"));
    assert_eq!(s.get("c"), None);
    assert_eq!(s.get("d"), None);
    assert_eq!(s.list_all().len(), 2);
}
