use netpulse::registry::AppState;
use netpulse::registry::TargetStore;
use netpulse::types::Target;

fn target(id: &str, host: &str, port: u16, probe_type: &str) -> Target {
    Target {
        id: id.to_string(),
        name: id.to_string(),
        host: host.to_string(),
        port,
        probe_type: probe_type.to_string(),
    }
}

#[test]
fn new_store_is_empty() {
    let store = TargetStore::new();
    assert_eq!(store.snapshot().len(), 0);
}

#[test]
fn replace_then_snapshot_returns_the_written_sequence() {
    let mut store = TargetStore::new();
    store.replace_all(vec![target("a", "h1", 80, "tcp"), target("b", "h2", 0, "ping")]);
    let snap = store.snapshot();
    assert_eq!(snap.len(), 2);
    assert_eq!(snap[0].id, "a");
    assert_eq!(snap[0].host, "h1");
    assert_eq!(snap[0].port, 80);
    assert_eq!(snap[0].probe_type, "tcp");
    assert_eq!(snap[1].id, "b");
    assert_eq!(snap[1].probe_type, "ping");
}

#[test]
fn second_replace_wins_wholesale() {
    let mut store = TargetStore::new();
    store.replace_all(vec![target("a", "h1", 80, "tcp")]);
    store.replace_all(vec![target("c", "h3", 22, "tcp"), target("d", "h4", 443, "tcp")]);
    let snap = store.snapshot();
    assert_eq!(snap.len(), 2);
    assert_eq!(snap[0].id, "c");
    assert_eq!(snap[1].id, "d");
}

#[test]
fn snapshot_is_a_deep_copy() {
    let mut store = TargetStore::new();
    store.replace_all(vec![target("a", "h1", 80, "tcp")]);
    let mut snap = store.snapshot();
    snap.clear();
    let again = store.snapshot();
    assert_eq!(again.len(), 1);
    assert_eq!(again[0].id, "a");
}

#[test]
fn locked_registry_round_trip() {
    let state = AppState::new();
    assert_eq!(state.snapshot().len(), 0);
    state.replace_all(vec![target("a", "h1", 80, "tcp"), target("b", "h2", 7, "ping")]);
    let snap = state.snapshot();
    assert_eq!(snap.len(), 2);
    assert_eq!(snap[0].id, "a");
    assert_eq!(snap[1].id, "b");
    state.replace_all(vec![]);
    assert_eq!(state.snapshot().len(), 0);
}

#[test]
fn duplicate_ids_are_stored_as_given() {
    let mut store = TargetStore::new();
    store.replace_all(vec![target("x", "h1", 1, "tcp"), target("x", "h2", 2, "tcp")]);
    let snap = store.snapshot();
    assert_eq!(snap.len(), 2);
    assert_eq!(snap[0].id, "x");
    assert_eq!(snap[1].id, "x");
}
