use now_playing::registry::{SourceEntry, SourceRegistry};

fn id(s: &str) -> String {
    s.to_string()
}

fn pairs(reg: &SourceRegistry) -> Vec<(String, bool)> {
    reg.entries().into_iter().map(|e| (e.source_id, e.enabled)).collect()
}

fn from_pairs(p: &[(&str, bool)]) -> Vec<SourceEntry> {
    p.iter().map(|(s, b)| SourceEntry::new(s.to_string(), *b)).collect()
}

#[test]
fn register_if_new_appends_enabled_once() {
    let mut reg = SourceRegistry::new();
    assert!(reg.register_if_new(&id("app.a")));
    assert!(reg.register_if_new(&id("app.b")));
    assert!(!reg.register_if_new(&id("app.a")));
    assert_eq!(pairs(&reg), vec![(id("app.a"), true), (id("app.b"), true)]);
    assert_eq!(reg.len(), 2);
}

#[test]
fn lookups_report_known_and_flag() {
    let mut reg = SourceRegistry::from_entries(from_pairs(&[("app.a", true), ("app.b", false)])).unwrap();
    assert!(reg.is_known(&id("app.b")));
    assert!(!reg.is_known(&id("app.c")));
    assert_eq!(reg.is_enabled(&id("app.a")), Some(true));
    assert_eq!(reg.is_enabled(&id("app.b")), Some(false));
    assert_eq!(reg.is_enabled(&id("app.c")), None);
    assert_eq!(reg.position(&id("app.b")), Some(1));
    assert_eq!(reg.position(&id("app.c")), None);
    assert!(!reg.register_if_new(&id("app.b")));
    assert_eq!(reg.is_enabled(&id("app.b")), Some(false));
}

#[test]
fn toggle_flips_in_range_only() {
    let mut reg = SourceRegistry::from_entries(from_pairs(&[("app.a", true), ("app.b", true)])).unwrap();
    assert!(reg.toggle(1));
    assert_eq!(pairs(&reg), vec![(id("app.a"), true), (id("app.b"), false)]);
    assert!(reg.toggle(1));
    assert_eq!(pairs(&reg), vec![(id("app.a"), true), (id("app.b"), true)]);
    assert!(!reg.toggle(2));
    assert_eq!(pairs(&reg), vec![(id("app.a"), true), (id("app.b"), true)]);
}

#[test]
fn clear_forgets_everything() {
    let mut reg = SourceRegistry::from_entries(from_pairs(&[("app.a", false)])).unwrap();
    reg.clear();
    assert_eq!(reg.len(), 0);
    assert!(!reg.is_known(&id("app.a")));
    assert!(reg.register_if_new(&id("app.a")));
    assert_eq!(reg.is_enabled(&id("app.a")), Some(true));
}

#[test]
fn duplicate_identifiers_are_refused() {
    assert!(SourceRegistry::from_entries(from_pairs(&[("app.a", true), ("app.a", false)])).is_none());
    assert!(SourceRegistry::from_entries(from_pairs(&[("a", true), ("b", true), ("a", true)])).is_none());
    assert!(SourceRegistry::from_entries(vec![]).is_some());
}

#[test]
fn restore_falls_back_to_empty() {
    assert_eq!(SourceRegistry::restore(None).len(), 0);
    let dup = SourceRegistry::restore(Some(from_pairs(&[("x", true), ("x", true)])));
    assert_eq!(dup.len(), 0);
    let ok = SourceRegistry::restore(Some(from_pairs(&[("x", false), ("y", true)])));
    assert_eq!(pairs(&ok), vec![(id("x"), false), (id("y"), true)]);
}

#[test]
fn entries_reload_unchanged() {
    let reg = SourceRegistry::from_entries(from_pairs(&[("app.a", true), ("app.b", false)])).unwrap();
    let again = SourceRegistry::from_entries(reg.entries()).unwrap();
    assert_eq!(pairs(&again), vec![(id("app.a"), true), (id("app.b"), false)]);
}

#[test]
fn config_json_round_trip() {
    let reg = SourceRegistry::from_entries(from_pairs(&[("app.a", true), ("app.b", false)])).unwrap();
    let saved: Vec<(String, bool)> = pairs(&reg);
    let mut object = serde_json::Map::new();
    object.insert("sources".to_string(), serde_json::to_value(&saved).unwrap());
    let text = serde_json::to_string_pretty(&serde_json::Value::Object(object)).unwrap();

    let value: serde_json::Value = serde_json::from_str(&text).unwrap();
    let loaded: Vec<(String, bool)> = serde_json::from_value(value["sources"].clone()).unwrap();
    let entries = loaded.into_iter().map(|(s, b)| SourceEntry::new(s, b)).collect();
    let reloaded = SourceRegistry::restore(Some(entries));
    assert_eq!(pairs(&reloaded), vec![(id("app.a"), true), (id("app.b"), false)]);
}
