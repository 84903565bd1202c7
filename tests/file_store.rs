use safir::config::SafirConfig;
use safir::document::{migrate, Environment, StoreDocument};
use safir::file_store::{KVStore, StoreError};
use safir::KVPair;

fn s(x: &str) -> String {
    x.to_string()
}

fn pair(k: &str, v: &str) -> KVPair {
    (s(k), s(v))
}

fn config_for(env: &str) -> SafirConfig {
    let mut cfg = SafirConfig::new();
    cfg.environment = s(env);
    cfg
}

fn fresh() -> KVStore {
    KVStore::load(None, SafirConfig::new()).expect("a fresh store loads")
}

fn sorted(mut v: Vec<KVPair>) -> Vec<KVPair> {
    v.sort();
    v
}

fn sorted_names(mut v: Vec<String>) -> Vec<String> {
    v.sort();
    v
}

#[test]
fn fresh_store_has_only_the_default_environment() {
    let store = fresh();
    assert_eq!(store.environments(), vec![s("default")]);
    assert_eq!(store.list(), vec![]);
    assert_eq!(store.get_config().environment, "default");
}

#[test]
fn end_to_end_token_then_work_environment() {
    let mut store = fresh();
    store.add(s("token"), s("abc123"), false);
    assert_eq!(store.get(vec![s("token")]), vec![pair("token", "abc123")]);

    let written = store.write_store();
    let mut cfg = store.get_config();
    cfg.environment = s("work");
    let work = KVStore::load(Some(&written), cfg).expect("written store loads");
    assert_eq!(work.list(), vec![]);
    let envs = work.environments();
    assert_eq!(sorted_names(envs.clone()), vec![s("default"), s("work")]);
    let lines = safir::display::environment_lines(&envs, &work.get_config().environment);
    assert!(lines.contains(&s("- work <- Currently loaded")));
    assert!(lines.contains(&s("- default")));
}

#[test]
fn get_of_absent_key_is_empty_and_remove_changes_nothing() {
    let mut store = fresh();
    store.add(s("a"), s("1"), false);
    assert_eq!(store.get(vec![s("missing")]), vec![]);
    let before = store.write_store();
    store.remove(vec![s("missing")]);
    assert_eq!(store.write_store(), before);
    assert_eq!(store.list(), vec![pair("a", "1")]);
}

#[test]
fn get_keeps_the_order_of_the_keys_and_skips_missing_ones() {
    let mut store = fresh();
    store.add(s("a"), s("1"), false);
    store.add(s("b"), s("2"), false);
    let got = store.get(vec![s("b"), s("x"), s("a")]);
    assert_eq!(got, vec![pair("b", "2"), pair("a", "1")]);
}

#[test]
fn second_add_with_confirmation_replaces_the_value() {
    let mut store = fresh();
    store.add(s("k"), s("v1"), false);
    store.add(s("k"), s("v2"), true);
    assert_eq!(store.get(vec![s("k")]), vec![pair("k", "v2")]);
}

#[test]
fn second_add_without_confirmation_keeps_the_value() {
    let mut store = fresh();
    store.add(s("k"), s("v1"), false);
    store.add(s("k"), s("v2"), false);
    assert_eq!(store.get(vec![s("k")]), vec![pair("k", "v1")]);
    assert_eq!(store.list().len(), 1);
}

#[test]
fn clear_empties_only_the_active_environment() {
    let mut store = fresh();
    store.add(s("home"), s("1"), false);
    let mut work = KVStore::load(Some(&store.write_store()), config_for("work")).unwrap();
    work.add(s("job"), s("2"), false);
    work.clear();
    assert_eq!(work.list(), vec![]);
    let back = KVStore::load(Some(&work.write_store()), config_for("default")).unwrap();
    assert_eq!(back.list(), vec![pair("home", "1")]);
}

#[test]
fn remove_unbinds_the_given_keys() {
    let mut store = fresh();
    store.add(s("a"), s("1"), false);
    store.add(s("b"), s("2"), false);
    store.add(s("c"), s("3"), false);
    store.remove(vec![s("a"), s("c"), s("zzz")]);
    assert_eq!(store.list(), vec![pair("b", "2")]);
}

#[test]
fn written_store_loads_back_identically() {
    let mut store = fresh();
    store.add(s("a"), s("1"), false);
    store.add(s("b"), s("x y \"quoted\""), false);
    let mut other = KVStore::load(Some(&store.write_store()), config_for("other")).unwrap();
    other.add(s("c"), s("3"), false);
    let text = other.write_store();
    let again = KVStore::load(Some(&text), config_for("other")).unwrap();
    assert_eq!(again.write_store(), text);
    assert_eq!(again.list(), vec![pair("c", "3")]);
    let default = KVStore::load(Some(&text), config_for("default")).unwrap();
    assert_eq!(sorted(default.list()), vec![pair("a", "1"), pair("b", "x y \"quoted\"")]);
}

#[test]
fn write_store_renders_indented_json() {
    let mut store = fresh();
    store.add(s("token"), s("abc123"), false);
    assert_eq!(
        store.write_store(),
        "{\n  \"default\": {\n    \"token\": \"abc123\"\n  }\n}"
    );
}

#[test]
fn legacy_flat_document_moves_into_the_active_environment() {
    let text = "{\"a\": \"1\", \"b\": \"2\"}";
    let store = KVStore::load(Some(text), config_for("main")).unwrap();
    assert_eq!(store.environments(), vec![s("main")]);
    assert_eq!(sorted(store.list()), vec![pair("a", "1"), pair("b", "2")]);
    assert_eq!(
        store.write_store(),
        "{\n  \"main\": {\n    \"a\": \"1\",\n    \"b\": \"2\"\n  }\n}"
    );
}

#[test]
fn empty_document_reads_as_partitioned() {
    let store = KVStore::load(Some("{}"), SafirConfig::new()).unwrap();
    assert_eq!(store.environments(), vec![s("default")]);
    assert_eq!(store.list(), vec![]);
}

#[test]
fn malformed_documents_are_refused() {
    assert_eq!(
        KVStore::load(Some("[1, 2]"), SafirConfig::new()).err(),
        Some(StoreError::Malformed)
    );
    assert_eq!(
        KVStore::load(Some("{\"a\": 1}"), SafirConfig::new()).err(),
        Some(StoreError::Malformed)
    );
    assert_eq!(
        KVStore::load(Some("{\"a\": \"1\", \"b\": {}}"), SafirConfig::new()).err(),
        Some(StoreError::Malformed)
    );
    assert_eq!(
        KVStore::load(Some("not json"), SafirConfig::new()).err(),
        Some(StoreError::Malformed)
    );
}

#[test]
fn migration_twice_equals_migration_once() {
    let flat = StoreDocument::Flat(vec![pair("a", "1"), pair("b", "2"), pair("a", "3")]);
    let env = s("default");
    let once = migrate(&flat, &env);
    assert_eq!(once.len(), 1);
    assert_eq!(once[0].name, "default");
    assert_eq!(sorted(once[0].entries.clone()), vec![pair("a", "3"), pair("b", "2")]);
    let copy: Vec<Environment> = once
        .iter()
        .map(|e| Environment { name: e.name.clone(), entries: e.entries.clone() })
        .collect();
    let twice = migrate(&StoreDocument::Partitioned(copy), &env);
    assert_eq!(twice.len(), once.len());
    assert_eq!(twice[0].name, once[0].name);
    assert_eq!(twice[0].entries, once[0].entries);
}

#[test]
fn partitioned_document_with_repeated_names_keeps_the_last() {
    let doc = StoreDocument::Partitioned(vec![
        Environment { name: s("e"), entries: vec![pair("a", "1")] },
        Environment { name: s("f"), entries: vec![] },
        Environment { name: s("e"), entries: vec![pair("b", "2")] },
    ]);
    let store = KVStore::from_document(&doc, config_for("e"));
    assert_eq!(sorted_names(store.environments()), vec![s("e"), s("f")]);
    assert_eq!(store.list(), vec![pair("b", "2")]);
}

#[test]
fn get_environment_points_at_the_active_environment() {
    let doc = StoreDocument::Partitioned(vec![
        Environment { name: s("x"), entries: vec![] },
        Environment { name: s("y"), entries: vec![pair("k", "v")] },
    ]);
    let store = KVStore::from_document(&doc, config_for("y"));
    let i = store.get_environment();
    assert_eq!(store.store[i].name, "y");
}

#[test]
fn get_with_no_keys_is_empty() {
    let mut store = fresh();
    store.add(s("a"), s("1"), false);
    assert_eq!(store.get(vec![]), vec![]);
}

#[test]
fn add_to_one_environment_leaves_the_other_alone() {
    let mut store = fresh();
    store.add(s("a"), s("1"), false);
    let mut work = KVStore::load(Some(&store.write_store()), config_for("work")).unwrap();
    work.add(s("a"), s("2"), false);
    assert_eq!(work.get(vec![s("a")]), vec![pair("a", "2")]);
    let back = KVStore::load(Some(&work.write_store()), config_for("default")).unwrap();
    assert_eq!(back.get(vec![s("a")]), vec![pair("a", "1")]);
}
