use safir::config::{SafirConfig, SafirEngineType, StoreMode};

#[test]
fn new_config_has_the_defaults() {
    let cfg = SafirConfig::new();
    assert_eq!(cfg.environment, "default");
    assert_eq!(cfg.mode, StoreMode::File);
    assert_eq!(cfg.memcache_pid, None);
    assert!(!cfg.memcache_flag);
    assert_eq!(cfg.headless_mode, Some(false));
    assert!(!cfg.get_headless_mode());
}

#[test]
fn pid_and_memcache_builders_set_their_field() {
    let cfg = SafirConfig::new().pid(Some(4242)).set_memcache(true);
    assert_eq!(cfg.memcache_pid, Some(4242));
    assert!(cfg.memcache_flag);
    assert_eq!(cfg.environment, "default");
    let cleared = cfg.pid(None);
    assert_eq!(cleared.memcache_pid, None);
    assert!(cleared.memcache_flag);
}

#[test]
fn headless_mode_reads_absent_as_false() {
    let mut cfg = SafirConfig::new();
    cfg.headless_mode = None;
    assert!(!cfg.get_headless_mode());
    cfg.headless_mode = Some(true);
    assert!(cfg.get_headless_mode());
}

#[test]
fn load_fills_in_an_absent_headless_flag() {
    let mut stored = SafirConfig::new();
    stored.environment = "work".to_string();
    stored.headless_mode = None;
    stored.mode = StoreMode::Database;
    let cfg = SafirConfig::load(Some(stored));
    assert_eq!(cfg.headless_mode, Some(false));
    assert_eq!(cfg.environment, "work");
    assert_eq!(cfg.mode, StoreMode::Database);

    let mut headless = SafirConfig::new();
    headless.headless_mode = Some(true);
    assert_eq!(SafirConfig::load(Some(headless)).headless_mode, Some(true));

    let fresh = SafirConfig::load(None);
    assert_eq!(fresh.environment, "default");
    assert_eq!(fresh.headless_mode, Some(false));
}

#[test]
fn stale_cache_server_resets_the_config() {
    let mut cfg = SafirConfig::new().pid(Some(7)).set_memcache(true);
    cfg.environment = "work".to_string();
    let reset = cfg.reconcile_memcache(false);
    assert_eq!(reset.memcache_pid, None);
    assert!(!reset.memcache_flag);
    assert_eq!(reset.environment, "default");

    let mut live = SafirConfig::new().pid(Some(7));
    live.environment = "work".to_string();
    let kept = live.reconcile_memcache(true);
    assert_eq!(kept.memcache_pid, Some(7));
    assert_eq!(kept.environment, "work");

    let none = SafirConfig::new().reconcile_memcache(false);
    assert_eq!(none.memcache_pid, None);
}

#[test]
fn snapshot_copies_every_field() {
    let mut cfg = SafirConfig::new().pid(Some(3));
    cfg.environment = "e".to_string();
    let copy = cfg.snapshot();
    assert_eq!(copy.environment, "e");
    assert_eq!(copy.memcache_pid, Some(3));
    assert_eq!(copy.mode, cfg.mode);
}

#[test]
fn engine_types_differ() {
    assert_ne!(SafirEngineType::Store, SafirEngineType::Memcache);
}
