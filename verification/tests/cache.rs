use rust_yu::lister::models::{InstallSource, InstalledProgram};
use rust_yu::lister::storage::{build_program_cache_key, get_icon_cache_dir,
    get_scan_cache_database_path, get_snapshot_file, get_storage_root_dir, invalidate_scan_cache,
    read_scan_cache, save_scan_cache, CacheContents, DEFAULT_CACHE_TTL_SECONDS};

fn demo_program(name: &str) -> InstalledProgram {
    InstalledProgram::new(name.to_string(), InstallSource::Registry)
}

#[test]
fn read_scan_cache_returns_miss_when_file_not_exists() {
    let contents = invalidate_scan_cache();
    let result = read_scan_cache(&contents, DEFAULT_CACHE_TTL_SECONDS, 1_700_000_000);
    assert!(!result.cache_hit);
    assert_eq!(result.reason, Some("cache_missing".to_string()));
}

#[test]
fn read_scan_cache_returns_hit_after_save() {
    let now: i64 = 1_700_000_000;
    let mut program = demo_program("Demo");
    program.version = Some("1.0.0".to_string());
    let saved = save_scan_cache(&vec![program], now);
    let result = read_scan_cache(&saved, DEFAULT_CACHE_TTL_SECONDS, now + 10);
    assert!(result.cache_hit);
    assert!(result.cache_valid);
    let entries = result.entries.expect("entries on a hit");
    assert_eq!(entries.len(), 1);
    assert_eq!(entries[0].name, "Demo");
    assert_eq!(entries[0].version, Some("1.0.0".to_string()));
}

#[test]
fn cache_round_trip_preserves_the_entry_set_by_name() {
    let now: i64 = 1_700_000_000;
    let programs = vec![demo_program("Alpha"), demo_program("Beta"), demo_program("Gamma")];
    let saved = save_scan_cache(&programs, now);
    let result = read_scan_cache(&saved, 900, now + 900);
    assert!(result.cache_hit);
    assert!(result.cache_valid);
    let names: Vec<String> =
        result.entries.expect("hit").iter().map(|p| p.name.clone()).collect();
    assert_eq!(names, vec!["Alpha".to_string(), "Beta".to_string(), "Gamma".to_string()]);
}

#[test]
fn read_scan_cache_reports_expiry_and_emptiness() {
    let now: i64 = 1_700_000_000;
    let saved = save_scan_cache(&vec![demo_program("Old")], now);
    let expired = read_scan_cache(&saved, 900, now + 901);
    assert!(!expired.cache_hit);
    assert_eq!(expired.reason, Some("cache_expired".to_string()));

    let empty = save_scan_cache(&Vec::new(), now);
    let result = read_scan_cache(&empty, 900, now);
    assert!(!result.cache_hit);
    assert_eq!(result.reason, Some("cache_empty".to_string()));
}

#[test]
fn read_scan_cache_rejects_unreadable_timestamps() {
    let mut contents = save_scan_cache(&vec![demo_program("X")], 1_700_000_000);
    contents.generated_at = Some("definitely-not-a-timestamp".to_string());
    let result = read_scan_cache(&contents, 900, 1_700_000_000);
    assert!(!result.cache_hit);
    assert_eq!(result.reason, Some("cache_invalid_generated_at".to_string()));

    contents.generated_at = None;
    let result2 = read_scan_cache(&contents, 900, 1_700_000_000);
    assert_eq!(result2.reason, Some("cache_missing_generated_at".to_string()));
}

#[test]
fn read_scan_cache_detects_schema_mismatch() {
    let now: i64 = 1_700_000_000;
    let mut contents = save_scan_cache(&vec![demo_program("Demo")], now);
    contents.schema_version = Some("999".to_string());
    let result = read_scan_cache(&contents, DEFAULT_CACHE_TTL_SECONDS, now);
    assert!(!result.cache_hit);
    assert_eq!(result.reason, Some("schema_mismatch".to_string()));
    assert_eq!(result.schema_version, 999);
}

#[test]
fn read_scan_cache_restores_icon_paths_and_size_timestamp() {
    let now: i64 = 1_700_000_000;
    let mut program = demo_program("DemoCacheMeta");
    program.icon_cache_path_32 = Some("C:\\cache\\icon\\32\\demo.png".to_string());
    program.icon_cache_path_48 = Some("C:\\cache\\icon\\48\\demo.png".to_string());
    program.size_last_updated_at = Some("2026-02-15T00:00:00Z".to_string());
    program.size = Some(4096);
    let saved = save_scan_cache(&vec![program], now);
    let result = read_scan_cache(&saved, DEFAULT_CACHE_TTL_SECONDS, now);
    assert!(result.cache_hit);
    let entries = result.entries.expect("hit");
    assert_eq!(entries.len(), 1);
    let cached = &entries[0];
    assert_eq!(cached.icon_cache_path_32, Some("C:\\cache\\icon\\32\\demo.png".to_string()));
    assert_eq!(cached.icon_cache_path_48, Some("C:\\cache\\icon\\48\\demo.png".to_string()));
    assert_eq!(cached.size_last_updated_at, Some("2026-02-15T00:00:00Z".to_string()));
    assert_eq!(cached.size, Some(4096));
}

#[test]
fn force_cache_invalidation_removes_cache_file() {
    let saved = save_scan_cache(&vec![demo_program("Demo")], 1_700_000_000);
    assert!(saved.present);
    let cleared: CacheContents = invalidate_scan_cache();
    assert!(!cleared.present);
    assert!(cleared.rows.is_empty());
}

#[test]
fn cache_paths_are_under_storage_root() {
    let root = get_storage_root_dir(Some("/tmp/rust-yu-root".to_string()), None).expect("root");
    assert_eq!(root, "/tmp/rust-yu-root");
    let derived = get_storage_root_dir(None, Some("/home/user/.local/share".to_string()))
        .expect("root");
    assert_eq!(derived, "/home/user/.local/share/rust-yu");
    assert!(get_storage_root_dir(None, None).is_err());
    assert!(get_snapshot_file(&root).starts_with(&root));
    assert!(get_scan_cache_database_path(&root).starts_with(&root));
    assert!(get_icon_cache_dir(&root).starts_with(&root));
    assert!(get_scan_cache_database_path(&root).ends_with("installed_programs_cache_v4.sqlite3"));
}

#[test]
fn cache_keys_ignore_ids_and_render_as_hex() {
    let a = demo_program("Same App");
    let b = demo_program("Same App");
    assert_ne!(a.id, b.id);
    let ka = build_program_cache_key(&a);
    let kb = build_program_cache_key(&b);
    assert_eq!(ka, kb);
    assert_eq!(ka.len(), 16);
    assert!(ka.chars().all(|c| c.is_ascii_hexdigit()));
    let mut c = demo_program("Same App");
    c.publisher = Some("Someone".to_string());
    assert_ne!(build_program_cache_key(&c), ka);
}
