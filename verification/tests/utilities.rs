use rust_yu::cleaner::CleanResult;
use rust_yu::digits::{format_size, truncate_string};
use rust_yu::error::{CommandError, UninstallerError};
use rust_yu::fuzzy::{fuzzy_match, fuzzy_score};
use rust_yu::ids::generate_id;
use rust_yu::paths::{format_hkey, is_critical_registry_path, is_system_critical_path,
    normalize_path, parse_registry_path, RegistryHive};
use rust_yu::report::{escape_html, generate_html_report, generate_results_table,
    UninstallerReport};
use rust_yu::shell::{parse_install_source, parse_trace_type_names, uninstall_program};
use rust_yu::lister::models::InstallSource;
use rust_yu::trace::TraceType;

#[test]
fn format_size_uses_binary_units_with_two_decimals() {
    assert_eq!(format_size(0), "0 B");
    assert_eq!(format_size(512), "512 B");
    assert_eq!(format_size(1023), "1023 B");
    assert_eq!(format_size(1024), "1.00 KB");
    assert_eq!(format_size(1536), "1.50 KB");
    assert_eq!(format_size(1048575), "1024.00 KB");
    assert_eq!(format_size(1048576), "1.00 MB");
    assert_eq!(format_size(1073741824), "1.00 GB");
    assert_eq!(format_size(1610612736), "1.50 GB");
}

#[test]
fn truncate_string_respects_character_boundaries() {
    assert_eq!(truncate_string("hello world", 8), "hello ..");
    assert_eq!(truncate_string("short", 8), "short");
    assert_eq!(truncate_string("exactly8", 8), "exactly8");
}

#[test]
fn normalize_path_collapses_separators() {
    assert_eq!(normalize_path("a/b/c"), "a\\b\\c");
    assert_eq!(normalize_path("a\\\\b\\\\\\c"), "a\\b\\c");
    assert_eq!(normalize_path(""), "");
}

#[test]
fn registry_paths_parse_by_hive_prefix() {
    assert_eq!(
        parse_registry_path("HKLM\\SOFTWARE\\Test"),
        Some((RegistryHive::LocalMachine, "SOFTWARE\\Test".to_string()))
    );
    assert_eq!(
        parse_registry_path("HKEY_LOCAL_MACHINE\\SOFTWARE\\Test"),
        Some((RegistryHive::LocalMachine, "SOFTWARE\\Test".to_string()))
    );
    assert_eq!(
        parse_registry_path("  HKCU\\Software "),
        Some((RegistryHive::CurrentUser, "Software".to_string()))
    );
    assert_eq!(parse_registry_path("HKU\\S-1-5-18"), Some((RegistryHive::Users, "S-1-5-18".to_string())));
    assert_eq!(parse_registry_path("C:\\not\\registry"), None);
    assert_eq!(format_hkey(RegistryHive::ClassesRoot), "HKCR");
}

#[test]
fn discovery_denylists_flag_system_locations() {
    assert!(is_system_critical_path("c:\\windows\\system32\\cmd.exe"));
    assert!(is_system_critical_path("C:\\PROGRAM FILES\\WINDOWS Defender"));
    assert!(!is_system_critical_path("C:\\apps\\demo"));
    assert!(is_critical_registry_path("hklm\\system\\x"));
    assert!(is_critical_registry_path("hklm\\software\\microsoft\\windows nt\\x"));
    assert!(is_critical_registry_path("HKLM\\Software\\Microsoft\\Windows\\CurrentVersion\\Run\\X"));
    assert!(!is_critical_registry_path("HKCU\\Software\\Demo"));
}

#[test]
fn fuzzy_match_is_subsequence_based_not_substring() {
    assert!(fuzzy_match("sample app", "smpap"));
    assert!(fuzzy_match("sample app", "sample"));
    assert!(!fuzzy_match("sample app", "xyz"));
    assert!(!fuzzy_match("abc", "abcd"));
}

#[test]
fn fuzzy_score_is_zero_exactly_when_nothing_matches() {
    assert!(fuzzy_score("sample app", "sample") > 0);
    assert_eq!(fuzzy_score("sample app", "xyz"), 0);
    assert!(fuzzy_score("sample app", "smpap") < fuzzy_score("sample app", "sample app"));
}

#[test]
fn generated_ids_are_uuid_shaped_and_distinct() {
    let a = generate_id();
    let b = generate_id();
    assert_eq!(a.len(), 36);
    assert_eq!(b.len(), 36);
    assert_ne!(a, b);
}

#[test]
fn errors_describe_themselves_with_a_variant_label() {
    let e = UninstallerError::CriticalSystemItem("HKLM\\SYSTEM".to_string());
    assert_eq!(e.describe(), "critical system item: HKLM\\SYSTEM");
    let w = CommandError::from_error(&UninstallerError::NotFound("demo".to_string()));
    assert_eq!(w.message, "not found: demo");
    assert_eq!(CommandError::new("plain".to_string()).message, "plain");
}

#[test]
fn escape_html_neutralizes_markup() {
    assert_eq!(escape_html("a<b&c\"d>e"), "a&lt;b&amp;c&quot;d&gt;e");
    assert_eq!(escape_html("plain"), "plain");
}

#[test]
fn reports_account_for_results() {
    let ok = CleanResult {
        trace_id: "t1".to_string(),
        path: "C:\\apps\\demo\\a".to_string(),
        success: true,
        error: None,
        bytes_freed: 100,
    };
    let failed = CleanResult {
        trace_id: "t2".to_string(),
        path: "HKLM\\SOFTWARE\\Demo".to_string(),
        success: false,
        error: Some("denied".to_string()),
        bytes_freed: 0,
    };
    let report = UninstallerReport::new("demo".to_string(), "2026-01-02T00:00:00+00:00".to_string())
        .with_results(vec![ok, failed]);
    assert_eq!(report.total_size_freed, 100);
    assert!(!report.success);
    let table = generate_results_table(&report.traces_removed);
    assert!(table.contains("registry"));
    assert!(table.contains("success"));
    assert!(table.contains("failed"));
    let html = generate_html_report(&report).expect("ok");
    assert!(html.contains("uninstall report"));
    assert!(html.contains("100 B"));
    assert!(generate_results_table(&Vec::new()).contains("no removal records"));
}

#[test]
fn shell_translations_drop_unknown_names() {
    let names = vec!["registry_key".to_string(), "bogus".to_string(), "FILE".to_string()];
    assert_eq!(parse_trace_type_names(&names), vec![TraceType::RegistryKey, TraceType::File]);
    assert_eq!(parse_install_source("msi"), InstallSource::Msi);
    assert_eq!(parse_install_source("anything"), InstallSource::Registry);
    let r = uninstall_program("demo", true).expect("ok");
    assert!(r.success);
    assert!(r.message.contains("demo"));
}
