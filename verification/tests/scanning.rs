use rust_yu::paths::RegistryHive;
use rust_yu::scanner::{assign_confidence_scores, is_system_appdata_dir, is_system_dir,
    scan_all_traces, scan_appdata_traces, scan_filesystem_traces, scan_registry_traces,
    scan_shortcut_traces, RegistryKeyRecord, ScanEntry, ScanInputs, UninstallEntryRecord};
use rust_yu::trace::{Confidence, Trace, TraceType};

fn file_entry(path: &str, name: &str, size: u64) -> ScanEntry {
    ScanEntry {
        path: path.to_string(),
        name: name.to_string(),
        stem: name.rsplit_once('.').map(|(s, _)| s.to_string()).unwrap_or(name.to_string()),
        extension: name.rsplit_once('.').map(|(_, e)| e.to_string()),
        is_dir: false,
        file_size: Some(size),
        dir_size: None,
    }
}

fn dir_entry(path: &str, name: &str) -> ScanEntry {
    ScanEntry {
        path: path.to_string(),
        name: name.to_string(),
        stem: name.to_string(),
        extension: None,
        is_dir: true,
        file_size: Some(3),
        dir_size: Some(2048),
    }
}

fn empty_inputs() -> ScanInputs {
    ScanInputs {
        registry_keys: Vec::new(),
        uninstall_entries: Vec::new(),
        filesystem_entries: Vec::new(),
        appdata_entries: Vec::new(),
        shortcut_entries: Vec::new(),
    }
}

#[test]
fn filesystem_scanner_matches_names_and_skips_system_dirs() {
    let entries = vec![
        file_entry("C:\\Program Files\\DemoApp\\demo.exe", "demo.exe", 100),
        file_entry("C:\\WINDOWS\\demo.dll", "demo.dll", 50),
        file_entry("C:\\Program Files\\Other\\other.exe", "other.exe", 10),
        dir_entry("C:\\Program Files\\DemoSuite", "DemoSuite"),
    ];
    let traces = scan_filesystem_traces("Demo", &entries).expect("ok");
    assert_eq!(traces.len(), 2);
    assert_eq!(traces[0].path, "C:\\Program Files\\DemoApp\\demo.exe");
    assert_eq!(traces[0].trace_type, TraceType::File);
    assert_eq!(traces[0].confidence, Confidence::High);
    assert_eq!(traces[0].size, Some(100));
    assert_eq!(traces[0].description, "file size: 100 B");
    assert_eq!(traces[1].path, "C:\\Program Files\\DemoSuite");
    assert_eq!(traces[1].size, None);
    assert_eq!(traces[1].description, "directory: 3 items");
    assert!(is_system_dir("C:\\WINDOWS\\anything"));
    assert!(!is_system_dir("C:\\Program Files\\DemoApp"));
}

#[test]
fn appdata_scanner_sizes_directories_and_skips_explorer_data() {
    let entries = vec![
        dir_entry("C:\\Users\\d\\AppData\\Roaming\\DemoApp", "DemoApp"),
        dir_entry(
            "C:\\Users\\d\\AppData\\Local\\Microsoft\\Windows\\Explorer\\demo-cache",
            "demo-cache",
        ),
        file_entry("C:\\Users\\d\\AppData\\Local\\demo.log", "demo.log", 9),
    ];
    let traces = scan_appdata_traces("demo", &entries).expect("ok");
    assert_eq!(traces.len(), 2);
    assert_eq!(traces[0].trace_type, TraceType::AppData);
    assert_eq!(traces[0].size, Some(2048));
    assert_eq!(traces[0].description, "user data directory");
    assert_eq!(traces[1].size, Some(9));
    assert!(is_system_appdata_dir("C:\\x\\Microsoft\\Windows\\Explorer\\y"));
}

#[test]
fn shortcut_scanner_matches_only_lnk_stems() {
    let entries = vec![
        file_entry("C:\\Users\\d\\Desktop\\Demo App.lnk", "Demo App.lnk", 1),
        file_entry("C:\\Users\\d\\Desktop\\demo.txt", "demo.txt", 1),
        file_entry("C:\\Users\\d\\Desktop\\Other.lnk", "Other.lnk", 1),
    ];
    let traces = scan_shortcut_traces("demo", &entries).expect("ok");
    assert_eq!(traces.len(), 1);
    assert_eq!(traces[0].trace_type, TraceType::Shortcut);
    assert_eq!(traces[0].confidence, Confidence::High);
    assert_eq!(traces[0].description, "Demo App.lnk");
}

#[test]
fn registry_scanner_reports_key_and_uninstall_matches() {
    let keys = vec![
        RegistryKeyRecord {
            hive: RegistryHive::LocalMachine,
            path: "SOFTWARE\\DemoSoft".to_string(),
        },
        RegistryKeyRecord {
            hive: RegistryHive::LocalMachine,
            path: "SOFTWARE\\Unrelated".to_string(),
        },
    ];
    let uninstall = vec![UninstallEntryRecord {
        hive: RegistryHive::CurrentUser,
        root_path: "SOFTWARE\\Microsoft\\Windows\\CurrentVersion\\Uninstall".to_string(),
        key_name: "DemoSoft_1".to_string(),
        display_name: Some("Demo Soft".to_string()),
        install_location: Some("C:\\apps\\demosoft".to_string()),
    }];
    let traces = scan_registry_traces("DemoSoft", &keys, &uninstall).expect("ok");
    assert_eq!(traces.len(), 2);
    assert_eq!(traces[0].path, "HKLM\\SOFTWARE\\DemoSoft");
    assert_eq!(traces[0].description, "registry key: DemoSoft");
    assert_eq!(traces[0].confidence, Confidence::Medium);
    assert_eq!(
        traces[1].path,
        "HKCU\\SOFTWARE\\Microsoft\\Windows\\CurrentVersion\\Uninstall\\DemoSoft_1"
    );
    assert_eq!(traces[1].description, "uninstall entry: Demo Soft (C:\\apps\\demosoft)");
    assert_eq!(traces[1].confidence, Confidence::High);
    assert_eq!(traces[1].program_name, "DemoSoft");
}

#[test]
fn post_pass_recomputes_confidence_and_criticality() {
    let mut traces = vec![
        Trace::new("demo".to_string(), TraceType::File, "C:\\apps\\demo 2024\\x".to_string()),
        Trace::new("demo".to_string(), TraceType::File, "C:\\apps\\mydemos\\y".to_string()),
        Trace::new("demo".to_string(), TraceType::File, "C:\\apps\\other\\z".to_string()),
        Trace::new("demo".to_string(), TraceType::File, "C:\\WINDOWS\\demo.dll".to_string()),
        Trace::new(
            "demo".to_string(),
            TraceType::RegistryKey,
            "HKLM\\SYSTEM\\demo".to_string(),
        ),
    ];
    assign_confidence_scores("Demo", &mut traces);
    assert_eq!(traces[0].confidence, Confidence::High);
    assert_eq!(traces[1].confidence, Confidence::Medium);
    assert_eq!(traces[2].confidence, Confidence::Low);
    assert!(traces[3].is_critical);
    assert!(traces[4].is_critical);
    assert!(!traces[0].is_critical);
}

#[test]
fn orchestrator_sorts_by_confidence_and_keeps_duplicates() {
    // Two scanners each report the same real file path: both traces stay.
    let shared = "C:\\Program Files\\DemoApp\\demo.lnk";
    let mut inputs = empty_inputs();
    inputs.filesystem_entries = vec![
        file_entry(shared, "demo.lnk", 11),
        file_entry("C:\\ProgramData\\mydemos\\note.txt", "mydemos-note.txt", 5),
    ];
    inputs.shortcut_entries = vec![file_entry(shared, "demo.lnk", 11)];
    let traces = scan_all_traces("demo", None, &inputs).expect("ok");
    let shared_count = traces.iter().filter(|t| t.path == shared).count();
    assert_eq!(shared_count, 2);
    assert_eq!(traces.len(), 3);
    // descending by confidence after the post-pass
    for w in traces.windows(2) {
        let rank = |c: &Confidence| match c {
            Confidence::High => 3,
            Confidence::Medium => 2,
            Confidence::Low => 1,
        };
        assert!(rank(&w[0].confidence) >= rank(&w[1].confidence));
    }
    assert!(traces.iter().all(|t| t.exists));
}

#[test]
fn orchestrator_scans_only_the_requested_categories() {
    let mut inputs = empty_inputs();
    inputs.filesystem_entries = vec![file_entry("C:\\apps\\demo\\a.txt", "demo-a.txt", 1)];
    inputs.shortcut_entries = vec![file_entry("C:\\d\\demo.lnk", "demo.lnk", 1)];
    let only_shortcuts =
        scan_all_traces("demo", Some(vec![TraceType::Shortcut]), &inputs).expect("ok");
    assert_eq!(only_shortcuts.len(), 1);
    assert_eq!(only_shortcuts[0].trace_type, TraceType::Shortcut);
}
