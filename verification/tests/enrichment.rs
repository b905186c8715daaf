use rust_yu::lister::enrichment::{enrich_program, extract_icon_path_candidate_with_index,
    find_icon_from_install_location, normalize_install_date, resolve_program_size,
    sanitize_icon_path};
use rust_yu::lister::models::{EnrichmentFacts, IconAssets, InstallSource, InstalledProgram,
    MetadataConfidence, MetadataSource};
use rust_yu::lister::registry::{parse_registry_entry, RegistryProgramRecord};
use rust_yu::scanner::ScanEntry;

fn plain_facts() -> EnrichmentFacts {
    EnrichmentFacts {
        expanded_icon_candidate: None,
        icon_candidate_exists: false,
        fallback_icon: None,
        icon_assets: None,
        location_size: None,
        now_rfc3339: "2026-01-02T03:04:05+00:00".to_string(),
    }
}

#[test]
fn normalize_install_date_supports_registry_format() {
    assert_eq!(normalize_install_date("20240115"), Some("2024-01-15".to_string()));
    assert_eq!(normalize_install_date("2024/01/15"), Some("2024-01-15".to_string()));
}

#[test]
fn normalize_install_date_returns_none_for_invalid_input() {
    assert_eq!(normalize_install_date("not-a-date"), None);
    assert_eq!(normalize_install_date(""), None);
}

#[test]
fn normalize_install_date_handles_more_shapes() {
    assert_eq!(normalize_install_date("2024-01-15"), Some("2024-01-15".to_string()));
    assert_eq!(normalize_install_date("01/15/2024"), Some("2024-01-15".to_string()));
    assert_eq!(normalize_install_date(" 20240115 "), Some("2024-01-15".to_string()));
    assert_eq!(normalize_install_date("2024-1-5"), Some("2024-01-05".to_string()));
    // a shape match that is not a real date is rejected by the calendar
    assert_eq!(normalize_install_date("20240230"), None);
    assert_eq!(normalize_install_date("2023-02-29"), None);
    assert_eq!(normalize_install_date("2024-02-29"), Some("2024-02-29".to_string()));
}

#[test]
fn extract_icon_path_candidate_keeps_quoted_index() {
    let parsed = extract_icon_path_candidate_with_index("\"C:\\Program Files\\Demo\\demo.exe\",5");
    assert_eq!(parsed, Some(("C:\\Program Files\\Demo\\demo.exe".to_string(), 5)));
}

#[test]
fn extract_icon_path_candidate_handles_unquoted_and_markers() {
    assert_eq!(
        extract_icon_path_candidate_with_index("C:\\a\\b\\app.exe,3"),
        Some(("C:\\a\\b\\app.exe".to_string(), 3))
    );
    assert_eq!(
        extract_icon_path_candidate_with_index("C:\\a\\app.exe /install"),
        Some(("C:\\a\\app.exe".to_string(), 0))
    );
    assert_eq!(extract_icon_path_candidate_with_index("   "), None);
    assert_eq!(extract_icon_path_candidate_with_index("\"\""), None);
}

#[test]
fn sanitize_icon_path_strips_index_and_validates_existence() {
    // without environment variables the expansion is the candidate itself
    let raw = "\"C:\\temp\\app.exe\",0";
    let expanded = Some("C:\\temp\\app.exe".to_string());
    assert_eq!(sanitize_icon_path(raw, &expanded, true), Some("C:\\temp\\app.exe".to_string()));
    assert_eq!(sanitize_icon_path(raw, &expanded, false), None);
    assert_eq!(sanitize_icon_path("", &None, true), None);
    // an expanded value is stored in place of the raw candidate
    let var_raw = "%ProgramFiles%\\Demo\\demo.exe";
    let var_expanded = Some("C:\\Program Files\\Demo\\demo.exe".to_string());
    assert_eq!(
        sanitize_icon_path(var_raw, &var_expanded, true),
        Some("C:\\Program Files\\Demo\\demo.exe".to_string())
    );
}

#[test]
fn find_icon_prefers_ico_over_executables() {
    let entry = |path: &str, ext: &str| ScanEntry {
        path: path.to_string(),
        name: path.rsplit('\\').next().unwrap().to_string(),
        stem: String::new(),
        extension: Some(ext.to_string()),
        is_dir: false,
        file_size: Some(10),
        dir_size: None,
    };
    let entries = vec![
        entry("C:\\app\\tool.exe", "exe"),
        entry("C:\\app\\logo.ico", "ico"),
    ];
    assert_eq!(find_icon_from_install_location(&entries), Some("C:\\app\\logo.ico".to_string()));
    let entries2 = vec![entry("C:\\app\\tool.dll", "dll"), entry("C:\\app\\tool.exe", "exe")];
    assert_eq!(find_icon_from_install_location(&entries2), Some("C:\\app\\tool.dll".to_string()));
    assert_eq!(find_icon_from_install_location(&Vec::new()), None);
}

#[test]
fn resolve_size_prefers_estimated_size() {
    let mut program = InstalledProgram::new("TestApp".to_string(), InstallSource::Registry);
    program.estimated_size = Some(1024);
    enrich_program(&mut program, &plain_facts());
    assert_eq!(program.size, Some(1024));
    assert_eq!(program.size_source, MetadataSource::Registry);
    assert_eq!(program.size_confidence, MetadataConfidence::High);
}

#[test]
fn resolve_size_falls_back_to_filesystem_when_estimated_missing() {
    let mut program = InstalledProgram::new("FsFallback".to_string(), InstallSource::Registry);
    program.install_location = Some("C:\\apps\\fsfallback".to_string());
    let mut facts = plain_facts();
    facts.location_size = Some(2048);
    enrich_program(&mut program, &facts);
    assert_eq!(program.size, Some(2048));
    assert_eq!(program.size_source, MetadataSource::Filesystem);
    assert_eq!(program.size_confidence, MetadataConfidence::Medium);
    assert_eq!(program.size_last_updated_at, Some("2026-01-02T03:04:05+00:00".to_string()));
}

#[test]
fn resolve_program_size_reports_unknown_without_data() {
    let program = InstalledProgram::new("NoData".to_string(), InstallSource::Registry);
    let (size, source, confidence) = resolve_program_size(&program, None);
    assert_eq!(size, None);
    assert_eq!(source, MetadataSource::Unknown);
    assert_eq!(confidence, MetadataConfidence::Low);
}

#[test]
fn metadata_confidence_is_the_minimum_of_the_three_fields() {
    let mut program = InstalledProgram::new("MinCheck".to_string(), InstallSource::Registry);
    program.install_date = Some("20240115".to_string());
    program.estimated_size = Some(4096);
    program.icon_path = Some("\"C:\\x\\x.exe\",0".to_string());
    let mut facts = plain_facts();
    facts.expanded_icon_candidate = Some("C:\\x\\x.exe".to_string());
    facts.icon_candidate_exists = true;
    facts.icon_assets = Some(IconAssets {
        icon_cache_path_32: Some("C:\\c\\32\\k.png".to_string()),
        icon_cache_path_48: Some("C:\\c\\48\\k.png".to_string()),
    });
    enrich_program(&mut program, &facts);
    // date High, icon High, size High -> aggregate High
    assert_eq!(program.metadata_confidence, MetadataConfidence::High);
    // now a weaker icon: no registry icon, a filesystem fallback
    let mut program2 = InstalledProgram::new("MinCheck2".to_string(), InstallSource::Registry);
    program2.install_date = Some("20240115".to_string());
    program2.estimated_size = Some(4096);
    let mut facts2 = plain_facts();
    facts2.fallback_icon = Some("C:\\apps\\m\\m.exe".to_string());
    enrich_program(&mut program2, &facts2);
    assert_eq!(program2.icon_confidence, MetadataConfidence::Medium);
    assert_eq!(program2.metadata_confidence, MetadataConfidence::Medium);
}

#[test]
fn bare_registry_entry_enriches_conservatively() {
    // DisplayName only: no InstallDate, DisplayIcon or EstimatedSize.
    let rec = RegistryProgramRecord {
        display_name: Some("Sample App".to_string()),
        publisher: None,
        display_version: None,
        install_date: None,
        install_location: None,
        uninstall_string: None,
        display_icon: None,
        url_info_about: None,
        help_link: None,
        estimated_size_kb: None,
    };
    let mut program = parse_registry_entry(&rec).expect("entry should be kept");
    enrich_program(&mut program, &plain_facts());
    assert_eq!(program.install_date, None);
    assert_eq!(program.size, None);
    assert!(
        program.metadata_confidence == MetadataConfidence::Low
            || program.metadata_confidence == MetadataConfidence::Unknown
    );

    // with a real install location the size falls back to the filesystem sum
    let mut program2 = parse_registry_entry(&rec).expect("entry should be kept");
    program2.install_location = Some("C:\\apps\\sample".to_string());
    let mut facts = plain_facts();
    facts.location_size = Some(777);
    enrich_program(&mut program2, &facts);
    assert_eq!(program2.size, Some(777));
    assert_eq!(program2.size_source, MetadataSource::Filesystem);
}

#[test]
fn registry_entry_skips_patches_and_system_components() {
    let mut rec = RegistryProgramRecord {
        display_name: Some("KB5001234".to_string()),
        publisher: None,
        display_version: None,
        install_date: None,
        install_location: None,
        uninstall_string: None,
        display_icon: None,
        url_info_about: None,
        help_link: None,
        estimated_size_kb: None,
    };
    assert!(parse_registry_entry(&rec).is_none());
    rec.display_name = Some("Demo Security Update for Things".to_string());
    assert!(parse_registry_entry(&rec).is_none());
    rec.display_name = Some("Demo App".to_string());
    rec.estimated_size_kb = Some(3);
    let p = parse_registry_entry(&rec).expect("kept");
    assert_eq!(p.estimated_size, Some(3 * 1024));
    assert_eq!(p.size_confidence, MetadataConfidence::High);
}
