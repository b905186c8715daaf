use rust_yu::lister::models::{EnrichmentFacts, InstallSource, InstalledProgram,
    ListProgramsQuery, MetadataConfidence};
use rust_yu::lister::msi::{list_msi_products, MsiProductRecord};
use rust_yu::lister::registry::{list_registry_programs, RegistryProgramRecord};
use rust_yu::lister::storage::{invalidate_scan_cache, save_scan_cache};
use rust_yu::lister::store::{list_store_apps, StoreAppRecord};
use rust_yu::lister::{apply_search_filter, dedupe_and_sort, is_cache_eligible, list_all_programs,
    list_programs_with_cache};

fn program(name: &str) -> InstalledProgram {
    InstalledProgram::new(name.to_string(), InstallSource::Registry)
}

fn plain_facts(n: usize) -> Vec<EnrichmentFacts> {
    (0..n)
        .map(|_| EnrichmentFacts {
            expanded_icon_candidate: None,
            icon_candidate_exists: false,
            fallback_icon: None,
            icon_assets: None,
            location_size: None,
            now_rfc3339: "2026-01-02T03:04:05+00:00".to_string(),
        })
        .collect()
}

#[test]
fn dedupe_keeps_the_first_occurrence_and_sorts_by_name() {
    let mut programs = vec![program("zeta"), program("Alpha"), program("ZETA"), program("beta")];
    programs[0].version = Some("first".to_string());
    programs[2].version = Some("second".to_string());
    dedupe_and_sort(&mut programs);
    let names: Vec<&str> = programs.iter().map(|p| p.name.as_str()).collect();
    assert_eq!(names, vec!["Alpha", "beta", "zeta"]);
    // the first of the two case-insensitive duplicates won
    assert_eq!(programs[2].version, Some("first".to_string()));
}

#[test]
fn search_filter_is_fuzzy_on_name_and_publisher() {
    let mut a = program("Sample App");
    a.publisher = Some("Contoso".to_string());
    let b = program("Unrelated");
    let mut programs = vec![a, b];
    apply_search_filter(&mut programs, Some("smpap"));
    assert_eq!(programs.len(), 1);
    assert_eq!(programs[0].name, "Sample App");

    let mut c = program("Another");
    c.publisher = Some("Fabrikam Industries".to_string());
    let mut programs2 = vec![c, program("Last")];
    apply_search_filter(&mut programs2, Some("fabrikam"));
    assert_eq!(programs2.len(), 1);
    assert_eq!(programs2[0].name, "Another");

    let mut programs3 = vec![program("Keep"), program("Both")];
    apply_search_filter(&mut programs3, None);
    assert_eq!(programs3.len(), 2);
}

#[test]
fn list_all_programs_runs_the_whole_pipeline() {
    let collected = vec![program("beta app"), program("Alpha"), program("BETA APP")];
    let facts = plain_facts(3);
    let listed = list_all_programs(None, None, collected, &facts).expect("ok");
    let names: Vec<&str> = listed.iter().map(|p| p.name.as_str()).collect();
    assert_eq!(names, vec!["Alpha", "beta app"]);
    assert_eq!(listed[0].metadata_confidence, MetadataConfidence::Unknown);
}

#[test]
fn cache_eligibility_covers_default_and_registry_only() {
    assert!(is_cache_eligible(None));
    assert!(is_cache_eligible(Some(InstallSource::Registry)));
    assert!(!is_cache_eligible(Some(InstallSource::Msi)));
    assert!(!is_cache_eligible(Some(InstallSource::Store)));
}

#[test]
fn cached_query_is_served_without_rescan() {
    let now: i64 = 1_700_000_000;
    let saved = save_scan_cache(&vec![program("CachedOne")], now);
    let query = ListProgramsQuery {
        source: None,
        search: None,
        refresh: false,
        cache_ttl_seconds: 900,
    };
    // collected programs would produce a different inventory; a hit ignores them
    let (resp, replacement) = list_programs_with_cache(
        &query,
        &saved,
        vec![program("FreshOne")],
        &plain_facts(1),
        now + 5,
    )
    .expect("ok");
    assert!(resp.cache.cache_hit);
    assert!(resp.cache.cache_valid);
    assert!(!resp.cache.refreshed);
    assert!(replacement.is_none());
    assert_eq!(resp.programs.len(), 1);
    assert_eq!(resp.programs[0].name, "CachedOne");
}

#[test]
fn missed_query_rebuilds_and_replaces_the_cache() {
    let now: i64 = 1_700_000_000;
    let empty = invalidate_scan_cache();
    let query = ListProgramsQuery {
        source: None,
        search: None,
        refresh: false,
        cache_ttl_seconds: 900,
    };
    let (resp, replacement) = list_programs_with_cache(
        &query,
        &empty,
        vec![program("FreshOne")],
        &plain_facts(1),
        now,
    )
    .expect("ok");
    assert!(!resp.cache.cache_hit);
    assert!(resp.cache.cache_valid);
    assert!(resp.cache.refreshed);
    assert_eq!(resp.cache.reason, Some("cache_missing".to_string()));
    assert_eq!(resp.programs.len(), 1);
    let replacement = replacement.expect("replacement contents");
    assert!(replacement.present);
    assert_eq!(replacement.rows.len(), 1);
    assert_eq!(replacement.rows[0].program.name, "FreshOne");

    // a refresh reports force_refresh
    let refresh_query = ListProgramsQuery { refresh: true, ..query };
    let (resp2, _) = list_programs_with_cache(
        &refresh_query,
        &empty,
        vec![program("FreshOne")],
        &plain_facts(1),
        now,
    )
    .expect("ok");
    assert_eq!(resp2.cache.reason, Some("force_refresh".to_string()));
}

#[test]
fn ineligible_sources_bypass_the_cache() {
    let now: i64 = 1_700_000_000;
    let saved = save_scan_cache(&vec![program("CachedOne")], now);
    let query = ListProgramsQuery {
        source: Some(InstallSource::Store),
        search: None,
        refresh: false,
        cache_ttl_seconds: 900,
    };
    let (resp, replacement) = list_programs_with_cache(
        &query,
        &saved,
        vec![program("StoreThing")],
        &plain_facts(1),
        now,
    )
    .expect("ok");
    assert!(!resp.cache.cache_hit);
    assert!(!resp.cache.cache_valid);
    assert_eq!(resp.cache.reason, Some("source_not_cacheable".to_string()));
    assert!(replacement.is_none());
    assert_eq!(resp.programs[0].name, "StoreThing");
}

#[test]
fn msi_records_become_programs_with_msiexec_commands() {
    let records = vec![
        MsiProductRecord {
            name: Some("Demo Msi".to_string()),
            vendor: Some("Contoso".to_string()),
            version: Some("2.0".to_string()),
            install_location: None,
            identifying_number: Some("ABCD-1234".to_string()),
        },
        MsiProductRecord {
            name: Some("".to_string()),
            vendor: None,
            version: None,
            install_location: None,
            identifying_number: None,
        },
    ];
    let programs = list_msi_products(&records).expect("ok");
    assert_eq!(programs.len(), 1);
    assert_eq!(programs[0].uninstall_string, Some("msiexec /x{ABCD-1234}".to_string()));
    assert_eq!(programs[0].id, "msi-abcd-1234");
    assert_eq!(programs[0].install_source, InstallSource::Msi);
}

#[test]
fn store_records_become_programs_with_removal_commands() {
    let records = vec![StoreAppRecord {
        name: Some("Demo Store App".to_string()),
        publisher: Some("CN=Demo".to_string()),
        version: Some("1.2.3".to_string()),
        install_location: None,
        package_full_name: Some("Demo.App_1.2.3_x64__abc".to_string()),
    }];
    let programs = list_store_apps(&records).expect("ok");
    assert_eq!(programs.len(), 1);
    assert_eq!(programs[0].id, "Demo.App_1.2.3_x64__abc");
    assert_eq!(
        programs[0].uninstall_string,
        Some(
            "powershell -Command \"Remove-AppxPackage -Package 'Demo.App_1.2.3_x64__abc'\""
                .to_string()
        )
    );
}

#[test]
fn registry_listing_drops_microsoft_windows_components() {
    let entry = |name: &str, publisher: Option<&str>| RegistryProgramRecord {
        display_name: Some(name.to_string()),
        publisher: publisher.map(|p| p.to_string()),
        display_version: None,
        install_date: None,
        install_location: None,
        uninstall_string: None,
        display_icon: None,
        url_info_about: None,
        help_link: None,
        estimated_size_kb: None,
    };
    let records = vec![
        entry("Windows Driver Pack", Some("Microsoft Corporation")),
        entry("Windows Themed Game", Some("Indie Studio")),
        entry("Plain App", None),
    ];
    let programs = list_registry_programs(&records).expect("ok");
    let names: Vec<&str> = programs.iter().map(|p| p.name.as_str()).collect();
    assert_eq!(names, vec!["Windows Themed Game", "Plain App"]);
}
