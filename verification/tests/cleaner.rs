use rust_yu::cleaner::{clean_action, clean_traces, delete_file_trace, delete_registry_trace,
    CleanAction, RemovalOutcome};
use rust_yu::error::UninstallerError;
use rust_yu::paths::RegistryHive;
use rust_yu::safety::{get_critical_paths, get_critical_registry_paths, is_critical_path,
    is_critical_registry, pre_delete_check};
use rust_yu::trace::{Confidence, Trace, TraceType};

fn trace(kind: TraceType, path: &str) -> Trace {
    Trace::new("demo".to_string(), kind, path.to_string())
}

#[test]
fn cleaning_a_missing_target_is_a_success_with_zero_bytes() {
    let t = trace(TraceType::File, "C:\\apps\\demo\\left.txt");
    let results = clean_traces(&vec![t], true, &vec![RemovalOutcome::Missing]).expect("confirmed");
    assert_eq!(results.len(), 1);
    assert!(results[0].success);
    assert_eq!(results[0].bytes_freed, 0);
    assert_eq!(results[0].error, None);

    let r = trace(TraceType::RegistryKey, "HKLM\\SOFTWARE\\Demo");
    let results = clean_traces(&vec![r], true, &vec![RemovalOutcome::Missing]).expect("confirmed");
    assert!(results[0].success);
    assert_eq!(results[0].bytes_freed, 0);
}

#[test]
fn cleaning_without_confirmation_fails_whole() {
    let t = trace(TraceType::File, "C:\\apps\\demo\\left.txt");
    let err = clean_traces(&vec![t], false, &vec![RemovalOutcome::Missing]).unwrap_err();
    assert!(matches!(err, UninstallerError::PermissionDenied(_)));
}

#[test]
fn critical_registry_trace_yields_a_failed_result_mentioning_critical() {
    let t = trace(TraceType::RegistryKey, "HKLM\\SYSTEM\\CurrentControlSet\\Services");
    let results =
        clean_traces(&vec![t], true, &vec![RemovalOutcome::Removed { bytes: 0 }]).expect("ok");
    assert_eq!(results.len(), 1);
    assert!(!results[0].success);
    let error = results[0].error.clone().expect("an error text");
    assert!(error.contains("critical"));
    assert_eq!(results[0].bytes_freed, 0);
}

#[test]
fn the_gate_rejects_denylisted_paths_and_the_planner_never_plans_a_removal() {
    let reg = trace(TraceType::RegistryKey, "hklm\\system\\something");
    assert!(pre_delete_check(&reg).is_err());
    assert!(matches!(clean_action(&reg), CleanAction::Reject { .. }));

    let run_key = trace(
        TraceType::RegistryValue,
        "HKLM\\SOFTWARE\\Microsoft\\Windows\\CurrentVersion\\Run\\Updater",
    );
    assert!(pre_delete_check(&run_key).is_err());
    assert!(matches!(clean_action(&run_key), CleanAction::Reject { .. }));

    let file = trace(TraceType::File, "c:\\windows\\system32\\drivers\\etc\\hosts");
    assert!(pre_delete_check(&file).is_err());
    assert!(matches!(clean_action(&file), CleanAction::Reject { .. }));

    let mut flagged = trace(TraceType::File, "C:\\apps\\demo");
    flagged.is_critical = true;
    let err = pre_delete_check(&flagged).unwrap_err();
    assert!(matches!(err, UninstallerError::CriticalSystemItem(_)));

    let fine = trace(TraceType::File, "C:\\apps\\demo\\file.txt");
    assert!(pre_delete_check(&fine).is_ok());
}

#[test]
fn denylists_match_case_insensitively() {
    assert!(is_critical_path("C:\\WINDOWS\\SYSTEM32"));
    assert!(is_critical_path("c:\\windows\\inf\\oem1.inf"));
    assert!(!is_critical_path("C:\\apps\\windows-themed-game"));
    assert!(is_critical_registry("HKLM\\SAM\\SAM"));
    assert!(is_critical_registry("hklm\\system\\setup"));
    assert!(is_critical_registry("HKLM\\SOFTWARE\\Microsoft\\Windows NT\\CurrentVersion\\X"));
    assert!(is_critical_registry("hklm\\software\\microsoft\\windows\\currentversion\\run\\App"));
    assert!(is_critical_registry(
        "HKLM\\SOFTWARE\\Microsoft\\Windows\\CurrentVersion\\RunOnce\\App"
    ));
    assert!(!is_critical_registry("HKCU\\Software\\Demo"));
    assert_eq!(get_critical_paths().len(), 7);
    assert_eq!(get_critical_registry_paths().len(), 9);
}

#[test]
fn registry_remover_parses_and_splits_paths() {
    let value = trace(TraceType::RegistryValue, "HKCU\\Software\\Demo\\RunValue");
    match clean_action(&value) {
        CleanAction::RegistryValue { hive, key_path, value_name } => {
            assert_eq!(hive, RegistryHive::CurrentUser);
            assert_eq!(key_path, "Software\\Demo");
            assert_eq!(value_name, "RunValue");
        },
        other => panic!("unexpected action {:?}", other),
    }
    let key = trace(TraceType::RegistryKey, "HKEY_LOCAL_MACHINE\\SOFTWARE\\Demo");
    match clean_action(&key) {
        CleanAction::RegistryKey { hive, subkey } => {
            assert_eq!(hive, RegistryHive::LocalMachine);
            assert_eq!(subkey, "SOFTWARE\\Demo");
        },
        other => panic!("unexpected action {:?}", other),
    }
    let bad = trace(TraceType::RegistryKey, "NOT_A_HIVE\\Sub");
    let results = clean_traces(&vec![bad], true, &vec![RemovalOutcome::Missing]).expect("ok");
    assert!(!results[0].success);
    assert_eq!(results[0].error, Some("invalid registry path format".to_string()));
}

#[test]
fn removal_failures_carry_the_os_error_text() {
    let t = trace(TraceType::File, "C:\\apps\\demo\\locked.txt");
    let r = delete_file_trace(&t, &RemovalOutcome::Failed { error: "access denied".to_string() });
    assert!(!r.success);
    assert_eq!(r.error, Some("access denied".to_string()));
    assert_eq!(r.bytes_freed, 0);

    let r2 = delete_file_trace(&t, &RemovalOutcome::Removed { bytes: 123 });
    assert!(r2.success);
    assert_eq!(r2.bytes_freed, 123);

    let reg = trace(TraceType::RegistryKey, "HKCU\\Software\\Demo");
    let r3 = delete_registry_trace(&reg, &RemovalOutcome::Failed { error: "denied".to_string() });
    assert!(!r3.success);
    assert_eq!(r3.error, Some("registry error: denied".to_string()));
    assert_eq!(r3.bytes_freed, 0);
    // registry removals never report freed bytes
    let r4 = delete_registry_trace(&reg, &RemovalOutcome::Removed { bytes: 999 });
    assert!(r4.success);
    assert_eq!(r4.bytes_freed, 0);
}

#[test]
fn unsupported_kinds_fail_without_aborting_the_batch() {
    let service = trace(TraceType::Service, "DemoService");
    let file = trace(TraceType::File, "C:\\apps\\demo\\a.txt");
    let results = clean_traces(
        &vec![service, file],
        true,
        &vec![RemovalOutcome::Missing, RemovalOutcome::Removed { bytes: 7 }],
    )
    .expect("ok");
    assert_eq!(results.len(), 2);
    assert!(!results[0].success);
    assert_eq!(results[0].error, Some("unsupported trace type".to_string()));
    assert!(results[1].success);
    assert_eq!(results[1].bytes_freed, 7);
}

#[test]
fn every_trace_produces_exactly_one_result_in_input_order() {
    let a = trace(TraceType::File, "C:\\apps\\one");
    let b = trace(TraceType::Shortcut, "C:\\users\\d\\Desktop\\one.lnk");
    let c = trace(TraceType::RegistryKey, "HKCU\\Software\\One");
    let ids = vec![a.id.clone(), b.id.clone(), c.id.clone()];
    let results = clean_traces(
        &vec![a, b, c],
        true,
        &vec![
            RemovalOutcome::Removed { bytes: 10 },
            RemovalOutcome::Removed { bytes: 99 },
            RemovalOutcome::Missing,
        ],
    )
    .expect("ok");
    assert_eq!(results.len(), 3);
    for (r, id) in results.iter().zip(ids.iter()) {
        assert_eq!(&r.trace_id, id);
    }
    // shortcuts never report bytes
    assert_eq!(results[1].bytes_freed, 0);
    assert_eq!(results[0].bytes_freed, 10);
}

#[test]
fn trace_builders_fill_the_provisional_fields() {
    let t = Trace::new("demo".to_string(), TraceType::AppData, "C:\\x".to_string())
        .with_description("user data directory".to_string())
        .with_size(42)
        .with_confidence(Confidence::High);
    assert_eq!(t.id.len(), 36);
    assert_eq!(t.description, "user data directory");
    assert_eq!(t.size, Some(42));
    assert_eq!(t.confidence, Confidence::High);
    assert!(!t.is_critical);
    assert!(t.exists);
}
