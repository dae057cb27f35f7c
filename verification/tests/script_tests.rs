use fresh_driver::safety::create_restore_point;
use fresh_driver::wupdate::install;
use fresh_driver::{elevated_install_entry, elevated_rollback_entry};
use fresh_driver::catalog::WorkerStep;

#[test]
fn windows_update_install_script() {
    let s = install("12ab-34CD").unwrap();
    assert!(s.contains("$result = $searcher.Search(\"UpdateID='12ab-34CD' and IsInstalled=0\")"));
    assert!(s.starts_with("\n$ErrorActionPreference = 'Stop'\ntry {\n"));
    assert!(s.ends_with("Set-Content -Path $ResultFile -Encoding UTF8\n}\n"));
    assert!(!s.contains("{{"));
    assert_eq!(install("12ab' ; Remove-Item C:\\"), Err("invalid update id".to_string()));
    assert_eq!(install(""), Err("invalid update id".to_string()));
}

#[test]
fn restore_point_script_quotes_description() {
    let s = create_restore_point("Fresh Driver - before O'Neil's update");
    assert!(s.contains("Checkpoint-Computer -Description 'Fresh Driver - before O''Neil''s update' -RestorePointType 'DEVICE_DRIVER_INSTALL'"));
    assert!(s.contains("} catch {}\n"));
    assert!(!s.contains("{{"));
}

fn args(v: &[&str]) -> Vec<String> {
    v.iter().map(|s| s.to_string()).collect()
}

#[test]
fn elevated_install_entry_reads_arguments() {
    let a = args(&["app.exe", "--elevated-install", "abc-123", "1", "r.json", "p.json"]);
    assert_eq!(
        elevated_install_entry(&a, "__UPDATE_ID__|__CREATE_RESTORE__|__RESULT_FILE__|__PROGRESS_FILE__"),
        WorkerStep::RunScript { script: "abc-123|1|r.json|p.json".to_string(), result_file: "r.json".to_string() }
    );
    let a = args(&["app.exe", "--elevated-install", "abc-123", "yes"]);
    assert_eq!(
        elevated_install_entry(&a, "__CREATE_RESTORE__:__RESULT_FILE__:__PROGRESS_FILE__"),
        WorkerStep::RunScript { script: "0::".to_string(), result_file: String::new() }
    );
    let a = args(&["app.exe", "--elevated-install"]);
    assert!(matches!(elevated_install_entry(&a, "t"), WorkerStep::WriteResult { .. }));
}

#[test]
fn elevated_rollback_entry_reads_arguments() {
    let a = args(&["app.exe", "--elevated-rollback", "oem2.inf", "r.json"]);
    assert_eq!(
        elevated_rollback_entry(&a, "__OEM__>__RESULT_FILE__"),
        WorkerStep::RunScript { script: "oem2.inf>r.json".to_string(), result_file: "r.json".to_string() }
    );
}
