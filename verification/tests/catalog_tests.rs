use fresh_driver::catalog::{
    elevation_outcome, install_request, is_guid, is_oem_name, launch_failure, progress_from,
    record_install, record_rollback, rollback_request, run_elevated_rollback_worker,
    run_elevated_worker, worker_failure, ElevatedOp, InstallProgress, ProgressRead, WorkerStep,
};
use fresh_driver::history::HistoryEntry;
use fresh_driver::wupdate::InstallResult;

const GUID: &str = "0a1b2c3d-4e5f-6789-abcd-ef0123456789";

fn result(success: bool, names: &[&str]) -> InstallResult {
    InstallResult {
        success,
        reboot_required: false,
        message: String::new(),
        published_names: names.iter().map(|n| n.to_string()).collect(),
    }
}

#[test]
fn guid_check() {
    assert!(is_guid(GUID));
    assert!(is_guid("ABCDEF"));
    assert!(!is_guid(""));
    assert!(!is_guid("abc'; Remove-Item"));
    assert!(!is_guid("0a1b-xyz"));
}

#[test]
fn oem_name_check() {
    assert!(is_oem_name("oem12.inf"));
    assert!(is_oem_name("OEM7.INF"));
    assert!(!is_oem_name("oem12.inf'"));
    assert!(!is_oem_name("foo.inf"));
    assert!(!is_oem_name("oem12.sys"));
    assert!(!is_oem_name("oem 1.inf"));
    assert!(!is_oem_name("\u{130}oem1.inf"));
}

#[test]
fn progress_defaults() {
    assert_eq!(
        progress_from(ProgressRead::NoFile),
        InstallProgress { stage: "idle".into(), percent: 0, message: String::new() }
    );
    assert_eq!(
        progress_from(ProgressRead::Unparsed),
        InstallProgress { stage: "working".into(), percent: 0, message: "Working\u{2026}".into() }
    );
    let p = InstallProgress { stage: "download".into(), percent: 40, message: "Downloading".into() };
    assert_eq!(progress_from(ProgressRead::Parsed(p.clone())), p);
}

#[test]
fn install_request_arguments() {
    assert_eq!(
        install_request(GUID, true, "C:\\t\\r.json", "C:\\t\\p.json"),
        Ok(vec![
            "--elevated-install".to_string(),
            GUID.to_string(),
            "1".to_string(),
            "C:\\t\\r.json".to_string(),
            "C:\\t\\p.json".to_string()
        ])
    );
    assert_eq!(install_request(GUID, false, "r", "p").unwrap()[2], "0");
    assert_eq!(install_request("bad id", true, "r", "p"), Err("invalid update id".to_string()));
}

#[test]
fn rollback_request_arguments() {
    assert_eq!(
        rollback_request("oem3.inf", "r.json"),
        Ok(vec!["--elevated-rollback".to_string(), "oem3.inf".to_string(), "r.json".to_string()])
    );
    assert_eq!(rollback_request("x.inf", "r"), Err("invalid driver name".to_string()));
}

#[test]
fn outcome_reads_written_result_first() {
    let c = Some("{\"success\":true}".to_string());
    assert_eq!(elevation_outcome(ElevatedOp::Install, &Err("boom".into()), c.clone()), Ok(c.unwrap()));
}

#[test]
fn outcome_without_result() {
    assert_eq!(
        elevation_outcome(ElevatedOp::Install, &Ok(()), Some("  ".into())),
        Err("The installer did not return a result.".to_string())
    );
    assert_eq!(
        elevation_outcome(ElevatedOp::Rollback, &Ok(()), None),
        Err("The rollback did not return a result.".to_string())
    );
}

#[test]
fn outcome_of_declined_prompt() {
    let e = Err("PowerShell exited with 1: The operation was CANCELED by the user.".to_string());
    assert_eq!(elevation_outcome(ElevatedOp::Install, &e, None), Err("Installation cancelled.".to_string()));
    assert_eq!(elevation_outcome(ElevatedOp::Rollback, &e, None), Err("Rollback cancelled.".to_string()));
    let e = Err("access denied".to_string());
    assert_eq!(
        elevation_outcome(ElevatedOp::Install, &e, None),
        Err("Could not start the installer (administrator approval is required).".to_string())
    );
    assert_eq!(
        launch_failure(ElevatedOp::Rollback, "denied"),
        "Could not start the rollback (administrator approval is required)."
    );
}

#[test]
fn successful_install_is_recorded() {
    let mut h: Vec<HistoryEntry> = Vec::new();
    assert!(record_install(&mut h, &result(true, &["oem9.inf"]), "GPU", "31.0"));
    assert_eq!(h.len(), 1);
    assert_eq!(h[0].device_name, "GPU");
    assert_eq!(h[0].version.as_deref(), Some("31.0"));
    assert_eq!(h[0].published_names, vec!["oem9.inf".to_string()]);
    assert!(record_install(&mut h, &result(true, &["oem10.inf"]), "NIC", ""));
    assert_eq!(h[0].version, None);
    assert_eq!(h.len(), 2);
}

#[test]
fn failed_or_empty_install_is_not_recorded() {
    let mut h: Vec<HistoryEntry> = Vec::new();
    assert!(!record_install(&mut h, &result(false, &["oem9.inf"]), "GPU", "1"));
    assert!(!record_install(&mut h, &result(true, &[]), "GPU", "1"));
    assert!(h.is_empty());
}

#[test]
fn rollback_forgets_the_package() {
    let mut h: Vec<HistoryEntry> = Vec::new();
    record_install(&mut h, &result(true, &["oem9.inf"]), "GPU", "1");
    assert!(!record_rollback(&mut h, &result(false, &[]), "oem9.inf"));
    assert_eq!(h.len(), 1);
    assert!(record_rollback(&mut h, &result(true, &[]), "oem9.inf"));
    assert!(h.is_empty());
}

const INSTALL_TEMPLATE: &str = "$id='__UPDATE_ID__'; $r=__CREATE_RESTORE__; $f='__RESULT_FILE__'; $p='__PROGRESS_FILE__'";

#[test]
fn install_worker_fills_template() {
    let step = run_elevated_worker(INSTALL_TEMPLATE, GUID, true, "C:\\O'Neil\\r.json", "C:\\p.json");
    assert_eq!(
        step,
        WorkerStep::RunScript {
            script: format!("$id='{GUID}'; $r=1; $f='C:\\O''Neil\\r.json'; $p='C:\\p.json'"),
            result_file: "C:\\O'Neil\\r.json".to_string(),
        }
    );
}

#[test]
fn install_worker_rejects_bad_id() {
    assert_eq!(
        run_elevated_worker(INSTALL_TEMPLATE, "'; evil", false, "r.json", "p.json"),
        WorkerStep::WriteResult {
            path: "r.json".to_string(),
            contents: r#"{"success":false,"reboot_required":false,"message":"invalid update id"}"#.to_string(),
        }
    );
}

#[test]
fn rollback_worker_fills_template() {
    assert_eq!(
        run_elevated_rollback_worker("pnputil /delete-driver __OEM__ > '__RESULT_FILE__'", "oem4.inf", "r'.json"),
        WorkerStep::RunScript {
            script: "pnputil /delete-driver oem4.inf > 'r''.json'".to_string(),
            result_file: "r'.json".to_string(),
        }
    );
    assert_eq!(
        run_elevated_rollback_worker("x", "oem4.sys", "r.json"),
        WorkerStep::WriteResult {
            path: "r.json".to_string(),
            contents: r#"{"success":false,"reboot_required":false,"message":"invalid driver name","published_names":[]}"#.to_string(),
        }
    );
}

#[test]
fn worker_failure_json() {
    assert_eq!(worker_failure(ElevatedOp::Install, "x", &Some("{\"ok\":1}".to_string())), None);
    let j = worker_failure(ElevatedOp::Install, "bad \"path\" C:\\x", &None).unwrap();
    assert_eq!(j, r#"{"success":false,"reboot_required":false,"message":"installer error: bad 'path' C:'x"}"#);
    let v: serde_json::Value = serde_json::from_str(&j).unwrap();
    assert_eq!(v["success"], serde_json::Value::Bool(false));
    let j = worker_failure(ElevatedOp::Rollback, "oops", &Some(" \n".to_string())).unwrap();
    assert_eq!(j, r#"{"success":false,"reboot_required":false,"message":"rollback error: oops","published_names":[]}"#);
}
