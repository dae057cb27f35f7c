use fresh_driver::ps::{
    elevated_inner_script, elevated_launcher, elevated_result, is_blank, json_array_payload,
    json_payload, payload_from_kind, ps_quote, script_file_bytes, self_elevation_launcher,
    JsonArrayPayload, JsonKind,
};

#[test]
fn quotes_are_doubled() {
    assert_eq!(ps_quote("C:\\Users\\O'Brien\\x.json"), "C:\\Users\\O''Brien\\x.json");
    assert_eq!(ps_quote("''"), "''''");
    assert_eq!(ps_quote("plain"), "plain");
}

#[test]
fn quoted_text_reads_back() {
    for s in ["it's", "''x'", "none", ""] {
        assert_eq!(ps_quote(s).replace("''", "'"), s);
    }
}

#[test]
fn script_file_starts_with_bom() {
    let b = script_file_bytes("Write-Output '\u{2026}'");
    assert_eq!(&b[..3], &[0xEF, 0xBB, 0xBF]);
    assert_eq!(&b[3..], "Write-Output '\u{2026}'".as_bytes());
}

#[test]
fn self_elevation_launcher_text() {
    let args = vec!["--elevated-rollback".to_string(), "oem5.inf".to_string(), "C:\\T\\it's.json".to_string()];
    let s = self_elevation_launcher("C:\\Apps\\Fresh Driver.exe", &args);
    assert_eq!(
        s,
        "$ErrorActionPreference='Stop'\n$p = Start-Process -FilePath 'C:\\Apps\\Fresh Driver.exe' -Verb RunAs -WindowStyle Hidden -PassThru -Wait -ArgumentList '--elevated-rollback','oem5.inf','C:\\T\\it''s.json'\nexit $p.ExitCode\n"
    );
}

#[test]
fn elevated_scripts_text() {
    assert_eq!(elevated_inner_script("Do-It"), "$ErrorActionPreference='Stop'\n$ResultFile = $args[0]\nDo-It\n");
    assert_eq!(
        elevated_launcher("C:\\t\\a.ps1", "C:\\t\\r'.json"),
        "$ErrorActionPreference='Stop'\n$p = Start-Process powershell -Verb RunAs -Wait -PassThru -WindowStyle Hidden -ArgumentList '-NoProfile','-ExecutionPolicy','Bypass','-File','C:\\t\\a.ps1','C:\\t\\r''.json'\nexit $p.ExitCode\n"
    );
}

#[test]
fn elevated_result_prefers_a_written_result() {
    assert_eq!(elevated_result(&Ok(String::new()), Some("{}".to_string())), Ok("{}".to_string()));
    assert_eq!(elevated_result(&Err("exit 1".to_string()), Some("{\"a\":1}".to_string())), Ok("{\"a\":1}".to_string()));
    assert_eq!(elevated_result(&Err("exit 1".to_string()), Some("  \n".to_string())), Err("elevated operation failed: exit 1".to_string()));
    assert_eq!(elevated_result(&Err("denied".to_string()), None), Err("elevation failed or was cancelled: denied".to_string()));
    assert_eq!(
        elevated_result(&Ok(String::new()), None),
        Err("elevated operation produced no result (it may have been cancelled at the UAC prompt)".to_string())
    );
}

#[test]
fn blank_text() {
    assert!(is_blank(" \r\n\t"));
    assert!(!is_blank(" x "));
}

#[test]
fn json_payload_strips_bom_and_whitespace() {
    assert_eq!(json_payload("\u{feff}  {\"a\":1}\r\n"), "{\"a\":1}");
}

#[test]
fn json_array_payload_cases() {
    assert_eq!(json_array_payload(""), Ok(JsonArrayPayload::Empty));
    assert_eq!(json_array_payload("\u{feff}\r\n"), Ok(JsonArrayPayload::Empty));
    assert_eq!(json_array_payload("null"), Ok(JsonArrayPayload::Empty));
    assert_eq!(json_array_payload(" [1,2]\n"), Ok(JsonArrayPayload::Array("[1,2]".to_string())));
    assert_eq!(json_array_payload("{\"x\":1}"), Ok(JsonArrayPayload::Single("{\"x\":1}".to_string())));
    assert_eq!(json_array_payload("\"s\""), Ok(JsonArrayPayload::Single("\"s\"".to_string())));
}

#[test]
fn json_array_payload_reports_bad_json() {
    let text = "{not json";
    let e = serde_json::from_str::<serde_json::Value>(text).unwrap_err().to_string();
    assert_eq!(
        json_array_payload(text),
        Err(format!("failed to parse JSON ({e}); raw output: {text}"))
    );
}

#[test]
fn payload_from_each_kind() {
    let t = || "x".to_string();
    assert_eq!(payload_from_kind(t(), Ok(JsonKind::Null)), Ok(JsonArrayPayload::Empty));
    assert_eq!(payload_from_kind(t(), Ok(JsonKind::Array)), Ok(JsonArrayPayload::Array(t())));
    assert_eq!(payload_from_kind(t(), Ok(JsonKind::Other)), Ok(JsonArrayPayload::Single(t())));
    assert_eq!(payload_from_kind(t(), Err("bad".to_string())), Err("failed to parse JSON (bad); raw output: x".to_string()));
    assert_eq!(payload_from_kind(String::new(), Err("bad".to_string())), Ok(JsonArrayPayload::Empty));
}
