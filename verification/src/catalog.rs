//! Drivers from the Microsoft Update Catalog: installing one and rolling it
//! back. The application re-launches itself elevated (so that the UAC prompt
//! names it) to run the catalog install or rollback script; this module checks
//! the ids, builds the elevated command line and the scripts, decides what a
//! finished run means, and keeps the install history in step.

use vstd::prelude::*;

use crate::history::{add_spec, remove, without_name, HistoryEntry};
use crate::ps::{is_blank, ps_quote, ps_quote_spec, views_of};
use crate::text::{
    ascii_lower, ascii_lower_spec, chars_of, contains, ends_with, ends_with_spec, find_spec,
    is_ascii_alnum, is_ascii_alnum_spec, is_hex_digit, is_hex_digit_spec, lowercase_of, replace,
    replace_spec, starts_with, starts_with_spec, string_from, to_lowercase, trim_spec,
};
use crate::wupdate::InstallResult;

verus! {

// ---------------------------------------------------------------------------
// Ids and names
// ---------------------------------------------------------------------------

/// A catalog UpdateID: non-empty, hexadecimal digits and dashes only.
pub open spec fn is_guid_spec(s: Seq<char>) -> bool {
    s.len() > 0 && forall|i: int| 0 <= i < s.len() ==> #[trigger] is_hex_digit_spec(s[i]) || s[i] == '-'
}

pub fn is_guid(s: &str) -> (r: bool)
    ensures
        r == is_guid_spec(s@),
{
    let cs = chars_of(s);
    if cs.len() == 0 {
        return false;
    }
    let mut i: usize = 0;
    while i < cs.len()
        invariant
            0 <= i <= cs@.len(),
            cs@ == s@,
            forall|k: int| 0 <= k < i ==> #[trigger] is_hex_digit_spec(cs@[k]) || cs@[k] == '-',
        decreases cs.len() - i,
    {
        if !(is_hex_digit(cs[i]) || cs[i] == '-') {
            return false;
        }
        i = i + 1;
    }
    true
}

/// `s` with ASCII upper-case letters made lower-case.
pub open spec fn ascii_lowercase(s: Seq<char>) -> Seq<char> {
    s.map_values(|c: char| ascii_lower_spec(c))
}

/// A driver-store package name: `oemNN.inf` in any letter case, made of
/// ASCII letters, digits and dots only.
pub open spec fn is_oem_name_spec(s: Seq<char>) -> bool {
    &&& forall|i: int| 0 <= i < s.len() ==> #[trigger] is_ascii_alnum_spec(s[i]) || s[i] == '.'
    &&& starts_with_spec(ascii_lowercase(s), "oem"@)
    &&& ends_with_spec(ascii_lowercase(s), ".inf"@)
}

pub fn is_oem_name(s: &str) -> (r: bool)
    ensures
        r == is_oem_name_spec(s@),
{
    let cs = chars_of(s);
    let mut lower: Vec<char> = Vec::new();
    let mut i: usize = 0;
    let mut allowed = true;
    while i < cs.len()
        invariant
            0 <= i <= cs@.len(),
            cs@ == s@,
            lower@ == ascii_lowercase(cs@.take(i as int)),
            allowed == forall|k: int| 0 <= k < i ==> #[trigger] is_ascii_alnum_spec(cs@[k]) || cs@[k] == '.',
        decreases cs.len() - i,
    {
        let c = cs[i];
        if !(is_ascii_alnum(c) || c == '.') {
            allowed = false;
        }
        lower.push(ascii_lower(c));
        i = i + 1;
        assert(lower@ =~= ascii_lowercase(cs@.take(i as int)));
    }
    assert(cs@.take(cs.len() as int) =~= cs@);
    let oem = chars_of("oem");
    let inf = chars_of(".inf");
    starts_with(&lower, &oem) && ends_with(&lower, &inf) && allowed
}

/// Every package name `oem<digits>.inf` is accepted, however many digits it
/// has.
pub proof fn lemma_oem_digit_names_accepted(d: Seq<char>)
    requires
        d.len() > 0,
        forall|i: int| 0 <= i < d.len() ==> '0' <= #[trigger] d[i] <= '9',
    ensures
        is_oem_name_spec("oem"@ + d + ".inf"@),
{
    reveal_strlit("oem");
    reveal_strlit(".inf");
    let s = "oem"@ + d + ".inf"@;
    assert(s.len() == d.len() + 7);
    assert forall|i: int| 0 <= i < s.len() implies #[trigger] is_ascii_alnum_spec(s[i]) || s[i] == '.' by {
        if 3 <= i < 3 + d.len() {
            assert(s[i] == d[i - 3]);
        }
    }
    assert forall|i: int| 0 <= i < s.len() implies #[trigger] ascii_lower_spec(s[i]) == s[i] by {
        if 3 <= i < 3 + d.len() {
            assert(s[i] == d[i - 3]);
        }
    }
    assert(ascii_lowercase(s) =~= s);
    assert(s.take(3) =~= "oem"@);
    assert(s.skip(s.len() - 4) =~= ".inf"@);
}

// ---------------------------------------------------------------------------
// Progress
// ---------------------------------------------------------------------------

/// Progress of an install, written by the elevated side and polled by the UI.
#[derive(Clone, Debug, PartialEq)]
pub struct InstallProgress {
    pub stage: String,
    pub percent: i32,
    pub message: String,
}

/// What reading the progress file gave.
#[derive(Clone, Debug, PartialEq)]
pub enum ProgressRead {
    /// There is no progress file: no install is running.
    NoFile,
    /// The file exists but does not hold a progress record (yet).
    Unparsed,
    Parsed(InstallProgress),
}

/// The progress to show for what reading the progress file gave: idle when
/// there is no file, "working" while its contents cannot be read.
pub fn progress_from(read: ProgressRead) -> (r: InstallProgress)
    ensures
        match read {
            ProgressRead::NoFile => r.stage@ == "idle"@ && r.percent == 0 && r.message@.len() == 0,
            ProgressRead::Unparsed => r.stage@ == "working"@ && r.percent == 0 && r.message@
                == "Working…"@,
            ProgressRead::Parsed(p) => r == p,
        },
{
    match read {
        ProgressRead::NoFile => InstallProgress {
            stage: String::from_str("idle"),
            percent: 0,
            message: String::new(),
        },
        ProgressRead::Unparsed => InstallProgress {
            stage: String::from_str("working"),
            percent: 0,
            message: String::from_str("Working…"),
        },
        ProgressRead::Parsed(p) => p,
    }
}

// ---------------------------------------------------------------------------
// The GUI side: launching and reading back
// ---------------------------------------------------------------------------

pub open spec fn restore_flag(create_restore: bool) -> Seq<char> {
    if create_restore {
        "1"@
    } else {
        "0"@
    }
}

/// The command line of the elevated instance that installs `update_id`:
/// `--elevated-install <id> <0|1> <result file> <progress file>`.
pub fn install_request(
    update_id: &str,
    create_restore: bool,
    result_path: &str,
    progress_path: &str,
) -> (r: Result<Vec<String>, String>)
    ensures
        match r {
            Ok(args) => is_guid_spec(update_id@) && views_of(args@) == seq![
                "--elevated-install"@,
                update_id@,
                restore_flag(create_restore),
                result_path@,
                progress_path@,
            ],
            Err(m) => !is_guid_spec(update_id@) && m@ == "invalid update id"@,
        },
{
    if !is_guid(update_id) {
        return Err(String::from_str("invalid update id"));
    }
    let mut args: Vec<String> = Vec::new();
    args.push(String::from_str("--elevated-install"));
    args.push(update_id.to_owned());
    args.push(String::from_str(if create_restore { "1" } else { "0" }));
    args.push(result_path.to_owned());
    args.push(progress_path.to_owned());
    assert(views_of(args@) =~= seq![
        "--elevated-install"@,
        update_id@,
        restore_flag(create_restore),
        result_path@,
        progress_path@,
    ]);
    Ok(args)
}

/// The command line of the elevated instance that rolls back the package
/// `published_name`: `--elevated-rollback <oemNN.inf> <result file>`.
pub fn rollback_request(published_name: &str, result_path: &str) -> (r: Result<
    Vec<String>,
    String,
>)
    ensures
        match r {
            Ok(args) => is_oem_name_spec(published_name@) && views_of(args@) == seq![
                "--elevated-rollback"@,
                published_name@,
                result_path@,
            ],
            Err(m) => !is_oem_name_spec(published_name@) && m@ == "invalid driver name"@,
        },
{
    if !is_oem_name(published_name) {
        return Err(String::from_str("invalid driver name"));
    }
    let mut args: Vec<String> = Vec::new();
    args.push(String::from_str("--elevated-rollback"));
    args.push(published_name.to_owned());
    args.push(result_path.to_owned());
    assert(views_of(args@) =~= seq!["--elevated-rollback"@, published_name@, result_path@]);
    Ok(args)
}

/// The two elevated operations.
#[derive(PartialEq, Eq, Structural, Clone, Copy, Debug)]
pub enum ElevatedOp {
    Install,
    Rollback,
}

pub open spec fn no_result_message(op: ElevatedOp) -> Seq<char> {
    match op {
        ElevatedOp::Install => "The installer did not return a result."@,
        ElevatedOp::Rollback => "The rollback did not return a result."@,
    }
}

/// The message for an elevated launch that failed, from the lower-cased error:
/// a declined UAC prompt reads "operation was canceled by the user".
pub open spec fn launch_failure_message(op: ElevatedOp, error_lower: Seq<char>) -> Seq<char> {
    if find_spec(error_lower, "cancel"@) is Some {
        match op {
            ElevatedOp::Install => "Installation cancelled."@,
            ElevatedOp::Rollback => "Rollback cancelled."@,
        }
    } else {
        match op {
            ElevatedOp::Install => "Could not start the installer (administrator approval is required)."@,
            ElevatedOp::Rollback => "Could not start the rollback (administrator approval is required)."@,
        }
    }
}

/// The message for an elevated launch that failed with the (lower-cased)
/// error `error_lower`.
pub fn launch_failure(op: ElevatedOp, error_lower: &str) -> (r: String)
    ensures
        r@ == launch_failure_message(op, error_lower@),
{
    let e = chars_of(error_lower);
    let key = chars_of("cancel");
    if contains(&e, &key) {
        match op {
            ElevatedOp::Install => String::from_str("Installation cancelled."),
            ElevatedOp::Rollback => String::from_str("Rollback cancelled."),
        }
    } else {
        match op {
            ElevatedOp::Install => String::from_str(
                "Could not start the installer (administrator approval is required).",
            ),
            ElevatedOp::Rollback => String::from_str(
                "Could not start the rollback (administrator approval is required).",
            ),
        }
    }
}

/// What a finished elevated run means, from the launch outcome and the result
/// file (`None` when it could not be read). Whatever the elevated instance
/// wrote is read, regardless of its exit code: `Ok` holds that JSON text.
pub fn elevation_outcome(op: ElevatedOp, elevated: &Result<(), String>, contents: Option<String>) -> (r:
    Result<String, String>)
    ensures
        match contents {
            Some(c) if trim_spec(c@).len() > 0 => r == Ok::<String, String>(c),
            _ => match elevated {
                Ok(_) => r matches Err(m) && m@ == no_result_message(op),
                Err(e) => r matches Err(m) && m@ == launch_failure_message(op, lowercase_of(e@)),
            },
        },
{
    match contents {
        Some(c) => {
            if !is_blank(c.as_str()) {
                return Ok(c);
            }
        },
        None => {},
    }
    match elevated {
        Ok(_) => match op {
            ElevatedOp::Install => Err(String::from_str("The installer did not return a result.")),
            ElevatedOp::Rollback => Err(String::from_str("The rollback did not return a result.")),
        },
        Err(e) => {
            let lower = to_lowercase(e.as_str());
            Err(launch_failure(op, lower.as_str()))
        },
    }
}

/// `e` records an install of `device_name` at `version` (none when empty)
/// with the package names of `result`.
pub open spec fn records_install(
    e: HistoryEntry,
    result: InstallResult,
    device_name: Seq<char>,
    version: Seq<char>,
) -> bool {
    &&& e.device_name@ == device_name
    &&& if version.len() == 0 {
        e.version is None
    } else {
        e.version matches Some(v) && v@ == version
    }
    &&& e.published_names@ == result.published_names@
}

/// Records a successful catalog install that registered driver packages, so
/// that it can be rolled back later; returns whether the history changed.
pub fn record_install(
    history: &mut Vec<HistoryEntry>,
    result: &InstallResult,
    device_name: &str,
    version: &str,
) -> (r: bool)
    ensures
        r == (result.success && result.published_names@.len() > 0),
        r ==> final(history)@ == add_spec(old(history)@, final(history)@[0]) && records_install(
            final(history)@[0],
            *result,
            device_name@,
            version@,
        ),
        !r ==> final(history)@ == old(history)@,
{
    if !(result.success && result.published_names.len() > 0) {
        return false;
    }
    let mut names: Vec<String> = Vec::new();
    let mut i: usize = 0;
    while i < result.published_names.len()
        invariant
            0 <= i <= result.published_names@.len(),
            names@ == result.published_names@.take(i as int),
        decreases result.published_names.len() - i,
    {
        names.push(result.published_names[i].clone());
        i = i + 1;
        assert(names@ =~= result.published_names@.take(i as int));
    }
    assert(result.published_names@.take(i as int) =~= result.published_names@);
    let version_opt = if version.is_empty() {
        None
    } else {
        Some(version.to_owned())
    };
    let entry = HistoryEntry {
        device_name: device_name.to_owned(),
        version: version_opt,
        published_names: names,
        installed_at_unix: crate::history::now_unix(),
    };
    let ghost e = entry;
    crate::history::add(history, entry);
    proof {
        crate::history::lemma_add_puts_entry_first(old(history)@, e);
    }
    true
}

/// After a successful rollback, forgets every record of the package; returns
/// whether the history changed.
pub fn record_rollback(history: &mut Vec<HistoryEntry>, result: &InstallResult, published_name: &str) -> (r:
    bool)
    ensures
        r == result.success,
        r ==> final(history)@ == without_name(old(history)@, published_name@),
        !r ==> final(history)@ == old(history)@,
{
    if result.success {
        remove(history, published_name);
        true
    } else {
        false
    }
}

// ---------------------------------------------------------------------------
// The elevated side: the worker
// ---------------------------------------------------------------------------

/// What the elevated worker does next.
#[derive(Clone, Debug, PartialEq)]
pub enum WorkerStep {
    /// Write `contents` to the result file at `path` and stop.
    WriteResult { path: String, contents: String },
    /// Run `script`; the script itself writes the result file `result_file`.
    RunScript { script: String, result_file: String },
}

pub open spec fn invalid_update_json() -> Seq<char> {
    r#"{"success":false,"reboot_required":false,"message":"invalid update id"}"#@
}

pub open spec fn invalid_name_json() -> Seq<char> {
    r#"{"success":false,"reboot_required":false,"message":"invalid driver name","published_names":[]}"#@
}

/// The catalog install script: the template with its placeholders filled in,
/// in this order; file paths are quoted for single-quoted PowerShell strings.
pub open spec fn install_worker_script(
    template: Seq<char>,
    update_id: Seq<char>,
    create_restore: bool,
    result_file: Seq<char>,
    progress_file: Seq<char>,
) -> Seq<char> {
    let s1 = replace_spec(template, "__UPDATE_ID__"@, update_id);
    let s2 = replace_spec(s1, "__CREATE_RESTORE__"@, restore_flag(create_restore));
    let s3 = replace_spec(s2, "__RESULT_FILE__"@, ps_quote_spec(result_file));
    replace_spec(s3, "__PROGRESS_FILE__"@, ps_quote_spec(progress_file))
}

/// The catalog rollback script: the template with its placeholders filled in.
pub open spec fn rollback_worker_script(
    template: Seq<char>,
    published_name: Seq<char>,
    result_file: Seq<char>,
) -> Seq<char> {
    let s1 = replace_spec(template, "__OEM__"@, published_name);
    replace_spec(s1, "__RESULT_FILE__"@, ps_quote_spec(result_file))
}

/// `r` is the install worker's step for these parameters.
pub open spec fn install_step(
    r: WorkerStep,
    template: Seq<char>,
    update_id: Seq<char>,
    create_restore: bool,
    result_file: Seq<char>,
    progress_file: Seq<char>,
) -> bool {
    if is_guid_spec(update_id) {
        r matches WorkerStep::RunScript { script, result_file: rf } && rf@ == result_file
            && script@ == install_worker_script(
            template,
            update_id,
            create_restore,
            result_file,
            progress_file,
        )
    } else {
        r matches WorkerStep::WriteResult { path, contents } && path@ == result_file && contents@
            == invalid_update_json()
    }
}

/// `r` is the rollback worker's step for these parameters.
pub open spec fn rollback_step(
    r: WorkerStep,
    template: Seq<char>,
    published_name: Seq<char>,
    result_file: Seq<char>,
) -> bool {
    if is_oem_name_spec(published_name) {
        r matches WorkerStep::RunScript { script, result_file: rf } && rf@ == result_file
            && script@ == rollback_worker_script(template, published_name, result_file)
    } else {
        r matches WorkerStep::WriteResult { path, contents } && path@ == result_file && contents@
            == invalid_name_json()
    }
}

/// Replaces the placeholder `key` in `s`.
fn fill(s: &str, key: &str, value: &str) -> (r: String)
    requires
        key@.len() > 0,
    ensures
        r@ == replace_spec(s@, key@, value@),
{
    let sc = chars_of(s);
    let kc = chars_of(key);
    let vc = chars_of(value);
    let out = replace(&sc, &kc, &vc);
    string_from(&out)
}

/// The elevated install worker: with a valid id, the install script to run;
/// otherwise an "invalid update id" result to write.
pub fn run_elevated_worker(
    template: &str,
    update_id: &str,
    create_restore: bool,
    result_file: &str,
    progress_file: &str,
) -> (r: WorkerStep)
    ensures
        install_step(r, template@, update_id@, create_restore, result_file@, progress_file@),
{
    if !is_guid(update_id) {
        return WorkerStep::WriteResult {
            path: result_file.to_owned(),
            contents: String::from_str(
                r#"{"success":false,"reboot_required":false,"message":"invalid update id"}"#,
            ),
        };
    }
    proof {
        reveal_strlit("__UPDATE_ID__");
        reveal_strlit("__CREATE_RESTORE__");
        reveal_strlit("__RESULT_FILE__");
        reveal_strlit("__PROGRESS_FILE__");
    }
    let s1 = fill(template, "__UPDATE_ID__", update_id);
    let s2 = fill(s1.as_str(), "__CREATE_RESTORE__", if create_restore { "1" } else { "0" });
    let qr = ps_quote(result_file);
    let s3 = fill(s2.as_str(), "__RESULT_FILE__", qr.as_str());
    let qp = ps_quote(progress_file);
    let s4 = fill(s3.as_str(), "__PROGRESS_FILE__", qp.as_str());
    WorkerStep::RunScript { script: s4, result_file: result_file.to_owned() }
}

/// The elevated rollback worker: with a valid package name, the rollback
/// script to run; otherwise an "invalid driver name" result to write.
pub fn run_elevated_rollback_worker(template: &str, published_name: &str, result_file: &str) -> (r:
    WorkerStep)
    ensures
        rollback_step(r, template@, published_name@, result_file@),
{
    if !is_oem_name(published_name) {
        return WorkerStep::WriteResult {
            path: result_file.to_owned(),
            contents: String::from_str(
                r#"{"success":false,"reboot_required":false,"message":"invalid driver name","published_names":[]}"#,
            ),
        };
    }
    proof {
        reveal_strlit("__OEM__");
        reveal_strlit("__RESULT_FILE__");
    }
    let s1 = fill(template, "__OEM__", published_name);
    let qr = ps_quote(result_file);
    let s2 = fill(s1.as_str(), "__RESULT_FILE__", qr.as_str());
    WorkerStep::RunScript { script: s2, result_file: result_file.to_owned() }
}

/// `s` with every `"` and `\` turned into `'`, so that it can stand inside a
/// JSON string as it is.
pub open spec fn json_safe(s: Seq<char>) -> Seq<char> {
    s.map_values(|c: char| if c == '"' || c == '\\' { '\'' } else { c })
}

/// The result JSON that the worker writes when its script failed with `error`.
pub open spec fn failure_json(op: ElevatedOp, error: Seq<char>) -> Seq<char> {
    match op {
        ElevatedOp::Install => r#"{"success":false,"reboot_required":false,"message":""#@
            + json_safe("installer error: "@ + error) + r#""}"#@,
        ElevatedOp::Rollback => r#"{"success":false,"reboot_required":false,"message":""#@
            + json_safe("rollback error: "@ + error) + r#"","published_names":[]}"#@,
    }
}

/// What to write to the result file after the worker's script failed with
/// `error`, given what the file holds (`None` when unreadable): nothing when
/// the script left a result, otherwise a failure result.
pub fn worker_failure(op: ElevatedOp, error: &str, existing: &Option<String>) -> (r: Option<String>)
    ensures
        match existing {
            Some(c) if trim_spec(c@).len() > 0 => r is None,
            _ => r matches Some(j) && j@ == failure_json(op, error@),
        },
{
    match existing {
        Some(c) => {
            if !is_blank(c.as_str()) {
                return None;
            }
        },
        None => {},
    }
    let mut msg: Vec<char> = match op {
        ElevatedOp::Install => chars_of("installer error: "),
        ElevatedOp::Rollback => chars_of("rollback error: "),
    };
    let ec = chars_of(error);
    crate::text::push_all(&mut msg, &ec);
    let ghost raw = msg@;
    let mut safe: Vec<char> = Vec::new();
    let mut i: usize = 0;
    while i < msg.len()
        invariant
            0 <= i <= msg@.len(),
            msg@ == raw,
            safe@ == json_safe(raw.take(i as int)),
        decreases msg.len() - i,
    {
        let c = msg[i];
        if c == '"' || c == '\\' {
            safe.push('\'');
        } else {
            safe.push(c);
        }
        i = i + 1;
        assert(safe@ =~= json_safe(raw.take(i as int)));
    }
    assert(raw.take(raw.len() as int) =~= raw);
    let safe_s = string_from(&safe);
    let mut j = String::from_str(r#"{"success":false,"reboot_required":false,"message":""#);
    j.append(safe_s.as_str());
    match op {
        ElevatedOp::Install => j.append(r#""}"#),
        ElevatedOp::Rollback => j.append(r#"","published_names":[]}"#),
    }
    Some(j)
}

/// A failure message made JSON-safe holds no `"` and no `\`, so the failure
/// result is well-formed JSON whatever the error said.
pub proof fn lemma_json_safe_has_no_quotes(s: Seq<char>)
    ensures
        forall|i: int| 0 <= i < json_safe(s).len() ==> #[trigger] json_safe(s)[i] != '"' && json_safe(s)[i] != '\\',
{
}

} // verus!
