//! What the library hands to PowerShell and how it reads PowerShell back: script
//! files, single-quoted arguments, the launchers that elevate, the decision on
//! what an elevated run produced, and the framing of `ConvertTo-Json` output.

use vstd::prelude::*;
use vstd::string::StringSliceAdditionalSpecFns;

use crate::text::{
    chars_of, replace, replace_spec, slice_chars, string_from, strip_bom_and_trim, strip_bom_spec,
    trim, trim_spec,
};

verus! {

// ---------------------------------------------------------------------------
// Quoting
// ---------------------------------------------------------------------------

pub open spec fn quote_char() -> Seq<char> {
    seq!['\'']
}

pub open spec fn doubled_quote() -> Seq<char> {
    seq!['\'', '\'']
}

/// The text of `s` inside a PowerShell single-quoted string: each `'` doubled.
pub open spec fn ps_quote_spec(s: Seq<char>) -> Seq<char> {
    replace_spec(s, quote_char(), doubled_quote())
}

/// What PowerShell reads from the inside of a single-quoted string: each `''`
/// stands for one `'`.
pub open spec fn ps_unquote_spec(s: Seq<char>) -> Seq<char> {
    replace_spec(s, doubled_quote(), quote_char())
}

/// Doubles every single quote, so that `s` can stand inside `'...'`.
pub fn ps_quote(s: &str) -> (r: String)
    ensures
        r@ == ps_quote_spec(s@),
{
    let q: [char; 1] = ['\''];
    let qq: [char; 2] = ['\'', '\''];
    let pat = slice_chars(&q, 0, 1);
    let to = slice_chars(&qq, 0, 2);
    assert(pat@ =~= quote_char());
    assert(to@ =~= doubled_quote());
    let cs = chars_of(s);
    let out = replace(&cs, &pat, &to);
    string_from(&out)
}

proof fn lemma_quote_unfold(s: Seq<char>)
    requires
        s.len() > 0,
    ensures
        ps_quote_spec(s) == (if s[0] == '\'' {
            doubled_quote()
        } else {
            seq![s[0]]
        }) + ps_quote_spec(s.drop_first()),
{
    assert(s.skip(1) =~= s.drop_first());
    if s[0] == '\'' {
        assert(s.take(1) =~= quote_char());
    } else {
        assert(s.take(1) != quote_char()) by {
            assert(s.take(1)[0] != quote_char()[0]);
        }
    }
}

/// A quoted string reads back as itself: PowerShell sees `s` unchanged
/// between the single quotes.
pub proof fn lemma_ps_quote_round_trip(s: Seq<char>)
    ensures
        ps_unquote_spec(ps_quote_spec(s)) == s,
    decreases s.len(),
{
    if s.len() == 0 {
        assert(ps_quote_spec(s) == s);
    } else {
        lemma_quote_unfold(s);
        lemma_ps_quote_round_trip(s.drop_first());
        let rest = ps_quote_spec(s.drop_first());
        let q = ps_quote_spec(s);
        if s[0] == '\'' {
            assert(q == doubled_quote() + rest);
            assert(q.take(2) =~= doubled_quote());
            assert(q.skip(2) =~= rest);
            assert(ps_unquote_spec(q) == quote_char() + ps_unquote_spec(rest));
            assert(quote_char() + s.drop_first() =~= s);
        } else {
            assert(q == seq![s[0]] + rest);
            if q.len() >= 2 {
                assert(q.take(2) != doubled_quote()) by {
                    assert(q.take(2)[0] == s[0]);
                }
                assert(q.skip(1) =~= rest);
                assert(ps_unquote_spec(q) == seq![s[0]] + ps_unquote_spec(rest));
            } else {
                assert(rest.len() == 0);
                assert(ps_unquote_spec(rest) == rest);
            }
            assert(seq![s[0]] + s.drop_first() =~= s);
        }
    }
}

// ---------------------------------------------------------------------------
// Script files and launchers
// ---------------------------------------------------------------------------

/// The UTF-8 byte-order mark, so that Windows PowerShell 5.1 reads the script
/// file as UTF-8 rather than as the ANSI code page.
pub open spec fn utf8_bom() -> Seq<u8> {
    seq![0xEFu8, 0xBBu8, 0xBFu8]
}

/// The bytes of a `.ps1` file holding `script`: a byte-order mark, then the
/// UTF-8 encoding of the script.
pub fn script_file_bytes(script: &str) -> (r: Vec<u8>)
    ensures
        r@ == utf8_bom() + script.spec_bytes(),
{
    let body = script.as_bytes();
    let mut r: Vec<u8> = Vec::new();
    r.push(0xEF);
    r.push(0xBB);
    r.push(0xBF);
    let mut i: usize = 0;
    while i < body.len()
        invariant
            0 <= i <= body@.len(),
            body@ == script.spec_bytes(),
            r@ == utf8_bom() + body@.take(i as int),
        decreases body.len() - i,
    {
        r.push(body[i]);
        i = i + 1;
        assert(r@ =~= utf8_bom() + body@.take(i as int));
    }
    assert(body@.take(body@.len() as int) =~= body@);
    r
}

/// `'a'` with the quotes of `a` doubled.
pub open spec fn quoted_arg(a: Seq<char>) -> Seq<char> {
    quote_char() + ps_quote_spec(a) + quote_char()
}

/// The quoted arguments, separated by commas.
pub open spec fn quoted_list(args: Seq<Seq<char>>) -> Seq<char>
    decreases args.len(),
{
    if args.len() == 0 {
        seq![]
    } else if args.len() == 1 {
        quoted_arg(args[0])
    } else {
        quoted_list(args.drop_last()) + seq![','] + quoted_arg(args.last())
    }
}

pub open spec fn views_of(args: Seq<String>) -> Seq<Seq<char>> {
    args.map_values(|a: String| a@)
}

/// The script that re-launches the executable `exe` elevated with `args` and
/// waits for it, passing on its exit code.
pub open spec fn self_elevation_script(exe: Seq<char>, args: Seq<Seq<char>>) -> Seq<char> {
    "$ErrorActionPreference='Stop'\n$p = Start-Process -FilePath '"@ + ps_quote_spec(exe)
        + "' -Verb RunAs -WindowStyle Hidden -PassThru -Wait -ArgumentList "@ + quoted_list(args)
        + "\nexit $p.ExitCode\n"@
}

/// Builds the launcher that re-runs this executable elevated (the UAC prompt
/// names the application, not PowerShell) with the given arguments.
pub fn self_elevation_launcher(exe: &str, args: &[String]) -> (r: String)
    ensures
        r@ == self_elevation_script(exe@, views_of(args@)),
{
    let mut list: Vec<char> = Vec::new();
    let mut i: usize = 0;
    while i < args.len()
        invariant
            0 <= i <= args@.len(),
            list@ == quoted_list(views_of(args@).take(i as int)),
        decreases args.len() - i,
    {
        let ghost before = list@;
        if i > 0 {
            list.push(',');
        }
        list.push('\'');
        let q = ps_quote(args[i].as_str());
        let qc = chars_of(q.as_str());
        crate::text::push_all(&mut list, &qc);
        list.push('\'');
        proof {
            let vs = views_of(args@);
            let t = vs.take(i + 1);
            assert(t.drop_last() =~= vs.take(i as int));
            assert(t.last() == args@[i as int]@);
            if i == 0 {
                assert(list@ =~= quoted_arg(t[0]));
            } else {
                assert(list@ =~= before + seq![','] + quoted_arg(t.last()));
            }
        }
        i = i + 1;
    }
    assert(views_of(args@).take(args@.len() as int) =~= views_of(args@));
    let mut r = String::from_str("$ErrorActionPreference='Stop'\n$p = Start-Process -FilePath '");
    let qe = ps_quote(exe);
    r.append(qe.as_str());
    r.append("' -Verb RunAs -WindowStyle Hidden -PassThru -Wait -ArgumentList ");
    let ls = string_from(&list);
    r.append(ls.as_str());
    r.append("\nexit $p.ExitCode\n");
    r
}

/// The elevated script: it stops on the first error and receives the path of
/// its result file as its first argument.
pub open spec fn elevated_inner_spec(body: Seq<char>) -> Seq<char> {
    "$ErrorActionPreference='Stop'\n$ResultFile = $args[0]\n"@ + body + "\n"@
}

/// Wraps a script body to run elevated.
pub fn elevated_inner_script(body: &str) -> (r: String)
    ensures
        r@ == elevated_inner_spec(body@),
{
    let mut r = String::from_str("$ErrorActionPreference='Stop'\n$ResultFile = $args[0]\n");
    r.append(body);
    r.append("\n");
    r
}

/// The launcher that starts the script file `inner` in an elevated PowerShell
/// (one UAC prompt), passing it the result-file path, and waits.
pub open spec fn elevated_launcher_spec(inner: Seq<char>, result: Seq<char>) -> Seq<char> {
    "$ErrorActionPreference='Stop'\n$p = Start-Process powershell -Verb RunAs -Wait -PassThru -WindowStyle Hidden -ArgumentList '-NoProfile','-ExecutionPolicy','Bypass','-File','"@
        + ps_quote_spec(inner) + "','"@ + ps_quote_spec(result) + "'\nexit $p.ExitCode\n"@
}

pub fn elevated_launcher(inner_path: &str, result_path: &str) -> (r: String)
    ensures
        r@ == elevated_launcher_spec(inner_path@, result_path@),
{
    let mut r = String::from_str(
        "$ErrorActionPreference='Stop'\n$p = Start-Process powershell -Verb RunAs -Wait -PassThru -WindowStyle Hidden -ArgumentList '-NoProfile','-ExecutionPolicy','Bypass','-File','",
    );
    let qi = ps_quote(inner_path);
    r.append(qi.as_str());
    r.append("','");
    let qr = ps_quote(result_path);
    r.append(qr.as_str());
    r.append("'\nexit $p.ExitCode\n");
    r
}

/// Whether `s` holds only whitespace.
pub fn is_blank(s: &str) -> (r: bool)
    ensures
        r == (trim_spec(s@).len() == 0),
{
    let cs = chars_of(s);
    let t = trim(&cs);
    t.len() == 0
}

/// The outcome of an elevated run, from whether the launcher succeeded and
/// what the result file held (`None` when it could not be read). A result
/// that the elevated process left is preferred, even after a reported error.
pub fn elevated_result(run: &Result<String, String>, contents: Option<String>) -> (r: Result<
    String,
    String,
>)
    ensures
        match (run, contents) {
            (Ok(_), Some(c)) => r == Ok::<String, String>(c),
            (Ok(_), None) => r matches Err(m)
                && m@ == "elevated operation produced no result (it may have been cancelled at the UAC prompt)"@,
            (Err(e), Some(c)) => if trim_spec(c@).len() == 0 {
                r matches Err(m) && m@ == "elevated operation failed: "@ + e@
            } else {
                r == Ok::<String, String>(c)
            },
            (Err(e), None) => r matches Err(m) && m@ == "elevation failed or was cancelled: "@
                + e@,
        },
{
    match (run, contents) {
        (Ok(_), Some(c)) => Ok(c),
        (Ok(_), None) => Err(
            String::from_str(
                "elevated operation produced no result (it may have been cancelled at the UAC prompt)",
            ),
        ),
        (Err(e), Some(c)) => {
            if is_blank(c.as_str()) {
                let mut m = String::from_str("elevated operation failed: ");
                m.append(e.as_str());
                Err(m)
            } else {
                Ok(c)
            }
        },
        (Err(e), None) => {
            let mut m = String::from_str("elevation failed or was cancelled: ");
            m.append(e.as_str());
            Err(m)
        },
    }
}

// ---------------------------------------------------------------------------
// JSON output
// ---------------------------------------------------------------------------

/// The text of PowerShell output that JSON is read from: leading byte-order
/// marks (which `trim` does not remove) dropped, then surrounding whitespace.
pub open spec fn json_text_spec(stdout: Seq<char>) -> Seq<char> {
    trim_spec(strip_bom_spec(stdout))
}

/// The JSON text of PowerShell output, for `ConvertTo-Json` results.
pub fn json_payload(stdout: &str) -> (r: String)
    ensures
        r@ == json_text_spec(stdout@),
{
    let cs = chars_of(stdout);
    let t = strip_bom_and_trim(&cs);
    string_from(&t)
}

/// The shape of a JSON value.
#[derive(PartialEq, Eq, Structural, Clone, Copy, Debug)]
pub enum JsonKind {
    Null,
    Array,
    /// An object, a string, a number or a boolean.
    Other,
}

/// What `serde_json` makes of the text `text`: the shape of the value, or the
/// message of the parse error.
pub uninterp spec fn json_value_kind(text: Seq<char>) -> Result<JsonKind, Seq<char>>;

/// Parses `text` as JSON with `serde_json::from_str::<serde_json::Value>` and
/// reports the shape of the value, or the parse error's message. The JSON
/// grammar is not restated: the outcome is named `json_value_kind`.
#[verifier::external_body]
fn parse_json_kind(text: &str) -> (r: Result<JsonKind, String>)
    ensures
        match r {
            Ok(k) => json_value_kind(text@) == Ok::<JsonKind, Seq<char>>(k),
            Err(e) => json_value_kind(text@) == Err::<JsonKind, Seq<char>>(e@),
        },
{
    match serde_json::from_str::<serde_json::Value>(text) {
        Ok(serde_json::Value::Null) => Ok(JsonKind::Null),
        Ok(serde_json::Value::Array(_)) => Ok(JsonKind::Array),
        Ok(serde_json::Value::Bool(_)) => Ok(JsonKind::Other),
        Ok(serde_json::Value::Number(_)) => Ok(JsonKind::Other),
        Ok(serde_json::Value::String(_)) => Ok(JsonKind::Other),
        Ok(serde_json::Value::Object(_)) => Ok(JsonKind::Other),
        Err(e) => Err(e.to_string()),
    }
}

/// `ConvertTo-Json` output read as a list. PowerShell prints nothing for zero
/// items, a bare value for one item and an array for several; the payload says
/// which, so that every case becomes a list.
#[derive(Clone, Debug, PartialEq)]
pub enum JsonArrayPayload {
    /// No items.
    Empty,
    /// A JSON array: the list itself.
    Array(String),
    /// A single JSON value: a list of one.
    Single(String),
}

/// How `ConvertTo-Json` output `text` (already trimmed) is read as a list,
/// given what parsing it as JSON gave.
pub open spec fn payload_matches(
    r: Result<JsonArrayPayload, String>,
    text: Seq<char>,
    kind: Result<JsonKind, Seq<char>>,
) -> bool {
    if text.len() == 0 {
        r matches Ok(JsonArrayPayload::Empty)
    } else {
        match kind {
            Err(e) => r matches Err(m) && m@ == "failed to parse JSON ("@ + e + "); raw output: "@
                + text,
            Ok(JsonKind::Null) => r matches Ok(JsonArrayPayload::Empty),
            Ok(JsonKind::Array) => r matches Ok(JsonArrayPayload::Array(t)) && t@ == text,
            Ok(JsonKind::Other) => r matches Ok(JsonArrayPayload::Single(t)) && t@ == text,
        }
    }
}

/// Decides how the trimmed output `text` is read as a list, given the outcome
/// `kind` of parsing it as JSON.
pub fn payload_from_kind(text: String, kind: Result<JsonKind, String>) -> (r: Result<
    JsonArrayPayload,
    String,
>)
    ensures
        payload_matches(
            r,
            text@,
            match kind {
                Ok(k) => Ok::<JsonKind, Seq<char>>(k),
                Err(e) => Err::<JsonKind, Seq<char>>(e@),
            },
        ),
{
    if text.as_str().is_empty() {
        return Ok(JsonArrayPayload::Empty);
    }
    match kind {
        Err(e) => {
            let mut m = String::from_str("failed to parse JSON (");
            m.append(e.as_str());
            m.append("); raw output: ");
            m.append(text.as_str());
            Err(m)
        },
        Ok(JsonKind::Null) => Ok(JsonArrayPayload::Empty),
        Ok(JsonKind::Array) => Ok(JsonArrayPayload::Array(text)),
        Ok(JsonKind::Other) => Ok(JsonArrayPayload::Single(text)),
    }
}

/// Reads PowerShell `ConvertTo-Json` output as a list: the text is freed of
/// byte-order marks and whitespace; empty output and `null` are no items.
pub fn json_array_payload(stdout: &str) -> (r: Result<JsonArrayPayload, String>)
    ensures
        payload_matches(r, json_text_spec(stdout@), json_value_kind(json_text_spec(stdout@))),
{
    let text = json_payload(stdout);
    if text.as_str().is_empty() {
        return Ok(JsonArrayPayload::Empty);
    }
    let kind = parse_json_kind(text.as_str());
    payload_from_kind(text, kind)
}

} // verus!
