//! Installing a driver update from Windows Update by its UpdateID. The install
//! runs elevated through the Windows Update Agent; the library checks the id
//! and writes the script.

use vstd::prelude::*;

use crate::catalog::{is_guid, is_guid_spec};
use crate::text::matches_at;

verus! {

/// The outcome of an install or a rollback.
#[derive(Clone, Debug, PartialEq)]
pub struct InstallResult {
    pub success: bool,
    pub reboot_required: bool,
    pub message: String,
    /// Published driver-store names (`oemNN.inf`) registered by this install:
    /// the handles used to roll the driver back. Empty for Windows Update.
    pub published_names: Vec<String>,
}

/// The elevated script that downloads and installs the update `update_id`
/// and writes its outcome as JSON to `$ResultFile`.
pub open spec fn install_script_spec(update_id: Seq<char>) -> Seq<char> {
    r#"
$ErrorActionPreference = 'Stop'
try {
  $session = New-Object -ComObject Microsoft.Update.Session
  $searcher = $session.CreateUpdateSearcher()
  $searcher.ServerSelection = 2
  $result = $searcher.Search("UpdateID='"#@ + update_id + r#"' and IsInstalled=0")
  if ($result.Updates.Count -eq 0) {
    $out = [pscustomobject]@{ success = $false; reboot_required = $false; message = 'Update not found or already installed.' }
    $out | ConvertTo-Json | Set-Content -Path $ResultFile -Encoding UTF8
    exit 0
  }
  $toInstall = New-Object -ComObject Microsoft.Update.UpdateColl
  $toInstall.Add($result.Updates.Item(0)) | Out-Null

  $downloader = $session.CreateUpdateDownloader()
  $downloader.Updates = $toInstall
  $downloader.Download() | Out-Null

  $installer = $session.CreateUpdateInstaller()
  $installer.Updates = $toInstall
  $installResult = $installer.Install()

  "#@ + "$ok = ($installResult.ResultCode -eq 2)"@ + r#"   # orcSucceeded
  $out = [pscustomobject]@{
    "#@ + "success = $ok"@ + r#"
    reboot_required = [bool]$installResult.RebootRequired
    message = if ($ok) { 'Driver installed successfully.' } else { "Install finished with result code $($installResult.ResultCode)." }
  }
  $out | ConvertTo-Json | Set-Content -Path $ResultFile -Encoding UTF8
} catch {
  $out = [pscustomobject]@{ success = $false; reboot_required = $false; message = "Error: $($_.Exception.Message)" }
  $out | ConvertTo-Json | Set-Content -Path $ResultFile -Encoding UTF8
}
"#@
}

/// The elevated script that installs one Windows Update driver by its
/// UpdateID. The id must look like a GUID (hex digits and dashes), so that
/// nothing but an id can reach the script.
pub fn install(update_id: &str) -> (r: Result<String, String>)
    ensures
        match r {
            Ok(script) => is_guid_spec(update_id@) && script@ == install_script_spec(update_id@),
            Err(m) => !is_guid_spec(update_id@) && m@ == "invalid update id"@,
        },
{
    if !is_guid(update_id) {
        return Err(String::from_str("invalid update id"));
    }
    let mut script = String::from_str(
        r#"
$ErrorActionPreference = 'Stop'
try {
  $session = New-Object -ComObject Microsoft.Update.Session
  $searcher = $session.CreateUpdateSearcher()
  $searcher.ServerSelection = 2
  $result = $searcher.Search("UpdateID='"#,
    );
    script.append(update_id);
    script.append(
        r#"' and IsInstalled=0")
  if ($result.Updates.Count -eq 0) {
    $out = [pscustomobject]@{ success = $false; reboot_required = $false; message = 'Update not found or already installed.' }
    $out | ConvertTo-Json | Set-Content -Path $ResultFile -Encoding UTF8
    exit 0
  }
  $toInstall = New-Object -ComObject Microsoft.Update.UpdateColl
  $toInstall.Add($result.Updates.Item(0)) | Out-Null

  $downloader = $session.CreateUpdateDownloader()
  $downloader.Updates = $toInstall
  $downloader.Download() | Out-Null

  $installer = $session.CreateUpdateInstaller()
  $installer.Updates = $toInstall
  $installResult = $installer.Install()

  "#,
    );
    script.append("$ok = ($installResult.ResultCode -eq 2)");
    script.append(
        r#"   # orcSucceeded
  $out = [pscustomobject]@{
    "#,
    );
    script.append("success = $ok");
    script.append(
        r#"
    reboot_required = [bool]$installResult.RebootRequired
    message = if ($ok) { 'Driver installed successfully.' } else { "Install finished with result code $($installResult.ResultCode)." }
  }
  $out | ConvertTo-Json | Set-Content -Path $ResultFile -Encoding UTF8
} catch {
  $out = [pscustomobject]@{ success = $false; reboot_required = $false; message = "Error: $($_.Exception.Message)" }
  $out | ConvertTo-Json | Set-Content -Path $ResultFile -Encoding UTF8
}
"#,
    );
    Ok(script)
}

/// The install script reports success exactly through the installer's result
/// code 2 (orcSucceeded): it sets `$ok` by that test and writes `success = $ok`.
pub proof fn lemma_install_script_success_test(update_id: Seq<char>)
    ensures
        exists|i: int| matches_at(install_script_spec(update_id), "$ok = ($installResult.ResultCode -eq 2)"@, i),
        exists|i: int| matches_at(install_script_spec(update_id), "success = $ok"@, i),
{
    let a = r#"
$ErrorActionPreference = 'Stop'
try {
  $session = New-Object -ComObject Microsoft.Update.Session
  $searcher = $session.CreateUpdateSearcher()
  $searcher.ServerSelection = 2
  $result = $searcher.Search("UpdateID='"#@ + update_id + r#"' and IsInstalled=0")
  if ($result.Updates.Count -eq 0) {
    $out = [pscustomobject]@{ success = $false; reboot_required = $false; message = 'Update not found or already installed.' }
    $out | ConvertTo-Json | Set-Content -Path $ResultFile -Encoding UTF8
    exit 0
  }
  $toInstall = New-Object -ComObject Microsoft.Update.UpdateColl
  $toInstall.Add($result.Updates.Item(0)) | Out-Null

  $downloader = $session.CreateUpdateDownloader()
  $downloader.Updates = $toInstall
  $downloader.Download() | Out-Null

  $installer = $session.CreateUpdateInstaller()
  $installer.Updates = $toInstall
  $installResult = $installer.Install()

  "#@;
    let ok = "$ok = ($installResult.ResultCode -eq 2)"@;
    let b = r#"   # orcSucceeded
  $out = [pscustomobject]@{
    "#@;
    let succ = "success = $ok"@;
    let script = install_script_spec(update_id);
    assert(script.subrange(a.len() as int, (a.len() + ok.len()) as int) =~= ok);
    assert(matches_at(script, ok, a.len() as int));
    let at: int = (a.len() + ok.len() + b.len()) as int;
    assert(script.subrange(at, at + succ.len() as int) =~= succ);
    assert(matches_at(script, succ, at));
}

} // verus!
