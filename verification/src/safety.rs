//! Safety net: a System Restore point before drivers change, so that a bad
//! install can be rolled back. Windows throttles restore points to one per
//! 24 hours by default and needs System Protection on the system drive; both
//! surface in the message that the script writes.

use vstd::prelude::*;

use crate::ps::{ps_quote, ps_quote_spec};

verus! {

/// The elevated script that creates a `DEVICE_DRIVER_INSTALL` restore point
/// named `desc` (already quoted) and writes its outcome to `$ResultFile`.
pub open spec fn restore_point_script_spec(desc: Seq<char>) -> Seq<char> {
    r#"
$ErrorActionPreference = 'Stop'
try {
  # Bypass the default 24h throttle so a point is actually created on demand.
  try {
    New-ItemProperty -Path 'HKLM:\Software\Microsoft\Windows NT\CurrentVersion\SystemRestore' `
      -Name 'SystemRestorePointCreationFrequency' -Value 0 -PropertyType DWord -Force | Out-Null
  } catch {}

  Checkpoint-Computer -Description '"#@ + desc + r#"' -RestorePointType 'DEVICE_DRIVER_INSTALL'
  $out = [pscustomobject]@{ success = $true; message = 'Restore point created.' }
  $out | ConvertTo-Json | Set-Content -Path $ResultFile -Encoding UTF8
} catch {
  $msg = $_.Exception.Message
  $out = [pscustomobject]@{ success = $false; message = "Could not create restore point: $msg (System Protection may be disabled on C:)." }
  $out | ConvertTo-Json | Set-Content -Path $ResultFile -Encoding UTF8
}
"#@
}

/// The elevated script that creates a System Restore point with the given
/// description; the description's single quotes are doubled so that it stays
/// one PowerShell string.
pub fn create_restore_point(description: &str) -> (r: String)
    ensures
        r@ == restore_point_script_spec(ps_quote_spec(description@)),
{
    let mut s = String::from_str(
        r#"
$ErrorActionPreference = 'Stop'
try {
  # Bypass the default 24h throttle so a point is actually created on demand.
  try {
    New-ItemProperty -Path 'HKLM:\Software\Microsoft\Windows NT\CurrentVersion\SystemRestore' `
      -Name 'SystemRestorePointCreationFrequency' -Value 0 -PropertyType DWord -Force | Out-Null
  } catch {}

  Checkpoint-Computer -Description '"#,
    );
    let quoted = ps_quote(description);
    s.append(quoted.as_str());
    s.append(
        r#"' -RestorePointType 'DEVICE_DRIVER_INSTALL'
  $out = [pscustomobject]@{ success = $true; message = 'Restore point created.' }
  $out | ConvertTo-Json | Set-Content -Path $ResultFile -Encoding UTF8
} catch {
  $msg = $_.Exception.Message
  $out = [pscustomobject]@{ success = $false; message = "Could not create restore point: $msg (System Protection may be disabled on C:)." }
  $out | ConvertTo-Json | Set-Content -Path $ResultFile -Encoding UTF8
}
"#,
    );
    s
}

} // verus!
