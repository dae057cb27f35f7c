//! Fresh Driver: the verified core of a Windows driver manager.
//!
//! The application scans installed drivers, finds newer ones (Windows Update,
//! the Microsoft Update Catalog, vendor checks) and installs them elevated one
//! operation at a time. This crate holds its logic: the pci.ids database, the
//! driver listing, the install history, the scripts and command lines handed to
//! PowerShell, and the decisions taken on what comes back.

pub mod catalog;
pub mod drivers;
pub mod history;
pub mod hwids;
pub mod ps;
pub mod safety;
pub mod text;
pub mod wupdate;

use vstd::prelude::*;

use crate::catalog::{
    install_step, rollback_step, run_elevated_rollback_worker, run_elevated_worker, WorkerStep,
};
use crate::text::{chars_eq, chars_of};

verus! {

/// The command-line argument at position `i`, or the empty string.
pub open spec fn arg_at(args: Seq<String>, i: int) -> Seq<char> {
    if 0 <= i < args.len() {
        args[i]@
    } else {
        seq![]
    }
}

fn arg_str(args: &[String], i: usize) -> (r: &str)
    ensures
        r@ == arg_at(args@, i as int),
{
    if i < args.len() {
        args[i].as_str()
    } else {
        proof {
            reveal_strlit("");
        }
        ""
    }
}

/// The elevated install helper. The application re-launched with
/// `--elevated-install <update_id> <0|1> <result_file> <progress_file>` runs
/// this instead of the GUI; it is already elevated.
pub fn elevated_install_entry(args: &[String], template: &str) -> (r: WorkerStep)
    ensures
        install_step(
            r,
            template@,
            arg_at(args@, 2),
            arg_at(args@, 3) == "1"@,
            arg_at(args@, 4),
            arg_at(args@, 5),
        ),
{
    let update_id = arg_str(args, 2);
    let flag = chars_of(arg_str(args, 3));
    let one = chars_of("1");
    let create_restore = chars_eq(&flag, &one);
    let result_file = arg_str(args, 4);
    let progress_file = arg_str(args, 5);
    run_elevated_worker(template, update_id, create_restore, result_file, progress_file)
}

/// The elevated rollback helper:
/// `--elevated-rollback <oemNN.inf> <result_file>`.
pub fn elevated_rollback_entry(args: &[String], template: &str) -> (r: WorkerStep)
    ensures
        rollback_step(r, template@, arg_at(args@, 2), arg_at(args@, 3)),
{
    let published_name = arg_str(args, 2);
    let result_file = arg_str(args, 3);
    run_elevated_rollback_worker(template, published_name, result_file)
}

} // verus!
