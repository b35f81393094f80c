//! The arguments with which a Windows installer is run inside a prefix.

use crate::text::{substitute, substituted, texts};
use vstd::prelude::*;

verus! {

/// The path by which a program inside a prefix reaches the host's `path`:
/// on the drive `Z:`, with `\` for each `/`.
pub open spec fn windows_path_of(path: Seq<char>) -> Seq<char> {
    "Z:"@ + substituted(path, '/', '\\')
}

/// The arguments of a silent installation into `install_path` that is logged
/// to `log_file`.
pub open spec fn installer_args_of(install_path: Seq<char>, log_file: Seq<char>) -> Seq<Seq<char>> {
    seq!["/VERYSILENT"@, "/DIR="@ + windows_path_of(install_path), "/LOG="@ + log_file]
}

/// The path by which a program inside a prefix reaches the host's `path`.
pub fn windows_path(path: &str) -> (r: String)
    ensures
        r@ == windows_path_of(path@),
{
    proof {
        reveal_strlit("\\");
    }
    let mut out = "Z:".to_owned();
    out.append(substitute(path, '/', "\\").as_str());
    out
}

/// The arguments of a silent installation into `install_path` that is logged
/// to `log_file`.
pub fn installer_args(install_path: &str, log_file: &str) -> (r: Vec<String>)
    ensures
        texts(r@) == installer_args_of(install_path@, log_file@),
{
    let mut dir = "/DIR=".to_owned();
    dir.append(windows_path(install_path).as_str());
    let mut log = "/LOG=".to_owned();
    log.append(log_file);
    let mut args: Vec<String> = Vec::new();
    args.push("/VERYSILENT".to_owned());
    args.push(dir);
    args.push(log);
    assert(texts(args@) =~= installer_args_of(install_path@, log_file@));
    args
}

} // verus!
