//! What is known of the build.
use crate::strings::owned;
use vstd::prelude::*;

verus! {

#[derive(Debug, Clone)]
pub struct BuildInfo {
    pub version: &'static str,
    pub git_sha: &'static str,
    pub build_unix: &'static str,
}

/// Puts together what the build knows of itself.
pub fn build_info(version: &'static str, git_sha: &'static str, build_unix: &'static str) -> (r:
    BuildInfo)
    ensures
        r.version@ == version@,
        r.git_sha@ == git_sha@,
        r.build_unix@ == build_unix@,
{
    BuildInfo { version, git_sha, build_unix }
}

/// The version, the commit and the time of the build, one to a line.
pub fn long_version(info: &BuildInfo) -> (r: String)
    ensures
        r@ == info.version@ + "\ncommit: "@ + info.git_sha@ + "\nbuilt: "@ + info.build_unix@,
{
    owned(info.version).concat("\ncommit: ").concat(info.git_sha).concat("\nbuilt: ").concat(
        info.build_unix,
    )
}

} // verus!
