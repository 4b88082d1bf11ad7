//! Where the installed JDKs and their settings live, and the paths of the
//! tools a build runs.
use crate::layout::{add_to_path, joined};
use vstd::prelude::*;

verus! {

/// A JDK: its version and distribution.
pub struct ToolChain {
    pub version: String,
    pub distribution: String,
}

/// The toolchain settings: the JDK used by default, if one was chosen.
pub struct Settings {
    pub default_jdk: Option<ToolChain>,
}

/// The directory of the installed JDKs, under the toolchain root `root`.
pub fn jdkdir(root: String) -> (r: String)
    ensures
        r@ == joined(root@, "jdks"@),
{
    add_to_path(root, "jdks")
}

/// The scratch directory, under the toolchain root `root`.
pub fn tmpdir(root: String) -> (r: String)
    ensures
        r@ == joined(root@, "tmp"@),
{
    add_to_path(root, "tmp")
}

/// The settings file, under the toolchain root `root`.
pub fn config_file_path(root: String) -> (r: String)
    ensures
        r@ == joined(root@, "settings.toml"@),
{
    add_to_path(root, "settings.toml")
}

/// The path of the executable `tool` of the JDK `jdk`:
/// `<jdks>/<distribution>/<version>/bin/<tool>`.
pub fn toolchain_bin(jdks: String, jdk: &ToolChain, tool: &str) -> (r: String)
    ensures
        r@ == joined(
            joined(joined(joined(jdks@, jdk.distribution@), jdk.version@), "bin"@),
            tool@,
        ),
{
    let d = add_to_path(jdks, jdk.distribution.as_str());
    let v = add_to_path(d, jdk.version.as_str());
    let b = add_to_path(v, "bin");
    add_to_path(b, tool)
}

} // verus!
