//! Platform identifiers: `{architecture}-{operating system}`.

use vstd::prelude::*;
use vstd::string::StringExecFns;

verus! {

/// The platform identifier of an architecture and an operating system.
pub fn platform_id(arch: &str, os: &str) -> (r: String)
    ensures
        r@ == arch@ + "-"@ + os@,
{
    let mut s = arch.to_owned();
    s.append("-");
    s.append(os);
    s
}

/// The line that offers one version for download on `host`.
pub fn listing_line(version: &str, host: &str) -> (r: String)
    ensures
        r@ == "zig-"@ + version@ + "-"@ + host@ + "    <download available>"@,
{
    let mut s = "zig-".to_owned();
    s.append(version);
    s.append("-");
    s.append(host);
    s.append("    <download available>");
    s
}

} // verus!
