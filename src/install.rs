//! The install pipeline's own decisions: where a version goes on disk, how a
//! download is accounted for, and which stage comes next.

use vstd::prelude::*;
use vstd::string::StringExecFns;

use crate::error::InstallError;
use crate::text::chars_of;
use crate::version::{decimal_u64, parse_decimal};

verus! {

/// Where one installed version lives and where the active link goes.
#[derive(Clone, Debug)]
pub struct InstallLayout {
    /// The per-version directory that the archive unpacks into.
    pub install_dir: String,
    /// Where the downloaded archive is written.
    pub tarball_path: String,
    /// The binary inside the unpacked tree.
    pub binary_path: String,
    /// The directory that holds the active link.
    pub link_dir: String,
    /// The active link itself.
    pub link_path: String,
}

/// The install root and the link directory under a home directory.
pub fn default_roots(home: &str) -> (r: (String, String))
    ensures
        r.0@ == home@ + "/.local/share/cv/zig"@,
        r.1@ == home@ + "/.local/bin"@,
{
    let mut data = home.to_owned();
    data.append("/.local/share/cv/zig");
    let mut bin = home.to_owned();
    bin.append("/.local/bin");
    (data, bin)
}

/// The layout of `version` for `host` under the given roots: the install
/// directory `zig-<version>-<host>` and its archive beside it, the binary at
/// the top of the unpacked tree, and the link `zig` in `bin_root`.
pub fn install_layout(install_root: &str, bin_root: &str, version: &str, host: &str) -> (r:
    InstallLayout)
    ensures
        r.install_dir@ == install_root@ + "/zig-"@ + version@ + "-"@ + host@,
        r.tarball_path@ == install_root@ + "/zig-"@ + version@ + "-"@ + host@ + ".tar.xz"@,
        r.binary_path@ == install_root@ + "/zig-"@ + version@ + "-"@ + host@ + "/zig"@,
        r.link_dir@ == bin_root@,
        r.link_path@ == bin_root@ + "/zig"@,
{
    let mut install_dir = install_root.to_owned();
    install_dir.append("/zig-");
    install_dir.append(version);
    install_dir.append("-");
    install_dir.append(host);
    let mut tarball_path = install_dir.clone();
    tarball_path.append(".tar.xz");
    let mut binary_path = install_dir.clone();
    binary_path.append("/zig");
    let link_dir = bin_root.to_owned();
    let mut link_path = bin_root.to_owned();
    link_path.append("/zig");
    InstallLayout { install_dir, tarball_path, binary_path, link_dir, link_path }
}

/// The length that a `Content-Length` value announces, if it reads as one.
pub fn announced_length(header: Option<&str>) -> (r: Option<u64>)
    ensures
        r == match header {
            Some(h) => decimal_u64(h@),
            None => None,
        },
{
    match header {
        Some(h) => {
            let chars = chars_of(h);
            parse_decimal(&chars)
        },
        None => None,
    }
}

/// The bytes written so far against the length that the server announced.
#[derive(Clone, Copy, Debug, PartialEq, Eq, Structural)]
pub struct DownloadProgress {
    pub announced: Option<u64>,
    pub written: u64,
}

/// What a finished download comes to: the byte count, or a mismatch with
/// the announced length.
pub open spec fn outcome_spec(p: DownloadProgress) -> Result<u64, InstallError> {
    match p.announced {
        Some(a) => if a == p.written {
            Ok(p.written)
        } else {
            Err(InstallError::TruncatedDownload { expected: a, received: p.written })
        },
        None => Ok(p.written),
    }
}

impl DownloadProgress {
    /// A download that has written nothing yet.
    pub fn new(announced: Option<u64>) -> (r: DownloadProgress)
        ensures
            r.announced == announced,
            r.written == 0,
    {
        DownloadProgress { announced, written: 0 }
    }

    /// Accounts for one chunk of `n` bytes written.
    pub fn record(&mut self, n: u64)
        requires
            old(self).written + n <= u64::MAX,
        ensures
            final(self).written == old(self).written + n,
            final(self).announced == old(self).announced,
    {
        self.written = self.written + n;
    }

    /// The byte count of the finished download; `TruncatedDownload` when a
    /// length was announced and the bytes written differ from it.
    pub fn finish(&self) -> (r: Result<u64, InstallError>)
        ensures
            r == outcome_spec(*self),
    {
        match self.announced {
            Some(a) => if a == self.written {
                Ok(self.written)
            } else {
                Err(InstallError::TruncatedDownload { expected: a, received: self.written })
            },
            None => Ok(self.written),
        }
    }
}

/// A body that stops short of its announced length never finishes as a
/// success: the shortfall is reported with both counts.
pub proof fn lemma_short_body_detected(p: DownloadProgress)
    requires
        p.announced matches Some(a) && p.written < a,
    ensures
        outcome_spec(p) == Err::<u64, InstallError>(
            InstallError::TruncatedDownload { expected: p.announced->0, received: p.written },
        ),
{
}

/// The stages of one install run.
#[derive(Clone, Copy, Debug, PartialEq, Eq, Structural)]
pub enum InstallStage {
    Fetching,
    Selecting,
    Downloading,
    Extracting,
    Publishing,
    Done,
    Failed,
}

/// The stage after `stage` ends, successfully or not: a failure ends the
/// run; publishing comes after extraction only when it was asked for.
pub open spec fn next_stage_spec(stage: InstallStage, succeeded: bool, publish: bool) -> InstallStage {
    match stage {
        InstallStage::Done => InstallStage::Done,
        InstallStage::Failed => InstallStage::Failed,
        _ => if !succeeded {
            InstallStage::Failed
        } else {
            match stage {
                InstallStage::Fetching => InstallStage::Selecting,
                InstallStage::Selecting => InstallStage::Downloading,
                InstallStage::Downloading => InstallStage::Extracting,
                InstallStage::Extracting => if publish {
                    InstallStage::Publishing
                } else {
                    InstallStage::Done
                },
                _ => InstallStage::Done,
            }
        },
    }
}

/// The stage that follows `stage`.
pub fn next_stage(stage: InstallStage, succeeded: bool, publish: bool) -> (r: InstallStage)
    ensures
        r == next_stage_spec(stage, succeeded, publish),
{
    match stage {
        InstallStage::Done => InstallStage::Done,
        InstallStage::Failed => InstallStage::Failed,
        _ => if !succeeded {
            InstallStage::Failed
        } else {
            match stage {
                InstallStage::Fetching => InstallStage::Selecting,
                InstallStage::Selecting => InstallStage::Downloading,
                InstallStage::Downloading => InstallStage::Extracting,
                InstallStage::Extracting => if publish {
                    InstallStage::Publishing
                } else {
                    InstallStage::Done
                },
                _ => InstallStage::Done,
            }
        },
    }
}

} // verus!
