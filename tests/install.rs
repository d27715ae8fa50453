use cv::error::InstallError;
use cv::install::{announced_length, default_roots, install_layout, next_stage, DownloadProgress, InstallStage};
use cv::platform::{listing_line, platform_id};

#[test]
fn platform_id_joins_with_hyphen() {
    assert_eq!(platform_id("x86_64", "linux"), "x86_64-linux");
    assert_eq!(platform_id("aarch64", "macos"), "aarch64-macos");
}

#[test]
fn listing_line_format() {
    assert_eq!(listing_line("0.15.1", "x86_64-linux"), "zig-0.15.1-x86_64-linux    <download available>");
}

#[test]
fn layout_under_home() {
    let (data, bin) = default_roots("/home/u");
    assert_eq!(data, "/home/u/.local/share/cv/zig");
    assert_eq!(bin, "/home/u/.local/bin");
    let l = install_layout(&data, &bin, "0.15.1", "x86_64-linux");
    assert_eq!(l.install_dir, "/home/u/.local/share/cv/zig/zig-0.15.1-x86_64-linux");
    assert_eq!(l.tarball_path, "/home/u/.local/share/cv/zig/zig-0.15.1-x86_64-linux.tar.xz");
    assert_eq!(l.binary_path, "/home/u/.local/share/cv/zig/zig-0.15.1-x86_64-linux/zig");
    assert_eq!(l.link_dir, "/home/u/.local/bin");
    assert_eq!(l.link_path, "/home/u/.local/bin/zig");
}

#[test]
fn content_length_reading() {
    assert_eq!(announced_length(Some("1024")), Some(1024));
    assert_eq!(announced_length(Some("abc")), None);
    assert_eq!(announced_length(Some("")), None);
    assert_eq!(announced_length(None), None);
}

#[test]
fn short_body_is_truncated() {
    let mut p = DownloadProgress::new(Some(100));
    p.record(40);
    p.record(30);
    assert_eq!(p.written, 70);
    assert_eq!(p.finish(), Err(InstallError::TruncatedDownload { expected: 100, received: 70 }));
}

#[test]
fn full_body_finishes() {
    let mut p = DownloadProgress::new(Some(64));
    p.record(32);
    p.record(32);
    assert_eq!(p.finish(), Ok(64));
    let mut q = DownloadProgress::new(None);
    q.record(5);
    assert_eq!(q.finish(), Ok(5));
    let mut r = DownloadProgress::new(Some(4));
    r.record(9);
    assert_eq!(r.finish(), Err(InstallError::TruncatedDownload { expected: 4, received: 9 }));
}

#[test]
fn stages_run_in_order() {
    let mut s = InstallStage::Fetching;
    let mut seen = vec![s];
    while s != InstallStage::Done && s != InstallStage::Failed {
        s = next_stage(s, true, true);
        seen.push(s);
    }
    assert_eq!(
        seen,
        vec![
            InstallStage::Fetching,
            InstallStage::Selecting,
            InstallStage::Downloading,
            InstallStage::Extracting,
            InstallStage::Publishing,
            InstallStage::Done
        ]
    );
    assert_eq!(next_stage(InstallStage::Extracting, true, false), InstallStage::Done);
    assert_eq!(next_stage(InstallStage::Downloading, false, true), InstallStage::Failed);
    assert_eq!(next_stage(InstallStage::Failed, true, true), InstallStage::Failed);
}
