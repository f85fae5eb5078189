//! The init flow: resolve the platform, then fetch, extract and normalize
//! under one install root. The plan fixes every path and the extraction
//! strategy before any file-system or network work starts.
use vstd::prelude::*;
use vstd::string::*;
use crate::platform::{
    ArchiveFormat, DownloadTarget, UnsupportedPlatformError, archive_format, format_of,
    last_segment, release_url, resolve,
};
use crate::fetch::{joined, join_path};

verus! {

/// Everything the init flow needs to know before it touches the disk.
pub struct InstallPlan {
    pub target: DownloadTarget,
    /// `<root>/download`: where archives are cached.
    pub cache_dir: String,
    /// `<root>/download/<file name>`: the cached archive.
    pub archive_path: String,
    /// How the archive is unpacked.
    pub format: ArchiveFormat,
    /// Where the archive is unpacked and the release directory normalized.
    pub install_root: String,
}

/// Plans the init flow for host `os`/`arch` under `root`; fails exactly when
/// the platform has no release archive.
pub fn plan_install(os: &str, arch: &str, root: &str) -> (r: Result<
    InstallPlan,
    UnsupportedPlatformError,
>)
    ensures
        match r {
            Ok(p) => {
                &&& release_url(os@, arch@) == Some(p.target.url@)
                &&& p.target.file_name@ == last_segment(p.target.url@)
                &&& p.cache_dir@ == joined(root@, "download"@)
                &&& p.archive_path@ == joined(p.cache_dir@, p.target.file_name@)
                &&& p.format == format_of(p.target.file_name@)
                &&& p.install_root@ == root@
            },
            Err(e) => release_url(os@, arch@) is None && e.os@ == os@ && e.arch@ == arch@,
        },
{
    let target = resolve(os, arch)?;
    let cache_dir = join_path(root, "download");
    let archive_path = join_path(cache_dir.as_str(), target.file_name.as_str());
    let format = archive_format(target.file_name.as_str());
    Ok(InstallPlan { target, cache_dir, archive_path, format, install_root: root.to_owned() })
}

} // verus!
