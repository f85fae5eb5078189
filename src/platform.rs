//! Mapping from the host's (operating system, architecture) pair to the
//! release archive that is downloaded for it.
use vstd::prelude::*;
use vstd::string::*;
use crate::text::{has_suffix, str_eq, ends_with};

verus! {

/// Where a release archive is fetched from, and the name it is cached under.
pub struct DownloadTarget {
    pub url: String,
    pub file_name: String,
}

/// No release archive exists for the host's (operating system, architecture) pair.
#[derive(Debug)]
pub struct UnsupportedPlatformError {
    pub os: String,
    pub arch: String,
}

/// How a downloaded archive is unpacked.
#[derive(Debug, Clone, Copy, PartialEq, Eq, Structural)]
pub enum ArchiveFormat {
    Zip,
    TarGz,
}

/// The release archive for each supported pair; `None` for every other pair.
pub open spec fn release_url(os: Seq<char>, arch: Seq<char>) -> Option<Seq<char>> {
    if os == "windows"@ && arch == "x86_64"@ {
        Some("https://www.chmlfrp.cn/dw/ChmlFrp-0.51.2_240715_windows_amd64.zip"@)
    } else if os == "windows"@ && arch == "aarch64"@ {
        Some("https://www.chmlfrp.cn/dw/ChmlFrp-0.51.2_240715_windows_arm64.zip"@)
    } else if os == "linux"@ && arch == "x86_64"@ {
        Some("https://www.chmlfrp.cn/dw/ChmlFrp-0.51.2_240715_linux_amd64.tar.gz"@)
    } else if os == "linux"@ && arch == "aarch64"@ {
        Some("https://www.chmlfrp.cn/dw/ChmlFrp-0.51.2_240715_linux_arm64.tar.gz"@)
    } else if os == "freebsd"@ && arch == "x86_64"@ {
        Some("https://www.chmlfrp.cn/dw/ChmlFrp-0.51.2_240715_freebsd_amd64.tar.gz"@)
    } else if os == "macos"@ && arch == "x86_64"@ {
        Some("https://www.chmlfrp.cn/dw/ChmlFrp-0.51.2_240715_darwin_amd64.tar.gz"@)
    } else if os == "macos"@ && arch == "aarch64"@ {
        Some("https://www.chmlfrp.cn/dw/ChmlFrp-0.51.2_240715_darwin_arm64.tar.gz"@)
    } else {
        None
    }
}

/// The part of `url` after its last `/` (all of it when there is none).
pub open spec fn last_segment(url: Seq<char>) -> Seq<char>
    decreases url.len(),
{
    if url.len() == 0 {
        Seq::empty()
    } else if url.last() == '/' {
        Seq::empty()
    } else {
        last_segment(url.drop_last()).push(url.last())
    }
}

/// The format an archive of this file name is unpacked as.
pub open spec fn format_of(file_name: Seq<char>) -> ArchiveFormat {
    if has_suffix(file_name, ".zip"@) {
        ArchiveFormat::Zip
    } else {
        ArchiveFormat::TarGz
    }
}

/// The pairs for which a release archive is published.
pub open spec fn is_supported(os: Seq<char>, arch: Seq<char>) -> bool {
    ||| (os == "windows"@ || os == "linux"@ || os == "macos"@) && (arch == "x86_64"@ || arch
        == "aarch64"@)
    ||| os == "freebsd"@ && arch == "x86_64"@
}

/// Every supported pair maps to a non-empty download URL, and every other pair
/// maps to none, so `resolve` fails on it.
pub proof fn supported_pairs_resolve(os: Seq<char>, arch: Seq<char>)
    ensures
        release_url(os, arch) is Some <==> is_supported(os, arch),
        release_url(os, arch) is Some ==> release_url(os, arch)->0.len() > 0,
{
    reveal_strlit("https://www.chmlfrp.cn/dw/ChmlFrp-0.51.2_240715_windows_amd64.zip");
    reveal_strlit("https://www.chmlfrp.cn/dw/ChmlFrp-0.51.2_240715_windows_arm64.zip");
    reveal_strlit("https://www.chmlfrp.cn/dw/ChmlFrp-0.51.2_240715_linux_amd64.tar.gz");
    reveal_strlit("https://www.chmlfrp.cn/dw/ChmlFrp-0.51.2_240715_linux_arm64.tar.gz");
    reveal_strlit("https://www.chmlfrp.cn/dw/ChmlFrp-0.51.2_240715_freebsd_amd64.tar.gz");
    reveal_strlit("https://www.chmlfrp.cn/dw/ChmlFrp-0.51.2_240715_darwin_amd64.tar.gz");
    reveal_strlit("https://www.chmlfrp.cn/dw/ChmlFrp-0.51.2_240715_darwin_arm64.tar.gz");
}

/// Looks up the release archive for the host `os` and `arch`: exactly the
/// pairs of `release_url` are supported, with no fallback for other values.
pub fn resolve(os: &str, arch: &str) -> (r: Result<DownloadTarget, UnsupportedPlatformError>)
    ensures
        match r {
            Ok(t) => release_url(os@, arch@) == Some(t.url@) && t.file_name@ == last_segment(
                t.url@,
            ),
            Err(e) => release_url(os@, arch@) is None && e.os@ == os@ && e.arch@ == arch@,
        },
{
    let win = str_eq(os, "windows");
    let linux = str_eq(os, "linux");
    let bsd = str_eq(os, "freebsd");
    let mac = str_eq(os, "macos");
    let x64 = str_eq(arch, "x86_64");
    let arm = str_eq(arch, "aarch64");
    let url: &str = if win && x64 {
        "https://www.chmlfrp.cn/dw/ChmlFrp-0.51.2_240715_windows_amd64.zip"
    } else if win && arm {
        "https://www.chmlfrp.cn/dw/ChmlFrp-0.51.2_240715_windows_arm64.zip"
    } else if linux && x64 {
        "https://www.chmlfrp.cn/dw/ChmlFrp-0.51.2_240715_linux_amd64.tar.gz"
    } else if linux && arm {
        "https://www.chmlfrp.cn/dw/ChmlFrp-0.51.2_240715_linux_arm64.tar.gz"
    } else if bsd && x64 {
        "https://www.chmlfrp.cn/dw/ChmlFrp-0.51.2_240715_freebsd_amd64.tar.gz"
    } else if mac && x64 {
        "https://www.chmlfrp.cn/dw/ChmlFrp-0.51.2_240715_darwin_amd64.tar.gz"
    } else if mac && arm {
        "https://www.chmlfrp.cn/dw/ChmlFrp-0.51.2_240715_darwin_arm64.tar.gz"
    } else {
        return Err(UnsupportedPlatformError { os: os.to_owned(), arch: arch.to_owned() });
    };
    let file_name = file_name_of(url);
    Ok(DownloadTarget { url: url.to_owned(), file_name })
}

/// The file name a download is cached under: the final path segment of `url`.
pub fn file_name_of(url: &str) -> (r: String)
    ensures
        r@ == last_segment(url@),
{
    let n = url.unicode_len();
    let mut i: usize = n;
    assert(url@.subrange(0, n as int) =~= url@);
    assert(url@ + url@.subrange(n as int, n as int) =~= url@);
    while i > 0
        invariant
            n == url@.len(),
            i <= n,
            last_segment(url@) == last_segment(url@.subrange(0, i as int)) + url@.subrange(
                i as int,
                n as int,
            ),
        decreases i,
    {
        let c = url.get_char(i - 1);
        let ghost pre = url@.subrange(0, i as int);
        assert(pre.drop_last() =~= url@.subrange(0, i - 1));
        if c == '/' {
            assert(url@.subrange(i as int, n as int) =~= Seq::<char>::empty() + url@.subrange(
                i as int,
                n as int,
            ));
            return url.substring_char(i, n).to_owned();
        }
        assert(url@.subrange(i - 1, n as int) =~= seq![c] + url@.subrange(i as int, n as int));
        assert(last_segment(url@.subrange(0, i - 1)).push(c) + url@.subrange(i as int, n as int)
            =~= last_segment(url@.subrange(0, i - 1)) + url@.subrange(i - 1, n as int));
        i = i - 1;
    }
    assert(url@.subrange(0, 0) =~= Seq::<char>::empty());
    assert(url@.subrange(0, n as int) =~= url@);
    url.to_owned()
}

/// The format an archive is unpacked as, chosen by the suffix of its file name.
pub fn archive_format(file_name: &str) -> (r: ArchiveFormat)
    ensures
        r == format_of(file_name@),
{
    if ends_with(file_name, ".zip") {
        ArchiveFormat::Zip
    } else {
        ArchiveFormat::TarGz
    }
}

} // verus!
