//! Decisions of the archive fetcher: where a download is cached, whether the
//! network is needed at all, and how transfer progress is counted.
use vstd::prelude::*;
use vstd::string::*;
use crate::platform::DownloadTarget;

verus! {

/// `name` placed inside directory `dir`, separated by one `/`.
pub open spec fn joined(dir: Seq<char>, name: Seq<char>) -> Seq<char> {
    if dir.len() == 0 {
        name
    } else if dir.last() == '/' {
        dir + name
    } else {
        dir + seq!['/'] + name
    }
}

/// What the fetcher does for one target.
pub enum FetchStep {
    /// The archive is already cached at `path`: no request is made.
    UseCached { path: String },
    /// Stream `url` into a new file at `path`.
    Download { url: String, path: String },
}

/// The path of `name` inside directory `dir`.
pub fn join_path(dir: &str, name: &str) -> (r: String)
    ensures
        r@ == joined(dir@, name@),
{
    let n = dir.unicode_len();
    let mut r = dir.to_owned();
    if n > 0 && dir.get_char(n - 1) != '/' {
        r.append("/");
        proof {
            reveal_strlit("/");
        }
    }
    r.append(name);
    r
}

/// The file a target's archive is cached as inside `cache_dir`.
pub fn cache_file_path(target: &DownloadTarget, cache_dir: &str) -> (r: String)
    ensures
        r@ == joined(cache_dir@, target.file_name@),
{
    join_path(cache_dir, target.file_name.as_str())
}

/// Chooses between the cache and the network. A file already present at the
/// cache path is trusted as it is: the result then names that path and asks
/// for no request.
pub fn plan_fetch(target: &DownloadTarget, cache_dir: &str, cached: bool) -> (r: FetchStep)
    ensures
        cached ==> (r matches FetchStep::UseCached { path } && path@ == joined(
            cache_dir@,
            target.file_name@,
        )),
        !cached ==> (r matches FetchStep::Download { url, path } && url@ == target.url@ && path@
            == joined(cache_dir@, target.file_name@)),
{
    let path = cache_file_path(target, cache_dir);
    if cached {
        FetchStep::UseCached { path }
    } else {
        FetchStep::Download { url: target.url.clone(), path }
    }
}

/// The total that progress is reported against: the advertised content
/// length, or 0 when the server gives none.
pub fn progress_total(content_length: Option<u64>) -> (r: u64)
    ensures
        r == match content_length {
            Some(n) => n,
            None => 0,
        },
{
    match content_length {
        Some(n) => n,
        None => 0,
    }
}

/// The smaller of two integers.
pub open spec fn min_int(a: int, b: int) -> int {
    if a <= b {
        a
    } else {
        b
    }
}

/// Bytes reported as transferred after a chunk of `chunk_len` bytes arrives,
/// capped at `total`.
pub fn advance_progress(done: u64, chunk_len: usize, total: u64) -> (r: u64)
    ensures
        r == min_int(done + chunk_len, total as int),
{
    if done >= total {
        total
    } else if chunk_len as u64 >= total - done {
        total
    } else {
        done + chunk_len as u64
    }
}

} // verus!
