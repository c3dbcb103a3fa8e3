//! Where cached resources live on disk.
use vstd::prelude::*;
use vstd::string::StringExecFns;

verus! {

/// The directory that holds one file per cache key.
pub const CACHE_DIR: &'static str = "src/cache";

/// The path of the cache entry for `file_name`: the cache directory, a
/// slash, and the key as it stands.
pub open spec fn cache_path_spec(file_name: Seq<char>) -> Seq<char> {
    CACHE_DIR@ + "/"@ + file_name
}

/// The path of the cache entry for `file_name`.
pub fn cache_path(file_name: &str) -> (path: String)
    ensures
        path@ == cache_path_spec(file_name@),
{
    let mut path = CACHE_DIR.to_owned();
    path.append("/");
    path.append(file_name);
    path
}

/// Asks the file system whether anything exists at `path`, through
/// `std::path::Path::exists`. The answer depends on what is on disk when the
/// call is made, so nothing is claimed of it.
#[verifier::external_body]
fn path_exists(path: &str) -> (present: bool) {
    std::path::Path::new(path).exists()
}

/// Whether the cache holds an entry for `file_name` right now.
///
/// The answer is the file system's and may differ from one call to the
/// next; `handler::step` is verified for either answer.
pub fn check_cache(file_name: &str) -> (present: bool) {
    let path = cache_path(file_name);
    path_exists(path.as_str())
}

} // verus!
