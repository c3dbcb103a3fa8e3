use caching_proxy::cache::cache_path;
use caching_proxy::cache::check_cache;
use caching_proxy::cache::CACHE_DIR;

#[test]
fn cache_entries_lie_flat_in_the_cache_directory() {
    assert_eq!(CACHE_DIR, "src/cache");
    assert_eq!(cache_path("foo.txt"), "src/cache/foo.txt");
    assert_eq!(cache_path("index.html"), "src/cache/index.html");
    assert_eq!(cache_path(""), "src/cache/");
}

#[test]
fn cache_path_takes_the_key_as_it_stands() {
    assert_eq!(cache_path("a b"), "src/cache/a b");
    assert_eq!(cache_path("caf\u{e9}.txt"), "src/cache/caf\u{e9}.txt");
}

#[test]
fn an_absent_entry_is_not_found() {
    assert!(!check_cache("no-such-entry-6f1c2b7e.bin"));
    assert!(!check_cache("no-such-entry-6f1c2b7e.bin"));
}
