use caching_proxy::text::chars_of;
use caching_proxy::text::copy_range;
use caching_proxy::text::find_in;
use caching_proxy::text::first_piece_end;
use caching_proxy::text::matches_at;
use caching_proxy::text::same_symbols;
use caching_proxy::text::split_ranges;
use caching_proxy::text::Symbol;

fn pieces(text: &str, pat: &str) -> Vec<String> {
    let bytes = text.as_bytes();
    split_ranges(bytes, pat.as_bytes(), 0, bytes.len())
        .into_iter()
        .map(|(lo, hi)| String::from_utf8(bytes[lo..hi].to_vec()).unwrap())
        .collect()
}

#[test]
fn symbols_compare_by_value() {
    assert!(b'a'.same(b'a'));
    assert!(!b'a'.same(b'b'));
    assert!('\u{e9}'.same('\u{e9}'));
    assert!(!'e'.same('\u{e9}'));
}

#[test]
fn matches_where_the_pattern_stands() {
    let text = b"abcabc";
    assert!(matches_at(text, b"abc", 0));
    assert!(matches_at(text, b"abc", 3));
    assert!(!matches_at(text, b"abc", 1));
    assert!(matches_at(text, b"", 6));
    assert!(matches_at(text, b"c", 5));
}

#[test]
fn same_symbols_tells_length_and_content() {
    assert!(same_symbols(b"gzip", b"gzip"));
    assert!(!same_symbols(b"gzip", b"gzi"));
    assert!(!same_symbols(b"gzip", b"gzap"));
    assert!(same_symbols::<u8>(b"", b""));
    assert!(!same_symbols(b"", b"x"));
}

#[test]
fn finds_the_leftmost_occurrence() {
    let text = b"a--b--c";
    assert_eq!(find_in(text, b"--", 0, text.len()), Some(1));
    assert_eq!(find_in(text, b"--", 2, text.len()), Some(4));
    assert_eq!(find_in(text, b"--", 5, text.len()), None);
    assert_eq!(find_in(text, b"x", 0, text.len()), None);
    assert_eq!(find_in(text, b"a--b--c-", 0, text.len()), None);
}

#[test]
fn finds_only_inside_the_window() {
    let text = b"a--b--c";
    assert_eq!(find_in(text, b"--", 0, 2), None);
    assert_eq!(find_in(text, b"--", 0, 3), Some(1));
    assert_eq!(find_in(text, b"--", 2, 5), None);
    assert_eq!(find_in(text, b"c", 7, 7), None);
}

#[test]
fn finds_overlapping_patterns_at_their_first_place() {
    assert_eq!(find_in(b"aaab", b"aab", 0, 4), Some(1));
    assert_eq!(find_in(b"\r\r\n\r\n", b"\r\n\r\n", 0, 5), Some(1));
}

#[test]
fn the_empty_pattern_stands_at_the_start() {
    assert_eq!(find_in(b"abc", b"", 1, 3), Some(1));
    assert_eq!(find_in(b"", b"", 0, 0), Some(0));
}

#[test]
fn first_piece_ends_at_the_separator_or_with_the_window() {
    let text = b"head\r\nrest\r\n";
    assert_eq!(first_piece_end(text, b"\r\n", 0, text.len()), 4);
    assert_eq!(first_piece_end(text, b"\r\n", 6, text.len()), 10);
    assert_eq!(first_piece_end(text, b"\r\n", 0, 5), 5);
    assert_eq!(first_piece_end(text, b"", 0, text.len()), text.len());
}

#[test]
fn splits_between_separators() {
    assert_eq!(pieces("a/b/c", "/"), vec!["a", "b", "c"]);
    assert_eq!(pieces("http://example.com/dir/foo.txt", "/"), vec!["http:", "", "example.com", "dir", "foo.txt"]);
    assert_eq!(pieces("abc", "/"), vec!["abc"]);
    assert_eq!(pieces("a: b: c", ": "), vec!["a", "b", "c"]);
}

#[test]
fn splits_keep_empty_pieces() {
    assert_eq!(pieces("", "/"), vec![""]);
    assert_eq!(pieces("/", "/"), vec!["", ""]);
    assert_eq!(pieces("//", "/"), vec!["", "", ""]);
    assert_eq!(pieces("a/", "/"), vec!["a", ""]);
    assert_eq!(pieces("/a", "/"), vec!["", "a"]);
}

#[test]
fn splits_do_not_overlap() {
    assert_eq!(pieces("aaa", "aa"), vec!["", "a"]);
    assert_eq!(pieces("a\r\n\r\n\r\nb", "\r\n\r\n"), vec!["a", "\r\nb"]);
}

#[test]
fn splits_as_the_standard_library_does() {
    for text in ["", "a", "a b", " a  b ", "x  ", "GET http://a/b HTTP/1.1", "a b c d e"] {
        let expected: Vec<String> = text.split(' ').map(|piece| piece.to_string()).collect();
        assert_eq!(pieces(text, " "), expected);
    }
    for text in ["", "\r\n", "a\r\nb", "a\r\n\r\nb\r\n", "\r\r\n\n", "a\rb\n"] {
        let expected: Vec<String> = text.split("\r\n").map(|piece| piece.to_string()).collect();
        assert_eq!(pieces(text, "\r\n"), expected);
    }
}

#[test]
fn an_empty_pattern_separates_nothing() {
    let text = b"abc";
    assert_eq!(split_ranges(text, b"", 0, 3), vec![(0, 3)]);
    assert_eq!(split_ranges(text, b"", 1, 2), vec![(1, 2)]);
}

#[test]
fn split_bounds_point_into_the_whole_text() {
    let text = b"xx a b xx";
    assert_eq!(split_ranges(text, b" ", 3, 6), vec![(3, 4), (5, 6)]);
    assert_eq!(split_ranges(text, b" ", 2, 7), vec![(2, 2), (3, 4), (5, 6), (7, 7)]);
}

#[test]
fn chars_are_taken_one_by_one() {
    assert_eq!(chars_of("a\u{e9}\u{1f600}b"), vec!['a', '\u{e9}', '\u{1f600}', 'b']);
    assert_eq!(chars_of(""), Vec::<char>::new());
    let chars = chars_of("a/\u{e9}/b");
    assert_eq!(split_ranges(&chars, &['/'], 0, chars.len()), vec![(0, 1), (2, 3), (4, 5)]);
}

#[test]
fn copies_a_window() {
    assert_eq!(copy_range(b"hello", 1, 4), b"ell".to_vec());
    assert_eq!(copy_range(b"hello", 5, 5), Vec::<u8>::new());
    assert_eq!(copy_range(&['a', 'b'], 0, 2), vec!['a', 'b']);
}
