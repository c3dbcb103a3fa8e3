use caching_proxy::error::ParseError;
use caching_proxy::request::check_version;
use caching_proxy::request::get_file_name;
use caching_proxy::request::get_server_name;
use caching_proxy::request::parse_request;
use caching_proxy::request::substring;
use caching_proxy::request::HTTP_VERSION;

fn triple(method: &str, target: &str, version: &str) -> (String, String, String) {
    (method.to_string(), target.to_string(), version.to_string())
}

#[test]
fn parses_a_plain_request_line() {
    let raw = "GET http://example.com/foo.txt HTTP/1.1\r\nHost: example.com\r\n\r\n";
    assert_eq!(
        parse_request(raw),
        Ok(triple("GET", "http://example.com/foo.txt", "HTTP/1.1"))
    );
}

#[test]
fn parses_only_the_first_line() {
    let raw = "POST http://a/b HTTP/1.0\r\nGET http://c/d HTTP/1.1\r\n";
    assert_eq!(parse_request(raw), Ok(triple("POST", "http://a/b", "HTTP/1.0")));
}

#[test]
fn ignores_tokens_after_the_third() {
    let raw = "GET http://a/b HTTP/1.1 extra more\r\n";
    assert_eq!(parse_request(raw), Ok(triple("GET", "http://a/b", "HTTP/1.1")));
}

#[test]
fn takes_the_whole_text_as_the_line_without_a_line_break() {
    assert_eq!(
        parse_request("GET http://a/b HTTP/1.1"),
        Ok(triple("GET", "http://a/b", "HTTP/1.1"))
    );
}

#[test]
fn a_missing_line_break_leaves_what_follows_in_the_version() {
    assert_eq!(
        parse_request("GET http://a/b HTTP/1.1\nHost: a"),
        Ok(triple("GET", "http://a/b", "HTTP/1.1\nHost:"))
    );
}

#[test]
fn splits_on_single_spaces() {
    assert_eq!(parse_request("GET  http://a/b HTTP/1.1\r\n"), Ok(triple("GET", "", "http://a/b")));
    assert_eq!(parse_request("  \r\n"), Ok(triple("", "", "")));
}

#[test]
fn refuses_the_empty_request() {
    assert_eq!(parse_request(""), Err(ParseError::ShortRequestLine));
}

#[test]
fn refuses_a_line_of_fewer_than_three_tokens() {
    assert_eq!(parse_request("GET\r\n"), Err(ParseError::ShortRequestLine));
    assert_eq!(parse_request("GET http://a/b\r\n"), Err(ParseError::ShortRequestLine));
    assert_eq!(parse_request("GET http://a/b\r\nHTTP/1.1 x y"), Err(ParseError::ShortRequestLine));
    assert_eq!(parse_request("\r\nGET http://a/b HTTP/1.1"), Err(ParseError::ShortRequestLine));
}

#[test]
fn parses_text_beyond_ascii() {
    let raw = "GET http://h\u{e9}te/caf\u{e9}.txt HTTP/1.1\r\n";
    assert_eq!(
        parse_request(raw),
        Ok(triple("GET", "http://h\u{e9}te/caf\u{e9}.txt", "HTTP/1.1"))
    );
    assert_eq!(get_file_name("http://h\u{e9}te/caf\u{e9}.txt"), "caf\u{e9}.txt");
    assert_eq!(get_server_name("http://h\u{e9}te/caf\u{e9}.txt"), "h\u{e9}te");
}

#[test]
fn parsed_tokens_hold_no_space_and_no_line_break() {
    let raw = "A B C D\r\nE F G\r\n";
    let (method, target, version) = parse_request(raw).unwrap();
    for token in [method, target, version] {
        assert!(!token.contains(' '));
        assert!(!token.contains("\r\n"));
    }
}

#[test]
fn serves_one_version_only() {
    assert_eq!(HTTP_VERSION, "HTTP/1.1");
    assert!(check_version("HTTP/1.1"));
    assert!(!check_version("HTTP/1.0"));
    assert!(!check_version("HTTP/2"));
    assert!(!check_version("http/1.1"));
    assert!(!check_version("HTTP/1.1 "));
    assert!(!check_version("HTTP/1."));
    assert!(!check_version(""));
    assert!(!check_version("garbage"));
}

#[test]
fn file_name_is_the_last_segment() {
    assert_eq!(get_file_name("http://example.com/dir/foo.txt"), "foo.txt");
    assert_eq!(get_file_name("http://example.com/foo.txt"), "foo.txt");
    assert_eq!(get_file_name("/foo.txt"), "foo.txt");
    assert_eq!(get_file_name("foo.txt"), "foo.txt");
}

#[test]
fn file_name_is_empty_after_a_trailing_slash() {
    assert_eq!(get_file_name("http://example.com/dir/"), "");
    assert_eq!(get_file_name("http://example.com/"), "");
    assert_eq!(get_file_name("/"), "");
    assert_eq!(get_file_name(""), "");
}

#[test]
fn file_name_does_not_tell_hosts_apart() {
    assert_eq!(get_file_name("http://one.example/a/index.html"), "index.html");
    assert_eq!(get_file_name("http://two.example/b/c/index.html"), "index.html");
}

#[test]
fn server_name_is_the_third_segment() {
    assert_eq!(get_server_name("http://example.com/dir/foo.txt"), "example.com");
    assert_eq!(get_server_name("http://example.com"), "example.com");
    assert_eq!(get_server_name("http://example.com/"), "example.com");
    assert_eq!(get_server_name("a/b/c/d"), "c");
}

#[test]
fn server_name_is_empty_for_an_origin_form_target() {
    assert_eq!(get_server_name("/foo.txt"), "");
    assert_eq!(get_server_name("foo.txt"), "");
    assert_eq!(get_server_name(""), "");
    assert_eq!(get_server_name("http:/example.com"), "");
}

#[test]
fn server_name_is_empty_where_the_third_segment_is() {
    assert_eq!(get_server_name("http:///foo.txt"), "");
    assert_eq!(get_server_name("//"), "");
}

#[test]
fn substring_counts_characters() {
    assert_eq!(substring("caf\u{e9} au lait", 3, 6), "\u{e9} a");
    assert_eq!(substring("abc", 0, 3), "abc");
    assert_eq!(substring("abc", 1, 1), "");
    assert_eq!(substring("", 0, 0), "");
}
