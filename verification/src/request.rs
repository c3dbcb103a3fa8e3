//! Reading a client's request: the request line, the protocol version, and
//! the cache key and origin host that the target names.
use crate::error::ParseError;
use crate::text::chars_of;
use crate::text::contains_pattern;
use crate::text::lemma_split_piece_is_window;
use crate::text::lemma_split_pieces_hold_no_separator;
use crate::text::lemma_window_holds_no_more;
use crate::text::first_piece_end;
use crate::text::same_symbols;
use crate::text::split;
use crate::text::split_ranges;
use vstd::prelude::*;
use vstd::string::StrSliceExecFns;

verus! {

/// The one protocol version that the proxy serves.
pub const HTTP_VERSION: &'static str = "HTTP/1.1";

/// The request line: the text before the first line break.
pub open spec fn request_line(raw: Seq<char>) -> Seq<char> {
    split(raw, "\r\n"@)[0]
}

/// What a request parses to: the first three tokens of the request line,
/// where tokens are separated by single spaces.
pub open spec fn parse_request_spec(raw: Seq<char>) -> Result<
    (Seq<char>, Seq<char>, Seq<char>),
    ParseError,
> {
    let tokens = split(request_line(raw), " "@);
    if tokens.len() < 3 {
        Err(ParseError::ShortRequestLine)
    } else {
        Ok((tokens[0], tokens[1], tokens[2]))
    }
}

/// The cache key of a target: its last segment, where segments are separated
/// by `/`.
pub open spec fn file_name_of(url: Seq<char>) -> Seq<char> {
    split(url, "/"@).last()
}

/// The origin host of a target: its third segment, or nothing where the
/// target has fewer than three.
pub open spec fn server_name_of(url: Seq<char>) -> Seq<char> {
    let parts = split(url, "/"@);
    if parts.len() < 3 {
        Seq::empty()
    } else {
        parts[2]
    }
}

/// Every text parses, to three tokens or to `ShortRequestLine`, and a token
/// holds neither a space nor a line break.
pub proof fn lemma_parse_is_total_and_well_formed(raw: Seq<char>)
    ensures
        match parse_request_spec(raw) {
            Ok(parsed) => {
                &&& !contains_pattern(parsed.0, " "@) && !contains_pattern(parsed.0, "\r\n"@)
                &&& !contains_pattern(parsed.1, " "@) && !contains_pattern(parsed.1, "\r\n"@)
                &&& !contains_pattern(parsed.2, " "@) && !contains_pattern(parsed.2, "\r\n"@)
            },
            Err(e) => e == ParseError::ShortRequestLine,
        },
{
    reveal_strlit(" ");
    reveal_strlit("\r\n");
    let line = request_line(raw);
    let tokens = split(line, " "@);
    lemma_split_pieces_hold_no_separator(raw, "\r\n"@, 0);
    if tokens.len() >= 3 {
        assert forall|k: int| 0 <= k < 3 implies !contains_pattern(tokens[k], " "@)
            && !contains_pattern(tokens[k], "\r\n"@) by {
            lemma_split_pieces_hold_no_separator(line, " "@, k);
            let bounds = lemma_split_piece_is_window(line, " "@, k);
            lemma_window_holds_no_more(line, "\r\n"@, bounds.0, bounds.1);
        }
        assert(!contains_pattern(tokens[0], " "@));
        assert(!contains_pattern(tokens[1], " "@));
        assert(!contains_pattern(tokens[2], " "@));
    }
}

/// A cache key holds no slash, whatever the target.
pub proof fn lemma_file_name_holds_no_slash(url: Seq<char>)
    ensures
        !contains_pattern(file_name_of(url), "/"@),
{
    reveal_strlit("/");
    let parts = split(url, "/"@);
    lemma_split_pieces_hold_no_separator(url, "/"@, parts.len() - 1);
}

/// The characters `lo..hi` of `s` as a string of their own.
pub fn substring(s: &str, lo: usize, hi: usize) -> (r: String)
    requires
        lo <= hi <= s@.len(),
    ensures
        r@ == s@.subrange(lo as int, hi as int),
{
    s.substring_char(lo, hi).to_owned()
}

/// Reads method, target and version off the request line.
pub fn parse_request(request: &str) -> (r: Result<(String, String, String), ParseError>)
    ensures
        match parse_request_spec(request@) {
            Ok(tokens) => r matches Ok(parsed) && parsed.0@ == tokens.0 && parsed.1@ == tokens.1
                && parsed.2@ == tokens.2,
            Err(e) => r == Err::<(String, String, String), ParseError>(e),
        },
{
    let chars = chars_of(request);
    let line_break = chars_of("\r\n");
    let space = chars_of(" ");
    assert(chars@.subrange(0, chars@.len() as int) =~= request@);
    let end = first_piece_end(chars.as_slice(), line_break.as_slice(), 0, chars.len());
    let tokens = split_ranges(chars.as_slice(), space.as_slice(), 0, end);
    if tokens.len() < 3 {
        return Err(ParseError::ShortRequestLine);
    }
    let method = substring(request, tokens[0].0, tokens[0].1);
    let url = substring(request, tokens[1].0, tokens[1].1);
    let version = substring(request, tokens[2].0, tokens[2].1);
    Ok((method, url, version))
}

/// Whether `version` is the protocol version that the proxy serves.
pub fn check_version(version: &str) -> (ok: bool)
    ensures
        ok == (version@ == HTTP_VERSION@),
{
    let given = chars_of(version);
    let served = chars_of(HTTP_VERSION);
    same_symbols(given.as_slice(), served.as_slice())
}

/// The cache key that a target names.
pub fn get_file_name(url: &str) -> (name: String)
    ensures
        name@ == file_name_of(url@),
{
    let chars = chars_of(url);
    let slash = chars_of("/");
    assert(chars@.subrange(0, chars@.len() as int) =~= url@);
    let parts = split_ranges(chars.as_slice(), slash.as_slice(), 0, chars.len());
    let last = parts[parts.len() - 1];
    substring(url, last.0, last.1)
}

/// The origin host that a target names.
pub fn get_server_name(url: &str) -> (name: String)
    ensures
        name@ == server_name_of(url@),
{
    let chars = chars_of(url);
    let slash = chars_of("/");
    assert(chars@.subrange(0, chars@.len() as int) =~= url@);
    let parts = split_ranges(chars.as_slice(), slash.as_slice(), 0, chars.len());
    if parts.len() < 3 {
        return String::new();
    }
    substring(url, parts[2].0, parts[2].1)
}

} // verus!
