//! Talking to the origin server: where to connect, what to send, and how
//! the reply is read apart.
use crate::error::ParseError;
use crate::text::copy_range;
use crate::text::find_in;
use crate::text::first_match;
use crate::text::same_symbols;
use crate::text::split;
use crate::text::split_ranges;
use vstd::prelude::*;
use vstd::string::StringExecFns;
use vstd::string::StringSliceAdditionalSpecFns;

verus! {

/// The address at which the origin `host` is reached: the host and the HTTP
/// port.
pub open spec fn origin_address_spec(host: Seq<char>) -> Seq<char> {
    host + ":80"@
}

/// The request that is sent to the origin: the client's method and target
/// under `HTTP/1.1`, and three headers of the proxy's own. Nothing else of
/// the client's request is passed on.
pub open spec fn origin_request_spec(
    method: Seq<char>,
    target: Seq<char>,
    host: Seq<char>,
) -> Seq<char> {
    method + " "@ + target + " HTTP/1.1\r\nHost: "@ + host
        + "\r\nConnection: keep-alive\r\nAccept-Encoding: gzip, deflate\r\n\r\n"@
}

/// The address at which the origin `host` is reached.
pub fn origin_address(host: &str) -> (address: String)
    ensures
        address@ == origin_address_spec(host@),
{
    let mut address = host.to_owned();
    address.append(":80");
    address
}

/// The request that is sent to the origin `host` for `target`.
pub fn origin_request(method: &str, target: &str, host: &str) -> (request: String)
    ensures
        request@ == origin_request_spec(method@, target@, host@),
{
    let mut request = method.to_owned();
    request.append(" ");
    request.append(target);
    request.append(" HTTP/1.1\r\nHost: ");
    request.append(host);
    request.append("\r\nConnection: keep-alive\r\nAccept-Encoding: gzip, deflate\r\n\r\n");
    request
}

/// One header of the origin's reply.
#[derive(Debug, Clone, PartialEq, Eq)]
pub struct Header {
    pub name: Vec<u8>,
    pub value: Vec<u8>,
}

/// A header as a pair of byte sequences.
pub struct HeaderView {
    pub name: Seq<u8>,
    pub value: Seq<u8>,
}

impl View for Header {
    type V = HeaderView;

    open spec fn view(&self) -> HeaderView {
        HeaderView { name: self.name@, value: self.value@ }
    }
}

/// The origin's reply, read apart.
#[derive(Debug, Clone, PartialEq, Eq)]
pub struct OriginResponse {
    pub status_line: Vec<u8>,
    pub headers: Vec<Header>,
    pub body: Vec<u8>,
}

/// A reply as byte sequences.
pub struct OriginResponseView {
    pub status_line: Seq<u8>,
    pub headers: Seq<HeaderView>,
    pub body: Seq<u8>,
}

impl View for OriginResponse {
    type V = OriginResponseView;

    open spec fn view(&self) -> OriginResponseView {
        OriginResponseView {
            status_line: self.status_line@,
            headers: self.headers@.map_values(|h: Header| h@),
            body: self.body@,
        }
    }
}

/// The header that a line of the head holds: the text before the first
/// `": "` is its name, the text from there to the next `": "` or to the end
/// of the line is its value. A line without `": "` holds none.
pub open spec fn header_of(line: Seq<u8>) -> Option<HeaderView> {
    let parts = split(line, ": ".spec_bytes());
    if parts.len() < 2 {
        None
    } else {
        Some(HeaderView { name: parts[0], value: parts[1] })
    }
}

/// The headers that `lines` hold, in the order of the lines.
pub open spec fn headers_of(lines: Seq<Seq<u8>>) -> Seq<HeaderView>
    decreases lines.len(),
{
    if lines.len() == 0 {
        Seq::empty()
    } else {
        let before = headers_of(lines.drop_last());
        match header_of(lines.last()) {
            Some(h) => before.push(h),
            None => before,
        }
    }
}

/// What a reply parses to. The head ends at the first blank line; its first
/// line is the status line and the lines after it are read as headers. The
/// body is everything after the blank line. A reply without a blank line is
/// refused.
pub open spec fn parse_response_spec(raw: Seq<u8>) -> Result<OriginResponseView, ParseError> {
    let boundary = "\r\n\r\n".spec_bytes();
    match first_match(raw, boundary) {
        None => Err(ParseError::MissingBoundary),
        Some(end) => {
            let lines = split(raw.take(end), "\r\n".spec_bytes());
            Ok(
                OriginResponseView {
                    status_line: lines[0],
                    headers: headers_of(lines.skip(1)),
                    body: raw.skip(end + boundary.len()),
                },
            )
        },
    }
}

/// The status code of a status line: its second token, where tokens are
/// separated by single spaces.
pub open spec fn status_code_of(status_line: Seq<u8>) -> Result<Seq<u8>, ParseError> {
    let tokens = split(status_line, " ".spec_bytes());
    if tokens.len() < 2 {
        Err(ParseError::MissingStatusCode)
    } else {
        Ok(tokens[1])
    }
}

/// The value that `headers` give for `name`: that of the last header of
/// that name.
pub open spec fn header_value_of(headers: Seq<HeaderView>, name: Seq<u8>) -> Option<Seq<u8>>
    decreases headers.len(),
{
    if headers.len() == 0 {
        None
    } else if headers.last().name == name {
        Some(headers.last().value)
    } else {
        header_value_of(headers.drop_last(), name)
    }
}

/// Among headers of one name the last one counts: `header_value_of` gives
/// the value at index `k` exactly when the header at `k` has the name and
/// no later header has it.
pub proof fn lemma_last_header_wins(headers: Seq<HeaderView>, name: Seq<u8>, k: int)
    requires
        0 <= k < headers.len(),
        headers[k].name == name,
        forall|j: int| k < j < headers.len() ==> headers[j].name != name,
    ensures
        header_value_of(headers, name) == Some(headers[k].value),
    decreases headers.len(),
{
    if k < headers.len() - 1 {
        lemma_last_header_wins(headers.drop_last(), name, k);
    }
}

/// Where no header has the name, there is no value for it.
pub proof fn lemma_absent_header_has_no_value(headers: Seq<HeaderView>, name: Seq<u8>)
    requires
        forall|j: int| 0 <= j < headers.len() ==> headers[j].name != name,
    ensures
        header_value_of(headers, name) is None,
    decreases headers.len(),
{
    if headers.len() > 0 {
        lemma_absent_header_has_no_value(headers.drop_last(), name);
    }
}

/// Reads the origin's reply apart.
pub fn parse_response(raw: &[u8]) -> (r: Result<OriginResponse, ParseError>)
    ensures
        match parse_response_spec(raw@) {
            Ok(parsed) => r matches Ok(response) && response@ == parsed,
            Err(e) => r == Err::<OriginResponse, ParseError>(e),
        },
{
    let boundary = "\r\n\r\n".as_bytes();
    let line_break = "\r\n".as_bytes();
    let colon = ": ".as_bytes();
    assert(raw@.subrange(0, raw@.len() as int) =~= raw@);
    let end = match find_in(raw, boundary, 0, raw.len()) {
        Some(end) => end,
        None => {
            return Err(ParseError::MissingBoundary);
        },
    };
    assert(raw@.take(end as int) =~= raw@.subrange(0, end as int));
    let ghost all = split(raw@.take(end as int), line_break@);
    let lines = split_ranges(raw, line_break, 0, end);
    let status_line = copy_range(raw, lines[0].0, lines[0].1);
    let mut headers: Vec<Header> = Vec::new();
    let mut k: usize = 1;
    assert(all.subrange(1, 1) =~= Seq::<Seq<u8>>::empty());
    while k < lines.len()
        invariant
            1 <= k <= lines@.len(),
            lines@.len() == all.len(),
            end <= raw@.len(),
            colon@ == ": ".spec_bytes(),
            forall|j: int|
                0 <= j < lines@.len() ==> {
                    &&& (#[trigger] lines@[j]).0 <= lines@[j].1 <= end
                    &&& raw@.subrange(lines@[j].0 as int, lines@[j].1 as int) == all[j]
                },
            headers@.map_values(|h: Header| h@) == headers_of(all.subrange(1, k as int)),
        decreases lines@.len() - k,
    {
        let line = lines[k];
        let parts = split_ranges(raw, colon, line.0, line.1);
        proof {
            assert(all.subrange(1, k + 1).drop_last() =~= all.subrange(1, k as int));
            assert(all.subrange(1, k + 1).last() == all[k as int]);
        }
        let ghost before = headers@.map_values(|h: Header| h@);
        if parts.len() >= 2 {
            let header = Header {
                name: copy_range(raw, parts[0].0, parts[0].1),
                value: copy_range(raw, parts[1].0, parts[1].1),
            };
            headers.push(header);
            assert(headers@.map_values(|h: Header| h@) =~= before.push(header@));
        }
        k += 1;
    }
    assert(all.subrange(1, all.len() as int) =~= all.skip(1));
    let body = copy_range(raw, end + boundary.len(), raw.len());
    assert(raw@.skip(end + boundary@.len()) =~= raw@.subrange(
        end + boundary@.len(),
        raw@.len() as int,
    ));
    Ok(OriginResponse { status_line, headers, body })
}

impl OriginResponse {
    /// The status code that the status line gives.
    pub fn status_code(&self) -> (r: Result<Vec<u8>, ParseError>)
        ensures
            match status_code_of(self@.status_line) {
                Ok(code) => r matches Ok(got) && got@ == code,
                Err(e) => r == Err::<Vec<u8>, ParseError>(e),
            },
    {
        let line = self.status_line.as_slice();
        assert(line@.subrange(0, line@.len() as int) =~= line@);
        let tokens = split_ranges(line, " ".as_bytes(), 0, line.len());
        if tokens.len() < 2 {
            return Err(ParseError::MissingStatusCode);
        }
        Ok(copy_range(line, tokens[1].0, tokens[1].1))
    }

    /// The value of the header `name`, if the reply has one.
    pub fn header_value(&self, name: &[u8]) -> (r: Option<Vec<u8>>)
        ensures
            match header_value_of(self@.headers, name@) {
                Some(value) => r matches Some(got) && got@ == value,
                None => r is None,
            },
    {
        let ghost all = self@.headers;
        let mut k: usize = self.headers.len();
        assert(all.take(k as int) =~= all);
        while k > 0
            invariant
                k <= self.headers@.len(),
                all == self.headers@.map_values(|h: Header| h@),
                header_value_of(all, name@) == header_value_of(all.take(k as int), name@),
            decreases k,
        {
            let header = &self.headers[k - 1];
            proof {
                assert(all.take(k as int).last() == header@);
                assert(all.take(k as int).drop_last() =~= all.take(k - 1));
            }
            if same_symbols(header.name.as_slice(), name) {
                return Some(header.value.clone());
            }
            k -= 1;
        }
        assert(all.take(0) =~= Seq::<HeaderView>::empty());
        None
    }
}

} // verus!
