//! What the client is sent for a resource that was found or fetched.
use vstd::prelude::*;
use vstd::string::StringExecFns;

verus! {

/// The head of a successful answer: the client's own protocol version, the
/// status `200 OK`, and a blank line. No header of the origin is passed on.
pub open spec fn response_head_spec(version: Seq<char>) -> Seq<char> {
    version + " 200 OK\r\n\r\n"@
}

/// The head of a successful answer to a client that speaks `version`.
pub fn response_head(version: &str) -> (head: String)
    ensures
        head@ == response_head_spec(version@),
{
    let mut head = version.to_owned();
    head.append(" 200 OK\r\n\r\n");
    head
}

} // verus!
