//! The record that is kept of each request.
use crate::text::chars_of;
use crate::text::first_piece_end;
use crate::text::split;
use crate::request::substring;
use vstd::prelude::*;
use vstd::string::StringExecFns;

verus! {

/// The header from which on a request is not logged.
pub const LOG_CUT: &'static str = "Accept-Encoding:";

/// The part of a request that is logged: everything before the first
/// `Accept-Encoding:`, or the whole request where it has none.
pub open spec fn logged_text(request: Seq<char>) -> Seq<char> {
    split(request, LOG_CUT@)[0]
}

/// A log record: the time stamp on a line of its own, then the logged part
/// of the request, then a line feed.
pub open spec fn log_record_spec(stamp: Seq<char>, request: Seq<char>) -> Seq<char> {
    stamp + "\n"@ + logged_text(request) + "\n"@
}

/// The log record for `request` under the time stamp `stamp`.
pub fn format_log_record(stamp: &str, request: &str) -> (record: String)
    ensures
        record@ == log_record_spec(stamp@, request@),
{
    let chars = chars_of(request);
    let cut = chars_of(LOG_CUT);
    assert(chars@.subrange(0, chars@.len() as int) =~= request@);
    let end = first_piece_end(chars.as_slice(), cut.as_slice(), 0, chars.len());
    let kept = substring(request, 0, end);
    let mut record = stamp.to_owned();
    record.append("\n");
    record.append(kept.as_str());
    record.append("\n");
    record
}

/// Reads the local time through `chrono::Local::now` and writes it out with
/// `format("%Y-%m-%d %H:%M:%S")`. The text depends on the clock and on the
/// machine's time zone, so nothing is claimed of it.
#[verifier::external_body]
fn local_timestamp() -> (stamp: String) {
    chrono::Local::now().format("%Y-%m-%d %H:%M:%S").to_string()
}

/// The log record for `request`, stamped with the local time of the call.
pub fn log_record(request: &str) -> (record: String)
    ensures
        exists|stamp: Seq<char>| record@ == #[trigger] log_record_spec(stamp, request@),
{
    let stamp = local_timestamp();
    let record = format_log_record(stamp.as_str(), request);
    assert(record@ == log_record_spec(stamp@, request@));
    record
}

} // verus!
