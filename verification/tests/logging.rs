use caching_proxy::logging::format_log_record;
use caching_proxy::logging::log_record;
use caching_proxy::logging::LOG_CUT;

#[test]
fn a_record_is_the_stamp_and_the_request_on_lines_of_their_own() {
    assert_eq!(
        format_log_record("2024-03-09 17:05:42", "GET http://a/b HTTP/1.1\r\n\r\n"),
        "2024-03-09 17:05:42\nGET http://a/b HTTP/1.1\r\n\r\n\n"
    );
    assert_eq!(format_log_record("", ""), "\n\n");
}

#[test]
fn a_record_stops_before_accept_encoding() {
    assert_eq!(LOG_CUT, "Accept-Encoding:");
    let request = "GET http://a/b HTTP/1.1\r\nHost: a\r\nAccept-Encoding: gzip\r\nCookie: x\r\n\r\n";
    assert_eq!(
        format_log_record("2024-03-09 17:05:42", request),
        "2024-03-09 17:05:42\nGET http://a/b HTTP/1.1\r\nHost: a\r\n\n"
    );
}

#[test]
fn a_record_stops_before_the_first_accept_encoding() {
    let request = "A\r\nAccept-Encoding: gzip\r\nB\r\nAccept-Encoding: br\r\n";
    assert_eq!(format_log_record("t", request), "t\nA\r\n\n");
    assert_eq!(format_log_record("t", "Accept-Encoding:"), "t\n\n");
}

#[test]
fn a_record_keeps_a_header_of_another_spelling() {
    let request = "A\r\naccept-encoding: gzip\r\n";
    assert_eq!(format_log_record("t", request), "t\nA\r\naccept-encoding: gzip\r\n\n");
}

#[test]
fn a_stamped_record_ends_with_the_logged_request() {
    let request = "GET http://a/b HTTP/1.1\r\nAccept-Encoding: gzip\r\n\r\n";
    let record = log_record(request);
    let expected_tail = "\nGET http://a/b HTTP/1.1\r\n\n";
    assert!(record.ends_with(expected_tail));
    let stamp = &record[..record.len() - expected_tail.len()];
    assert_eq!(format_log_record(stamp, request), record);
}

#[test]
fn a_stamp_reads_as_date_and_time() {
    let record = log_record("x");
    let stamp: Vec<char> = record.strip_suffix("\nx\n").unwrap().chars().collect();
    assert_eq!(stamp.len(), 19);
    for (index, c) in stamp.iter().enumerate() {
        match index {
            4 | 7 => assert_eq!(*c, '-'),
            10 => assert_eq!(*c, ' '),
            13 | 16 => assert_eq!(*c, ':'),
            _ => assert!(c.is_ascii_digit()),
        }
    }
}
