use caching_proxy::relay::response_head;

#[test]
fn a_successful_answer_opens_with_status_and_blank_line() {
    assert_eq!(response_head("HTTP/1.1"), "HTTP/1.1 200 OK\r\n\r\n");
}

#[test]
fn the_head_carries_the_version_that_it_is_given() {
    assert_eq!(response_head("HTTP/1.0"), "HTTP/1.0 200 OK\r\n\r\n");
    assert_eq!(response_head(""), " 200 OK\r\n\r\n");
}
