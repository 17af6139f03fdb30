use tinyhttp::request::{
    is_well_formed_request_line, parse_request, process_request_line, split_target,
};

#[test]
fn parse_simple_get() {
    let input = b"GET /index.html HTTP/1.1\r\nHost: localhost\r\n\r\n";
    let req = parse_request(input);
    assert_eq!(req.request_line, b"GET /index.html HTTP/1.1".to_vec());
    assert_eq!(req.headers.len(), 1);
    assert_eq!(req.headers[0].0, b"Host".to_vec());
    assert_eq!(req.headers[0].1, b"localhost".to_vec());
    assert_eq!(req.body, Vec::<u8>::new());
}

#[test]
fn parse_post_with_body() {
    let input = b"POST /scripts/run HTTP/1.1\r\nHost: a\r\nContent-Type: text/plain\r\n\r\nhello";
    let req = parse_request(input);
    assert_eq!(req.request_line, b"POST /scripts/run HTTP/1.1".to_vec());
    assert_eq!(req.headers.len(), 2);
    assert_eq!(req.headers[1].0, b"Content-Type".to_vec());
    assert_eq!(req.headers[1].1, b"text/plain".to_vec());
    assert_eq!(req.body, b"hello".to_vec());
}

#[test]
fn parse_keeps_duplicate_headers_in_order() {
    let input = b"GET / HTTP/1.1\r\nX: 1\r\nX: 2\r\n\r\n";
    let req = parse_request(input);
    assert_eq!(req.headers.len(), 2);
    assert_eq!(req.headers[0].1, b"1".to_vec());
    assert_eq!(req.headers[1].1, b"2".to_vec());
}

#[test]
fn parse_skips_malformed_header_lines() {
    let input = b"GET / HTTP/1.1\r\nGood: yes\r\nnocolonhere\r\nAlso: fine\r\n\r\n";
    let req = parse_request(input);
    assert_eq!(req.headers.len(), 2);
    assert_eq!(req.headers[0].0, b"Good".to_vec());
    assert_eq!(req.headers[1].0, b"Also".to_vec());
}

#[test]
fn parse_without_blank_line_has_no_body() {
    let input = b"GET / HTTP/1.1";
    let req = parse_request(input);
    assert_eq!(req.request_line, b"GET / HTTP/1.1".to_vec());
    assert_eq!(req.headers.len(), 0);
    assert_eq!(req.body, Vec::<u8>::new());
}

#[test]
fn parse_empty_input() {
    let req = parse_request(b"");
    assert_eq!(req.request_line, Vec::<u8>::new());
    assert_eq!(req.headers.len(), 0);
    assert_eq!(req.body, Vec::<u8>::new());
}

#[test]
fn request_line_tokens() {
    let (m, t, v) = process_request_line(b"GET /x HTTP/1.1");
    assert_eq!(m, b"GET".to_vec());
    assert_eq!(t, b"/x".to_vec());
    assert_eq!(v, b"HTTP/1.1".to_vec());
}

#[test]
fn request_line_tokens_extra_whitespace() {
    let (m, t, v) = process_request_line(b"  GET   /x\tHTTP/1.1  ");
    assert_eq!(m, b"GET".to_vec());
    assert_eq!(t, b"/x".to_vec());
    assert_eq!(v, b"HTTP/1.1".to_vec());
}

#[test]
fn request_line_tokens_missing() {
    let (m, t, v) = process_request_line(b"GET");
    assert_eq!(m, b"GET".to_vec());
    assert_eq!(t, Vec::<u8>::new());
    assert_eq!(v, Vec::<u8>::new());
}

#[test]
fn well_formed_needs_exactly_three_tokens() {
    assert!(is_well_formed_request_line(b"GET / HTTP/1.1"));
    assert!(!is_well_formed_request_line(b"GET /"));
    assert!(!is_well_formed_request_line(b"GET / HTTP/1.1 extra"));
    assert!(!is_well_formed_request_line(b""));
    assert!(!is_well_formed_request_line(b"   "));
}

#[test]
fn target_splits_at_first_question_mark() {
    let (p, q) = split_target(b"/a/b?x=1&y=2");
    assert_eq!(p, b"/a/b".to_vec());
    assert_eq!(q, b"x=1&y=2".to_vec());
    let (p2, q2) = split_target(b"/plain");
    assert_eq!(p2, b"/plain".to_vec());
    assert_eq!(q2, Vec::<u8>::new());
    let (p3, q3) = split_target(b"/a?b?c");
    assert_eq!(p3, b"/a".to_vec());
    assert_eq!(q3, b"b?c".to_vec());
}
