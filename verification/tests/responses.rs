use tinyhttp::listing::render_listing;
use tinyhttp::response::{
    bad_request, forbidden, internal_error, not_found, not_implemented, ok_file, ok_html,
    render_response, unauthorized,
};
use tinyhttp::script::script_response;

#[test]
fn rendered_file_response_exact_bytes() {
    let resp = ok_file(b"text/plain".to_vec(), b"hi".to_vec());
    let wire = render_response(&resp);
    assert_eq!(
        wire,
        b"HTTP/1.1 200 OK\r\nContent-Type: text/plain\r\nContent-Length: 2\r\nConnection: close\r\n\r\nhi"
            .to_vec()
    );
}

#[test]
fn rendered_body_is_byte_for_byte() {
    let body: Vec<u8> = vec![0u8, 255u8, 10u8, 13u8, 65u8];
    let resp = ok_file(b"application/octet-stream".to_vec(), body.clone());
    let wire = render_response(&resp);
    assert!(wire.ends_with(&body));
    let text = String::from_utf8_lossy(&wire[..wire.len() - body.len()]).to_string();
    assert!(text.contains("Content-Length: 5\r\n"));
    assert!(text.contains("Connection: close\r\n"));
}

#[test]
fn error_responses_have_fixed_statuses() {
    assert_eq!(bad_request().status, 400);
    assert_eq!(forbidden().status, 403);
    assert_eq!(not_found().status, 404);
    assert_eq!(internal_error().status, 500);
    assert_eq!(not_implemented().status, 501);
    assert_eq!(not_found().body, b"<html>404 Not Found</html>".to_vec());
    assert_eq!(forbidden().body, b"<html>403 Forbidden</html>".to_vec());
    assert_eq!(
        internal_error().body,
        b"<html>500 Internal Server Error</html>".to_vec()
    );
}

#[test]
fn rendered_not_found_exact_bytes() {
    let wire = render_response(&not_found());
    assert_eq!(
        wire,
        b"HTTP/1.1 404 Not Found\r\nContent-Type: text/html\r\nContent-Length: 26\r\nConnection: close\r\n\r\n<html>404 Not Found</html>"
            .to_vec()
    );
}

#[test]
fn listing_contains_each_child_and_parent_link() {
    let names = vec![b"a.txt".to_vec(), b"sub".to_vec()];
    let html = render_listing(&names);
    assert_eq!(
        html,
        b"<html><h1>Directory Listing</h1><ul><li><a href=\"..\">..</a></li><li><a href=\"a.txt\">a.txt</a></li><li><a href=\"sub\">sub</a></li></ul></html>"
            .to_vec()
    );
}

#[test]
fn listing_of_empty_directory_has_only_parent_link() {
    let html = render_listing(&Vec::new());
    assert_eq!(
        html,
        b"<html><h1>Directory Listing</h1><ul><li><a href=\"..\">..</a></li></ul></html>".to_vec()
    );
}

#[test]
fn listing_response_is_html() {
    let resp = ok_html(render_listing(&vec![b"x".to_vec()]));
    assert_eq!(resp.status, 200);
    assert_eq!(resp.content_type, b"text/html".to_vec());
}

#[test]
fn script_success_returns_stdout() {
    // The library's half of the script protocol: a child that exited with
    // status 0 after writing "hello" earns 200 with body "hello".
    let resp = script_response(true, b"hello".to_vec(), Vec::new());
    assert_eq!(resp.status, 200);
    assert_eq!(resp.body, b"hello".to_vec());
}

#[test]
fn script_failure_returns_stderr() {
    let resp = script_response(false, b"ignored".to_vec(), b"boom".to_vec());
    assert_eq!(resp.status, 500);
    assert_eq!(resp.body, b"boom".to_vec());
}

#[test]
fn content_length_counts_larger_bodies() {
    let resp = ok_file(b"text/plain".to_vec(), vec![120u8; 1234]);
    let wire = render_response(&resp);
    let text = String::from_utf8_lossy(&wire).to_string();
    assert!(text.contains("Content-Length: 1234\r\n"));
}

#[test]
fn unauthorized_carries_basic_challenge() {
    let resp = unauthorized();
    assert_eq!(resp.status, 401);
    let wire = render_response(&resp);
    assert_eq!(
        wire,
        b"HTTP/1.1 401 Unauthorized\r\nContent-Type: text/html\r\nContent-Length: 29\r\nWWW-Authenticate: Basic\r\nConnection: close\r\n\r\n<html>401 Unauthorized</html>"
            .to_vec()
    );
}
