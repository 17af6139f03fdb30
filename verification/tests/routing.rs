use tinyhttp::mime::get_content_type;
use tinyhttp::route::{
    classify_method, decide_static, join_under_root, path_is_contained, route_request_line,
    FsNode, HttpMethod, RouteClass, StaticChoice,
};

#[test]
fn methods_classify() {
    assert_eq!(classify_method(b"GET"), HttpMethod::Get);
    assert_eq!(classify_method(b"POST"), HttpMethod::Post);
    assert_eq!(classify_method(b"DELETE"), HttpMethod::Other);
    assert_eq!(classify_method(b"get"), HttpMethod::Other);
    assert_eq!(classify_method(b""), HttpMethod::Other);
}

#[test]
fn route_bad_request_line() {
    assert_eq!(route_request_line(b"GET /"), RouteClass::BadRequest);
    assert_eq!(route_request_line(b""), RouteClass::BadRequest);
    assert_eq!(route_request_line(b"GET / HTTP/1.1 junk"), RouteClass::BadRequest);
}

#[test]
fn route_unimplemented_method() {
    assert_eq!(route_request_line(b"DELETE / HTTP/1.1"), RouteClass::NotImplemented);
    assert_eq!(route_request_line(b"PUT /x HTTP/1.1"), RouteClass::NotImplemented);
}

#[test]
fn route_script_prefix() {
    assert_eq!(route_request_line(b"GET /scripts/hello.sh HTTP/1.1"), RouteClass::Script);
    assert_eq!(route_request_line(b"POST /scripts/run?x=1 HTTP/1.1"), RouteClass::Script);
    assert_eq!(route_request_line(b"GET /scriptsx HTTP/1.1"), RouteClass::Resource);
}

#[test]
fn route_static_resource() {
    assert_eq!(route_request_line(b"GET /index.html HTTP/1.1"), RouteClass::Resource);
    assert_eq!(route_request_line(b"GET / HTTP/1.1"), RouteClass::Resource);
}

#[test]
fn containment_accepts_descendants_only() {
    assert!(path_is_contained(b"/srv/root", b"/srv/root"));
    assert!(path_is_contained(b"/srv/root", b"/srv/root/a"));
    assert!(path_is_contained(b"/srv/root", b"/srv/root/a/b.txt"));
    assert!(!path_is_contained(b"/srv/root", b"/srv/rootx"));
    assert!(!path_is_contained(b"/srv/root", b"/srv"));
    assert!(!path_is_contained(b"/srv/root", b"/etc/passwd"));
}

#[test]
fn containment_filesystem_root() {
    assert!(path_is_contained(b"/", b"/etc"));
    assert!(path_is_contained(b"/", b"/"));
}

#[test]
fn traversal_outside_root_is_forbidden() {
    // A target such as /../../etc/passwd canonicalizes outside the root:
    // the decision is Forbidden whatever the node kind, so file contents
    // are never served.
    let canon = Some(b"/etc/passwd".to_vec());
    assert_eq!(decide_static(b"/srv/root", &canon, FsNode::File), StaticChoice::Forbidden);
    assert_eq!(decide_static(b"/srv/root", &canon, FsNode::Dir), StaticChoice::Forbidden);
    assert_eq!(decide_static(b"/srv/root", &canon, FsNode::Missing), StaticChoice::Forbidden);
}

#[test]
fn unresolvable_target_is_not_found() {
    assert_eq!(decide_static(b"/srv/root", &None, FsNode::Missing), StaticChoice::NotFound);
}

#[test]
fn contained_targets_serve_or_list() {
    let canon = Some(b"/srv/root/sub".to_vec());
    assert_eq!(decide_static(b"/srv/root", &canon, FsNode::Dir), StaticChoice::ListDir);
    assert_eq!(decide_static(b"/srv/root", &canon, FsNode::File), StaticChoice::ServeFile);
    assert_eq!(decide_static(b"/srv/root", &canon, FsNode::OtherKind), StaticChoice::NotFound);
    assert_eq!(decide_static(b"/srv/root", &canon, FsNode::Missing), StaticChoice::NotFound);
}

#[test]
fn join_strips_leading_slashes() {
    assert_eq!(join_under_root(b"/root", b"/a/b"), b"/root/a/b".to_vec());
    assert_eq!(join_under_root(b"/root", b"///a"), b"/root/a".to_vec());
    assert_eq!(join_under_root(b"/root", b"a"), b"/root/a".to_vec());
    assert_eq!(join_under_root(b"/root", b"/"), b"/root".to_vec());
    assert_eq!(join_under_root(b"/root", b""), b"/root".to_vec());
    assert_eq!(join_under_root(b"/", b"/a"), b"/a".to_vec());
}

#[test]
fn mime_table_round_trip() {
    assert_eq!(get_content_type(b"/a/index.html"), b"text/html".to_vec());
    assert_eq!(get_content_type(b"style.css"), b"text/css".to_vec());
    assert_eq!(get_content_type(b"app.js"), b"text/javascript".to_vec());
    assert_eq!(get_content_type(b"notes.txt"), b"text/plain".to_vec());
    assert_eq!(get_content_type(b"data.json"), b"application/json".to_vec());
    assert_eq!(get_content_type(b"pic.png"), b"image/png".to_vec());
    assert_eq!(get_content_type(b"pic.jpg"), b"image/jpeg".to_vec());
    assert_eq!(get_content_type(b"pic.jpeg"), b"image/jpeg".to_vec());
    assert_eq!(get_content_type(b"anim.gif"), b"image/gif".to_vec());
    assert_eq!(get_content_type(b"bundle.zip"), b"application/zip".to_vec());
}

#[test]
fn mime_unknown_is_octet_stream() {
    assert_eq!(get_content_type(b"a.unknownext"), b"application/octet-stream".to_vec());
    assert_eq!(get_content_type(b"noextension"), b"application/octet-stream".to_vec());
    assert_eq!(get_content_type(b"/dir.d/noextension"), b"application/octet-stream".to_vec());
    assert_eq!(get_content_type(b"/a/.hidden"), b"application/octet-stream".to_vec());
    assert_eq!(get_content_type(b""), b"application/octet-stream".to_vec());
}

#[test]
fn mime_uses_last_extension() {
    assert_eq!(get_content_type(b"archive.tar.zip"), b"application/zip".to_vec());
}
