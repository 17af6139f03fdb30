use tinyhttp::route::FsNode;
use tinyhttp::script::{
    build_script_env, decide_script, lookup_header, parse_query_string, ScriptGate,
};
use tinyhttp::serve::{plan_request, RequestPlan};

#[test]
fn query_string_splits_into_pairs() {
    let pairs = parse_query_string(b"a=1&b=2");
    assert_eq!(pairs.len(), 2);
    assert_eq!(pairs[0], (b"a".to_vec(), b"1".to_vec()));
    assert_eq!(pairs[1], (b"b".to_vec(), b"2".to_vec()));
}

#[test]
fn query_key_without_value() {
    let pairs = parse_query_string(b"flag");
    assert_eq!(pairs, vec![(b"flag".to_vec(), Vec::new())]);
}

#[test]
fn query_empty_pieces_vanish() {
    assert_eq!(parse_query_string(b""), Vec::new());
    let pairs = parse_query_string(b"a=1&&b=2&");
    assert_eq!(pairs.len(), 2);
}

#[test]
fn query_value_may_contain_equals() {
    let pairs = parse_query_string(b"k=a=b");
    assert_eq!(pairs, vec![(b"k".to_vec(), b"a=b".to_vec())]);
}

#[test]
fn header_lookup_last_wins() {
    let headers = vec![
        (b"X".to_vec(), b"1".to_vec()),
        (b"Y".to_vec(), b"2".to_vec()),
        (b"X".to_vec(), b"3".to_vec()),
    ];
    assert_eq!(lookup_header(&headers, b"X"), Some(b"3".to_vec()));
    assert_eq!(lookup_header(&headers, b"Y"), Some(b"2".to_vec()));
    assert_eq!(lookup_header(&headers, b"Z"), None);
}

#[test]
fn env_for_get_request() {
    let headers = vec![(b"Host".to_vec(), b"localhost".to_vec())];
    let env = build_script_env(&headers, b"GET", b"/scripts/run", b"x=1&y=2", 0, false);
    assert_eq!(
        env,
        vec![
            (b"Host".to_vec(), b"localhost".to_vec()),
            (b"Query_x".to_vec(), b"1".to_vec()),
            (b"Query_y".to_vec(), b"2".to_vec()),
            (b"METHOD".to_vec(), b"GET".to_vec()),
            (b"PATH".to_vec(), b"/scripts/run".to_vec()),
        ]
    );
}

#[test]
fn env_for_post_adds_content_entries() {
    let headers = vec![
        (b"Host".to_vec(), b"a".to_vec()),
        (b"Content-Type".to_vec(), b"text/plain".to_vec()),
    ];
    let env = build_script_env(&headers, b"POST", b"/scripts/run", b"", 5, true);
    assert_eq!(env.len(), 6);
    assert_eq!(env[2], (b"METHOD".to_vec(), b"POST".to_vec()));
    assert_eq!(env[3], (b"PATH".to_vec(), b"/scripts/run".to_vec()));
    assert_eq!(env[4], (b"CONTENT_LENGTH".to_vec(), b"5".to_vec()));
    assert_eq!(env[5], (b"CONTENT_TYPE".to_vec(), b"text/plain".to_vec()));
}

#[test]
fn env_post_without_content_type_header() {
    let env = build_script_env(&Vec::new(), b"POST", b"/scripts/r", b"", 0, true);
    assert_eq!(env[2], (b"CONTENT_LENGTH".to_vec(), b"0".to_vec()));
    assert_eq!(env[3], (b"CONTENT_TYPE".to_vec(), Vec::new()));
}

#[test]
fn script_gate_checks_in_order() {
    let outside = Some(b"/etc/cron.sh".to_vec());
    let inside = Some(b"/srv/root/scripts/run.sh".to_vec());
    assert_eq!(decide_script(b"/srv/root", &None, FsNode::Missing, false), ScriptGate::NotFound);
    assert_eq!(decide_script(b"/srv/root", &outside, FsNode::File, true), ScriptGate::Forbidden);
    assert_eq!(decide_script(b"/srv/root", &inside, FsNode::Dir, true), ScriptGate::NotFound);
    assert_eq!(decide_script(b"/srv/root", &inside, FsNode::Missing, true), ScriptGate::NotFound);
    assert_eq!(decide_script(b"/srv/root", &inside, FsNode::File, true), ScriptGate::Run);
}

#[test]
fn script_without_exec_bit_is_forbidden() {
    // An existing, contained, regular script file with no execute bit set
    // must be refused with Forbidden, for GET and POST alike.
    let inside = Some(b"/srv/root/scripts/run.sh".to_vec());
    assert_eq!(decide_script(b"/srv/root", &inside, FsNode::File, false), ScriptGate::Forbidden);
}

#[test]
fn plan_static_get() {
    let input = b"GET /index.html HTTP/1.1\r\nHost: x\r\n\r\n";
    match plan_request(input, b"/srv/root", None) {
        RequestPlan::FetchStatic { fs_path } => {
            assert_eq!(fs_path, b"/srv/root/index.html".to_vec());
        }
        _ => panic!("expected a static fetch"),
    }
}

#[test]
fn plan_script_post() {
    let input = b"POST /scripts/hello.sh?name=world HTTP/1.1\r\nHost: x\r\n\r\nbody!";
    match plan_request(input, b"/srv/root", None) {
        RequestPlan::RunScript { fs_path, env } => {
            assert_eq!(fs_path, b"/srv/root/scripts/hello.sh".to_vec());
            assert_eq!(
                env,
                vec![
                    (b"Host".to_vec(), b"x".to_vec()),
                    (b"Query_name".to_vec(), b"world".to_vec()),
                    (b"METHOD".to_vec(), b"POST".to_vec()),
                    (b"PATH".to_vec(), b"/scripts/hello.sh".to_vec()),
                    (b"CONTENT_LENGTH".to_vec(), b"5".to_vec()),
                    (b"CONTENT_TYPE".to_vec(), Vec::new()),
                ]
            );
        }
        _ => panic!("expected a script run"),
    }
}

#[test]
fn plan_malformed_line_replies_400() {
    match plan_request(b"GET /\r\n\r\n", b"/srv/root", None) {
        RequestPlan::Reply(r) => assert_eq!(r.status, 400),
        _ => panic!("expected an immediate reply"),
    }
}

#[test]
fn plan_other_method_replies_501() {
    match plan_request(b"DELETE /x HTTP/1.1\r\n\r\n", b"/srv/root", None) {
        RequestPlan::Reply(r) => assert_eq!(r.status, 501),
        _ => panic!("expected an immediate reply"),
    }
}

#[test]
fn plan_refused_auth_replies_401_challenge() {
    let input = b"GET /index.html HTTP/1.1\r\n\r\n";
    match plan_request(input, b"/srv/root", Some(false)) {
        RequestPlan::Reply(r) => {
            assert_eq!(r.status, 401);
            assert!(r.challenge);
        }
        _ => panic!("expected an immediate reply"),
    }
}

#[test]
fn plan_accepted_auth_proceeds() {
    let input = b"GET /index.html HTTP/1.1\r\n\r\n";
    match plan_request(input, b"/srv/root", Some(true)) {
        RequestPlan::FetchStatic { fs_path } => {
            assert_eq!(fs_path, b"/srv/root/index.html".to_vec());
        }
        _ => panic!("expected a static fetch"),
    }
}
