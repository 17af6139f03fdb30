//! The per-connection decision core: one raw read in, one plan out.
//!
//! The surrounding process reads the connection, hands the bytes here,
//! and then only executes the plan: replying at once, fetching a static
//! resource (canonicalize, stat, read or list, then build the response
//! through [`crate::route::decide_static`]), or running a script
//! (canonicalize, stat, check the execute bit, spawn with the prepared
//! environment, then map the exit through
//! [`crate::script::script_response`]).

use vstd::prelude::*;

use crate::text::pairs_view;
use crate::request::{
    body_of, headers_of, method_of, parse_request, path_of_target, query_of_target,
    request_line_of, target_of,
};
use crate::route::{
    join_under_root, joined_path, method_class, route_class, route_request_line, RouteClass,
};
use crate::response::{
    bad_request, bad_request_model, not_implemented, not_implemented_model, unauthorized,
    unauthorized_model, Response,
};
use crate::script::{build_script_env, env_model};

verus! {

/// What the connection handler must do for one request.
pub enum RequestPlan {
    /// Write this response and close: the request was malformed or its
    /// method is not implemented.
    Reply(Response),
    /// Canonicalize and stat this joined filesystem path, then serve it
    /// as a file or directory.
    FetchStatic { fs_path: Vec<u8> },
    /// Canonicalize and preflight this joined filesystem path, then run
    /// it with this environment.
    RunScript { fs_path: Vec<u8>, env: Vec<(Vec<u8>, Vec<u8>)> },
}

/// Plans one request.  `auth` carries the authorization collaborator's
/// answer: `None` when no credential checking is configured, `Some(ok)`
/// otherwise; a refusal earns the fixed 401 challenge and nothing
/// further happens.  Past that, a malformed request line earns the
/// fixed 400, a method outside GET/POST the fixed 501; a target under
/// the script prefix becomes a script run with the full CGI-like
/// environment; any other target becomes a static fetch of its joined
/// path.
pub fn plan_request(input: &[u8], root: &[u8], auth: Option<bool>) -> (p: RequestPlan)
    ensures
        match p {
            RequestPlan::Reply(r) => (auth == Some(false) && r@ == unauthorized_model()) || (auth
                != Some(false) && route_class(request_line_of(input@)) is BadRequest && r@
                == bad_request_model()) || (auth != Some(false) && route_class(
                request_line_of(input@),
            ) is NotImplemented && r@ == not_implemented_model()),
            RequestPlan::FetchStatic { fs_path } => auth != Some(false) && route_class(
                request_line_of(input@),
            ) is Resource && fs_path@ == joined_path(
                root@,
                path_of_target(target_of(request_line_of(input@))),
            ),
            RequestPlan::RunScript { fs_path, env } => auth != Some(false) && route_class(
                request_line_of(input@),
            ) is Script && fs_path@ == joined_path(
                root@,
                path_of_target(target_of(request_line_of(input@))),
            ) && pairs_view(env@) == env_model(
                headers_of(input@),
                method_of(request_line_of(input@)),
                path_of_target(target_of(request_line_of(input@))),
                query_of_target(target_of(request_line_of(input@))),
                body_of(input@).len(),
                method_class(method_of(request_line_of(input@))) is Post,
            ),
        },
{
    if matches!(auth, Some(false)) {
        return RequestPlan::Reply(unauthorized());
    }
    let req = parse_request(input);
    match route_request_line(req.request_line.as_slice()) {
        RouteClass::BadRequest => RequestPlan::Reply(bad_request()),
        RouteClass::NotImplemented => RequestPlan::Reply(not_implemented()),
        RouteClass::Resource => {
            let (_method, target, _version) = crate::request::process_request_line(
                req.request_line.as_slice(),
            );
            let (path, _query) = crate::request::split_target(target.as_slice());
            let fs_path = join_under_root(root, path.as_slice());
            RequestPlan::FetchStatic { fs_path }
        },
        RouteClass::Script => {
            let (method, target, _version) = crate::request::process_request_line(
                req.request_line.as_slice(),
            );
            let (path, query) = crate::request::split_target(target.as_slice());
            let fs_path = join_under_root(root, path.as_slice());
            let is_post = matches!(
                crate::route::classify_method(method.as_slice()),
                crate::route::HttpMethod::Post
            );
            let env = build_script_env(
                &req.headers,
                method.as_slice(),
                path.as_slice(),
                query.as_slice(),
                req.body.len(),
                is_post,
            );
            RequestPlan::RunScript { fs_path, env }
        },
    }
}

} // verus!
