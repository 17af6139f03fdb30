//! The router and the path resolver's pure half.
//!
//! Routing is pure classification: a malformed request line, a method
//! outside GET/POST, a target under the script prefix, or an ordinary
//! resource.  Path containment — the single traversal defense — is the
//! byte-level check that a canonicalized target still lies under the
//! canonicalized root; the canonicalization itself is filesystem work and
//! happens outside the library, which only judges its result.

use vstd::prelude::*;

use crate::text::{bytes_of, bytes_eq, has_prefix, lit_bytes, push_all, sub_to_vec};
use crate::request::{
    method_of, path_of_target, request_line_well_formed, target_of,
};

verus! {

/// The methods the server distinguishes.
#[derive(PartialEq, Eq, Structural, Clone, Copy, Debug)]
pub enum HttpMethod {
    Get,
    Post,
    Other,
}

/// GET and POST, byte-for-byte; everything else is `Other`.
pub open spec fn method_class(m: Seq<u8>) -> HttpMethod {
    if m == bytes_of("GET"@) {
        HttpMethod::Get
    } else if m == bytes_of("POST"@) {
        HttpMethod::Post
    } else {
        HttpMethod::Other
    }
}

/// Classifies a method token, per [`method_class`].
pub fn classify_method(m: &[u8]) -> (r: HttpMethod)
    ensures
        r == method_class(m@),
{
    proof {
        reveal_strlit("GET");
        reveal_strlit("POST");
    }
    if bytes_eq(m, lit_bytes("GET").as_slice()) {
        HttpMethod::Get
    } else if bytes_eq(m, lit_bytes("POST").as_slice()) {
        HttpMethod::Post
    } else {
        HttpMethod::Other
    }
}

/// The request-target prefix that routes to script execution.
pub open spec fn script_prefix() -> Seq<u8> {
    bytes_of("/scripts/"@)
}

/// Does this path component route to script execution?
pub open spec fn is_script_target(p: Seq<u8>) -> bool {
    p.len() >= script_prefix().len() && p.subrange(0, script_prefix().len() as int)
        == script_prefix()
}

/// Checks the script prefix, per [`is_script_target`].
pub fn target_is_script(p: &[u8]) -> (r: bool)
    ensures
        r == is_script_target(p@),
{
    proof {
        reveal_strlit("/scripts/");
    }
    has_prefix(p, lit_bytes("/scripts/").as_slice())
}

/// What one request line asks of the server.
#[derive(PartialEq, Eq, Structural, Clone, Copy, Debug)]
pub enum RouteClass {
    /// The request line does not hold exactly three tokens.
    BadRequest,
    /// The method is neither GET nor POST.
    NotImplemented,
    /// The target lies under the script prefix.
    Script,
    /// The target names a file or directory to serve.
    Resource,
}

/// The routing rule: well-formedness first, then the method, then the
/// script prefix on the target's path component.
pub open spec fn route_class(line: Seq<u8>) -> RouteClass {
    if !request_line_well_formed(line) {
        RouteClass::BadRequest
    } else if method_class(method_of(line)) is Other {
        RouteClass::NotImplemented
    } else if is_script_target(path_of_target(target_of(line))) {
        RouteClass::Script
    } else {
        RouteClass::Resource
    }
}

/// Classifies a raw request line, per [`route_class`].
pub fn route_request_line(line: &[u8]) -> (r: RouteClass)
    ensures
        r == route_class(line@),
{
    if !crate::request::is_well_formed_request_line(line) {
        return RouteClass::BadRequest;
    }
    let (method, target, _version) = crate::request::process_request_line(line);
    let m = classify_method(method.as_slice());
    if matches!(m, HttpMethod::Other) {
        return RouteClass::NotImplemented;
    }
    let (path, _query) = crate::request::split_target(target.as_slice());
    if target_is_script(path.as_slice()) {
        RouteClass::Script
    } else {
        RouteClass::Resource
    }
}

/// Containment of a canonical path `p` under the canonical root: the two
/// are equal, or `p` continues the root across a path separator.  A root
/// that itself ends in a separator (the filesystem root) contains every
/// path it prefixes.
pub open spec fn path_contained(root: Seq<u8>, p: Seq<u8>) -> bool {
    p == root || (root.len() > 0 && root[root.len() - 1] == 47 && p.len() >= root.len()
        && p.subrange(0, root.len() as int) == root) || (p.len() > root.len() && p.subrange(
        0,
        root.len() as int,
    ) == root && p[root.len() as int] == 47)
}

/// Checks containment, per [`path_contained`].
pub fn path_is_contained(root: &[u8], p: &[u8]) -> (r: bool)
    ensures
        r == path_contained(root@, p@),
{
    if bytes_eq(p, root) {
        return true;
    }
    let rlen: usize = root.len();
    if rlen > 0 && root[rlen - 1] == 47 && has_prefix(p, root) {
        return true;
    }
    p.len() > rlen && has_prefix(p, root) && p[rlen] == 47
}

/// What the filesystem reports a path to be.
#[derive(PartialEq, Eq, Structural, Clone, Copy, Debug)]
pub enum FsNode {
    /// A regular file.
    File,
    /// A directory.
    Dir,
    /// Something else (a device, a socket, ...).
    OtherKind,
    /// Metadata could not be read.
    Missing,
}

/// The static pipeline's verdict on one resolved target.
#[derive(PartialEq, Eq, Structural, Clone, Copy, Debug)]
pub enum StaticChoice {
    /// Read the file and serve its bytes.
    ServeFile,
    /// Enumerate the directory and serve a listing.
    ListDir,
    /// The target escapes the root.
    Forbidden,
    /// The target does not resolve, or is neither file nor directory.
    NotFound,
}

/// The static-serving rule.  `canon` is the canonicalized join of root
/// and target, `None` when canonicalization failed (the path does not
/// exist): that is NotFound.  A canonical path outside the root is
/// Forbidden and nothing else is consulted.  Inside the root, a
/// directory is listed, a regular file is served, anything else is
/// NotFound.
pub open spec fn static_choice(root: Seq<u8>, canon: Option<Seq<u8>>, node: FsNode) -> StaticChoice {
    match canon {
        None => StaticChoice::NotFound,
        Some(p) => if !path_contained(root, p) {
            StaticChoice::Forbidden
        } else {
            match node {
                FsNode::Dir => StaticChoice::ListDir,
                FsNode::File => StaticChoice::ServeFile,
                FsNode::OtherKind => StaticChoice::NotFound,
                FsNode::Missing => StaticChoice::NotFound,
            }
        },
    }
}

/// Decides the static pipeline, per [`static_choice`].
pub fn decide_static(root: &[u8], canon: &Option<Vec<u8>>, node: FsNode) -> (r: StaticChoice)
    ensures
        r == static_choice(
            root@,
            match *canon {
                Some(p) => Some(p@),
                None => None,
            },
            node,
        ),
{
    match canon {
        None => StaticChoice::NotFound,
        Some(p) => {
            if !path_is_contained(root, p.as_slice()) {
                StaticChoice::Forbidden
            } else {
                match node {
                    FsNode::Dir => StaticChoice::ListDir,
                    FsNode::File => StaticChoice::ServeFile,
                    FsNode::OtherKind => StaticChoice::NotFound,
                    FsNode::Missing => StaticChoice::NotFound,
                }
            }
        },
    }
}

/// Law: a target whose canonical path lies outside the root is answered
/// Forbidden — its contents are never served and its directory never
/// listed, whatever the filesystem says the node is.
pub proof fn lemma_outside_root_is_forbidden(root: Seq<u8>, p: Seq<u8>, node: FsNode)
    requires
        !path_contained(root, p),
    ensures
        static_choice(root, Some(p), node) == StaticChoice::Forbidden,
        static_choice(root, Some(p), node) != StaticChoice::ServeFile,
        static_choice(root, Some(p), node) != StaticChoice::ListDir,
{
}

/// Law: a target that canonicalizes to a regular file under the root is
/// served — the pipeline answers ServeFile, never an error.
pub proof fn lemma_contained_file_is_served(root: Seq<u8>, p: Seq<u8>)
    requires
        path_contained(root, p),
    ensures
        static_choice(root, Some(p), FsNode::File) == StaticChoice::ServeFile,
        static_choice(root, Some(p), FsNode::Dir) == StaticChoice::ListDir,
{
}

/// The target with its leading slashes removed.
pub open spec fn strip_leading_slashes(p: Seq<u8>) -> Seq<u8>
    decreases p.len(),
{
    if p.len() > 0 && p[0] == 47 {
        strip_leading_slashes(p.drop_first())
    } else {
        p
    }
}

/// The request path joined under the root: the root, one separator, and
/// the path stripped of leading slashes.  An empty relative part (the
/// target `/`) resolves to the root itself; a root already ending in a
/// separator gets no second one.
pub open spec fn joined_path(root: Seq<u8>, p: Seq<u8>) -> Seq<u8> {
    let rel = strip_leading_slashes(p);
    if rel.len() == 0 {
        root
    } else if root.len() > 0 && root[root.len() - 1] == 47 {
        root + rel
    } else {
        root + seq![47u8] + rel
    }
}

/// Joins a request path under the root, per [`joined_path`].
pub fn join_under_root(root: &[u8], p: &[u8]) -> (r: Vec<u8>)
    ensures
        r@ == joined_path(root@, p@),
{
    let plen: usize = p.len();
    let mut k: usize = 0;
    proof {
        assert(p@.subrange(0, plen as int) =~= p@);
    }
    while k < plen && p[k] == 47
        invariant
            k <= p@.len(),
            plen == p@.len(),
            strip_leading_slashes(p@) == strip_leading_slashes(p@.subrange(k as int, plen as int)),
        decreases plen - k,
    {
        proof {
            assert(p@.subrange(k as int, plen as int).drop_first() =~= p@.subrange(
                k + 1,
                plen as int,
            ));
        }
        k += 1;
    }
    proof {
        assert(strip_leading_slashes(p@) == p@.subrange(k as int, plen as int));
    }
    let rel = sub_to_vec(p, k, plen);
    let rlen: usize = root.len();
    if rel.len() == 0 {
        let r = sub_to_vec(root, 0, rlen);
        proof {
            assert(r@ =~= root@);
        }
        r
    } else if rlen > 0 && root[rlen - 1] == 47 {
        let mut r = sub_to_vec(root, 0, rlen);
        proof {
            assert(r@ =~= root@);
        }
        push_all(&mut r, rel.as_slice());
        r
    } else {
        let mut r = sub_to_vec(root, 0, rlen);
        proof {
            assert(r@ =~= root@);
        }
        r.push(47);
        push_all(&mut r, rel.as_slice());
        proof {
            assert(root@.push(47u8) =~= root@ + seq![47u8]);
            assert(r@ =~= root@ + seq![47u8] + rel@);
        }
        r
    }
}

} // verus!
