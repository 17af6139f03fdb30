//! The script-execution protocol: the CGI-like environment built from one
//! request, the preflight gate on the target executable, and the mapping
//! from the child's exit status to an HTTP response.
//!
//! The request body is never passed to the child directly; a POST makes
//! its byte count available through the `CONTENT_LENGTH` variable (and
//! the declared type through `CONTENT_TYPE`).  The child's stdout is the
//! response body on success, its stderr on a nonzero exit.

use vstd::prelude::*;

use crate::text::{
    bytes_of, dec_bytes, dec_u64, find_from, find_sub, lemma_find_from_bounds, lit_bytes,
    pairs_view, push_all, sub_to_vec,
};
use crate::route::{path_contained, FsNode};
use crate::response::{Response, ResponseModel};

verus! {

/// The `&` separator between query parameters.
pub open spec fn ampersand() -> Seq<u8> {
    seq![38u8]
}

/// The `=` separator inside one query parameter.
pub open spec fn equals_sign() -> Seq<u8> {
    seq![61u8]
}

/// One `&`-delimited piece of a query string: empty pieces vanish, a
/// piece without `=` is a key with an empty value.
pub open spec fn query_pair_of(part: Seq<u8>) -> Seq<(Seq<u8>, Seq<u8>)> {
    if part.len() == 0 {
        Seq::empty()
    } else {
        match find_from(part, equals_sign(), 0) {
            Some(i) => seq![(part.subrange(0, i), part.subrange(i + 1, part.len() as int))],
            None => seq![(part, Seq::<u8>::empty())],
        }
    }
}

/// The query string split at each `&`, each piece split at its first `=`.
pub open spec fn parse_query(q: Seq<u8>) -> Seq<(Seq<u8>, Seq<u8>)>
    decreases q.len(),
{
    match find_from(q, ampersand(), 0) {
        Some(i) => if 0 <= i && i + 1 <= q.len() {
            query_pair_of(q.subrange(0, i)) + parse_query(q.subrange(i + 1, q.len() as int))
        } else {
            query_pair_of(q)
        },
        None => query_pair_of(q),
    }
}

/// Splits one query piece, appending its pair (if any) to `acc`.
fn push_query_pair(acc: &mut Vec<(Vec<u8>, Vec<u8>)>, part: &[u8])
    ensures
        pairs_view(final(acc)@) == pairs_view(old(acc)@) + query_pair_of(part@),
{
    let plen: usize = part.len();
    if plen == 0 {
        proof {
            assert(pairs_view(acc@) + Seq::<(Seq<u8>, Seq<u8>)>::empty() =~= pairs_view(acc@));
        }
        return ;
    }
    let mut eq: Vec<u8> = Vec::new();
    eq.push(61);
    proof {
        assert(eq@ =~= equals_sign());
    }
    let ghost prev = acc@;
    match find_sub(part, eq.as_slice()) {
        Some(i) => {
            proof {
                lemma_find_from_bounds(part@, equals_sign(), 0, i as int);
            }
            let key = sub_to_vec(part, 0, i);
            let val = sub_to_vec(part, i + 1, plen);
            acc.push((key, val));
            proof {
                assert(pairs_view(acc@) =~= pairs_view(prev) + seq![(key@, val@)]);
            }
        },
        None => {
            let key = sub_to_vec(part, 0, plen);
            proof {
                assert(key@ =~= part@);
            }
            acc.push((key, Vec::new()));
            proof {
                assert(pairs_view(acc@) =~= pairs_view(prev) + seq![(part@, Seq::<u8>::empty())]);
            }
        },
    }
}

/// Parses a query string into its parameter pairs, per [`parse_query`].
pub fn parse_query_string(q: &[u8]) -> (r: Vec<(Vec<u8>, Vec<u8>)>)
    ensures
        pairs_view(r@) == parse_query(q@),
{
    let mut amp: Vec<u8> = Vec::new();
    amp.push(38);
    proof {
        assert(amp@ =~= ampersand());
    }
    let mut acc: Vec<(Vec<u8>, Vec<u8>)> = Vec::new();
    let mut rest: Vec<u8> = sub_to_vec(q, 0, q.len());
    proof {
        assert(rest@ =~= q@);
        assert(pairs_view(acc@) + parse_query(q@) =~= parse_query(q@));
    }
    loop
        invariant
            amp@ == ampersand(),
            parse_query(q@) == pairs_view(acc@) + parse_query(rest@),
        decreases rest@.len(),
    {
        match find_sub(rest.as_slice(), amp.as_slice()) {
            Some(i) => {
                proof {
                    lemma_find_from_bounds(rest@, ampersand(), 0, i as int);
                }
                let rlen: usize = rest.len();
                let part = sub_to_vec(rest.as_slice(), 0, i);
                let tail = sub_to_vec(rest.as_slice(), i + 1, rlen);
                proof {
                    assert(parse_query(rest@) == query_pair_of(part@) + parse_query(tail@));
                }
                push_query_pair(&mut acc, part.as_slice());
                proof {
                    assert(pairs_view(acc@) + parse_query(tail@) =~= parse_query(q@));
                }
                rest = tail;
            },
            None => {
                push_query_pair(&mut acc, rest.as_slice());
                proof {
                    assert(parse_query(rest@) == query_pair_of(rest@));
                    assert(pairs_view(acc@) =~= parse_query(q@));
                }
                return acc;
            },
        }
    }
}

/// The value of the last header with the given name, if any.
pub open spec fn header_value(headers: Seq<(Seq<u8>, Seq<u8>)>, name: Seq<u8>) -> Option<Seq<u8>>
    decreases headers.len(),
{
    if headers.len() == 0 {
        None
    } else if headers.last().0 == name {
        Some(headers.last().1)
    } else {
        header_value(headers.drop_last(), name)
    }
}

/// Looks a header up by name, last occurrence winning, per
/// [`header_value`].
pub fn lookup_header(headers: &Vec<(Vec<u8>, Vec<u8>)>, name: &[u8]) -> (r: Option<Vec<u8>>)
    ensures
        match r {
            Some(v) => header_value(pairs_view(headers@), name@) == Some(v@),
            None => header_value(pairs_view(headers@), name@) is None,
        },
{
    let mut k: usize = headers.len();
    proof {
        assert(pairs_view(headers@).subrange(0, k as int) =~= pairs_view(headers@));
    }
    while k > 0
        invariant
            k <= headers@.len(),
            header_value(pairs_view(headers@), name@) == header_value(
                pairs_view(headers@).subrange(0, k as int),
                name@,
            ),
        decreases k,
    {
        let entry = &headers[k - 1];
        proof {
            assert(pairs_view(headers@).subrange(0, k as int).last() == (
                entry.0@,
                entry.1@,
            ));
            assert(pairs_view(headers@).subrange(0, k as int).drop_last() =~= pairs_view(
                headers@,
            ).subrange(0, k - 1));
        }
        if crate::text::bytes_eq(entry.0.as_slice(), name) {
            let v = sub_to_vec(entry.1.as_slice(), 0, entry.1.len());
            proof {
                assert(v@ =~= entry.1@);
            }
            return Some(v);
        }
        k -= 1;
    }
    proof {
        assert(pairs_view(headers@).subrange(0, 0) =~= Seq::<(Seq<u8>, Seq<u8>)>::empty());
    }
    None
}

/// The query pairs with the fixed `Query_` collision-avoidance prefix on
/// each key.
pub open spec fn prefixed_query(pairs: Seq<(Seq<u8>, Seq<u8>)>) -> Seq<(Seq<u8>, Seq<u8>)> {
    Seq::new(pairs.len(), |i: int| (bytes_of("Query_"@) + pairs[i].0, pairs[i].1))
}

/// The `CONTENT_TYPE` value for a POST: the request's last `Content-Type`
/// header, or empty.
pub open spec fn post_content_type(headers: Seq<(Seq<u8>, Seq<u8>)>) -> Seq<u8> {
    match header_value(headers, bytes_of("Content-Type"@)) {
        Some(v) => v,
        None => Seq::empty(),
    }
}

/// The whole child environment, in the order it is applied: every request
/// header under its own name, then the prefixed query parameters, then
/// the reserved `METHOD` and `PATH` entries, then (for POST)
/// `CONTENT_LENGTH` and `CONTENT_TYPE`.  Later entries override earlier
/// ones of the same name, so the reserved names win over any header.
pub open spec fn env_model(
    headers: Seq<(Seq<u8>, Seq<u8>)>,
    method: Seq<u8>,
    path: Seq<u8>,
    query: Seq<u8>,
    body_len: nat,
    is_post: bool,
) -> Seq<(Seq<u8>, Seq<u8>)> {
    headers + prefixed_query(parse_query(query)) + seq![
        (bytes_of("METHOD"@), method),
        (bytes_of("PATH"@), path),
    ] + if is_post {
        seq![
            (bytes_of("CONTENT_LENGTH"@), dec_bytes(body_len)),
            (bytes_of("CONTENT_TYPE"@), post_content_type(headers)),
        ]
    } else {
        Seq::<(Seq<u8>, Seq<u8>)>::empty()
    }
}

/// Builds the child environment, per [`env_model`].
pub fn build_script_env(
    headers: &Vec<(Vec<u8>, Vec<u8>)>,
    method: &[u8],
    path: &[u8],
    query: &[u8],
    body_len: usize,
    is_post: bool,
) -> (env: Vec<(Vec<u8>, Vec<u8>)>)
    ensures
        pairs_view(env@) == env_model(
            pairs_view(headers@),
            method@,
            path@,
            query@,
            body_len as nat,
            is_post,
        ),
{
    let mut env: Vec<(Vec<u8>, Vec<u8>)> = Vec::new();
    let mut k: usize = 0;
    while k < headers.len()
        invariant
            k <= headers@.len(),
            env@.len() == k,
            pairs_view(env@) == pairs_view(headers@).subrange(0, k as int),
        decreases headers@.len() - k,
    {
        let entry = &headers[k];
        let key = sub_to_vec(entry.0.as_slice(), 0, entry.0.len());
        let val = sub_to_vec(entry.1.as_slice(), 0, entry.1.len());
        proof {
            assert(key@ =~= entry.0@);
            assert(val@ =~= entry.1@);
        }
        env.push((key, val));
        proof {
            assert(pairs_view(env@) =~~= pairs_view(headers@).subrange(0, k + 1));
        }
        k += 1;
    }
    proof {
        assert(pairs_view(headers@).subrange(0, headers@.len() as int) =~= pairs_view(headers@));
    }
    let ghost h = pairs_view(headers@);
    let qpairs = parse_query_string(query);
    proof {
        reveal_strlit("Query_");
    }
    let qprefix = lit_bytes("Query_");
    let mut k: usize = 0;
    while k < qpairs.len()
        invariant
            k <= qpairs@.len(),
            env@.len() == headers@.len() + k,
            h == pairs_view(headers@),
            qprefix@ == bytes_of("Query_"@),
            pairs_view(qpairs@) == parse_query(query@),
            pairs_view(env@) == h + prefixed_query(parse_query(query@).subrange(0, k as int)),
        decreases qpairs@.len() - k,
    {
        let pair = &qpairs[k];
        let mut key = sub_to_vec(qprefix.as_slice(), 0, qprefix.len());
        proof {
            assert(key@ =~= qprefix@);
        }
        push_all(&mut key, pair.0.as_slice());
        let val = sub_to_vec(pair.1.as_slice(), 0, pair.1.len());
        proof {
            assert(val@ =~= pair.1@);
            assert((pair.0@, pair.1@) == pairs_view(qpairs@)[k as int]);
        }
        env.push((key, val));
        proof {
            let ghost qp = parse_query(query@);
            let ghost entry = (bytes_of("Query_"@) + qp[k as int].0, qp[k as int].1);
            let ghost done = prefixed_query(qp.subrange(0, k as int));
            assert(h.len() == headers@.len());
            assert(done.len() == k);
            assert(prefixed_query(qp.subrange(0, k + 1)) =~= done.push(entry));
            assert(pairs_view(env@).len() == headers@.len() + k + 1);
            assert(env@[headers@.len() + k].0@ == bytes_of("Query_"@) + qp[k as int].0);
            assert(env@[headers@.len() + k].1@ == qp[k as int].1);
            assert(pairs_view(env@)[headers@.len() + k] == entry);
            assert(forall|j: int|
                0 <= j < headers@.len() + k ==> pairs_view(env@)[j] == (h + done)[j]);
            assert(pairs_view(env@) =~~= h + prefixed_query(qp.subrange(0, k + 1)));
        }
        k += 1;
    }
    proof {
        assert(parse_query(query@).subrange(0, parse_query(query@).len() as int) =~= parse_query(
            query@,
        ));
    }
    proof {
        reveal_strlit("METHOD");
        reveal_strlit("PATH");
    }
    let method_copy = sub_to_vec(method, 0, method.len());
    proof {
        assert(method_copy@ =~= method@);
    }
    env.push((lit_bytes("METHOD"), method_copy));
    let path_copy = sub_to_vec(path, 0, path.len());
    proof {
        assert(path_copy@ =~= path@);
    }
    env.push((lit_bytes("PATH"), path_copy));
    if is_post {
        proof {
            reveal_strlit("CONTENT_LENGTH");
            reveal_strlit("CONTENT_TYPE");
            reveal_strlit("Content-Type");
        }
        env.push((lit_bytes("CONTENT_LENGTH"), dec_u64(body_len as u64)));
        let ct: Vec<u8> = match lookup_header(headers, lit_bytes("Content-Type").as_slice()) {
            Some(v) => v,
            None => Vec::new(),
        };
        env.push((lit_bytes("CONTENT_TYPE"), ct));
    }
    proof {
        assert(pairs_view(env@) =~= env_model(
            pairs_view(headers@),
            method@,
            path@,
            query@,
            body_len as nat,
            is_post,
        ));
    }
    env
}

/// The preflight gate's verdict on one script target.
#[derive(PartialEq, Eq, Structural, Clone, Copy, Debug)]
pub enum ScriptGate {
    /// Spawn the executable.
    Run,
    /// The target escapes the root, or carries no execute bit.
    Forbidden,
    /// The target does not resolve, or is not a regular file.
    NotFound,
}

/// The preflight rule, checked in order: the canonicalized target must
/// exist (else NotFound), lie under the root (else Forbidden), be a
/// regular file (else NotFound) and carry an execute bit for at least
/// one of owner, group and other (else Forbidden).
pub open spec fn script_gate(
    root: Seq<u8>,
    canon: Option<Seq<u8>>,
    node: FsNode,
    exec_bit: bool,
) -> ScriptGate {
    match canon {
        None => ScriptGate::NotFound,
        Some(p) => if !path_contained(root, p) {
            ScriptGate::Forbidden
        } else if !(node is File) {
            ScriptGate::NotFound
        } else if !exec_bit {
            ScriptGate::Forbidden
        } else {
            ScriptGate::Run
        },
    }
}

/// Decides the preflight gate, per [`script_gate`].
pub fn decide_script(root: &[u8], canon: &Option<Vec<u8>>, node: FsNode, exec_bit: bool) -> (r:
    ScriptGate)
    ensures
        r == script_gate(
            root@,
            match *canon {
                Some(p) => Some(p@),
                None => None,
            },
            node,
            exec_bit,
        ),
{
    match canon {
        None => ScriptGate::NotFound,
        Some(p) => {
            if !crate::route::path_is_contained(root, p.as_slice()) {
                ScriptGate::Forbidden
            } else if !matches!(node, FsNode::File) {
                ScriptGate::NotFound
            } else if !exec_bit {
                ScriptGate::Forbidden
            } else {
                ScriptGate::Run
            }
        },
    }
}

/// Law: a contained, existing script file without any execute bit is
/// answered Forbidden — it is never run.
pub proof fn lemma_no_exec_bit_is_forbidden(root: Seq<u8>, p: Seq<u8>)
    requires
        path_contained(root, p),
    ensures
        script_gate(root, Some(p), FsNode::File, false) == ScriptGate::Forbidden,
        script_gate(root, Some(p), FsNode::File, false) != ScriptGate::Run,
{
}

/// The 200 response carrying a finished script's stdout.
pub open spec fn script_ok_model(stdout: Seq<u8>) -> ResponseModel {
    ResponseModel {
        status: 200,
        reason: bytes_of("OK"@),
        content_type: bytes_of("text/plain"@),
        body: stdout,
        challenge: false,
    }
}

/// The 500 response carrying a failed script's stderr.
pub open spec fn script_err_model(stderr: Seq<u8>) -> ResponseModel {
    ResponseModel {
        status: 500,
        reason: bytes_of("Internal Server Error"@),
        content_type: bytes_of("text/plain"@),
        body: stderr,
        challenge: false,
    }
}

/// Maps a finished child to its response: exit status zero answers 200
/// with the captured stdout, anything else 500 with the captured stderr.
pub fn script_response(exited_ok: bool, stdout_bytes: Vec<u8>, stderr_bytes: Vec<u8>) -> (r:
    Response)
    ensures
        exited_ok ==> r@ == script_ok_model(stdout_bytes@),
        !exited_ok ==> r@ == script_err_model(stderr_bytes@),
{
    proof {
        reveal_strlit("OK");
        reveal_strlit("Internal Server Error");
        reveal_strlit("text/plain");
    }
    if exited_ok {
        Response {
            status: 200,
            reason: lit_bytes("OK"),
            content_type: lit_bytes("text/plain"),
            body: stdout_bytes,
            challenge: false,
        }
    } else {
        Response {
            status: 500,
            reason: lit_bytes("Internal Server Error"),
            content_type: lit_bytes("text/plain"),
            body: stderr_bytes,
            challenge: false,
        }
    }
}

} // verus!
