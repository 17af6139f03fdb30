//! The request parser: raw bytes from one connection read, split into a
//! request line, header pairs and a body.
//!
//! The grammar is fixed: one `METHOD SP TARGET SP VERSION` line, zero or
//! more `Name: Value` lines, a blank line, then the body.  Lines are
//! separated by CRLF; a header line without a `": "` separator is skipped.

use vstd::prelude::*;

use crate::text::{
    find_from, find_sub, lemma_find_from_bounds, pairs_view, sub_to_vec, vecs_view,
};

verus! {

/// The CRLF line separator.
pub open spec fn crlf() -> Seq<u8> {
    seq![13u8, 10u8]
}

/// The blank-line separator between the head and the body.
pub open spec fn head_body_sep() -> Seq<u8> {
    seq![13u8, 10u8, 13u8, 10u8]
}

/// The `": "` separator of a header line.
pub open spec fn colon_sp() -> Seq<u8> {
    seq![58u8, 32u8]
}

/// Everything before the first blank line (the whole input if none).
pub open spec fn head_of(input: Seq<u8>) -> Seq<u8> {
    match find_from(input, head_body_sep(), 0) {
        Some(i) => input.subrange(0, i),
        None => input,
    }
}

/// Everything after the first blank line (empty if none).
pub open spec fn body_of(input: Seq<u8>) -> Seq<u8> {
    match find_from(input, head_body_sep(), 0) {
        Some(i) => input.subrange(i + 4, input.len() as int),
        None => Seq::empty(),
    }
}

/// The head split at each CRLF, in order.  Always at least one piece.
pub open spec fn split_crlf(s: Seq<u8>) -> Seq<Seq<u8>>
    decreases s.len(),
{
    match find_from(s, crlf(), 0) {
        Some(i) => if 0 <= i && i + 2 <= s.len() {
            seq![s.subrange(0, i)] + split_crlf(s.subrange(i + 2, s.len() as int))
        } else {
            seq![s]
        },
        None => seq![s],
    }
}

/// A header line split at its first `": "`, or `None` if it has none.
pub open spec fn parse_header_line(l: Seq<u8>) -> Option<(Seq<u8>, Seq<u8>)> {
    match find_from(l, colon_sp(), 0) {
        Some(i) => Some((l.subrange(0, i), l.subrange(i + 2, l.len() as int))),
        None => None,
    }
}

/// The well-formed header lines among `lines`, split into pairs, in order.
pub open spec fn parse_header_lines(lines: Seq<Seq<u8>>) -> Seq<(Seq<u8>, Seq<u8>)>
    decreases lines.len(),
{
    if lines.len() == 0 {
        Seq::empty()
    } else {
        match parse_header_line(lines[0]) {
            Some(kv) => seq![kv] + parse_header_lines(lines.drop_first()),
            None => parse_header_lines(lines.drop_first()),
        }
    }
}

/// The request line of a raw request: the first CRLF-separated line.
pub open spec fn request_line_of(input: Seq<u8>) -> Seq<u8> {
    split_crlf(head_of(input))[0]
}

/// The header pairs of a raw request, in order of appearance.
pub open spec fn headers_of(input: Seq<u8>) -> Seq<(Seq<u8>, Seq<u8>)> {
    parse_header_lines(split_crlf(head_of(input)).drop_first())
}

/// One parsed request: request line, header pairs in order of appearance,
/// and body bytes.  Built once per connection and never mutated.
pub struct ParsedRequest {
    pub request_line: Vec<u8>,
    pub headers: Vec<(Vec<u8>, Vec<u8>)>,
    pub body: Vec<u8>,
}

impl ParsedRequest {
    /// The header pairs as mathematical sequences.
    pub open spec fn headers_view(&self) -> Seq<(Seq<u8>, Seq<u8>)> {
        pairs_view(self.headers@)
    }
}

/// Whitespace for request-line tokenization: space, tab, CR, LF.
pub open spec fn is_ws(b: u8) -> bool {
    b == 32 || b == 9 || b == 13 || b == 10
}

/// The first position at or after `i` holding a non-whitespace byte, or
/// the end of `s`.
pub open spec fn skip_ws_from(s: Seq<u8>, i: int) -> int
    decreases s.len() - i,
{
    if i < s.len() && is_ws(s[i]) {
        skip_ws_from(s, i + 1)
    } else {
        i
    }
}

/// The first position at or after `i` holding a whitespace byte, or the
/// end of `s`.
pub open spec fn token_end_from(s: Seq<u8>, i: int) -> int
    decreases s.len() - i,
{
    if i < s.len() && !is_ws(s[i]) {
        token_end_from(s, i + 1)
    } else {
        i
    }
}

/// Start of the first whitespace-delimited token.
pub open spec fn tok1_start(s: Seq<u8>) -> int {
    skip_ws_from(s, 0)
}

/// End of the first token.
pub open spec fn tok1_end(s: Seq<u8>) -> int {
    token_end_from(s, tok1_start(s))
}

/// Start of the second token.
pub open spec fn tok2_start(s: Seq<u8>) -> int {
    skip_ws_from(s, tok1_end(s))
}

/// End of the second token.
pub open spec fn tok2_end(s: Seq<u8>) -> int {
    token_end_from(s, tok2_start(s))
}

/// Start of the third token.
pub open spec fn tok3_start(s: Seq<u8>) -> int {
    skip_ws_from(s, tok2_end(s))
}

/// End of the third token.
pub open spec fn tok3_end(s: Seq<u8>) -> int {
    token_end_from(s, tok3_start(s))
}

/// The method token of a request line (empty if the line has no token).
pub open spec fn method_of(line: Seq<u8>) -> Seq<u8> {
    line.subrange(tok1_start(line), tok1_end(line))
}

/// The request-target token of a request line (empty if absent).
pub open spec fn target_of(line: Seq<u8>) -> Seq<u8> {
    line.subrange(tok2_start(line), tok2_end(line))
}

/// The protocol-version token of a request line (empty if absent).
pub open spec fn version_of(line: Seq<u8>) -> Seq<u8> {
    line.subrange(tok3_start(line), tok3_end(line))
}

/// A request line is well formed when it holds exactly three
/// whitespace-delimited tokens.
pub open spec fn request_line_well_formed(line: Seq<u8>) -> bool {
    tok1_end(line) > tok1_start(line) && tok2_end(line) > tok2_start(line) && tok3_end(line)
        > tok3_start(line) && skip_ws_from(line, tok3_end(line)) == line.len()
}

/// The question mark separating a path from its query string.
pub open spec fn question_mark() -> Seq<u8> {
    seq![63u8]
}

/// The path component of a request-target: everything before the first
/// `?` (the whole target if it has none).
pub open spec fn path_of_target(t: Seq<u8>) -> Seq<u8> {
    match find_from(t, question_mark(), 0) {
        Some(i) => t.subrange(0, i),
        None => t,
    }
}

/// The query component of a request-target: everything after the first
/// `?` (empty if it has none).
pub open spec fn query_of_target(t: Seq<u8>) -> Seq<u8> {
    match find_from(t, question_mark(), 0) {
        Some(i) => t.subrange(i + 1, t.len() as int),
        None => Seq::empty(),
    }
}

/// `split_crlf` never yields an empty list.
pub proof fn lemma_split_crlf_nonempty(s: Seq<u8>)
    ensures
        split_crlf(s).len() >= 1,
    decreases s.len(),
{
}

/// Splitting after one more line: `parse_header_lines` over a list with a
/// line appended is the parse of the list plus the parse of that line.
proof fn lemma_parse_header_lines_snoc(lines: Seq<Seq<u8>>, l: Seq<u8>)
    ensures
        parse_header_lines(lines.push(l)) == parse_header_lines(lines) + (match parse_header_line(
            l,
        ) {
            Some(kv) => seq![kv],
            None => Seq::<(Seq<u8>, Seq<u8>)>::empty(),
        }),
    decreases lines.len(),
{
    let pushed = lines.push(l);
    if lines.len() == 0 {
        assert(pushed.drop_first() =~= Seq::<Seq<u8>>::empty());
        assert(pushed[0] == l);
        assert(parse_header_lines(pushed.drop_first()) == Seq::<(Seq<u8>, Seq<u8>)>::empty());
        match parse_header_line(l) {
            Some(kv) => {
                assert(parse_header_lines(pushed) == seq![kv] + parse_header_lines(
                    pushed.drop_first(),
                ));
                assert(seq![kv] + Seq::<(Seq<u8>, Seq<u8>)>::empty() =~= seq![kv]);
                assert(parse_header_lines(lines) + seq![kv] =~= seq![kv]);
            },
            None => {
                assert(parse_header_lines(pushed) == parse_header_lines(pushed.drop_first()));
                assert(parse_header_lines(lines) + Seq::<(Seq<u8>, Seq<u8>)>::empty()
                    =~= Seq::<(Seq<u8>, Seq<u8>)>::empty());
            },
        }
    } else {
        assert(pushed.drop_first() =~= lines.drop_first().push(l));
        lemma_parse_header_lines_snoc(lines.drop_first(), l);
        match parse_header_line(lines[0]) {
            Some(kv) => {
                assert(parse_header_lines(pushed) == seq![kv] + parse_header_lines(
                    lines.drop_first().push(l),
                ));
                assert(seq![kv] + (parse_header_lines(lines.drop_first()) + (match parse_header_line(
                    l,
                ) {
                    Some(kv2) => seq![kv2],
                    None => Seq::<(Seq<u8>, Seq<u8>)>::empty(),
                })) =~= parse_header_lines(lines) + (match parse_header_line(l) {
                    Some(kv2) => seq![kv2],
                    None => Seq::<(Seq<u8>, Seq<u8>)>::empty(),
                }));
            },
            None => {
            },
        }
    }
}

/// Builds the CRLF pair as a vector.
fn crlf_vec() -> (v: Vec<u8>)
    ensures
        v@ == crlf(),
{
    let mut v: Vec<u8> = Vec::new();
    v.push(13);
    v.push(10);
    proof {
        assert(v@ =~= crlf());
    }
    v
}

/// Builds the blank-line separator as a vector.
fn head_body_sep_vec() -> (v: Vec<u8>)
    ensures
        v@ == head_body_sep(),
{
    let mut v: Vec<u8> = Vec::new();
    v.push(13);
    v.push(10);
    v.push(13);
    v.push(10);
    proof {
        assert(v@ =~= head_body_sep());
    }
    v
}

/// Splits `head` at each CRLF, per [`split_crlf`].
fn split_lines(head: &[u8]) -> (lines: Vec<Vec<u8>>)
    ensures
        vecs_view(lines@) == split_crlf(head@),
        lines@.len() >= 1,
{
    let sep = crlf_vec();
    let mut lines: Vec<Vec<u8>> = Vec::new();
    let mut rest: Vec<u8> = sub_to_vec(head, 0, head.len());
    proof {
        assert(rest@ =~= head@);
    }
    loop
        invariant
            sep@ == crlf(),
            split_crlf(head@) == vecs_view(lines@) + split_crlf(rest@),
        decreases rest@.len(),
    {
        match find_sub(rest.as_slice(), sep.as_slice()) {
            Some(i) => {
                proof {
                    lemma_find_from_bounds(rest@, crlf(), 0, i as int);
                }
                let rlen: usize = rest.len();
                let line = sub_to_vec(rest.as_slice(), 0, i);
                let tail = sub_to_vec(rest.as_slice(), i + 2, rlen);
                proof {
                    assert(split_crlf(rest@) == seq![rest@.subrange(0, i as int)] + split_crlf(
                        tail@,
                    ));
                }
                lines.push(line);
                proof {
                    assert(vecs_view(lines@) =~= vecs_view(lines@.drop_last()).push(line@));
                    assert(vecs_view(lines@.drop_last()) + (seq![line@] + split_crlf(tail@))
                        =~= vecs_view(lines@) + split_crlf(tail@));
                }
                rest = tail;
            },
            None => {
                proof {
                    assert(split_crlf(rest@) == seq![rest@]);
                }
                let ghost prev = lines@;
                let ghost last = rest@;
                lines.push(rest);
                proof {
                    assert(vecs_view(lines@) =~= vecs_view(prev).push(last));
                    assert(vecs_view(prev) + seq![last] =~= vecs_view(prev).push(last));
                    lemma_split_crlf_nonempty(head@);
                }
                return lines;
            },
        }
    }
}

/// Parses one connection read into a [`ParsedRequest`]: the bytes are cut
/// at the first blank line, the head is cut into CRLF-separated lines, and
/// each header line is cut at its first `": "`.
pub fn parse_request(input: &[u8]) -> (r: ParsedRequest)
    ensures
        r.request_line@ == request_line_of(input@),
        r.headers_view() == headers_of(input@),
        r.body@ == body_of(input@),
{
    let sep = head_body_sep_vec();
    let ilen: usize = input.len();
    let (head, body): (Vec<u8>, Vec<u8>) = match find_sub(input, sep.as_slice()) {
        Some(i) => {
            proof {
                lemma_find_from_bounds(input@, head_body_sep(), 0, i as int);
            }
            (sub_to_vec(input, 0, i), sub_to_vec(input, i + 4, ilen))
        },
        None => {
            let h = sub_to_vec(input, 0, input.len());
            proof {
                assert(h@ =~= input@);
            }
            (h, Vec::new())
        },
    };
    proof {
        assert(head@ == head_of(input@));
        assert(body@ == body_of(input@));
    }
    let lines = split_lines(head.as_slice());
    let colon = {
        let mut v: Vec<u8> = Vec::new();
        v.push(58);
        v.push(32);
        proof {
            assert(v@ =~= colon_sp());
        }
        v
    };
    let request_line = sub_to_vec(lines[0].as_slice(), 0, lines[0].len());
    proof {
        assert(request_line@ =~= lines@[0]@);
        assert(request_line@ == split_crlf(head@)[0]);
    }
    let mut headers: Vec<(Vec<u8>, Vec<u8>)> = Vec::new();
    let mut k: usize = 1;
    while k < lines.len()
        invariant
            colon@ == colon_sp(),
            1 <= k <= lines@.len(),
            pairs_view(headers@) == parse_header_lines(vecs_view(lines@).subrange(1, k as int)),
        decreases lines@.len() - k,
    {
        let line = &lines[k];
        let ghost done = vecs_view(lines@).subrange(1, k as int);
        proof {
            assert(vecs_view(lines@).subrange(1, k + 1) =~= done.push(line@));
            lemma_parse_header_lines_snoc(done, line@);
        }
        match find_sub(line.as_slice(), colon.as_slice()) {
            Some(i) => {
                proof {
                    lemma_find_from_bounds(line@, colon_sp(), 0, i as int);
                }
                let llen: usize = line.len();
                let key = sub_to_vec(line.as_slice(), 0, i);
                let val = sub_to_vec(line.as_slice(), i + 2, llen);
                let ghost prev = headers@;
                headers.push((key, val));
                proof {
                    assert(pairs_view(headers@) =~= pairs_view(prev).push((key@, val@)));
                    assert(pairs_view(prev) + seq![(key@, val@)] =~= pairs_view(prev).push(
                        (key@, val@),
                    ));
                }
            },
            None => {
                proof {
                    assert(parse_header_line(line@) is None);
                    assert(pairs_view(headers@) + Seq::<(Seq<u8>, Seq<u8>)>::empty()
                        =~= pairs_view(headers@));
                }
            },
        }
        k += 1;
    }
    proof {
        assert(vecs_view(lines@).subrange(1, lines@.len() as int) =~= vecs_view(
            lines@,
        ).drop_first());
        assert(pairs_view(headers@) == headers_of(input@));
    }
    ParsedRequest { request_line, headers, body }
}

/// Advances past whitespace, per [`skip_ws_from`].
fn skip_ws(s: &[u8], i: usize) -> (r: usize)
    requires
        i <= s@.len(),
    ensures
        r == skip_ws_from(s@, i as int),
        i <= r <= s@.len(),
{
    let mut j: usize = i;
    while j < s.len() && (s[j] == 32 || s[j] == 9 || s[j] == 13 || s[j] == 10)
        invariant
            i <= j <= s@.len(),
            skip_ws_from(s@, i as int) == skip_ws_from(s@, j as int),
        decreases s@.len() - j,
    {
        j += 1;
    }
    j
}

/// Advances past non-whitespace, per [`token_end_from`].
fn token_end(s: &[u8], i: usize) -> (r: usize)
    requires
        i <= s@.len(),
    ensures
        r == token_end_from(s@, i as int),
        i <= r <= s@.len(),
{
    let mut j: usize = i;
    while j < s.len() && !(s[j] == 32 || s[j] == 9 || s[j] == 13 || s[j] == 10)
        invariant
            i <= j <= s@.len(),
            token_end_from(s@, i as int) == token_end_from(s@, j as int),
        decreases s@.len() - j,
    {
        j += 1;
    }
    j
}

/// Splits a request line into its first three whitespace-delimited
/// tokens: method, request-target and protocol version.  A missing token
/// comes back empty; extra tokens are ignored here and caught by
/// [`is_well_formed_request_line`].
pub fn process_request_line(line: &[u8]) -> (r: (Vec<u8>, Vec<u8>, Vec<u8>))
    ensures
        r.0@ == method_of(line@),
        r.1@ == target_of(line@),
        r.2@ == version_of(line@),
{
    let s1 = skip_ws(line, 0);
    let e1 = token_end(line, s1);
    let s2 = skip_ws(line, e1);
    let e2 = token_end(line, s2);
    let s3 = skip_ws(line, e2);
    let e3 = token_end(line, s3);
    let method = sub_to_vec(line, s1, e1);
    let target = sub_to_vec(line, s2, e2);
    let version = sub_to_vec(line, s3, e3);
    (method, target, version)
}

/// Does the line hold exactly three whitespace-delimited tokens, per
/// [`request_line_well_formed`]?
pub fn is_well_formed_request_line(line: &[u8]) -> (r: bool)
    ensures
        r == request_line_well_formed(line@),
{
    let s1 = skip_ws(line, 0);
    let e1 = token_end(line, s1);
    let s2 = skip_ws(line, e1);
    let e2 = token_end(line, s2);
    let s3 = skip_ws(line, e2);
    let e3 = token_end(line, s3);
    let rest = skip_ws(line, e3);
    e1 > s1 && e2 > s2 && e3 > s3 && rest == line.len()
}

/// Splits a request-target at its first `?` into path and query.
pub fn split_target(target: &[u8]) -> (r: (Vec<u8>, Vec<u8>))
    ensures
        r.0@ == path_of_target(target@),
        r.1@ == query_of_target(target@),
{
    let mut qm: Vec<u8> = Vec::new();
    qm.push(63);
    proof {
        assert(qm@ =~= question_mark());
    }
    let tlen: usize = target.len();
    match find_sub(target, qm.as_slice()) {
        Some(i) => {
            proof {
                lemma_find_from_bounds(target@, question_mark(), 0, i as int);
            }
            (sub_to_vec(target, 0, i), sub_to_vec(target, i + 1, tlen))
        },
        None => {
            let p = sub_to_vec(target, 0, tlen);
            proof {
                assert(p@ =~= target@);
            }
            (p, Vec::new())
        },
    }
}

} // verus!
