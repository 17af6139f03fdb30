//! The response type and the single serialization contract.
//!
//! Every response — success and error — is built by a constructor here
//! and written through [`render_response`]: a status line, the three
//! fixed headers, a blank line, then the raw body bytes.  The
//! `Content-Length` header is always the exact byte count of the body.

use vstd::prelude::*;

use crate::text::{bytes_of, dec_bytes, dec_u64, lit_bytes, push_all};

verus! {

/// The mathematical image of a response.  `challenge` marks the one
/// response that carries a `WWW-Authenticate: Basic` header.
pub struct ResponseModel {
    pub status: int,
    pub reason: Seq<u8>,
    pub content_type: Seq<u8>,
    pub body: Seq<u8>,
    pub challenge: bool,
}

/// One fully buffered response.
pub struct Response {
    pub status: u16,
    pub reason: Vec<u8>,
    pub content_type: Vec<u8>,
    pub body: Vec<u8>,
    pub challenge: bool,
}

impl View for Response {
    type V = ResponseModel;

    open spec fn view(&self) -> ResponseModel {
        ResponseModel {
            status: self.status as int,
            reason: self.reason@,
            content_type: self.content_type@,
            body: self.body@,
            challenge: self.challenge,
        }
    }
}

/// A 200 OK carrying a file's bytes under the resolved content type.
pub open spec fn ok_file_model(content_type: Seq<u8>, body: Seq<u8>) -> ResponseModel {
    ResponseModel { status: 200, reason: bytes_of("OK"@), content_type, body, challenge: false }
}

/// A 200 OK carrying a directory listing.
pub open spec fn ok_html_model(body: Seq<u8>) -> ResponseModel {
    ResponseModel {
        status: 200,
        reason: bytes_of("OK"@),
        content_type: bytes_of("text/html"@),
        body,
        challenge: false,
    }
}

/// The fixed 400 response to a malformed request line.
pub open spec fn bad_request_model() -> ResponseModel {
    ResponseModel {
        status: 400,
        reason: bytes_of("Bad Request"@),
        content_type: bytes_of("text/html"@),
        body: bytes_of("<html>400 Bad Request</html>"@),
        challenge: false,
    }
}

/// The fixed 403 response.
pub open spec fn forbidden_model() -> ResponseModel {
    ResponseModel {
        status: 403,
        reason: bytes_of("Forbidden"@),
        content_type: bytes_of("text/html"@),
        body: bytes_of("<html>403 Forbidden</html>"@),
        challenge: false,
    }
}

/// The fixed 404 response.
pub open spec fn not_found_model() -> ResponseModel {
    ResponseModel {
        status: 404,
        reason: bytes_of("Not Found"@),
        content_type: bytes_of("text/html"@),
        body: bytes_of("<html>404 Not Found</html>"@),
        challenge: false,
    }
}

/// The fixed 500 response for failures of the server's own doing: a file
/// read error, a spawn failure.
pub open spec fn internal_error_model() -> ResponseModel {
    ResponseModel {
        status: 500,
        reason: bytes_of("Internal Server Error"@),
        content_type: bytes_of("text/html"@),
        body: bytes_of("<html>500 Internal Server Error</html>"@),
        challenge: false,
    }
}

/// The fixed 401 response when the authorization gate refuses: it alone
/// carries the `WWW-Authenticate: Basic` challenge.
pub open spec fn unauthorized_model() -> ResponseModel {
    ResponseModel {
        status: 401,
        reason: bytes_of("Unauthorized"@),
        content_type: bytes_of("text/html"@),
        body: bytes_of("<html>401 Unauthorized</html>"@),
        challenge: true,
    }
}

/// The fixed 501 response to a method outside GET and POST.
pub open spec fn not_implemented_model() -> ResponseModel {
    ResponseModel {
        status: 501,
        reason: bytes_of("Not Implemented"@),
        content_type: bytes_of("text/html"@),
        body: bytes_of("<html>501 Not Implemented</html>"@),
        challenge: false,
    }
}

/// Builds the 200 file response, per [`ok_file_model`].
pub fn ok_file(content_type: Vec<u8>, body: Vec<u8>) -> (r: Response)
    ensures
        r@ == ok_file_model(content_type@, body@),
{
    proof {
        reveal_strlit("OK");
    }
    Response { status: 200, reason: lit_bytes("OK"), content_type, body, challenge: false }
}

/// Builds the 200 listing response, per [`ok_html_model`].
pub fn ok_html(body: Vec<u8>) -> (r: Response)
    ensures
        r@ == ok_html_model(body@),
{
    proof {
        reveal_strlit("OK");
        reveal_strlit("text/html");
    }
    Response {
        status: 200,
        reason: lit_bytes("OK"),
        content_type: lit_bytes("text/html"),
        body,
        challenge: false,
    }
}

/// Builds the fixed 400 response, per [`bad_request_model`].
pub fn bad_request() -> (r: Response)
    ensures
        r@ == bad_request_model(),
{
    proof {
        reveal_strlit("Bad Request");
        reveal_strlit("text/html");
        reveal_strlit("<html>400 Bad Request</html>");
    }
    Response {
        status: 400,
        reason: lit_bytes("Bad Request"),
        content_type: lit_bytes("text/html"),
        body: lit_bytes("<html>400 Bad Request</html>"),
        challenge: false,
    }
}

/// Builds the fixed 403 response, per [`forbidden_model`].
pub fn forbidden() -> (r: Response)
    ensures
        r@ == forbidden_model(),
{
    proof {
        reveal_strlit("Forbidden");
        reveal_strlit("text/html");
        reveal_strlit("<html>403 Forbidden</html>");
    }
    Response {
        status: 403,
        reason: lit_bytes("Forbidden"),
        content_type: lit_bytes("text/html"),
        body: lit_bytes("<html>403 Forbidden</html>"),
        challenge: false,
    }
}

/// Builds the fixed 404 response, per [`not_found_model`].
pub fn not_found() -> (r: Response)
    ensures
        r@ == not_found_model(),
{
    proof {
        reveal_strlit("Not Found");
        reveal_strlit("text/html");
        reveal_strlit("<html>404 Not Found</html>");
    }
    Response {
        status: 404,
        reason: lit_bytes("Not Found"),
        content_type: lit_bytes("text/html"),
        body: lit_bytes("<html>404 Not Found</html>"),
        challenge: false,
    }
}

/// Builds the fixed 500 response, per [`internal_error_model`].
pub fn internal_error() -> (r: Response)
    ensures
        r@ == internal_error_model(),
{
    proof {
        reveal_strlit("Internal Server Error");
        reveal_strlit("text/html");
        reveal_strlit("<html>500 Internal Server Error</html>");
    }
    Response {
        status: 500,
        reason: lit_bytes("Internal Server Error"),
        content_type: lit_bytes("text/html"),
        body: lit_bytes("<html>500 Internal Server Error</html>"),
        challenge: false,
    }
}

/// Builds the fixed 401 response, per [`unauthorized_model`].
pub fn unauthorized() -> (r: Response)
    ensures
        r@ == unauthorized_model(),
{
    proof {
        reveal_strlit("Unauthorized");
        reveal_strlit("text/html");
        reveal_strlit("<html>401 Unauthorized</html>");
    }
    Response {
        status: 401,
        reason: lit_bytes("Unauthorized"),
        content_type: lit_bytes("text/html"),
        body: lit_bytes("<html>401 Unauthorized</html>"),
        challenge: true,
    }
}

/// Builds the fixed 501 response, per [`not_implemented_model`].
pub fn not_implemented() -> (r: Response)
    ensures
        r@ == not_implemented_model(),
{
    proof {
        reveal_strlit("Not Implemented");
        reveal_strlit("text/html");
        reveal_strlit("<html>501 Not Implemented</html>");
    }
    Response {
        status: 501,
        reason: lit_bytes("Not Implemented"),
        content_type: lit_bytes("text/html"),
        body: lit_bytes("<html>501 Not Implemented</html>"),
        challenge: false,
    }
}

/// The serialized head: status line, `Content-Type`, `Content-Length`
/// (the body's exact byte count), the challenge header where the model
/// asks for one, `Connection: close`, and a blank line.
pub open spec fn rendered_head(m: ResponseModel) -> Seq<u8> {
    bytes_of("HTTP/1.1 "@) + dec_bytes(m.status as nat) + seq![32u8] + m.reason + bytes_of(
        "\r\nContent-Type: "@,
    ) + m.content_type + bytes_of("\r\nContent-Length: "@) + dec_bytes(m.body.len()) + (if m.challenge {
        bytes_of("\r\nWWW-Authenticate: Basic"@)
    } else {
        Seq::<u8>::empty()
    }) + bytes_of("\r\nConnection: close\r\n\r\n"@)
}

/// The full wire image of a response: its head followed by its body.
pub open spec fn rendered(m: ResponseModel) -> Seq<u8> {
    rendered_head(m) + m.body
}

/// Serializes the whole response, per [`rendered`].
pub fn render_response(r: &Response) -> (out: Vec<u8>)
    ensures
        out@ == rendered(r@),
{
    proof {
        reveal_strlit("HTTP/1.1 ");
        reveal_strlit("\r\nContent-Type: ");
        reveal_strlit("\r\nContent-Length: ");
        reveal_strlit("\r\nConnection: close\r\n\r\n");
    }
    let mut out = lit_bytes("HTTP/1.1 ");
    let status_digits = dec_u64(r.status as u64);
    push_all(&mut out, status_digits.as_slice());
    out.push(32);
    push_all(&mut out, r.reason.as_slice());
    let ct_label = lit_bytes("\r\nContent-Type: ");
    push_all(&mut out, ct_label.as_slice());
    push_all(&mut out, r.content_type.as_slice());
    let cl_label = lit_bytes("\r\nContent-Length: ");
    push_all(&mut out, cl_label.as_slice());
    let len_digits = dec_u64(r.body.len() as u64);
    push_all(&mut out, len_digits.as_slice());
    if r.challenge {
        proof {
            reveal_strlit("\r\nWWW-Authenticate: Basic");
        }
        let challenge_label = lit_bytes("\r\nWWW-Authenticate: Basic");
        push_all(&mut out, challenge_label.as_slice());
    }
    let tail_label = lit_bytes("\r\nConnection: close\r\n\r\n");
    push_all(&mut out, tail_label.as_slice());
    push_all(&mut out, r.body.as_slice());
    proof {
        assert(out@ =~= rendered(r@));
    }
    out
}

/// Law: serving a file of bytes `body` answers 200, carries exactly those
/// bytes, and declares their exact count in `Content-Length` — the wire
/// image ends in `body` and its head renders `body.len()` in decimal.
pub proof fn lemma_file_response_exact(content_type: Seq<u8>, body: Seq<u8>)
    ensures
        ok_file_model(content_type, body).status == 200,
        ok_file_model(content_type, body).body == body,
        rendered(ok_file_model(content_type, body)) == rendered_head(
            ok_file_model(content_type, body),
        ) + body,
        rendered_head(ok_file_model(content_type, body)) == bytes_of("HTTP/1.1 "@) + dec_bytes(200)
            + seq![32u8] + bytes_of("OK"@) + bytes_of("\r\nContent-Type: "@) + content_type
            + bytes_of("\r\nContent-Length: "@) + dec_bytes(body.len()) + bytes_of(
            "\r\nConnection: close\r\n\r\n"@,
        ),
{
    assert(rendered_head(ok_file_model(content_type, body)) =~= bytes_of("HTTP/1.1 "@) + dec_bytes(
        200,
    ) + seq![32u8] + bytes_of("OK"@) + bytes_of("\r\nContent-Type: "@) + content_type + bytes_of(
        "\r\nContent-Length: "@,
    ) + dec_bytes(body.len()) + bytes_of("\r\nConnection: close\r\n\r\n"@));
}

} // verus!
