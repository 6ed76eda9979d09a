use vstd::prelude::*;
use vstd::utf8::encode_utf8;
use crate::model::{
    resolve_placeholders, resolved, EnvVariable, HeaderEntry, HttpMethod, Request, ResponseSummary,
};
use crate::text::{decimal, push_char, trim, trim_str, u64_to_decimal};

verus! {

/// The most bytes of a response body that are kept.
pub const MAX_BODY_CHARS: usize = 65536;

/// What is added to a body that was cut short.
pub open spec fn truncation_note() -> Seq<char> {
    "\n...<truncated>"@
}

/// `body`, or where it holds more than `MAX_BODY_CHARS` bytes of UTF-8, its
/// first `MAX_BODY_CHARS` bytes followed by a note that it was cut.
pub fn truncate(body: String) -> (r: String)
    requires
        encode_utf8(body@).len() <= usize::MAX,
        encode_utf8(body@).len() > MAX_BODY_CHARS ==> vstd::utf8::is_char_boundary(
            encode_utf8(body@),
            MAX_BODY_CHARS as int,
        ),
    ensures
        encode_utf8(body@).len() <= MAX_BODY_CHARS ==> r@ == body@,
        encode_utf8(body@).len() > MAX_BODY_CHARS ==> exists|head: Seq<char>|
            r@ == head + truncation_note() && encode_utf8(head) == encode_utf8(body@).take(
                MAX_BODY_CHARS as int,
            ),
{
    let s = body.as_str();
    if s.len() <= MAX_BODY_CHARS {
        return body;
    }
    let (head, _) = s.split_at(MAX_BODY_CHARS);
    let mut r = String::from_str(head);
    r.append("\n...<truncated>");
    assert(encode_utf8(head@) =~= encode_utf8(body@).take(MAX_BODY_CHARS as int));
    assert(r@ == head@ + truncation_note());
    r
}


/// The bytes that stand for themselves in a query string.
pub open spec fn is_unreserved(b: u8) -> bool {
    ||| (65 <= b && b <= 90)
    ||| (97 <= b && b <= 122)
    ||| (48 <= b && b <= 57)
    ||| b == 45
    ||| b == 95
    ||| b == 46
    ||| b == 126
}

/// The capital hexadecimal digit for `n` below 16.
pub open spec fn hex_digit(n: u8) -> char {
    if n < 10 {
        ((n + 48) as u32) as char
    } else {
        ((n + 55) as u32) as char
    }
}

/// One byte percent-encoded: itself where it is unreserved, else `%` and two
/// capital hexadecimal digits.
pub open spec fn encode_byte(b: u8) -> Seq<char> {
    if is_unreserved(b) {
        seq![(b as u32) as char]
    } else {
        seq!['%', hex_digit(b / 16), hex_digit(b % 16)]
    }
}

/// The bytes percent-encoded one by one.
pub open spec fn percent_encode(bytes: Seq<u8>) -> Seq<char>
    decreases bytes.len(),
{
    if bytes.len() == 0 {
        Seq::empty()
    } else {
        percent_encode(bytes.drop_last()) + encode_byte(bytes.last())
    }
}

fn hex_digit_exec(n: u8) -> (r: char)
    requires
        n < 16,
    ensures
        r == hex_digit(n),
{
    if n < 10 {
        (n + 48) as char
    } else {
        (n + 55) as char
    }
}

/// Minimal percent-encoding for query parameter keys and values: the UTF-8
/// bytes of `input`, each unreserved one as itself and every other as `%XX`.
pub fn urlencoding(input: &str) -> (r: String)
    ensures
        r@ == percent_encode(encode_utf8(input@)),
{
    let bytes = input.as_bytes();
    let mut out = String::new();
    let mut i: usize = 0;
    while i < bytes.len()
        invariant
            bytes@ == encode_utf8(input@),
            i <= bytes@.len(),
            out@ == percent_encode(bytes@.take(i as int)),
        decreases bytes@.len() - i,
    {
        let b = bytes[i];
        assert(bytes@.take(i + 1).drop_last() =~= bytes@.take(i as int));
        if (65 <= b && b <= 90) || (97 <= b && b <= 122) || (48 <= b && b <= 57) || b == 45 || b
            == 95 || b == 46 || b == 126 {
            push_char(&mut out, b as char);
            assert(out@ =~= percent_encode(bytes@.take(i + 1)));
        } else {
            push_char(&mut out, '%');
            push_char(&mut out, hex_digit_exec(b / 16));
            push_char(&mut out, hex_digit_exec(b % 16));
            assert(out@ =~= percent_encode(bytes@.take(i + 1)));
        }
        i += 1;
    }
    assert(bytes@.take(bytes@.len() as int) =~= bytes@);
    out
}


/// A byte that may stand in a header name (an HTTP token character): a
/// letter, a digit, or one of `` !#$%&'*+-.^_`|~ ``.
pub open spec fn header_name_byte(b: u8) -> bool {
    ||| (65 <= b && b <= 90)
    ||| (97 <= b && b <= 122)
    ||| (48 <= b && b <= 57)
    ||| b == 33 || b == 35 || b == 36 || b == 37 || b == 38 || b == 39
    ||| b == 42 || b == 43 || b == 45 || b == 46
    ||| b == 94 || b == 95 || b == 96 || b == 124 || b == 126
}

/// Whether a header name is accepted: its UTF-8 form has between 1 and
/// 65535 bytes, each of which may stand in a header name.
pub open spec fn header_name_accepted(name: Seq<char>) -> bool {
    let bytes = encode_utf8(name);
    &&& 1 <= bytes.len() <= 65535
    &&& forall|i: int| 0 <= i < bytes.len() ==> header_name_byte(#[trigger] bytes[i])
}

/// Calls `reqwest::header::HeaderName::from_bytes` on the bytes of `name`
/// and says whether it gave a name: it does exactly where the bytes are
/// between 1 and 65535 and each is a token character.
#[verifier::external_body]
fn header_name_is_valid(name: &str) -> (r: bool)
    ensures
        r == header_name_accepted(name@),
{
    reqwest::header::HeaderName::from_bytes(name.as_bytes()).is_ok()
}

/// A byte that a header value may hold: a tab, or any byte from the space up
/// but for DEL.
pub open spec fn header_value_byte(b: u8) -> bool {
    (b >= 32 && b != 127) || b == 9
}

/// Whether every UTF-8 byte of `value` may stand in a header value.
pub open spec fn header_value_accepted(value: Seq<char>) -> bool {
    forall|i: int|
        0 <= i < encode_utf8(value).len() ==> header_value_byte(#[trigger] encode_utf8(value)[i])
}

/// Calls `reqwest::header::HeaderValue::from_str`, which accepts a string
/// exactly where each of its bytes is a tab or from the space up but for DEL.
#[verifier::external_body]
fn header_value_is_valid(value: &str) -> (r: bool)
    ensures
        r == header_value_accepted(value@),
{
    reqwest::header::HeaderValue::from_str(value).is_ok()
}

/// A request ready to be sent: placeholders resolved, header names and
/// values trimmed, and the body only where one is sent.
#[derive(Debug)]
pub struct PreparedRequest {
    pub method: HttpMethod,
    pub url: String,
    pub headers: Vec<HeaderEntry>,
    pub body: Option<String>,
}

/// The error for the first header, with its placeholders resolved, whose
/// trimmed name or value reqwest refuses; none where all are accepted.
pub open spec fn header_error(hs: Seq<HeaderEntry>, vars: Seq<EnvVariable>) -> Option<Seq<char>>
    decreases hs.len(),
{
    if hs.len() == 0 {
        None
    } else {
        let name = resolved(hs[0].name@, vars);
        let value = resolved(hs[0].value@, vars);
        if !header_name_accepted(trim(name)) {
            Some("Invalid header name: "@ + name)
        } else if !header_value_accepted(trim(value)) {
            Some("Invalid header value for "@ + name)
        } else {
            header_error(hs.drop_first(), vars)
        }
    }
}

/// The header as it is sent: placeholders resolved, name and value trimmed.
pub open spec fn sent_header(h: HeaderEntry, vars: Seq<EnvVariable>) -> (Seq<char>, Seq<char>) {
    (trim(resolved(h.name@, vars)), trim(resolved(h.value@, vars)))
}

/// The body that is sent for a request: none for GET or for a body that is
/// only white space once its placeholders are resolved.
pub open spec fn sent_body(req: Request, vars: Seq<EnvVariable>) -> Option<Seq<char>> {
    let body = resolved(req.body@, vars);
    if trim(body).len() > 0 && req.method != HttpMethod::Get {
        Some(body)
    } else {
        None
    }
}

/// `p` is what is sent for `req` with the variables `vars`.
pub open spec fn sends(p: PreparedRequest, req: Request, vars: Seq<EnvVariable>) -> bool {
    &&& p.method == req.method
    &&& p.url@ == resolved(req.url@, vars)
    &&& p.headers@.len() == req.headers@.len()
    &&& forall|i: int|
        0 <= i < p.headers@.len() ==> (#[trigger] p.headers@[i].name@, p.headers@[i].value@)
            == sent_header(req.headers@[i], vars)
    &&& match sent_body(req, vars) {
        Some(b) => p.body matches Some(x) && x@ == b,
        None => p.body is None,
    }
}

/// The request with the variables filled in, its headers checked as
/// reqwest checks them: an error for the first header that it refuses.
pub fn prepare_request(req: &Request, env_vars: &[EnvVariable]) -> (r: Result<
    PreparedRequest,
    String,
>)
    ensures
        match header_error(req.headers@, env_vars@) {
            Some(msg) => r matches Err(e) && e@ == msg,
            None => r matches Ok(p) && sends(p, *req, env_vars@),
        },
        req.method != HttpMethod::Get && trim(resolved(req.body@, env_vars@)).len() > 0 ==> (r
            matches Ok(p) ==> (p.body matches Some(b) && b@ == resolved(req.body@, env_vars@))),
        req.method == HttpMethod::Get || trim(resolved(req.body@, env_vars@)).len() == 0 ==> (r
            matches Ok(p) ==> p.body is None),
{
    let url = resolve_placeholders(req.url.as_str(), env_vars);
    let body = resolve_placeholders(req.body.as_str(), env_vars);
    let mut headers: Vec<HeaderEntry> = Vec::new();
    let mut i: usize = 0;
    assert(req.headers@.skip(0) =~= req.headers@);
    while i < req.headers.len()
        invariant
            i <= req.headers@.len(),
            headers@.len() == i,
            forall|k: int|
                0 <= k < i ==> (#[trigger] headers@[k].name@, headers@[k].value@) == sent_header(
                    req.headers@[k],
                    env_vars@,
                ),
            header_error(req.headers@, env_vars@) == header_error(req.headers@.skip(i as int), env_vars@),
        decreases req.headers@.len() - i,
    {
        let ghost rest = req.headers@.skip(i as int);
        assert(rest.drop_first() =~= req.headers@.skip(i + 1));
        assert(rest[0] == req.headers@[i as int]);
        let name = resolve_placeholders(req.headers[i].name.as_str(), env_vars);
        let value = resolve_placeholders(req.headers[i].value.as_str(), env_vars);
        let tname = trim_str(name.as_str());
        let tvalue = trim_str(value.as_str());
        if !header_name_is_valid(tname.as_str()) {
            let mut msg = String::from_str("Invalid header name: ");
            msg.append(name.as_str());
            return Err(msg);
        }
        if !header_value_is_valid(tvalue.as_str()) {
            let mut msg = String::from_str("Invalid header value for ");
            msg.append(name.as_str());
            return Err(msg);
        }
        headers.push(HeaderEntry { name: tname, value: tvalue });
        i += 1;
    }
    assert(req.headers@.skip(i as int) =~= Seq::<HeaderEntry>::empty());
    let trimmed = trim_str(body.as_str());
    let send_body = if trimmed.as_str().unicode_len() > 0 && req.method != HttpMethod::Get {
        Some(body)
    } else {
        None
    };
    Ok(PreparedRequest { method: req.method, url, headers, body: send_body })
}

/// The response summary for a status code, the status as reqwest writes it
/// (`200 OK`), the response headers and the body, cut short where it is long.
pub fn summarize_response(
    code: u16,
    status_text: &str,
    headers: Vec<HeaderEntry>,
    body: String,
) -> (r: ResponseSummary)
    requires
        encode_utf8(body@).len() <= usize::MAX,
        encode_utf8(body@).len() > MAX_BODY_CHARS ==> vstd::utf8::is_char_boundary(
            encode_utf8(body@),
            MAX_BODY_CHARS as int,
        ),
    ensures
        r.status@ == decimal(code as nat) + " "@ + status_text@,
        r.headers@ == headers@,
        encode_utf8(body@).len() <= MAX_BODY_CHARS ==> r.body@ == body@,
        encode_utf8(body@).len() > MAX_BODY_CHARS ==> exists|head: Seq<char>|
            r.body@ == head + truncation_note() && encode_utf8(head) == encode_utf8(body@).take(
                MAX_BODY_CHARS as int,
            ),
{
    let mut status = u64_to_decimal(code as u64);
    status.append(" ");
    status.append(status_text);
    ResponseSummary { status, headers, body: truncate(body) }
}

} // verus!
