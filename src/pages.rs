//! Building responses: the wire format, the listing page, the media page and
//! the error pages.

use vstd::prelude::*;
use vstd::slice::slice_to_vec;
use vstd::string::StrSliceExecFns;
use vstd::utf8::encode_utf8;
use crate::request::lines_view;
use crate::text::{chars_of, decimal, decimal_string, text_eq};
use crate::types::{Errors, HttpResponseBytes, Request, RequestView, status_of};
use crate::utils::{content_type_of, get_content_type};

verus! {

/// The status codes that have a registered reason phrase.
pub open spec fn is_known_status(code: u16) -> bool {
    code == 100
        || code == 101
        || code == 102
        || code == 103
        || code == 200
        || code == 201
        || code == 202
        || code == 203
        || code == 204
        || code == 205
        || code == 206
        || code == 207
        || code == 208
        || code == 226
        || code == 300
        || code == 301
        || code == 302
        || code == 303
        || code == 304
        || code == 305
        || code == 307
        || code == 308
        || code == 400
        || code == 401
        || code == 402
        || code == 403
        || code == 404
        || code == 405
        || code == 406
        || code == 407
        || code == 408
        || code == 409
        || code == 410
        || code == 411
        || code == 412
        || code == 413
        || code == 414
        || code == 415
        || code == 416
        || code == 417
        || code == 418
        || code == 421
        || code == 422
        || code == 423
        || code == 424
        || code == 425
        || code == 426
        || code == 428
        || code == 429
        || code == 431
        || code == 451
        || code == 500
        || code == 501
        || code == 502
        || code == 503
        || code == 504
        || code == 505
        || code == 506
        || code == 507
        || code == 508
        || code == 510
        || code == 511
}

/// The registered reason phrase of each status code.
pub open spec fn reason(code: u16) -> Seq<char> {
    if code == 100 {
        "Continue"@
    } else if code == 101 {
        "Switching Protocols"@
    } else if code == 102 {
        "Processing"@
    } else if code == 103 {
        "Early Hints"@
    } else if code == 200 {
        "OK"@
    } else if code == 201 {
        "Created"@
    } else if code == 202 {
        "Accepted"@
    } else if code == 203 {
        "Non Authoritative Information"@
    } else if code == 204 {
        "No Content"@
    } else if code == 205 {
        "Reset Content"@
    } else if code == 206 {
        "Partial Content"@
    } else if code == 207 {
        "Multi-Status"@
    } else if code == 208 {
        "Already Reported"@
    } else if code == 226 {
        "IM Used"@
    } else if code == 300 {
        "Multiple Choices"@
    } else if code == 301 {
        "Moved Permanently"@
    } else if code == 302 {
        "Found"@
    } else if code == 303 {
        "See Other"@
    } else if code == 304 {
        "Not Modified"@
    } else if code == 305 {
        "Use Proxy"@
    } else if code == 307 {
        "Temporary Redirect"@
    } else if code == 308 {
        "Permanent Redirect"@
    } else if code == 400 {
        "Bad Request"@
    } else if code == 401 {
        "Unauthorized"@
    } else if code == 402 {
        "Payment Required"@
    } else if code == 403 {
        "Forbidden"@
    } else if code == 404 {
        "Not Found"@
    } else if code == 405 {
        "Method Not Allowed"@
    } else if code == 406 {
        "Not Acceptable"@
    } else if code == 407 {
        "Proxy Authentication Required"@
    } else if code == 408 {
        "Request Timeout"@
    } else if code == 409 {
        "Conflict"@
    } else if code == 410 {
        "Gone"@
    } else if code == 411 {
        "Length Required"@
    } else if code == 412 {
        "Precondition Failed"@
    } else if code == 413 {
        "Payload Too Large"@
    } else if code == 414 {
        "URI Too Long"@
    } else if code == 415 {
        "Unsupported Media Type"@
    } else if code == 416 {
        "Range Not Satisfiable"@
    } else if code == 417 {
        "Expectation Failed"@
    } else if code == 418 {
        "I'm a teapot"@
    } else if code == 421 {
        "Misdirected Request"@
    } else if code == 422 {
        "Unprocessable Entity"@
    } else if code == 423 {
        "Locked"@
    } else if code == 424 {
        "Failed Dependency"@
    } else if code == 425 {
        "Too Early"@
    } else if code == 426 {
        "Upgrade Required"@
    } else if code == 428 {
        "Precondition Required"@
    } else if code == 429 {
        "Too Many Requests"@
    } else if code == 431 {
        "Request Header Fields Too Large"@
    } else if code == 451 {
        "Unavailable For Legal Reasons"@
    } else if code == 500 {
        "Internal Server Error"@
    } else if code == 501 {
        "Not Implemented"@
    } else if code == 502 {
        "Bad Gateway"@
    } else if code == 503 {
        "Service Unavailable"@
    } else if code == 504 {
        "Gateway Timeout"@
    } else if code == 505 {
        "HTTP Version Not Supported"@
    } else if code == 506 {
        "Variant Also Negotiates"@
    } else if code == 507 {
        "Insufficient Storage"@
    } else if code == 508 {
        "Loop Detected"@
    } else if code == 510 {
        "Not Extended"@
    } else if code == 511 {
        "Network Authentication Required"@
    } else {
        Seq::empty()
    }
}

/// Relies on http's `StatusCode::from_u16`, which accepts every code from 100
/// to 999, and `StatusCode::canonical_reason`, whose table gives a phrase for
/// the registered codes and none for the others.
#[verifier::external_body]
fn reason_phrase(code: u16) -> (r: Option<String>)
    ensures
        r is Some <==> is_known_status(code),
        r is Some ==> r->0@ == reason(code),
{
    match http::StatusCode::from_u16(code) {
        Ok(status) => status.canonical_reason().map(String::from),
        Err(_) => None,
    }
}

/// Extra header lines, each `<name>: <value>` and a line end.
pub open spec fn headers_text(hs: Seq<(Seq<char>, Seq<char>)>) -> Seq<char>
    decreases hs.len(),
{
    if hs.len() == 0 {
        Seq::empty()
    } else {
        headers_text(hs.drop_last()) + hs.last().0 + ": "@ + hs.last().1 + "\r\n"@
    }
}

/// The status line and the headers, up to and with the blank line.
pub open spec fn head_text(
    code: u16,
    content_type: Seq<char>,
    length: nat,
    extra: Seq<(Seq<char>, Seq<char>)>,
) -> Seq<char> {
    "HTTP/1.1 "@ + decimal(code as nat) + " "@ + reason(code) + "\r\n"@ + headers_text(extra)
        + "Content-Type: "@ + content_type + "\r\nContent-Length: "@ + decimal(length)
        + "\r\n\r\n"@
}

/// A whole response on the wire.
pub open spec fn response_bytes(
    code: u16,
    content_type: Seq<char>,
    body: Seq<u8>,
    extra: Seq<(Seq<char>, Seq<char>)>,
) -> Seq<u8> {
    encode_utf8(head_text(code, content_type, body.len(), extra)) + body
}

pub open spec fn pairs_view(v: Seq<(String, String)>) -> Seq<(Seq<char>, Seq<char>)> {
    v.map_values(|p: (String, String)| (p.0@, p.1@))
}

/// Assembles a response: the status line, the extra headers in the order
/// given, `Content-Type`, `Content-Length`, a blank line and the body.
pub fn generate_response(
    status_code: u16,
    content_type: &str,
    content: &[u8],
    custom_headers: &Vec<(String, String)>,
) -> (r: HttpResponseBytes)
    requires
        is_known_status(status_code),
    ensures
        r@ == response_bytes(status_code, content_type@, content@, pairs_view(custom_headers@)),
{
    let reason_text = match reason_phrase(status_code) {
        Some(p) => p,
        None => String::new(),
    };
    let mut head = String::from_str("HTTP/1.1 ");
    head.append(decimal_string(status_code as u64).as_str());
    head.append(" ");
    head.append(reason_text.as_str());
    head.append("\r\n");
    let ghost start = head@;
    let ghost hv = pairs_view(custom_headers@);
    let mut i: usize = 0;
    while i < custom_headers.len()
        invariant
            i <= custom_headers@.len(),
            hv == pairs_view(custom_headers@),
            head@ == start + headers_text(hv.take(i as int)),
        decreases custom_headers.len() - i,
    {
        let pair = &custom_headers[i];
        head.append(pair.0.as_str());
        head.append(": ");
        head.append(pair.1.as_str());
        head.append("\r\n");
        assert(hv.take(i + 1).drop_last() =~= hv.take(i as int));
        i = i + 1;
    }
    assert(hv.take(i as int) =~= hv);
    head.append("Content-Type: ");
    head.append(content_type);
    head.append("\r\nContent-Length: ");
    head.append(decimal_string(content.len() as u64).as_str());
    head.append("\r\n\r\n");
    let mut out = slice_to_vec(head.as_str().as_bytes());
    let ghost head_bytes = out@;
    let mut j: usize = 0;
    while j < content.len()
        invariant
            j <= content@.len(),
            out@ == head_bytes + content@.subrange(0, j as int),
        decreases content.len() - j,
    {
        out.push(content[j]);
        j = j + 1;
    }
    assert(content@.subrange(0, j as int) =~= content@);
    out
}

/// The names joined by line feeds.
pub open spec fn join_lines(names: Seq<Seq<char>>) -> Seq<char>
    decreases names.len(),
{
    if names.len() == 0 {
        Seq::empty()
    } else if names.len() == 1 {
        names[0]
    } else {
        join_lines(names.drop_last()) + "\n"@ + names.last()
    }
}

/// The listing page: the file names, one per line, as plain text.
pub fn index(available_files: &Vec<String>) -> (r: HttpResponseBytes)
    ensures
        r@ == response_bytes(
            200,
            "text/plain"@,
            encode_utf8(join_lines(lines_view(available_files@))),
            Seq::empty(),
        ),
{
    let ghost names = lines_view(available_files@);
    let mut joined = String::new();
    let mut i: usize = 0;
    while i < available_files.len()
        invariant
            i <= available_files@.len(),
            names == lines_view(available_files@),
            joined@ == join_lines(names.take(i as int)),
        decreases available_files.len() - i,
    {
        if i > 0 {
            joined.append("\n");
        }
        joined.append(available_files[i].as_str());
        assert(names.take(i + 1).drop_last() =~= names.take(i as int));
        if i == 0 {
            assert(names.take(0) =~= Seq::<Seq<char>>::empty());
        }
        i = i + 1;
    }
    assert(names.take(i as int) =~= names);
    let none: Vec<(String, String)> = Vec::new();
    assert(pairs_view(none@) =~= Seq::empty());
    generate_response(200, "text/plain", joined.as_str().as_bytes(), &none)
}

/// The text of an error page's title and heading.
pub open spec fn error_title(code: u16) -> Seq<char> {
    decimal(code as nat) + " "@ + reason(code)
}

/// A minimal HTML page whose title and heading both name the status.
pub open spec fn error_html(code: u16) -> Seq<char> {
    " <!DOCTYPE html> <html lang=\"en\">\n        <head> <meta charset=\"utf-8\"> <title>"@
        + error_title(code) + "</title> </head> <body>\n            <h1>"@ + error_title(code)
        + "</h1> </body> </html>"@
}

/// The response that reports a status code as an error page.
pub open spec fn error_response(code: u16) -> Seq<u8> {
    response_bytes(code, "text/html"@, encode_utf8(error_html(code)), Seq::empty())
}

/// The error page for a status code.
pub fn error(error_code: u16) -> (r: HttpResponseBytes)
    requires
        is_known_status(error_code),
    ensures
        r@ == error_response(error_code),
{
    let reason_text = match reason_phrase(error_code) {
        Some(p) => p,
        None => String::new(),
    };
    let mut title = decimal_string(error_code as u64);
    title.append(" ");
    title.append(reason_text.as_str());
    let mut page = String::from_str(
        " <!DOCTYPE html> <html lang=\"en\">\n        <head> <meta charset=\"utf-8\"> <title>",
    );
    page.append(title.as_str());
    page.append("</title> </head> <body>\n            <h1>");
    page.append(title.as_str());
    page.append("</h1> </body> </html>");
    let none: Vec<(String, String)> = Vec::new();
    assert(pairs_view(none@) =~= Seq::empty());
    generate_response(error_code, "text/html", page.as_str().as_bytes(), &none)
}

impl Errors {
    /// The error page that answers this error.
    pub fn get_page(&self) -> (r: HttpResponseBytes)
        ensures
            r@ == error_response(status_of(*self)),
    {
        error(self.status_code())
    }
}

/// What percent-decoding a URL path gives, or `None` where the decoded bytes
/// are not UTF-8.
pub uninterp spec fn url_decoded(s: Seq<char>) -> Option<Seq<char>>;

/// Relies on `urlencoding::decode`: percent-decoding, then a UTF-8 check; its
/// result depends on the text alone.
#[verifier::external_body]
fn decode_url(s: &str) -> (r: Option<String>)
    ensures
        r is None <==> url_decoded(s@) is None,
        r is Some ==> url_decoded(s@) == Some(r->0@),
{
    match urlencoding::decode(s) {
        Ok(d) => Some(d.into_owned()),
        Err(_) => None,
    }
}

/// `s` without its leading slashes.
pub open spec fn trim_slashes(s: Seq<char>) -> Seq<char>
    decreases s.len(),
{
    if s.len() > 0 && s[0] == '/' {
        trim_slashes(s.drop_first())
    } else {
        s
    }
}

/// The file that a media path names, or the status that refuses it: 400
/// where the path does not decode, 404 where the decoded name is not one of
/// the files present.
pub open spec fn resolve_outcome(route: Seq<char>, files: Seq<Seq<char>>) -> Result<
    Seq<char>,
    u16,
> {
    match url_decoded(trim_slashes(route)) {
        None => Err(400),
        Some(name) => if files.contains(name) {
            Ok(name)
        } else {
            Err(404)
        },
    }
}

fn trim_leading_slashes(s: &str) -> (r: &str)
    ensures
        r@ == trim_slashes(s@),
{
    let cs = chars_of(s);
    let n = cs.len();
    let mut k: usize = 0;
    assert(s@.subrange(0, n as int) =~= s@);
    while k < n && cs[k] == '/'
        invariant
            cs@ == s@,
            n == s@.len(),
            k <= n,
            trim_slashes(s@) == trim_slashes(s@.subrange(k as int, n as int)),
        decreases n - k,
    {
        assert(s@.subrange(k as int, n as int).drop_first() =~= s@.subrange(k + 1, n as int));
        k = k + 1;
    }
    s.substring_char(k, n)
}

/// Decodes a media path and checks the name against the files present in
/// the media directory: a name is only ever taken from that listing.
pub fn resolve_media(route: &str, available_files: &Vec<String>) -> (r: Result<String, Errors>)
    ensures
        match resolve_outcome(route@, lines_view(available_files@)) {
            Ok(name) => r is Ok && r->Ok_0@ == name,
            Err(code) => r is Err && status_of(r->Err_0) == code,
        },
{
    let trimmed = trim_leading_slashes(route);
    let name = match decode_url(trimmed) {
        Some(n) => n,
        None => return Err(Errors::ClientError(String::from_str("Unable to decode url"))),
    };
    let ghost files = lines_view(available_files@);
    let mut i: usize = 0;
    while i < available_files.len()
        invariant
            i <= available_files@.len(),
            files == lines_view(available_files@),
            url_decoded(trim_slashes(route@)) == Some(name@),
            forall|j: int| 0 <= j < i ==> files[j] != name@,
        decreases available_files.len() - i,
    {
        if text_eq(available_files[i].as_str(), name.as_str()) {
            assert(files[i as int] == name@);
            return Ok(name);
        }
        i = i + 1;
    }
    Err(Errors::NotFound)
}

/// The inclusive interval that a range selects in a resource of `length`
/// bytes: an open end stands for the last byte. `None` where the interval
/// is empty or reaches past the end.
pub open spec fn resolved_range(start: u64, end: Option<u64>, length: nat) -> Option<(nat, nat)> {
    let last: int = match end {
        Some(e) => e as int,
        None => length - 1,
    };
    if start < length && start <= last && last < length {
        Some((start as nat, last as nat))
    } else {
        None
    }
}

/// The headers that go with partial content.
pub open spec fn range_headers(start: nat, last: nat, length: nat) -> Seq<(Seq<char>, Seq<char>)> {
    seq![
        ("Accept-Ranges"@, "bytes"@),
        ("Content-Range"@, "bytes "@ + decimal(start) + "-"@ + decimal(last) + "/"@ + decimal(length)),
    ]
}

/// The response to a request for a file with the given content, or the
/// status that refuses it.
pub open spec fn media_outcome(req: RequestView, name: Seq<char>, content: Seq<u8>) -> Result<
    Seq<u8>,
    u16,
> {
    match content_type_of(name) {
        None => Err(400),
        Some(ct) => match req.range {
            None => Ok(response_bytes(200, ct, content, Seq::empty())),
            Some((start, end)) => match resolved_range(start, end, content.len()) {
                None => Err(416),
                Some((a, b)) => Ok(
                    response_bytes(
                        206,
                        ct,
                        content.subrange(a as int, (b + 1) as int),
                        range_headers(a, b, content.len()),
                    ),
                ),
            },
        },
    }
}

/// Serves a file whose name has been resolved and whose content has been
/// read: all of it, or the byte range that the request asks for.
pub fn media(request: &Request, file_name: &str, file_content: &Vec<u8>) -> (r: Result<
    HttpResponseBytes,
    Errors,
>)
    ensures
        match media_outcome(request@, file_name@, file_content@) {
            Ok(bytes) => r is Ok && r->Ok_0@ == bytes,
            Err(code) => r is Err && status_of(r->Err_0) == code,
        },
{
    let content_type = match get_content_type(file_name) {
        Ok(t) => t,
        Err(e) => return Err(Errors::ClientError(e)),
    };
    match request.get_range() {
        None => {
            let none: Vec<(String, String)> = Vec::new();
            assert(pairs_view(none@) =~= Seq::empty());
            Ok(generate_response(200, content_type.as_str(), file_content.as_slice(), &none))
        },
        Some((bytes_start, bytes_end)) => {
            let length = file_content.len() as u64;
            let last: u64 = match bytes_end {
                Some(e) => e,
                None => {
                    if length == 0 {
                        return Err(Errors::InvalidContentRange);
                    }
                    length - 1
                },
            };
            if !(bytes_start < length && bytes_start <= last && last < length) {
                return Err(Errors::InvalidContentRange);
            }
            assert(length as int == file_content@.len());
            let first = bytes_start as usize;
            let stop = last as usize + 1;
            let mut part: Vec<u8> = Vec::new();
            let mut i: usize = first;
            while i < stop
                invariant
                    first == bytes_start,
                    stop == last + 1,
                    first <= i <= stop,
                    stop <= file_content@.len(),
                    part@ == file_content@.subrange(bytes_start as int, i as int),
                decreases stop - i,
            {
                part.push(file_content[i]);
                assert(file_content@.subrange(bytes_start as int, i + 1) =~= part@);
                i = i + 1;
            }
            let mut headers: Vec<(String, String)> = Vec::new();
            headers.push((String::from_str("Accept-Ranges"), String::from_str("bytes")));
            let mut value = String::from_str("bytes ");
            value.append(decimal_string(bytes_start).as_str());
            value.append("-");
            value.append(decimal_string(last).as_str());
            value.append("/");
            value.append(decimal_string(length).as_str());
            headers.push((String::from_str("Content-Range"), value));
            assert(pairs_view(headers@) =~= range_headers(
                bytes_start as nat,
                last as nat,
                file_content@.len(),
            ));
            Ok(generate_response(206, content_type.as_str(), part.as_slice(), &headers))
        },
    }
}

/// The media step as a whole: resolves a path against the listing, reads
/// the file only where its name is one of the files present, and serves it.
/// What the read hands back is not known here, so the result is stated for
/// whatever it returned.
pub fn serve_media<R>(
    request: &Request,
    route: &str,
    available_files: &Vec<String>,
    read: R,
) -> (r: Result<HttpResponseBytes, Errors>) where R: FnOnce(String) -> Result<Vec<u8>, Errors>
    requires
        forall|name: String| call_requires(read, (name,)),
    ensures
        match resolve_outcome(route@, lines_view(available_files@)) {
            Err(code) => r is Err && status_of(r->Err_0) == code,
            Ok(name) => exists|arg: String, got: Result<Vec<u8>, Errors>|
                arg@ == name && call_ensures(read, (arg,), got) && match got {
                    Err(e) => r is Err && status_of(r->Err_0) == status_of(e),
                    Ok(content) => match media_outcome(request@, name, content@) {
                        Ok(bytes) => r is Ok && r->Ok_0@ == bytes,
                        Err(code) => r is Err && status_of(r->Err_0) == code,
                    },
                },
        },
{
    let file_name = match resolve_media(route, available_files) {
        Ok(n) => n,
        Err(e) => return Err(e),
    };
    let got = read(file_name.clone());
    match got {
        Err(e) => Err(e),
        Ok(content) => media(request, file_name.as_str(), &content),
    }
}

} // verus!
