//! Reading a request from the lines of its head.

use vstd::prelude::*;
use crate::text::{split_once, split_once_exec, text_eq};
use crate::types::{ByteRange, Errors, Request, RequestView, header_map, status_of};
use crate::utils::{range_of, parse_range_header};

verus! {

/// The header lines: those that follow the start line, up to the first empty
/// line or the end.
pub open spec fn header_block(rest: Seq<Seq<char>>) -> Seq<Seq<char>>
    decreases rest.len(),
{
    if rest.len() == 0 || rest[0].len() == 0 {
        Seq::empty()
    } else {
        seq![rest[0]] + header_block(rest.drop_first())
    }
}

/// The headers and the range that header lines give, or `None` where one of
/// them does not hold `": "` exactly once, or is a `Range` header that does
/// not parse.
pub open spec fn parse_headers(hs: Seq<Seq<char>>) -> Option<
    (Map<Seq<char>, Seq<char>>, Option<ByteRange>),
>
    decreases hs.len(),
{
    if hs.len() == 0 {
        Some((Map::empty(), None))
    } else {
        match parse_headers(hs.drop_last()) {
            None => None,
            Some((m, r)) => match split_once(hs.last(), ": "@) {
                None => None,
                Some((name, value)) => if split_once(value, ": "@) is Some {
                    None
                } else if name == "Range"@ {
                    match range_of(hs.last()) {
                        None => None,
                        Some(b) => Some((m.insert(name, value), Some(b))),
                    }
                } else {
                    Some((m.insert(name, value), r))
                },
            },
        }
    }
}

/// The request that the lines of a request head describe: the start line's
/// first two space-separated words are the method and the endpoint.
pub open spec fn request_of(lines: Seq<Seq<char>>) -> Option<RequestView> {
    if lines.len() == 0 {
        None
    } else {
        match split_once(lines[0], " "@) {
            None => None,
            Some((method, rest)) => {
                let endpoint = match split_once(rest, " "@) {
                    Some((e, _)) => e,
                    None => rest,
                };
                match parse_headers(header_block(lines.drop_first())) {
                    None => None,
                    Some((headers, range)) => Some(
                        RequestView { method, endpoint, headers, range },
                    ),
                }
            },
        }
    }
}

pub open spec fn lines_view(lines: Seq<String>) -> Seq<Seq<char>> {
    lines.map_values(|l: String| l@)
}

pub proof fn lemma_header_block(rest: Seq<Seq<char>>, k: int)
    requires
        0 <= k <= rest.len(),
        forall|j: int| 0 <= j < k ==> (#[trigger] rest[j]).len() > 0,
    ensures
        header_block(rest).len() >= k,
        header_block(rest).take(k) == rest.take(k),
        (k == rest.len() || rest[k].len() == 0) ==> header_block(rest) == rest.take(k),
    decreases k,
{
    if k > 0 {
        let t = rest.drop_first();
        assert forall|j: int| 0 <= j < k - 1 implies (#[trigger] t[j]).len() > 0 by {
            assert(t[j] == rest[j + 1]);
        }
        lemma_header_block(t, k - 1);
        let hb = header_block(rest);
        assert(hb == seq![rest[0]] + header_block(t));
        assert forall|j: int| 0 <= j < k implies hb[j] == rest[j] by {
            if j > 0 {
                assert(hb[j] == header_block(t)[j - 1]);
                assert(header_block(t).take(k - 1)[j - 1] == t.take(k - 1)[j - 1]);
            }
        }
        assert(hb.take(k) =~= rest.take(k));
        if k == rest.len() || rest[k].len() == 0 {
            assert(t.len() == k - 1 || t[k - 1].len() == 0);
            assert(header_block(t) =~= t.take(k - 1));
            assert(hb =~= rest.take(k));
        }
    } else {
        if k == rest.len() || rest[k].len() == 0 {
            assert(header_block(rest) =~= rest.take(k));
        }
    }
}

proof fn lemma_parse_headers_prefix(hs: Seq<Seq<char>>, k: int)
    requires
        0 <= k <= hs.len(),
        parse_headers(hs.take(k)) is None,
    ensures
        parse_headers(hs) is None,
    decreases hs.len(),
{
    if k == hs.len() {
        assert(hs.take(k) =~= hs);
    } else {
        assert(hs.drop_last().take(k) =~= hs.take(k));
        lemma_parse_headers_prefix(hs.drop_last(), k);
    }
}

/// Where the first `k` header lines already fail, the whole head fails.
pub proof fn lemma_head_fails(tail: Seq<Seq<char>>, k: int)
    requires
        0 <= k <= tail.len(),
        forall|j: int| 0 <= j < k ==> (#[trigger] tail[j]).len() > 0,
        parse_headers(tail.take(k)) is None,
    ensures
        parse_headers(header_block(tail)) is None,
{
    lemma_header_block(tail, k);
    assert(header_block(tail).take(k) == tail.take(k));
    lemma_parse_headers_prefix(header_block(tail), k);
}

impl Request {
    /// Builds a request from the lines of its head, as a line reader hands
    /// them out (without line ends). Reading stops at the first empty line.
    pub fn from_buffer(lines: &Vec<String>) -> (r: Result<Request, String>)
        ensures
            r is Ok <==> request_of(lines_view(lines@)) is Some,
            r matches Ok(req) ==> request_of(lines_view(lines@)) == Some(req@),
    {
        let ghost lv = lines_view(lines@);
        if lines.len() == 0 {
            return Err(String::from_str("Start line empty"));
        }
        let start_line = lines[0].as_str();
        assert(lv[0] == start_line@);
        let (method, rest) = match split_once_exec(start_line, " ") {
            Some(p) => p,
            None => return Err(String::from_str("No endpoint found in request")),
        };
        let endpoint = match split_once_exec(rest, " ") {
            Some((e, _)) => e,
            None => rest,
        };
        let ghost tail = lv.drop_first();
        let mut headers: Vec<(String, String)> = Vec::new();
        let mut range: Option<ByteRange> = None;
        let mut i: usize = 1;
        while i < lines.len()
            invariant
                lv == lines_view(lines@),
                tail == lv.drop_first(),
                1 <= i <= lines@.len(),
                forall|j: int| 0 <= j < i - 1 ==> (#[trigger] tail[j]).len() > 0,
                parse_headers(tail.take(i - 1)) == Some((header_map(headers@), range)),
            ensures
                1 <= i <= lines@.len(),
                i == lines@.len() || tail[i - 1].len() == 0,
                forall|j: int| 0 <= j < i - 1 ==> (#[trigger] tail[j]).len() > 0,
                parse_headers(tail.take(i - 1)) == Some((header_map(headers@), range)),
            decreases lines.len() - i,
        {
            let line = lines[i].as_str();
            assert(tail[i - 1] == line@);
            if line.is_empty() {
                break;
            }
            let ghost prev = tail.take(i - 1);
            assert(tail.take(i as int).drop_last() =~= prev);
            assert(tail.take(i as int).last() == line@);
            let (name, value) = match split_once_exec(line, ": ") {
                Some(p) => p,
                None => {
                    proof {
                        lemma_head_fails(tail, i as int);
                    }
                    return Err(String::from_str("Error parsing header"));
                },
            };
            if split_once_exec(value, ": ").is_some() {
                proof {
                    lemma_head_fails(tail, i as int);
                }
                return Err(String::from_str("Error parsing header"));
            }
            let ghost hs0 = headers@;
            headers.push((name.to_owned(), value.to_owned()));
            assert(headers@.drop_last() =~= hs0);
            if text_eq(name, "Range") {
                match parse_range_header(line) {
                    Ok(b) => {
                        range = b;
                    },
                    Err(e) => {
                        proof {
                            lemma_head_fails(tail, i as int);
                        }
                        return Err(e);
                    },
                }
            }
            i = i + 1;
        }
        proof {
            lemma_header_block(tail, i - 1);
        }
        Ok(Request {
            method: method.to_owned(),
            endpoint: endpoint.to_owned(),
            headers,
            range,
        })
    }
}

/// Builds a request from the lines of its head; a head that does not parse
/// is a client error.
pub fn parse_request(lines: &Vec<String>) -> (r: Result<Request, Errors>)
    ensures
        r is Ok <==> request_of(lines_view(lines@)) is Some,
        r matches Ok(req) ==> request_of(lines_view(lines@)) == Some(req@),
        r matches Err(e) ==> status_of(e) == 400 && e is ClientError,
{
    match Request::from_buffer(lines) {
        Ok(req) => Ok(req),
        Err(e) => {
            let mut detail = String::from_str("Error parsing request: ");
            detail.append(e.as_str());
            Err(Errors::ClientError(detail))
        },
    }
}

} // verus!
