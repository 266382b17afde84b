//! Properties of the server as a whole, stated over the specifications of
//! its parts.

use vstd::prelude::*;
use crate::pages::{
    join_lines,
    media_outcome, range_headers, resolve_outcome, response_bytes, trim_slashes, url_decoded,
};
use crate::request::{header_block, lemma_head_fails, parse_headers, request_of};
use crate::server::route_outcome;
use crate::text::split_once;
use crate::types::RequestView;
use crate::utils::content_type_of;

verus! {

/// A bounded range `A-B` with `A <= B < length` is answered with status 206,
/// exactly the bytes from `A` to `B` inclusive, and a `Content-Range` of
/// `bytes A-B/length`.
pub proof fn lemma_bounded_range(
    req: RequestView,
    name: Seq<char>,
    content: Seq<u8>,
    a: u64,
    b: u64,
)
    requires
        req.range == Some((a, Some(b))),
        a <= b,
        b < content.len(),
        content_type_of(name) is Some,
    ensures
        media_outcome(req, name, content) == Ok::<Seq<u8>, u16>(
            response_bytes(
                206,
                content_type_of(name)->0,
                content.subrange(a as int, b + 1),
                range_headers(a as nat, b as nat, content.len()),
            ),
        ),
{
}

/// An open range `A-` with `A < length` is answered with status 206 and the
/// bytes from `A` to the last one.
pub proof fn lemma_open_range(req: RequestView, name: Seq<char>, content: Seq<u8>, a: u64)
    requires
        req.range == Some((a, None::<u64>)),
        a < content.len(),
        content_type_of(name) is Some,
    ensures
        media_outcome(req, name, content) == Ok::<Seq<u8>, u16>(
            response_bytes(
                206,
                content_type_of(name)->0,
                content.subrange(a as int, content.len() as int),
                range_headers(a as nat, (content.len() - 1) as nat, content.len()),
            ),
        ),
{
}

/// A range whose end reaches past the last byte is refused with status 416,
/// whatever the file holds: two files of such lengths get the same answer.
pub proof fn lemma_unsatisfiable_range(
    req: RequestView,
    name: Seq<char>,
    content: Seq<u8>,
    other: Seq<u8>,
    a: u64,
    b: u64,
)
    requires
        req.range == Some((a, Some(b))),
        b >= content.len(),
        b >= other.len(),
        content_type_of(name) is Some,
    ensures
        media_outcome(req, name, content) == Err::<Seq<u8>, u16>(416),
        media_outcome(req, name, other) == media_outcome(req, name, content),
{
}

/// A file asked for without a range is answered with status 200, all of its
/// bytes, and the content type of its extension.
pub proof fn lemma_whole_file(req: RequestView, name: Seq<char>, content: Seq<u8>)
    requires
        req.range is None,
        content_type_of(name) is Some,
    ensures
        media_outcome(req, name, content) == Ok::<Seq<u8>, u16>(
            response_bytes(200, content_type_of(name)->0, content, Seq::empty()),
        ),
{
}

/// A path whose decoded name is not in the directory listing is answered
/// with status 404, whatever file that path might reach otherwise.
pub proof fn lemma_absent_file(route: Seq<char>, files: Seq<Seq<char>>)
    requires
        url_decoded(trim_slashes(route)) is Some,
        !files.contains(url_decoded(trim_slashes(route))->0),
    ensures
        resolve_outcome(route, files) == Err::<Seq<char>, u16>(404),
{
}

/// A method other than `GET` is answered with status 405, before the path
/// is looked at.
pub proof fn lemma_only_get(req: RequestView)
    requires
        req.method != "GET"@,
    ensures
        route_outcome(req) == Err::<Option<Seq<char>>, u16>(405),
{
}

/// A start line without a space between method and path makes the request
/// unparseable.
pub proof fn lemma_bad_start_line(lines: Seq<Seq<char>>)
    requires
        lines.len() > 0,
        split_once(lines[0], " "@) is None,
    ensures
        request_of(lines) is None,
{
}

/// A header line that does not hold `": "` exactly once makes the request
/// unparseable.
pub proof fn lemma_bad_header_line(lines: Seq<Seq<char>>, k: int)
    requires
        1 <= k < lines.len(),
        forall|j: int| 1 <= j <= k ==> (#[trigger] lines[j]).len() > 0,
        match split_once(lines[k], ": "@) {
            None => true,
            Some((_, value)) => split_once(value, ": "@) is Some,
        },
    ensures
        request_of(lines) is None,
{
    let tail = lines.drop_first();
    assert forall|j: int| 0 <= j < k implies (#[trigger] tail[j]).len() > 0 by {
        assert(tail[j] == lines[j + 1]);
    }
    let hs = tail.take(k);
    assert(hs.last() == lines[k]);
    if parse_headers(hs.drop_last()) is Some {
        assert(parse_headers(hs) is None);
    }
    lemma_head_fails(tail, k);
    assert(parse_headers(header_block(tail)) is None);
}

/// The lines of a text: the pieces between line feeds.
pub open spec fn lines_of(s: Seq<char>) -> Seq<Seq<char>>
    decreases s.len(),
{
    if s.len() == 0 {
        seq![Seq::empty()]
    } else {
        let rest = lines_of(s.drop_last());
        if s.last() == '\n' {
            rest.push(Seq::empty())
        } else {
            rest.update(rest.len() - 1, rest.last().push(s.last()))
        }
    }
}

pub open spec fn has_no_line_feed(s: Seq<char>) -> bool {
    forall|i: int| 0 <= i < s.len() ==> s[i] != '\n'
}

proof fn lemma_single_line(s: Seq<char>)
    requires
        has_no_line_feed(s),
    ensures
        lines_of(s) == seq![s],
    decreases s.len(),
{
    if s.len() > 0 {
        lemma_single_line(s.drop_last());
        assert(s.drop_last().push(s.last()) =~= s);
        assert(seq![s.drop_last()].update(0, s.drop_last().push(s.last())) =~= seq![s]);
    } else {
        assert(s =~= Seq::<char>::empty());
    }
}

proof fn lemma_next_line(a: Seq<char>, b: Seq<char>)
    requires
        has_no_line_feed(b),
    ensures
        lines_of(a + "\n"@ + b) == lines_of(a).push(b),
    decreases b.len(),
{
    reveal_strlit("\n");
    let t = a + "\n"@ + b;
    if b.len() == 0 {
        assert(t.drop_last() =~= a);
        assert(b =~= Seq::<char>::empty());
    } else {
        lemma_next_line(a, b.drop_last());
        assert(t.drop_last() =~= a + "\n"@ + b.drop_last());
        assert(t.last() == b.last());
        assert(b.drop_last().push(b.last()) =~= b);
        assert(lines_of(a).push(b.drop_last()).update(
            lines_of(a).len() as int,
            b.drop_last().push(b.last()),
        ) =~= lines_of(a).push(b));
    }
}

/// The listing body holds one file name per line, each once and in the
/// order given, where there is at least one name and none holds a line
/// feed.
pub proof fn lemma_listing_lines(names: Seq<Seq<char>>)
    requires
        names.len() > 0,
        forall|i: int| 0 <= i < names.len() ==> has_no_line_feed(#[trigger] names[i]),
    ensures
        lines_of(join_lines(names)) == names,
        lines_of(join_lines(names)).to_set() == names.to_set(),
    decreases names.len(),
{
    if names.len() == 1 {
        lemma_single_line(names[0]);
        assert(seq![names[0]] =~= names);
    } else {
        let init = names.drop_last();
        assert forall|i: int| 0 <= i < init.len() implies has_no_line_feed(#[trigger] init[i]) by {
            assert(init[i] == names[i]);
        }
        lemma_listing_lines(init);
        lemma_next_line(join_lines(init), names.last());
        assert(init.push(names.last()) =~= names);
    }
}

} // verus!
