//! Parsers for the `Range` header and for a file name's content type.

use vstd::prelude::*;
use crate::text::{split_once, split_once_exec, parse_u64, parse_u64_exec, text_eq};
use crate::types::ByteRange;

verus! {

/// The interval that a `Range` header line asks for: after the first `=`,
/// a start, a `-`, and an end that may be left out.
pub open spec fn range_of(line: Seq<char>) -> Option<ByteRange> {
    match split_once(line, "="@) {
        None => None,
        Some((_, spec_range)) => match split_once(spec_range, "-"@) {
            None => None,
            Some((a, b)) => match parse_u64(a) {
                None => None,
                Some(start) => if b.len() == 0 {
                    Some((start, None))
                } else {
                    match parse_u64(b) {
                        None => None,
                        Some(end) => Some((start, Some(end))),
                    }
                },
            },
        },
    }
}

/// The content type that a file name's extension (all that follows its
/// first `.`) stands for.
pub open spec fn content_type_of(name: Seq<char>) -> Option<Seq<char>> {
    match split_once(name, "."@) {
        None => None,
        Some((_, ext)) => if ext == "mp3"@ {
            Some("audio/mpeg"@)
        } else if ext == "csv"@ || ext == "txt"@ {
            Some("text/plain"@)
        } else if ext == "jpg"@ || ext == "jpeg"@ {
            Some("image/jpeg"@)
        } else if ext == "png"@ {
            Some("image/png"@)
        } else {
            None
        },
    }
}

/// Parses a `Range` header line such as `Range: bytes=0-99` or
/// `Range: bytes=100-`. Start and end are not checked against each other.
pub fn parse_range_header(line: &str) -> (r: Result<Option<ByteRange>, String>)
    ensures
        r is Ok <==> range_of(line@) is Some,
        r matches Ok(x) ==> x == Some(range_of(line@)->0),
{
    let byte_range = match split_once_exec(line, "=") {
        Some((_, b)) => b,
        None => return Err(String::from_str("Error parsing Range header")),
    };
    let (start, end) = match split_once_exec(byte_range, "-") {
        Some(p) => p,
        None => return Err(String::from_str("Error parsing Range header")),
    };
    let start = match parse_u64_exec(start) {
        Some(v) => v,
        None => return Err(String::from_str("Error parsing Range byte range")),
    };
    if end.is_empty() {
        return Ok(Some((start, None)));
    }
    match parse_u64_exec(end) {
        Some(v) => Ok(Some((start, Some(v)))),
        None => Err(String::from_str("Error parsing Range byte range")),
    }
}

/// The content type of a file, from its extension.
pub fn get_content_type(file_name: &str) -> (r: Result<String, String>)
    ensures
        r is Ok <==> content_type_of(file_name@) is Some,
        r matches Ok(t) ==> content_type_of(file_name@) == Some(t@),
{
    let extension = match split_once_exec(file_name, ".") {
        Some((_, e)) => e,
        None => return Err(String::from_str("Unable to get file type")),
    };
    if text_eq(extension, "mp3") {
        Ok(String::from_str("audio/mpeg"))
    } else if text_eq(extension, "csv") || text_eq(extension, "txt") {
        Ok(String::from_str("text/plain"))
    } else if text_eq(extension, "jpg") || text_eq(extension, "jpeg") {
        Ok(String::from_str("image/jpeg"))
    } else if text_eq(extension, "png") {
        Ok(String::from_str("image/png"))
    } else {
        Err(String::from_str("Invalid file extension"))
    }
}

} // verus!
