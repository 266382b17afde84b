use media_server::pages::{error, generate_response, index, media, resolve_media, serve_media};
use media_server::request::parse_request;
use media_server::types::Request;
use media_server::server::{respond, route, Target};
use media_server::types::Errors;
use media_server::utils::{get_content_type, parse_range_header};

fn lines(ls: &[&str]) -> Vec<String> {
    ls.iter().map(|l| l.to_string()).collect()
}

fn names(ns: &[&str]) -> Vec<String> {
    ns.iter().map(|n| n.to_string()).collect()
}

fn text(bytes: &[u8]) -> String {
    String::from_utf8(bytes.to_vec()).unwrap()
}

fn get(path: &str, range: Option<&str>) -> Request {
    let mut ls = vec![format!("GET {path} HTTP/1.1"), "Host: localhost".to_string()];
    if let Some(r) = range {
        ls.push(format!("Range: {r}"));
    }
    ls.push(String::new());
    Request::from_buffer(&ls).unwrap()
}

#[test]
fn range_bounded() {
    assert_eq!(parse_range_header("Range: bytes=1-3"), Ok(Some((1, Some(3)))));
}

#[test]
fn range_open_ended() {
    assert_eq!(parse_range_header("Range: bytes=5-"), Ok(Some((5, None))));
}

#[test]
fn range_start_not_checked_against_end() {
    assert_eq!(parse_range_header("Range: bytes=9-2"), Ok(Some((9, Some(2)))));
}

#[test]
fn range_plus_sign_and_largest_value() {
    assert_eq!(parse_range_header("Range: bytes=+7-8"), Ok(Some((7, Some(8)))));
    assert_eq!(
        parse_range_header("Range: bytes=0-18446744073709551615"),
        Ok(Some((0, Some(u64::MAX))))
    );
}

#[test]
fn range_malformed() {
    assert!(parse_range_header("Range: bytes 1-3").is_err());
    assert!(parse_range_header("Range: bytes=13").is_err());
    assert!(parse_range_header("Range: bytes=-3").is_err());
    assert!(parse_range_header("Range: bytes=a-3").is_err());
    assert!(parse_range_header("Range: bytes=1-3x").is_err());
    assert!(parse_range_header("Range: bytes=+-3").is_err());
    assert!(parse_range_header("Range: bytes=18446744073709551616-").is_err());
}

#[test]
fn content_types() {
    assert_eq!(get_content_type("song.mp3"), Ok("audio/mpeg".to_string()));
    assert_eq!(get_content_type("data.csv"), Ok("text/plain".to_string()));
    assert_eq!(get_content_type("a.txt"), Ok("text/plain".to_string()));
    assert_eq!(get_content_type("p.jpg"), Ok("image/jpeg".to_string()));
    assert_eq!(get_content_type("p.jpeg"), Ok("image/jpeg".to_string()));
    assert_eq!(get_content_type("b.png"), Ok("image/png".to_string()));
}

#[test]
fn content_type_refused() {
    assert!(get_content_type("README").is_err());
    assert!(get_content_type("clip.gif").is_err());
    assert!(get_content_type("archive.tar.gz").is_err());
    assert!(get_content_type("a.TXT").is_err());
}

#[test]
fn request_with_headers() {
    let req = Request::from_buffer(&lines(&[
        "GET /a.txt HTTP/1.1",
        "Host: localhost",
        "Range: bytes=1-3",
        "",
        "not: read",
    ]))
    .unwrap();
    assert_eq!(req.get_method(), "GET");
    assert_eq!(req.get_endpoint(), "/a.txt");
    assert_eq!(req.get_range(), Some((1, Some(3))));
    assert_eq!(req.headers.len(), 2);
}

#[test]
fn request_stops_at_blank_line() {
    let req = Request::from_buffer(&lines(&["GET / HTTP/1.1", "", "Range: bytes=1-3"])).unwrap();
    assert_eq!(req.get_endpoint(), "/");
    assert_eq!(req.get_range(), None);
}

#[test]
fn request_without_blank_line() {
    let req = Request::from_buffer(&lines(&["HEAD /x.png extra words", "A: b"])).unwrap();
    assert_eq!(req.get_method(), "HEAD");
    assert_eq!(req.get_endpoint(), "/x.png");
}

#[test]
fn request_last_range_wins() {
    let req = Request::from_buffer(&lines(&[
        "GET /a.txt HTTP/1.1",
        "Range: bytes=1-3",
        "Range: bytes=4-",
    ]))
    .unwrap();
    assert_eq!(req.get_range(), Some((4, None)));
}

#[test]
fn request_unparseable() {
    assert!(Request::from_buffer(&lines(&[])).is_err());
    assert!(Request::from_buffer(&lines(&[""])).is_err());
    assert!(Request::from_buffer(&lines(&["GET"])).is_err());
    assert!(Request::from_buffer(&lines(&["GET / HTTP/1.1", "Host:localhost"])).is_err());
    assert!(Request::from_buffer(&lines(&["GET / HTTP/1.1", "Range: bytes=x-"])).is_err());
}

#[test]
fn unparseable_request_is_400() {
    let r = parse_request(&lines(&["GET / HTTP/1.1", "no separator"]));
    let e = r.err().unwrap();
    assert!(matches!(e, Errors::ClientError(_)));
    assert!(text(&respond(Err(e))).starts_with("HTTP/1.1 400 Bad Request\r\n"));
}

#[test]
fn routing() {
    assert!(matches!(route(&get("/", None)), Ok(Target::Listing)));
    match route(&get("/a%20b.txt", None)) {
        Ok(Target::Media(p)) => assert_eq!(p, "/a%20b.txt"),
        _ => panic!("expected a media target"),
    }
}

#[test]
fn non_get_is_405() {
    let req = Request::from_buffer(&lines(&["POST /a.txt HTTP/1.1", ""])).unwrap();
    let e = route(&req).err().unwrap();
    assert!(matches!(e, Errors::InvalidMethod));
    assert_eq!(e.status_code(), 405);
    assert!(text(&e.get_page()).starts_with("HTTP/1.1 405 Method Not Allowed\r\n"));
}

#[test]
fn response_exact_bytes() {
    let extra = vec![("X-One".to_string(), "1".to_string())];
    let r = generate_response(200, "text/plain", b"hi", &extra);
    assert_eq!(
        text(&r),
        "HTTP/1.1 200 OK\r\nX-One: 1\r\nContent-Type: text/plain\r\nContent-Length: 2\r\n\r\nhi"
    );
}

#[test]
fn listing_page() {
    let r = index(&names(&["a.txt", "b.png"]));
    assert_eq!(
        text(&r),
        "HTTP/1.1 200 OK\r\nContent-Type: text/plain\r\nContent-Length: 11\r\n\r\na.txt\nb.png"
    );
}

#[test]
fn listing_empty() {
    let r = index(&names(&[]));
    assert_eq!(
        text(&r),
        "HTTP/1.1 200 OK\r\nContent-Type: text/plain\r\nContent-Length: 0\r\n\r\n"
    );
}

#[test]
fn whole_file() {
    let r = media(&get("/a.txt", None), "a.txt", &b"hello".to_vec()).unwrap();
    assert_eq!(
        text(&r),
        "HTTP/1.1 200 OK\r\nContent-Type: text/plain\r\nContent-Length: 5\r\n\r\nhello"
    );
}

#[test]
fn bounded_range_is_206() {
    let r = media(&get("/a.txt", Some("bytes=1-3")), "a.txt", &b"hello".to_vec()).unwrap();
    assert_eq!(
        text(&r),
        "HTTP/1.1 206 Partial Content\r\nAccept-Ranges: bytes\r\nContent-Range: bytes 1-3/5\r\nContent-Type: text/plain\r\nContent-Length: 3\r\n\r\nell"
    );
}

#[test]
fn open_range_is_206() {
    let r = media(&get("/a.txt", Some("bytes=2-")), "a.txt", &b"hello".to_vec()).unwrap();
    let t = text(&r);
    assert!(t.contains("Content-Range: bytes 2-4/5\r\n"));
    assert!(t.ends_with("\r\n\r\nllo"));
}

#[test]
fn single_byte_ranges() {
    let first = media(&get("/a.txt", Some("bytes=0-0")), "a.txt", &b"hello".to_vec()).unwrap();
    assert!(text(&first).ends_with("Content-Length: 1\r\n\r\nh"));
    let last = media(&get("/a.txt", Some("bytes=4-4")), "a.txt", &b"hello".to_vec()).unwrap();
    assert!(text(&last).ends_with("Content-Range: bytes 4-4/5\r\nContent-Type: text/plain\r\nContent-Length: 1\r\n\r\no"));
}

#[test]
fn unsatisfiable_ranges_are_416() {
    let content = b"hello".to_vec();
    for r in ["bytes=1-5", "bytes=0-99", "bytes=3-1", "bytes=5-"] {
        let e = media(&get("/a.txt", Some(r)), "a.txt", &content).err().unwrap();
        assert!(matches!(e, Errors::InvalidContentRange), "{r}");
    }
    let e = media(&get("/a.txt", Some("bytes=0-")), "a.txt", &Vec::new()).err().unwrap();
    assert!(matches!(e, Errors::InvalidContentRange));
    assert!(text(&e.get_page()).starts_with("HTTP/1.1 416 Range Not Satisfiable\r\n"));
}

#[test]
fn unknown_extension_is_400() {
    let e = media(&get("/a.gif", None), "a.gif", &b"GIF".to_vec()).err().unwrap();
    assert!(matches!(e, Errors::ClientError(_)));
}

#[test]
fn resolve_present_file() {
    let files = names(&["a.txt", "b.png"]);
    assert_eq!(resolve_media("/a.txt", &files).ok(), Some("a.txt".to_string()));
    assert_eq!(resolve_media("//b.png", &files).ok(), Some("b.png".to_string()));
}

#[test]
fn resolve_percent_encoded() {
    let files = names(&["a b.txt"]);
    assert_eq!(resolve_media("/a%20b.txt", &files).ok(), Some("a b.txt".to_string()));
    let e = resolve_media("/a%20b.txt", &names(&["a%20b.txt"])).err().unwrap();
    assert!(matches!(e, Errors::NotFound));
}

#[test]
fn resolve_refuses_traversal() {
    let files = names(&["a.txt"]);
    let e = resolve_media("/../a.txt", &files).err().unwrap();
    assert!(matches!(e, Errors::NotFound));
    let e = resolve_media("/%2E%2E%2Fetc%2Fpasswd", &files).err().unwrap();
    assert!(matches!(e, Errors::NotFound));
}

#[test]
fn resolve_undecodable_is_400() {
    let e = resolve_media("/%FF.txt", &names(&["a.txt"])).err().unwrap();
    assert!(matches!(e, Errors::ClientError(_)));
    assert_eq!(e.status_code(), 400);
}

#[test]
fn error_page_exact() {
    let r = error(404);
    let body = " <!DOCTYPE html> <html lang=\"en\">\n        <head> <meta charset=\"utf-8\"> <title>404 Not Found</title> </head> <body>\n            <h1>404 Not Found</h1> </body> </html>";
    let expected = format!(
        "HTTP/1.1 404 Not Found\r\nContent-Type: text/html\r\nContent-Length: {}\r\n\r\n{}",
        body.len(),
        body
    );
    assert_eq!(text(&r), expected);
}

#[test]
fn error_status_lines() {
    assert!(text(&Errors::NotFound.get_page()).starts_with("HTTP/1.1 404 Not Found\r\n"));
    assert!(text(&Errors::ClientError("x".into()).get_page()).starts_with("HTTP/1.1 400 Bad Request\r\n"));
    assert!(text(&Errors::ServerError("x".into()).get_page()).starts_with("HTTP/1.1 500 Internal Server Error\r\n"));
    assert!(text(&Errors::InvalidContentRange.get_page()).starts_with("HTTP/1.1 416 Range Not Satisfiable\r\n"));
    assert!(text(&Errors::InvalidMethod.get_page()).starts_with("HTTP/1.1 405 Method Not Allowed\r\n"));
}

#[test]
fn respond_passes_success_through() {
    assert_eq!(respond(Ok(vec![1, 2, 3])), vec![1, 2, 3]);
}

#[test]
fn example_directory() {
    let files = names(&["b.png", "a.txt"]);
    let listing = text(&index(&files));
    let body = listing.split("\r\n\r\n").nth(1).unwrap();
    let mut got: Vec<&str> = body.split('\n').collect();
    got.sort();
    assert_eq!(got, vec!["a.txt", "b.png"]);

    let req = get("/a.txt", Some("bytes=1-3"));
    let name = match route(&req) {
        Ok(Target::Media(p)) => resolve_media(&p, &files).ok().unwrap(),
        _ => panic!("expected a media target"),
    };
    let r = text(&media(&req, &name, &b"hello".to_vec()).unwrap());
    assert!(r.starts_with("HTTP/1.1 206 Partial Content\r\n"));
    assert!(r.contains("Content-Range: bytes 1-3/5\r\n"));
    assert!(r.ends_with("\r\n\r\nell"));

    let missing = resolve_media("/missing.txt", &files).err().unwrap();
    assert!(text(&respond(Err(missing))).starts_with("HTTP/1.1 404 Not Found\r\n"));
}

#[test]
fn header_separator_twice_is_refused() {
    assert!(Request::from_buffer(&lines(&["GET / HTTP/1.1", "X-Note: a: b", ""])).is_err());
    let e = parse_request(&lines(&["GET / HTTP/1.1", "Host: x", "X-Note: a: b"])).err().unwrap();
    assert!(matches!(e, Errors::ClientError(_)));
}

#[test]
fn header_value_with_colon_is_accepted() {
    let req = Request::from_buffer(&lines(&["GET / HTTP/1.1", "Host: localhost:8080", ""])).unwrap();
    assert_eq!(req.headers[0].1, "localhost:8080");
}

#[test]
fn other_registered_codes() {
    let none: Vec<(String, String)> = Vec::new();
    assert_eq!(
        text(&generate_response(201, "text/plain", b"", &none)),
        "HTTP/1.1 201 Created\r\nContent-Type: text/plain\r\nContent-Length: 0\r\n\r\n"
    );
    assert!(text(&error(503)).starts_with("HTTP/1.1 503 Service Unavailable\r\n"));
    assert!(text(&error(418)).contains("<title>418 I'm a teapot</title>"));
    assert!(text(&error(100)).starts_with("HTTP/1.1 100 Continue\r\n"));
}

#[test]
fn serve_media_reads_only_listed_files() {
    let files = names(&["a.txt"]);
    let req = get("/../a.txt", None);
    let e = serve_media(&req, "/../a.txt", &files, |_| panic!("must not read")).err().unwrap();
    assert!(matches!(e, Errors::NotFound));
    let req = get("/a.txt", Some("bytes=1-3"));
    let r = serve_media(&req, "/a.txt", &files, |name| {
        assert_eq!(name, "a.txt");
        Ok(b"hello".to_vec())
    })
    .unwrap();
    assert!(text(&r).ends_with("\r\n\r\nell"));
}

#[test]
fn serve_media_past_end_is_416_for_any_content() {
    let files = names(&["a.txt"]);
    let req = get("/a.txt", Some("bytes=0-5"));
    for content in [b"hello".to_vec(), b"world".to_vec(), Vec::new()] {
        let e = serve_media(&req, "/a.txt", &files, move |_| Ok(content)).err().unwrap();
        assert!(matches!(e, Errors::InvalidContentRange));
    }
}

#[test]
fn serve_media_passes_read_errors_on() {
    let files = names(&["a.txt"]);
    let req = get("/a.txt", None);
    let e = serve_media(&req, "/a.txt", &files, |_| Err(Errors::ServerError("io".into()))).err().unwrap();
    assert_eq!(e.status_code(), 500);
}
