use chunked_fetch::file_downloader::FileDownloader;
use chunked_fetch::http_request_builder::HttpRequestBuilder;
use chunked_fetch::http_types::HttpMethod;
use chunked_fetch::response::{parse_content_length, parse_response, status_matches, ParseError};
use chunked_fetch::session::{Backoff, DownloadError, Phase, Session, Step};

fn base() -> HttpRequestBuilder {
    HttpRequestBuilder::new(HttpMethod::Get, "/", "127.0.0.1", 8080).add_header("Connection", "close")
}

fn reply(status: &str, headers: &str, body: &[u8]) -> Vec<u8> {
    let mut r = Vec::new();
    r.extend_from_slice(status.as_bytes());
    if !headers.is_empty() {
        r.extend_from_slice(b"\r\n");
        r.extend_from_slice(headers.as_bytes());
    }
    r.extend_from_slice(b"\r\n\r\n");
    r.extend_from_slice(body);
    r
}

fn resource(n: usize) -> Vec<u8> {
    (0..n).map(|i| (i % 251) as u8).collect()
}

/// The inclusive byte range that a request asks for.
fn asked_range(req: &str) -> (usize, usize) {
    let start = req.find("Range: bytes=").expect("range header") + "Range: bytes=".len();
    let rest = &req[start..];
    let end = rest.find("\r\n").unwrap();
    let (a, b) = rest[..end].split_once('-').unwrap();
    (a.parse().unwrap(), b.parse().unwrap())
}

fn discovered(total: usize, chunk: usize, min_chunk: usize, retries: usize) -> FileDownloader {
    let mut d = FileDownloader::with_policy(base(), chunk, min_chunk, retries);
    let req = d.next_request().unwrap();
    assert_eq!(req, "GET / HTTP/1.0\r\nHost: 127.0.0.1:8080\r\nConnection: close\r\n\r\n");
    let raw = reply("HTTP/1.0 200 OK", &format!("Content-Length: {}", total), &resource(total));
    assert_eq!(d.on_response(&raw), Step::Ready);
    d
}

#[test]
fn three_full_chunks_assemble_the_resource() {
    let data = resource(150000);
    let mut d = discovered(150000, 50000, 1024, 3);
    let mut out: Vec<u8> = Vec::new();
    let mut ranges = Vec::new();
    while let Some(req) = d.next_request() {
        let (a, b) = asked_range(&req);
        ranges.push((a, b + 1));
        let raw = reply("HTTP/1.0 206 Partial Content", "", &data[a..=b]);
        match d.on_response(&raw) {
            Step::Append { from, to } => {
                assert_eq!(to - from, 50000);
                out.extend_from_slice(&raw[from..to]);
            }
            other => panic!("unexpected step {:?}", other),
        }
    }
    assert_eq!(ranges, vec![(0, 50000), (50000, 100000), (100000, 150000)]);
    assert_eq!(out.len(), 150000);
    assert_eq!(out, data);
    assert_eq!(d.session().phase, Phase::Complete);
    assert_eq!(d.session().written, 150000);
}

#[test]
fn range_request_text_is_exact() {
    let d = discovered(150000, 50000, 1024, 3);
    assert_eq!(
        d.next_request().unwrap(),
        "GET / HTTP/1.0\r\nHost: 127.0.0.1:8080\r\nConnection: close\r\nRange: bytes=0-49999\r\n\r\n"
    );
}

#[test]
fn short_second_chunk_retries_a_smaller_range() {
    let data = resource(150000);
    let mut d = discovered(150000, 50000, 1024, 3);
    let req = d.next_request().unwrap();
    let (a, b) = asked_range(&req);
    let raw = reply("HTTP/1.0 206 Partial Content", "", &data[a..=b]);
    assert!(matches!(d.on_response(&raw), Step::Append { .. }));
    let req = d.next_request().unwrap();
    assert_eq!(asked_range(&req), (50000, 99999));
    let raw = reply("HTTP/1.0 206 Partial Content", "", &data[50000..80000]);
    assert_eq!(d.on_response(&raw), Step::Retry(Backoff::Short));
    let s = d.session();
    assert_eq!(s.chunk_size, 25000);
    assert_eq!(s.written, 50000);
    assert_eq!(s.attempts, 1);
    assert_eq!(s.phase, Phase::Downloading);
    let req = d.next_request().unwrap();
    assert_eq!(asked_range(&req), (50000, 74999));
}

#[test]
fn repeated_short_reads_stop_shrinking_at_the_floor() {
    let mut d = discovered(100000, 8000, 1000, 10);
    let mut sizes = Vec::new();
    for _ in 0..5 {
        let raw = reply("HTTP/1.0 206 Partial Content", "", &[1u8; 10]);
        assert_eq!(d.on_response(&raw), Step::Retry(Backoff::Short));
        sizes.push(d.session().chunk_size);
    }
    assert_eq!(sizes, vec![4000, 2000, 1000, 1000, 1000]);
    assert_eq!(Session::shrink_chunk(8000, 1000), 4000);
    assert_eq!(Session::shrink_chunk(1500, 1000), 1000);
    assert_eq!(Session::shrink_chunk(1000, 1000), 1000);
}

#[test]
fn short_reads_use_up_attempts() {
    let mut d = discovered(100000, 8000, 1000, 2);
    let raw = reply("HTTP/1.0 206 Partial Content", "", &[1u8; 10]);
    assert_eq!(d.on_response(&raw), Step::Retry(Backoff::Short));
    assert_eq!(d.on_response(&raw), Step::Fail(DownloadError::IncompleteChunk));
    assert_eq!(d.next_request(), None);
}

#[test]
fn transport_failures_exhaust_retries() {
    let mut d = discovered(100000, 50000, 1024, 3);
    assert_eq!(d.on_transport_failure(), Step::Retry(Backoff::Timeout));
    assert_eq!(d.next_request().map(|r| asked_range(&r)), Some((0, 49999)));
    assert_eq!(d.on_transport_failure(), Step::Retry(Backoff::Timeout));
    assert_eq!(d.on_transport_failure(), Step::Fail(DownloadError::RetriesExhausted));
    assert_eq!(d.session().phase, Phase::Failed(DownloadError::RetriesExhausted));
    assert_eq!(d.next_request(), None);
}

#[test]
fn success_resets_the_attempt_count() {
    let data = resource(100000);
    let mut d = discovered(100000, 50000, 1024, 2);
    assert_eq!(d.on_transport_failure(), Step::Retry(Backoff::Timeout));
    let raw = reply("HTTP/1.0 206 Partial Content", "", &data[0..50000]);
    assert!(matches!(d.on_response(&raw), Step::Append { .. }));
    assert_eq!(d.session().attempts, 0);
    assert_eq!(d.on_transport_failure(), Step::Retry(Backoff::Timeout));
}

#[test]
fn wrong_status_fails_without_retrying() {
    let mut d = FileDownloader::with_policy(base(), 50000, 1024, 3);
    let raw = reply("HTTP/1.0 404 Not Found", "Content-Length: 10", b"0123456789");
    assert_eq!(d.on_response(&raw), Step::Fail(DownloadError::ProtocolStatus));
    assert_eq!(d.session().attempts, 0);
    assert_eq!(d.next_request(), None);

    let mut d = discovered(100000, 50000, 1024, 3);
    let raw = reply("HTTP/1.0 200 OK", "Content-Length: 100000", &resource(100000));
    assert_eq!(d.on_response(&raw), Step::Fail(DownloadError::ProtocolStatus));
    assert_eq!(d.session().attempts, 0);
    assert_eq!(d.session().written, 0);
    assert_eq!(d.next_request(), None);
}

#[test]
fn discovery_needs_content_length() {
    let mut d = FileDownloader::new(base());
    let raw = reply("HTTP/1.0 200 OK", "Server: x", b"abc");
    assert_eq!(d.on_response(&raw), Step::Fail(DownloadError::Parse(ParseError::MissingContentLength)));
    let mut d = FileDownloader::new(base());
    let raw = reply("HTTP/1.0 200 OK", "Content-Length: ten", b"abc");
    assert_eq!(d.on_response(&raw), Step::Fail(DownloadError::Parse(ParseError::MissingContentLength)));
}

#[test]
fn oversized_chunk_is_halved_after_discovery() {
    let d = discovered(30000, 50000, 1024, 3);
    assert_eq!(d.session().chunk_size, 15000);
    assert_eq!(d.session().total_size, Some(30000));
    assert_eq!(asked_range(&d.next_request().unwrap()), (0, 14999));
}

#[test]
fn empty_resource_completes_at_discovery() {
    let d = discovered(0, 50000, 1024, 3);
    assert_eq!(d.session().phase, Phase::Complete);
    assert_eq!(d.next_request(), None);
}

#[test]
fn short_final_chunk_is_taken_and_the_rest_asked_for() {
    let data = resource(120000);
    let mut d = discovered(120000, 50000, 1024, 3);
    for _ in 0..2 {
        let (a, b) = asked_range(&d.next_request().unwrap());
        let raw = reply("HTTP/1.0 206 Partial Content", "", &data[a..=b]);
        assert!(matches!(d.on_response(&raw), Step::Append { .. }));
    }
    assert_eq!(asked_range(&d.next_request().unwrap()), (100000, 119999));
    let raw = reply("HTTP/1.0 206 Partial Content", "", &data[100000..115000]);
    match d.on_response(&raw) {
        Step::Append { from, to } => assert_eq!(&raw[from..to], &data[100000..115000]),
        other => panic!("unexpected step {:?}", other),
    }
    assert_eq!(asked_range(&d.next_request().unwrap()), (115000, 119999));
    assert_eq!(d.session().written, 115000);
}

#[test]
fn longer_body_is_cut_to_the_range() {
    let mut d = discovered(10, 4, 1, 3);
    let raw = reply("HTTP/1.0 206 Partial Content", "", b"abcdefgh");
    match d.on_response(&raw) {
        Step::Append { from, to } => assert_eq!(&raw[from..to], b"abcd"),
        other => panic!("unexpected step {:?}", other),
    }
}

#[test]
fn parse_failures_are_typed() {
    assert_eq!(parse_response(b"HTTP/1.0 200 OK\r\n"), Err(ParseError::MissingSeparator));
    assert_eq!(parse_response(b""), Err(ParseError::MissingSeparator));
    assert_eq!(parse_response(&[0xff, 0xfe, b'\r', b'\n', b'\r', b'\n', 1]), Err(ParseError::InvalidEncoding));
    let (h, b) = parse_response(b"A\r\n\r\nB\r\n\r\nC").unwrap();
    assert_eq!(h, "A");
    assert_eq!(b, b"B\r\n\r\nC");
    let (h, b) = parse_response(b"\r\n\r\n").unwrap();
    assert_eq!(h, "");
    assert!(b.is_empty());
    for n in 0..64u32 {
        let bytes: Vec<u8> = (0..n).map(|i| (i.wrapping_mul(2654435761) >> 13) as u8).collect();
        let _ = parse_response(&bytes);
    }
}

#[test]
fn parse_failure_ends_the_download() {
    let mut d = FileDownloader::new(base());
    assert_eq!(d.on_response(b"garbage"), Step::Fail(DownloadError::Parse(ParseError::MissingSeparator)));
    assert_eq!(d.next_request(), None);
}

#[test]
fn status_and_content_length_extraction() {
    assert!(status_matches("HTTP/1.0 206 Partial", "HTTP/1.0", "206"));
    assert!(!status_matches("HTTP/1.1 206 Partial", "HTTP/1.0", "206"));
    assert!(!status_matches("http/1.0 206", "HTTP/1.0", "206"));
    assert_eq!(parse_content_length("HTTP/1.0 200 OK\r\nContent-Length: 123\r\nX: y"), Some(123));
    assert_eq!(parse_content_length("HTTP/1.0 200 OK\r\nContent-Length:+7"), Some(7));
    assert_eq!(parse_content_length("HTTP/1.0 200 OK\r\ncontent-length: 5"), None);
    assert_eq!(parse_content_length("Content-Length: 1\nContent-Length: 2"), Some(1));
    assert_eq!(parse_content_length("Content-Length: -1"), None);
    assert_eq!(parse_content_length("Content-Length: 99999999999999999999999"), None);
    assert_eq!(parse_content_length("Content-Length: 4:5"), Some(4));
}
