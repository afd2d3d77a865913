use chunked_fetch::http_types::{HttpMethod, HttpVersion};
use chunked_fetch::request_builder::HttpRequestBuilder;
use chunked_fetch::http_request_builder::HttpRequestBuilder as Base;

#[test]
fn test_get_http1_1() {
    let builder = HttpRequestBuilder::new(HttpMethod::Get, "/", "example.com", 80)
        .add_header("User-Agent", "test")
        .version(HttpVersion::Http1_0);

    let request = builder.build();

    let expected = "GET / HTTP/1.0\r\nHost: example.com:80\r\nUser-Agent: test\r\n\r\n";

    assert_eq!(request, expected);
}

#[test]
fn test_post_http2() {
    let builder = HttpRequestBuilder::new(HttpMethod::Post, "/test", "example.com", 8080)
        .version(HttpVersion::Http2)
        .add_header("Content-Type", "application/JSON")
        .add_header("Content-Type", "application/json");

    let request = builder.build();

    let expected = "POST /test HTTP/2\r\nHost: example.com:8080\r\nContent-Type: application/json\r\n\r\n";

    assert_eq!(request, expected);
}

#[test]
fn test_put_http1_0() {
    let request = HttpRequestBuilder::new(HttpMethod::Put, "/resource", "example.com", 80)
        .version(HttpVersion::Http1_0)
        .build();

    let expected = "PUT /resource HTTP/1.0\r\nHost: example.com:80\r\n\r\n";

    assert_eq!(request, expected);
}

#[test]
fn default_version_is_http1_1() {
    let request = HttpRequestBuilder::new(HttpMethod::Delete, "/x", "h", 1).build();
    assert_eq!(request, "DELETE /x HTTP/1.1\r\nHost: h:1\r\n\r\n");
}

#[test]
fn headers_keep_first_insertion_order() {
    let request = HttpRequestBuilder::new(HttpMethod::Get, "/", "h", 65535)
        .add_header("A", "1")
        .add_header("B", "2")
        .add_header("A", "3")
        .build();
    assert_eq!(request, "GET / HTTP/1.1\r\nHost: h:65535\r\nA: 3\r\nB: 2\r\n\r\n");
}

#[test]
fn downloader_builder_defaults_and_accessors() {
    let b = Base::new(HttpMethod::Get, "/", "example.com", 80);
    assert_eq!(b.get_host(), "example.com:80");
    assert_eq!(b.get_http_version(), "HTTP/1.0");
    assert_eq!(b.build(), "GET / HTTP/1.0\r\nHost: example.com:80\r\n\r\n");
    let port0 = Base::new(HttpMethod::Get, "/a/b", "10.0.0.1", 0);
    assert_eq!(port0.get_host(), "10.0.0.1:0");
}

#[test]
fn try_new_rejects_bad_targets() {
    assert!(Base::try_new(HttpMethod::Get, "no_slash", "example.com", 80).is_none());
    assert!(Base::try_new(HttpMethod::Get, "/", "", 80).is_none());
    assert!(Base::try_new(HttpMethod::Get, "", "h", 80).is_none());
    assert!(Base::try_new(HttpMethod::Get, "/", "h", 80).is_some());
}

#[test]
fn method_and_version_tokens() {
    assert_eq!(HttpMethod::Get.as_str(), "GET");
    assert_eq!(HttpMethod::Post.as_str(), "POST");
    assert_eq!(HttpMethod::Put.as_str(), "PUT");
    assert_eq!(HttpMethod::Delete.as_str(), "DELETE");
    assert_eq!(HttpVersion::Http1_0.as_str(), "HTTP/1.0");
    assert_eq!(HttpVersion::Http1_1.as_str(), "HTTP/1.1");
    assert_eq!(HttpVersion::Http2.as_str(), "HTTP/2");
}
