use cc_curl::address::Url;
use cc_curl::error::HttpError;
use cc_curl::method::Method;
use cc_curl::request::HttpRequest;
use cc_curl::response::parse_response;

fn example_url() -> Url {
    Url::new("http", Some("example.com"), "/index.html")
}

fn lines(wire: &str) -> Vec<String> {
    wire.split_inclusive("\r\n").map(|l| l.to_string()).collect()
}

#[test]
fn method_parse_known_verbs() {
    assert_eq!(Method::parse("GET"), Method::GET);
    assert_eq!(Method::parse("POST"), Method::POST);
    assert_eq!(Method::parse("PUT"), Method::PUT);
    assert_eq!(Method::parse("DELETE"), Method::DELETE);
}

#[test]
fn method_parse_is_case_sensitive() {
    assert_eq!(Method::parse("get"), Method::Custom("get".to_string()));
    assert_eq!(Method::parse(""), Method::Custom(String::new()));
    assert_eq!(Method::parse("DELETE").to_text(), "DELETE");
}

#[test]
fn new_seeds_default_headers() {
    let req = HttpRequest::new(Method::GET, &example_url()).unwrap();
    assert_eq!(req.host(), "example.com");
    let wire = req.serialize();
    assert!(wire.starts_with("GET /index.html HTTP/1.1\r\n"));
    let mut ls = lines(&wire);
    assert_eq!(ls.len(), 5);
    assert_eq!(ls.pop(), Some("\r\n".to_string()));
    let mut headers: Vec<String> = ls[1..].to_vec();
    headers.sort();
    assert_eq!(
        headers,
        vec![
            "Accept: */*\r\n".to_string(),
            "Connection: close\r\n".to_string(),
            "Host: example.com\r\n".to_string(),
        ]
    );
}

#[test]
fn new_without_host_fails() {
    let url = Url::new("mailto", None, "someone@example.com");
    assert_eq!(HttpRequest::new(Method::GET, &url).err(), Some(HttpError::MissingHost));
    let empty = Url::new("http", Some(""), "/");
    assert_eq!(HttpRequest::new(Method::GET, &empty).err(), Some(HttpError::MissingHost));
}

#[test]
fn url_parse_reads_parts() {
    let url = Url::parse("http://example.com/a/b?q=1").unwrap();
    assert_eq!(url.scheme, "http");
    assert_eq!(url.host, Some("example.com".to_string()));
    assert_eq!(url.path, "/a/b");
    assert_eq!(Url::parse("not a url"), Err(HttpError::UrlParse));
}

#[test]
fn url_without_host_cannot_build_request() {
    let url = Url::parse("mailto:someone@example.com").unwrap();
    assert_eq!(HttpRequest::new(Method::GET, &url).err(), Some(HttpError::MissingHost));
}

#[test]
fn parse_header_colon_form() {
    let mut req = HttpRequest::new(Method::GET, &example_url()).unwrap();
    req.parse_header("X-Foo: bar");
    assert!(lines(&req.serialize()).contains(&"X-Foo: bar\r\n".to_string()));
}

#[test]
fn parse_header_semicolon_form() {
    let mut req = HttpRequest::new(Method::GET, &example_url()).unwrap();
    req.parse_header("X-Custom;");
    assert!(lines(&req.serialize()).contains(&"X-Custom: \r\n".to_string()));
}

#[test]
fn parse_header_other_form_is_ignored() {
    let mut req = HttpRequest::new(Method::GET, &example_url()).unwrap();
    let before = req.serialize();
    req.parse_header("not a valid header");
    assert_eq!(req.serialize(), before);
}

#[test]
fn header_override_replaces_default() {
    let mut req = HttpRequest::new(Method::GET, &example_url()).unwrap();
    req.parse_header("Host: other.org");
    req.add_header("Accept", "text/html");
    let wire = req.serialize();
    let ls = lines(&wire);
    assert!(ls.contains(&"Host: other.org\r\n".to_string()));
    assert!(ls.contains(&"Accept: text/html\r\n".to_string()));
    assert!(!wire.contains("example.com"));
    assert!(!wire.contains("*/*"));
}

#[test]
fn add_data_concatenates() {
    let mut req = HttpRequest::new(Method::POST, &example_url()).unwrap();
    req.add_data("a");
    req.add_data("b");
    let wire = req.serialize();
    assert!(lines(&wire).contains(&"Content-Length: 2\r\n".to_string()));
    assert!(wire.ends_with("\r\n\r\nab\r\n"));
}

#[test]
fn content_length_counts_bytes() {
    let mut req = HttpRequest::new(Method::POST, &example_url()).unwrap();
    req.add_data("héllo wörld 1234");
    assert!(lines(&req.serialize()).contains(&"Content-Length: 18\r\n".to_string()));
}

#[test]
fn empty_body_has_no_content_length() {
    let req = HttpRequest::new(Method::GET, &example_url()).unwrap();
    let wire = req.serialize();
    assert!(!wire.contains("Content-Length"));
    assert!(wire.ends_with("\r\n\r\n"));
    assert!(!wire.ends_with("\r\n\r\n\r\n"));
}

#[test]
fn custom_method_is_verbatim() {
    let req = HttpRequest::new(Method::Custom("WHATEVER weird\t text".to_string()), &example_url())
        .unwrap();
    assert!(req.serialize().starts_with("WHATEVER weird\t text /index.html HTTP/1.1\r\n"));
}

#[test]
fn scheme_is_upper_cased() {
    let url = Url::new("https", Some("example.com"), "/");
    let req = HttpRequest::new(Method::PUT, &url).unwrap();
    assert!(req.serialize().starts_with("PUT / HTTPS/1.1\r\n"));
}

#[test]
fn parse_response_splits_at_blank_line() {
    let (head, body) = parse_response("HTTP/1.1 200 OK\r\nX: 1\r\n\r\nhello").unwrap();
    assert_eq!(head, "HTTP/1.1 200 OK\r\nX: 1\r\n\r\n");
    assert_eq!(body, "hello");
}

#[test]
fn parse_response_uses_first_blank_line() {
    let (head, body) = parse_response("A\r\n\r\nB\r\n\r\nC").unwrap();
    assert_eq!(head, "A\r\n\r\n");
    assert_eq!(body, "B\r\n\r\nC");
}

#[test]
fn parse_response_without_blank_line_fails() {
    assert_eq!(parse_response("HTTP/1.1 200 OK\r\nX: 1\r\n"), Err(HttpError::Framing));
    assert_eq!(parse_response(""), Err(HttpError::Framing));
}
