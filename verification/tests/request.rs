use http_bridge::error::Error;
use http_bridge::request::{check_headers, setup_request};
use http_bridge::table::HeaderTable;

fn table(pairs: &[(&str, &str)]) -> HeaderTable {
    HeaderTable::from_pairs(
        pairs
            .iter()
            .map(|(name, value)| (name.to_string(), value.to_string()))
            .collect(),
    )
}

fn invalid_header(name: &str) -> Error {
    Error::InvalidHeader(name.to_string())
}

#[test]
fn request_without_headers_or_body() {
    let request = setup_request("http://example.test/".to_string(), None, None).unwrap();
    assert_eq!(request.url(), "http://example.test/");
    assert!(request.headers().is_none());
    assert!(request.body().is_none());
}

#[test]
fn request_with_an_empty_table_has_an_empty_map() {
    let request =
        setup_request("http://example.test/".to_string(), Some(table(&[])), None).unwrap();
    let map = request.headers().unwrap();
    assert_eq!(map.len(), 0);
}

#[test]
fn header_names_go_into_the_map_in_lower_case() {
    let request = setup_request(
        "http://example.test/".to_string(),
        Some(table(&[("X-Test", "1"), ("Accept", "text/plain")])),
        None,
    )
    .unwrap();
    let map = request.headers().unwrap();
    assert_eq!(map.len(), 2);
    let names: Vec<&str> = map.keys().map(|name| name.as_str()).collect();
    assert_eq!(names, vec!["x-test", "accept"]);
    assert_eq!(map.get("x-test").unwrap().as_bytes(), b"1");
    assert_eq!(map.get("accept").unwrap().as_bytes(), b"text/plain");
}

#[test]
fn no_header_is_added() {
    let request = setup_request(
        "http://example.test/".to_string(),
        Some(table(&[("x-only", "yes")])),
        Some(b"payload".to_vec()),
    )
    .unwrap();
    let map = request.headers().unwrap();
    assert_eq!(map.len(), 1);
    assert!(map.get("content-type").is_none());
    assert!(map.get("content-length").is_none());
}

#[test]
fn header_values_keep_their_bytes() {
    let request = setup_request(
        "http://example.test/".to_string(),
        Some(table(&[("x-name", "Zoë\tB")])),
        None,
    )
    .unwrap();
    let map = request.headers().unwrap();
    assert_eq!(
        map.get("x-name").unwrap().as_bytes(),
        "Zoë\tB".as_bytes()
    );
}

#[test]
fn body_is_attached_as_given() {
    let body = vec![0u8, 255, 10, 13, 65];
    let request = setup_request(
        "http://example.test/".to_string(),
        None,
        Some(body.clone()),
    )
    .unwrap();
    assert_eq!(request.body(), Some(&body));
    let (url, headers, attached) = request.into_parts();
    assert_eq!(url, "http://example.test/");
    assert!(headers.is_none());
    assert_eq!(attached, Some(body));
}

#[test]
fn url_is_kept_as_given() {
    let request = setup_request("not a url at all".to_string(), None, None).unwrap();
    assert_eq!(request.url(), "not a url at all");
}

#[test]
fn header_name_with_a_space_is_invalid() {
    let built = setup_request(
        "http://example.test/".to_string(),
        Some(table(&[("bad name", "1")])),
        None,
    );
    assert_eq!(built.err(), Some(invalid_header("bad name")));
}

#[test]
fn empty_header_name_is_invalid() {
    let built = setup_request(
        "http://example.test/".to_string(),
        Some(table(&[("", "1")])),
        None,
    );
    assert_eq!(built.err(), Some(invalid_header("")));
}

#[test]
fn header_name_with_a_colon_or_a_quote_is_invalid() {
    let built = setup_request(
        "http://example.test/".to_string(),
        Some(table(&[("a:b", "1")])),
        None,
    );
    assert_eq!(built.err(), Some(invalid_header("a:b")));
    let built = setup_request(
        "http://example.test/".to_string(),
        Some(table(&[("a\"b", "1")])),
        None,
    );
    assert_eq!(built.err(), Some(invalid_header("a\"b")));
}

#[test]
fn header_name_outside_ascii_is_invalid() {
    let built = setup_request(
        "http://example.test/".to_string(),
        Some(table(&[("naïve", "1")])),
        None,
    );
    assert_eq!(built.err(), Some(invalid_header("naïve")));
}

#[test]
fn every_token_character_is_accepted_in_a_name() {
    let name = "!#$%&'*+-.^_`|~09azAZ";
    let request = setup_request(
        "http://example.test/".to_string(),
        Some(table(&[(name, "1")])),
        None,
    )
    .unwrap();
    let map = request.headers().unwrap();
    assert_eq!(map.get("!#$%&'*+-.^_`|~09azaz").unwrap().as_bytes(), b"1");
}

#[test]
fn header_name_length_limit() {
    let longest = "a".repeat(65535);
    let built = setup_request(
        "http://example.test/".to_string(),
        Some(table(&[(longest.as_str(), "1")])),
        None,
    );
    assert!(built.is_ok());
    let too_long = "a".repeat(65536);
    let built = setup_request(
        "http://example.test/".to_string(),
        Some(table(&[(too_long.as_str(), "1")])),
        None,
    );
    assert_eq!(built.err(), Some(invalid_header(too_long.as_str())));
}

#[test]
fn header_value_with_a_line_break_is_invalid() {
    let built = setup_request(
        "http://example.test/".to_string(),
        Some(table(&[("x-test", "line\nbreak")])),
        None,
    );
    assert_eq!(built.err(), Some(invalid_header("x-test")));
}

#[test]
fn header_value_with_the_delete_character_is_invalid() {
    let built = setup_request(
        "http://example.test/".to_string(),
        Some(table(&[("x-test", "a\u{7f}b")])),
        None,
    );
    assert_eq!(built.err(), Some(invalid_header("x-test")));
}

#[test]
fn empty_header_value_is_valid() {
    let request = setup_request(
        "http://example.test/".to_string(),
        Some(table(&[("x-empty", "")])),
        None,
    )
    .unwrap();
    assert_eq!(
        request.headers().unwrap().get("x-empty").unwrap().as_bytes(),
        b""
    );
}

#[test]
fn the_first_malformed_header_is_reported() {
    let built = setup_request(
        "http://example.test/".to_string(),
        Some(table(&[
            ("fine", "1"),
            ("second bad", "2"),
            ("also-fine", "3"),
            ("third", "bad\r"),
        ])),
        Some(b"body".to_vec()),
    );
    assert_eq!(built.err(), Some(invalid_header("second bad")));
}

#[test]
fn a_malformed_value_is_reported_by_the_name_as_written() {
    let built = setup_request(
        "http://example.test/".to_string(),
        Some(table(&[("X-Mixed-Case", "\u{0}")])),
        None,
    );
    assert_eq!(built.err(), Some(invalid_header("X-Mixed-Case")));
}

#[test]
fn check_headers_passes_well_formed_headers() {
    assert_eq!(check_headers(&table(&[])), Ok(()));
    assert_eq!(
        check_headers(&table(&[("Accept", "*/*"), ("x-empty", ""), ("X-Tab", "a\tb")])),
        Ok(())
    );
}

#[test]
fn check_headers_names_the_first_malformed_header() {
    assert_eq!(
        check_headers(&table(&[("ok", "1"), ("b@d", "2"), ("worse name", "3")])),
        Err(invalid_header("b@d"))
    );
    assert_eq!(
        check_headers(&table(&[("ok", "1"), ("fine", "bad\u{1}value"), ("b@d", "3")])),
        Err(invalid_header("fine"))
    );
}

#[test]
fn many_well_formed_headers_are_all_built() {
    let pairs: Vec<(String, String)> = (0..300)
        .map(|i| (format!("X-Header-{}", i), format!("value {}", i)))
        .collect();
    let request = setup_request(
        "http://example.test/".to_string(),
        Some(HeaderTable::from_pairs(pairs)),
        Some(b"body".to_vec()),
    )
    .unwrap();
    let map = request.headers().unwrap();
    assert_eq!(map.len(), 300);
    assert_eq!(map.get("x-header-0").unwrap().as_bytes(), b"value 0");
    assert_eq!(map.get("x-header-299").unwrap().as_bytes(), b"value 299");
    let names: Vec<String> = map.keys().map(|name| name.as_str().to_string()).collect();
    let expected: Vec<String> = (0..300).map(|i| format!("x-header-{}", i)).collect();
    assert_eq!(names, expected);
    assert_eq!(request.body(), Some(&b"body".to_vec()));
}
