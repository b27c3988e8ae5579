use http_bridge::error::Error;
use http_bridge::response::{body_text, get_response, BodyRead, Reply, ReqwestResponse};
use reqwest::header::{HeaderMap, HeaderName, HeaderValue};

fn headers(pairs: &[(&str, &[u8])]) -> HeaderMap {
    let mut map = HeaderMap::new();
    for (name, value) in pairs {
        map.append(
            HeaderName::from_bytes(name.as_bytes()).unwrap(),
            HeaderValue::from_bytes(value).unwrap(),
        );
    }
    map
}

fn reply(status: u16, pairs: &[(&str, &[u8])], body: &str) -> Reply<Vec<u8>> {
    Reply {
        status,
        url: "http://example.test/final".to_string(),
        headers: headers(pairs),
        body: body.as_bytes().to_vec(),
    }
}

fn as_text(body: Vec<u8>) -> BodyRead {
    match String::from_utf8(body) {
        Ok(text) => BodyRead::Text(text),
        Err(error) => BodyRead::Undecodable(format!("{}", error)),
    }
}

#[test]
fn scenario_status_header_and_body() {
    let mut handle = ReqwestResponse::new(reply(200, &[("X-Test", b"1")], "hello"));
    assert_eq!(handle.status(), Ok(200));
    let table = handle.headers().unwrap();
    assert_eq!(table.get("X-Test"), Some(&"1".to_string()));
    assert_eq!(handle.text(as_text), Ok("hello".to_string()));
    assert_eq!(handle.text(as_text), Err(Error::ResponseConsumed));
}

#[test]
fn status_is_the_status_of_the_reply() {
    for status in [100u16, 204, 301, 404, 418, 500, 599] {
        let handle = ReqwestResponse::new(reply(status, &[], ""));
        assert_eq!(handle.status(), Ok(status));
    }
}

#[test]
fn url_is_the_final_url() {
    let handle = ReqwestResponse::new(reply(200, &[], ""));
    assert_eq!(handle.url(), Ok("http://example.test/final".to_string()));
}

#[test]
fn accessors_can_be_called_again_before_the_body_is_read() {
    let handle = ReqwestResponse::new(reply(201, &[("a", b"1")], "x"));
    assert_eq!(handle.status(), Ok(201));
    assert_eq!(handle.status(), Ok(201));
    assert_eq!(handle.url(), handle.url());
    assert_eq!(
        handle.headers().unwrap().into_pairs(),
        handle.headers().unwrap().into_pairs()
    );
    assert!(!handle.is_consumed());
    assert!(handle.inner().is_ok());
}

#[test]
fn second_text_fails_after_a_successful_read() {
    let mut handle = ReqwestResponse::new(reply(200, &[], "hello"));
    assert_eq!(handle.text(as_text), Ok("hello".to_string()));
    assert!(handle.is_consumed());
    assert_eq!(handle.text(as_text), Err(Error::ResponseConsumed));
    assert_eq!(handle.text(as_text), Err(Error::ResponseConsumed));
}

#[test]
fn second_text_fails_after_a_failed_read() {
    let mut handle = ReqwestResponse::new(reply(200, &[], "hello"));
    let first = handle.text(|_body| BodyRead::Failed("connection reset".to_string()));
    assert_eq!(first, Err(Error::RequestFailed("connection reset".to_string())));
    assert_eq!(handle.text(as_text), Err(Error::ResponseConsumed));
}

#[test]
fn the_reader_is_not_called_on_a_consumed_handle() {
    let mut handle = ReqwestResponse::new(reply(200, &[], "hello"));
    assert_eq!(handle.text(as_text), Ok("hello".to_string()));
    let again = handle.text(|_body| panic!("the body was read a second time"));
    assert_eq!(again, Err(Error::ResponseConsumed));
}

#[test]
fn every_accessor_fails_after_the_body_is_read() {
    let mut handle = ReqwestResponse::new(reply(200, &[("a", b"1")], "hello"));
    assert_eq!(handle.text(as_text), Ok("hello".to_string()));
    assert_eq!(handle.status(), Err(Error::ResponseConsumed));
    assert_eq!(handle.url(), Err(Error::ResponseConsumed));
    assert_eq!(handle.headers().err(), Some(Error::ResponseConsumed));
    assert_eq!(handle.inner().err(), Some(Error::ResponseConsumed));
    assert_eq!(handle.take_inner().err(), Some(Error::ResponseConsumed));
}

#[test]
fn take_inner_hands_the_reply_out_once() {
    let mut handle = ReqwestResponse::new(reply(202, &[], "abc"));
    let taken = handle.take_inner().unwrap();
    assert_eq!(taken.status, 202);
    assert_eq!(taken.url, "http://example.test/final");
    assert_eq!(taken.body, b"abc".to_vec());
    assert!(handle.is_consumed());
    assert_eq!(handle.take_inner().err(), Some(Error::ResponseConsumed));
}

#[test]
fn inner_lends_the_reply() {
    let handle = ReqwestResponse::new(reply(203, &[("a", b"1")], "abc"));
    let lent = handle.inner().unwrap();
    assert_eq!(lent.status, 203);
    assert_eq!(lent.headers.len(), 1);
    assert_eq!(lent.body, b"abc".to_vec());
}

#[test]
fn undecodable_body_is_a_decode_failure() {
    let mut handle = ReqwestResponse::new(Reply {
        status: 200,
        url: "http://example.test/".to_string(),
        headers: HeaderMap::new(),
        body: vec![0xffu8, 0xfe],
    });
    let text = handle.text(as_text);
    assert!(matches!(text, Err(Error::DecodeFailure(_))));
    assert_eq!(handle.text(as_text), Err(Error::ResponseConsumed));
}

#[test]
fn body_text_of_each_ending() {
    assert_eq!(
        body_text(BodyRead::Text("hello".to_string())),
        Ok("hello".to_string())
    );
    assert_eq!(
        body_text(BodyRead::Failed("timed out".to_string())),
        Err(Error::RequestFailed("timed out".to_string()))
    );
    assert_eq!(
        body_text(BodyRead::Undecodable("not text".to_string())),
        Err(Error::DecodeFailure("not text".to_string()))
    );
}

#[test]
fn headers_hold_every_name_that_came() {
    let handle = ReqwestResponse::new(reply(
        200,
        &[
            ("content-type", b"text/plain"),
            ("x-a", b"1"),
            ("x-b", b"2"),
        ],
        "",
    ));
    let table = handle.headers().unwrap();
    assert_eq!(table.len(), 3);
    assert_eq!(table.get("content-type"), Some(&"text/plain".to_string()));
    assert_eq!(table.get("x-a"), Some(&"1".to_string()));
    assert_eq!(table.get("x-b"), Some(&"2".to_string()));
    assert_eq!(table.get("x-c"), None);
}

#[test]
fn repeated_header_collapses_to_the_last_value() {
    let handle = ReqwestResponse::new(reply(
        200,
        &[
            ("set-cookie", b"a=1"),
            ("x-other", b"o"),
            ("set-cookie", b"b=2"),
            ("Set-Cookie", b"c=3"),
        ],
        "",
    ));
    let table = handle.headers().unwrap();
    assert_eq!(table.len(), 2);
    assert_eq!(table.get("set-cookie"), Some(&"c=3".to_string()));
    assert_eq!(table.get("x-other"), Some(&"o".to_string()));
    assert_eq!(
        table.into_pairs(),
        vec![
            ("set-cookie".to_string(), "c=3".to_string()),
            ("x-other".to_string(), "o".to_string()),
        ]
    );
}

#[test]
fn headers_of_a_reply_without_headers_are_empty() {
    let handle = ReqwestResponse::new(reply(200, &[], ""));
    assert_eq!(handle.headers().unwrap().len(), 0);
}

#[test]
fn header_value_that_is_not_text_is_a_decode_failure() {
    let handle = ReqwestResponse::new(reply(
        200,
        &[("x-fine", b"ok"), ("x-bin", b"caf\xe9"), ("x-worse", b"\xff")],
        "",
    ));
    assert_eq!(
        handle.headers().err(),
        Some(Error::DecodeFailure("x-bin".to_string()))
    );
    assert_eq!(handle.status(), Ok(200));
}

#[test]
fn header_value_with_a_tab_is_text() {
    let handle = ReqwestResponse::new(reply(200, &[("x-tab", b"a\tb ~")], ""));
    assert_eq!(
        handle.headers().unwrap().get("x-tab"),
        Some(&"a\tb ~".to_string())
    );
}

#[test]
fn get_response_wraps_a_reply() {
    let handle = get_response(Ok(reply(204, &[], ""))).unwrap();
    assert_eq!(handle.status(), Ok(204));
    assert!(!handle.is_consumed());
}

#[test]
fn get_response_reports_a_failed_send() {
    let sent: Result<Reply<Vec<u8>>, String> = Err("dns error: no such host".to_string());
    let response = get_response(sent);
    assert_eq!(
        response.err(),
        Some(Error::RequestFailed("dns error: no such host".to_string()))
    );
}
