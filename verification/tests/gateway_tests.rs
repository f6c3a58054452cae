//! Tests of the request handler and the relay on concrete requests.

use qs_gateway::Config;
use qs_gateway::FetchEvent;
use qs_gateway::Method;
use qs_gateway::Plan;
use qs_gateway::handle_request;
use qs_gateway::relay;

fn cfg(base: &str) -> Config {
    Config { base_url: Some(base.as_bytes().to_vec()) }
}

fn no_cfg() -> Config {
    Config { base_url: None }
}

fn expect_reply(p: Plan) -> (u16, String) {
    match p {
        Plan::Reply(r) => (r.status, String::from_utf8(r.body).unwrap()),
        Plan::Forward(_) => panic!("expected a reply, got a forwarding target"),
    }
}

#[test]
fn non_post_returns_404_with_empty_body() {
    let p = handle_request(&cfg("http://localhost:9999"), Method::Other, b"{\"a\":1}");
    assert_eq!(expect_reply(p), (404, String::new()));
}

#[test]
fn non_post_ignores_malformed_body() {
    let p = handle_request(&cfg("http://localhost:9999"), Method::Other, b"not json at all");
    assert_eq!(expect_reply(p), (404, String::new()));
}

#[test]
fn unset_base_url_returns_configuration_diagnostic() {
    let p = handle_request(&no_cfg(), Method::Post, b"{\"query\":\"{ping}\"}");
    assert_eq!(
        expect_reply(p),
        (500, "GRAPHQL_TRANSFORMER_BASE_URL not set".to_string())
    );
}

#[test]
fn unset_base_url_never_forwards() {
    let p = handle_request(&no_cfg(), Method::Post, b"{\"query\":\"{ping}\"}");
    assert!(matches!(p, Plan::Reply(_)));
}

#[test]
fn malformed_json_returns_decode_diagnostic() {
    let p = handle_request(&cfg("http://localhost:9999"), Method::Post, b"{\"query\":");
    assert_eq!(expect_reply(p), (400, "Error deserializing JSON".to_string()));
}

#[test]
fn invalid_utf8_returns_decode_diagnostic() {
    let p = handle_request(&cfg("http://localhost:9999"), Method::Post, &[0xff, 0xfe, 0x7b]);
    assert_eq!(expect_reply(p), (400, "Error deserializing JSON".to_string()));
}

#[test]
fn top_level_array_returns_encode_diagnostic() {
    let p = handle_request(&cfg("http://localhost:9999"), Method::Post, b"[1,2]");
    assert_eq!(expect_reply(p), (400, "Error encoding query string".to_string()));
}

#[test]
fn post_builds_forwarding_target() {
    let p = handle_request(
        &cfg("http://localhost:9999"),
        Method::Post,
        b"{\"query\":\"{ping}\"}",
    );
    match p {
        Plan::Forward(t) => {
            assert_eq!(t.host, b"localhost".to_vec());
            assert_eq!(t.port, 9999);
            assert_eq!(t.authority, b"localhost:9999".to_vec());
            assert_eq!(t.url, b"http://localhost:9999?query=%7Bping%7D".to_vec());
        },
        Plan::Reply(_) => panic!("expected a forwarding target"),
    }
}

#[test]
fn parsed_document_reaches_the_query_string() {
    let p = handle_request(&cfg("h"), Method::Post, b"{ \"a\" : \"b\" }");
    match p {
        Plan::Forward(t) => assert_eq!(t.url, b"h?a=b".to_vec()),
        Plan::Reply(_) => panic!("expected a forwarding target"),
    }
}

#[test]
fn object_order_is_kept() {
    let p = handle_request(&cfg("h"), Method::Post, b"{\"z\":1,\"a\":2}");
    match p {
        Plan::Forward(t) => assert_eq!(t.url, b"h?z=1&a=2".to_vec()),
        Plan::Reply(_) => panic!("expected a forwarding target"),
    }
}

#[test]
fn base_without_scheme_or_port_defaults_to_port_80() {
    let p = handle_request(&cfg("example.com/api"), Method::Post, b"{\"a\":\"b\"}");
    match p {
        Plan::Forward(t) => {
            assert_eq!(t.host, b"example.com".to_vec());
            assert_eq!(t.port, 80);
            assert_eq!(t.authority, b"example.com".to_vec());
            assert_eq!(t.url, b"example.com/api?a=b".to_vec());
        },
        Plan::Reply(_) => panic!("expected a forwarding target"),
    }
}

#[test]
fn oversized_port_is_a_configuration_error() {
    let p = handle_request(&cfg("http://host:99999"), Method::Post, b"{\"a\":\"b\"}");
    assert_eq!(expect_reply(p), (500, "Invalid base URL".to_string()));
}

#[test]
fn empty_host_is_a_configuration_error() {
    let p = handle_request(&cfg("http://:80/x"), Method::Post, b"{\"a\":\"b\"}");
    assert_eq!(expect_reply(p), (500, "Invalid base URL".to_string()));
}

#[test]
fn connect_failure_relays_diagnostic() {
    let r = relay(FetchEvent::ConnectFailed);
    assert_eq!(r.status, 502);
    assert_eq!(String::from_utf8(r.body).unwrap(), "Connection failed");
}

#[test]
fn send_failure_relays_diagnostic() {
    let r = relay(FetchEvent::SendFailed);
    assert_eq!(r.status, 502);
    assert_eq!(String::from_utf8(r.body).unwrap(), "Could not send request");
}

#[test]
fn backend_response_is_relayed_verbatim() {
    let r = relay(FetchEvent::Backend { status: 418, body: b"teapot".to_vec() });
    assert_eq!(r.status, 418);
    assert_eq!(r.body, b"teapot".to_vec());
}

#[test]
fn numbers_keep_canonical_text() {
    let p = handle_request(&cfg("h"), Method::Post, b"{\"a\":1.50,\"b\":2.0,\"c\":3,\"d\":-4}");
    match p {
        Plan::Forward(t) => assert_eq!(t.url, b"h?a=1.5&b=2.0&c=3&d=-4".to_vec()),
        Plan::Reply(_) => panic!("expected a forwarding target"),
    }
}

#[test]
fn multibyte_text_is_percent_encoded_per_byte() {
    let p = handle_request(&cfg("h"), Method::Post, "{\"a\":\"\u{e9}\"}".as_bytes());
    match p {
        Plan::Forward(t) => assert_eq!(t.url, b"h?a=%C3%A9".to_vec()),
        Plan::Reply(_) => panic!("expected a forwarding target"),
    }
}

#[test]
fn escaped_characters_are_decoded_then_encoded() {
    let p = handle_request(&cfg("h"), Method::Post, b"{\"a\":\"x\\ny\"}");
    match p {
        Plan::Forward(t) => assert_eq!(t.url, b"h?a=x%0Ay".to_vec()),
        Plan::Reply(_) => panic!("expected a forwarding target"),
    }
}
