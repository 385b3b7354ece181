use jsonrpc_http::hyper_http::{check_status, Builder, Client, HyperTransport};
use jsonrpc_http::{Error, TransportFault};

#[test]
fn construct() {
    let tp = Builder::new()
        .timeout(100)
        .url("localhost:22")
        .unwrap()
        .auth("user", None)
        .build();
    let _ = Client::with_transport(tp);
}

#[test]
fn default_target() {
    let tp = HyperTransport::new();
    assert_eq!(tp.describe_target().as_str(), "http://127.0.0.1:8332");
}

#[test]
fn target_reproduces_url() {
    let tp = Builder::new().url("http://localhost:22/path").unwrap().build();
    assert_eq!(tp.describe_target().as_str(), "http://localhost:22/path");

    let tp = Builder::new().url("localhost:22").unwrap().build();
    assert_eq!(tp.describe_target().as_str(), "http://localhost:22");

    let tp = Builder::new().url("node-1.example.com:65535/rpc/v1").unwrap().build();
    assert_eq!(tp.describe_target().as_str(), "http://node-1.example.com:65535/rpc/v1");

    let tp = Builder::new().url("h:0").unwrap().build();
    assert_eq!(tp.describe_target().as_str(), "http://h:0");
}

#[test]
fn invalid_urls_are_rejected() {
    let bad = [
        "",
        "localhost",
        "localhost:",
        "localhost:abc",
        ":22",
        "http://:22",
        "localhost:022",
        "localhost:65536",
        "localhost:123456",
        "localhost:22x",
        "http://",
        "host name:22",
    ];
    for url in bad {
        match Builder::new().url(url) {
            Ok(_) => panic!("accepted invalid url"),
            Err(e) => assert_eq!(e, Error::InvalidEndpoint),
        }
    }
}

#[test]
fn timeout_is_carried_into_the_call() {
    let tp = Builder::new().timeout(50).url("localhost:22").unwrap().build();
    let call = tp.prepare_request(&serde_json::Value::Null).unwrap();
    assert_eq!(call.timeout_ms, 50);

    let tp = Builder::new().url("localhost:22").unwrap().build();
    let call = tp.prepare_request(&serde_json::Value::Null).unwrap();
    assert_eq!(call.timeout_ms, 2000);
}

#[test]
fn basic_auth_fixture() {
    let tp = Builder::new().auth("alice", Some("secret")).build();
    let call = tp.prepare_request(&serde_json::Value::Null).unwrap();
    assert_eq!(call.headers.len(), 4);
    assert_eq!(call.headers[3].0.as_str(), "Authorization");
    assert_eq!(call.headers[3].1.as_str(), "Basic YWxpY2U6c2VjcmV0");
}

#[test]
fn cookie_auth_fixture() {
    let tp = Builder::new().cookie_auth("tok123").build();
    let call = tp.prepare_request(&serde_json::Value::Null).unwrap();
    assert_eq!(call.headers.len(), 4);
    assert_eq!(call.headers[3].0.as_str(), "Authorization");
    assert_eq!(call.headers[3].1.as_str(), "Basic dG9rMTIz");
}

#[test]
fn short_cookie_is_padded() {
    let tp = Builder::new().cookie_auth("a").build();
    let call = tp.prepare_request(&serde_json::Value::Null).unwrap();
    assert_eq!(call.headers[3].1.as_str(), "Basic YQ==");
}

#[test]
fn auth_without_password_encodes_trailing_colon() {
    let tp = Builder::new().auth("user", None).build();
    let call = tp.prepare_request(&serde_json::Value::Null).unwrap();
    assert_eq!(call.headers[3].1.as_str(), "Basic dXNlcjo=");
}

#[test]
fn later_auth_replaces_earlier() {
    let tp = Builder::new().auth("alice", Some("secret")).cookie_auth("tok123").build();
    let call = tp.prepare_request(&serde_json::Value::Null).unwrap();
    assert_eq!(call.headers.len(), 4);
    assert_eq!(call.headers[3].1.as_str(), "Basic dG9rMTIz");
}

#[test]
fn headers_without_auth() {
    let tp = Builder::new().url("localhost:22").unwrap().build();
    let call = tp.prepare_request(&serde_json::Value::Bool(true)).unwrap();
    assert_eq!(call.headers.len(), 3);
    assert_eq!(call.headers[0].0.as_str(), "Content-Type");
    assert_eq!(call.headers[0].1.as_str(), "application/json");
    assert_eq!(call.headers[1].0.as_str(), "Content-Length");
    assert_eq!(call.headers[1].1.as_str(), call.body.len().to_string().as_str());
    assert_eq!(call.headers[2].0.as_str(), "Connection");
    assert_eq!(call.headers[2].1.as_str(), "Close");
}

#[test]
fn describe_target_omits_auth() {
    let tp = Builder::new().url("localhost:22").unwrap().auth("alice", Some("secret")).build();
    let target = tp.describe_target();
    assert_eq!(target.as_str(), "http://localhost:22");
    assert!(!target.contains("YWxpY2U"));
}

#[test]
fn non_success_status_is_a_transport_fault() {
    assert!(check_status(200).is_ok());
    assert!(check_status(299).is_ok());
    assert_eq!(check_status(199).unwrap_err(), Error::Transport(TransportFault::Status));
    assert_eq!(check_status(404).unwrap_err(), Error::Transport(TransportFault::Status));
    assert_eq!(check_status(500).unwrap_err(), Error::Transport(TransportFault::Status));
}

#[test]
fn hyper_http_constructor() {
    let client = Client::hyper_http("localhost:22", Some("user".to_string()), None);
    assert!(client.is_ok());

    let client = Client::hyper_http("localhost:22", None, None);
    assert!(client.is_ok());

    match Client::hyper_http("not a url", None, None) {
        Ok(_) => panic!("accepted invalid url"),
        Err(e) => assert_eq!(e, Error::InvalidEndpoint),
    }
}
