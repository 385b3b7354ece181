use jsonrpc_http::codec::{decode_batch_body, decode_response_body};
use jsonrpc_http::hyper_http::Builder;
use jsonrpc_http::Error;
use serde_json::Value;

fn request(method: &str, id: u64) -> Value {
    let mut obj = serde_json::Map::new();
    obj.insert("jsonrpc".to_string(), Value::String("2.0".to_string()));
    obj.insert("method".to_string(), Value::String(method.to_string()));
    obj.insert("id".to_string(), Value::Number(serde_json::Number::from(id)));
    Value::Object(obj)
}

#[test]
fn single_round_trip() {
    let tp = Builder::new().build();
    let req = request("getinfo", 7);
    let call = tp.prepare_request(&req).unwrap();
    let echoed = decode_response_body(&call.body).unwrap();
    assert_eq!(echoed, req);
}

#[test]
fn batch_round_trip_preserves_order() {
    let tp = Builder::new().build();
    let reqs = vec![request("a", 1), request("b", 2), request("c", 3)];
    let call = tp.prepare_batch(reqs.clone()).unwrap();
    let echoed = decode_batch_body(&call.body, 3).unwrap();
    assert_eq!(echoed, reqs);
}

#[test]
fn truncated_batch_is_refused() {
    let short = serde_json::to_vec(&vec![request("a", 1), request("b", 2)]).unwrap();
    match decode_batch_body(&short, 3) {
        Ok(_) => panic!("accepted a truncated batch"),
        Err(e) => assert_eq!(e, Error::Deserialization),
    }
}

#[test]
fn extended_batch_is_refused() {
    let long = serde_json::to_vec(&vec![request("a", 1), request("b", 2)]).unwrap();
    match decode_batch_body(&long, 1) {
        Ok(_) => panic!("accepted an extended batch"),
        Err(e) => assert_eq!(e, Error::Deserialization),
    }
}

#[test]
fn permuted_batch_is_returned_in_server_order() {
    let reqs = vec![request("a", 1), request("b", 2), request("c", 3)];
    let permuted = vec![reqs[2].clone(), reqs[0].clone(), reqs[1].clone()];
    let body = serde_json::to_vec(&permuted).unwrap();
    let decoded = decode_batch_body(&body, 3).unwrap();
    assert_eq!(decoded, permuted);
    assert_ne!(decoded, reqs);
}

#[test]
fn non_array_batch_body_is_refused() {
    let body = serde_json::to_vec(&request("a", 1)).unwrap();
    match decode_batch_body(&body, 1) {
        Ok(_) => panic!("accepted a non-array body"),
        Err(e) => assert_eq!(e, Error::Deserialization),
    }
}

#[test]
fn malformed_body_is_refused() {
    match decode_response_body(b"{not json") {
        Ok(_) => panic!("accepted malformed JSON"),
        Err(e) => assert_eq!(e, Error::Deserialization),
    }
    match decode_batch_body(b"{not json", 1) {
        Ok(_) => panic!("accepted malformed JSON"),
        Err(e) => assert_eq!(e, Error::Deserialization),
    }
}

#[test]
fn empty_batch_round_trip() {
    let tp = Builder::new().build();
    let call = tp.prepare_batch(Vec::new()).unwrap();
    let echoed = decode_batch_body(&call.body, 0).unwrap();
    assert!(echoed.is_empty());
}
