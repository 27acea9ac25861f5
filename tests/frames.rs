use devtools_server::json::Json;
use devtools_server::jsonrpc::{
    decode, encode, ingress, invalid_request, method_not_found, parse_error, request_from_json,
    request_to_json, response_from_json, response_to_json, DecodeError, Frame, Request, Response, RpcError,
};

fn json(text: &str) -> Json {
    Json::parse(text).expect("test input is JSON")
}

fn value(text: &str) -> serde_json::Value {
    serde_json::from_str(text).expect("text is JSON")
}

fn text_frame(s: &str) -> Frame {
    Frame::Text(s.to_string())
}

#[test]
fn decodes_full_request() {
    let q = decode(text_frame(r#"{"jsonrpc":"2.0","id":7,"method":"Foo.bar","params":{"a":1}}"#)).unwrap();
    assert_eq!(q.jsonrpc, "2.0");
    assert_eq!(q.method, "Foo.bar");
    assert_eq!(q.params, json(r#"{"a":1}"#));
    assert_eq!(q.id, Some(json("7")));
}

#[test]
fn decode_fills_defaults() {
    let q = decode(text_frame(r#"{"method":"Page.enable","extra":[1,2]}"#)).unwrap();
    assert_eq!(q.jsonrpc, "2.0");
    assert_eq!(q.params, Json::Object(vec![]));
    assert_eq!(q.id, None);
}

#[test]
fn null_id_is_notification() {
    let q = decode(text_frame(r#"{"id":null,"method":"Page.enable"}"#)).unwrap();
    assert_eq!(q.id, None);
}

#[test]
fn binary_frame_is_non_text() {
    assert_eq!(decode(Frame::Binary(vec![0, 1])).err(), Some(DecodeError::NonText));
}

#[test]
fn bad_json_variants() {
    assert_eq!(decode(text_frame("not-json")).err(), Some(DecodeError::BadJson));
    assert_eq!(decode(text_frame("[1,2]")).err(), Some(DecodeError::BadJson));
    assert_eq!(decode(text_frame(r#"{"id":1}"#)).err(), Some(DecodeError::BadJson));
    assert_eq!(decode(text_frame(r#"{"method":5}"#)).err(), Some(DecodeError::BadJson));
    assert_eq!(decode(text_frame(r#"{"method":"a","jsonrpc":2}"#)).err(), Some(DecodeError::BadJson));
}

#[test]
fn parse_error_scenario() {
    let r = ingress(Frame::Binary(vec![0x00, 0x01])).err().unwrap();
    assert_eq!(
        value(&encode(r)),
        value(r#"{"jsonrpc":"2.0","id":null,"method":null,"error":{"code":-32700,"message":"Parse error"}}"#)
    );
}

#[test]
fn schema_error_scenario() {
    let r = ingress(text_frame("not-json")).err().unwrap();
    assert_eq!(
        value(&encode(r)),
        value(r#"{"jsonrpc":"2.0","id":null,"method":null,"error":{"code":-32600,"message":"Invalid Request"}}"#)
    );
}

#[test]
fn ingress_passes_requests() {
    let q = ingress(text_frame(r#"{"id":"x","method":"DOM.enable"}"#)).ok().unwrap();
    assert_eq!(q.id, Some(Json::Str("x".to_string())));
}

#[test]
fn request_round_trip() {
    let q = Request {
        jsonrpc: "2.0".to_string(),
        method: "Runtime.evaluate".to_string(),
        params: json(r#"{"expression":"1+1","n":[1,2.5,null,true]}"#),
        id: Some(json("11")),
    };
    let copy = Request {
        jsonrpc: q.jsonrpc.clone(),
        method: q.method.clone(),
        params: q.params.duplicate(),
        id: q.id.as_ref().map(|i| i.duplicate()),
    };
    assert_eq!(request_from_json(request_to_json(q)), Some(copy));
}

#[test]
fn notification_round_trip() {
    let q = Request {
        jsonrpc: "2.0".to_string(),
        method: "Page.enable".to_string(),
        params: json("{}"),
        id: None,
    };
    let text = request_to_json(q).to_text();
    let back = decode(Frame::Text(text)).unwrap();
    assert_eq!(back.method, "Page.enable");
    assert_eq!(back.id, None);
    assert_eq!(back.params, json("{}"));
}

#[test]
fn method_not_found_frame() {
    let r = method_not_found(Some(json("7")), Some("Foo.bar".to_string()));
    assert_eq!(
        value(&encode(r)),
        value(r#"{"jsonrpc":"2.0","id":7,"method":"Foo.bar","error":{"code":-32601,"message":"Method not found"}}"#)
    );
}

#[test]
fn invalid_request_has_no_result() {
    let r = invalid_request(Some(json("3")), Some("DOM.x".to_string()));
    assert!(r.result.is_none());
    assert_eq!(r.error.as_ref().unwrap().code, -32600);
    assert_eq!(r.error.as_ref().unwrap().message, "Invalid Request");
    assert_eq!(r.id, Some(json("3")));
}

#[test]
fn parse_error_constructor() {
    let r = parse_error();
    assert_eq!(r.error.as_ref().unwrap().code, -32700);
    assert!(!r.has_id());
    assert!(r.method.is_none());
}

#[test]
fn rpc_error_invalid_request() {
    let e = RpcError::invalid_request();
    assert_eq!(e.code, -32600);
    assert_eq!(e.message, "Invalid Request");
    assert!(e.data.is_none());
}

#[test]
fn reply_defaults_to_empty_result() {
    let q = decode(text_frame(r#"{"id":4,"method":"Page.reload"}"#)).unwrap();
    let r = Response::reply(&q, None);
    assert_eq!(
        value(&r.to_json()),
        value(r#"{"jsonrpc":"2.0","id":4,"method":"Page.reload","result":{}}"#)
    );
    let r2 = Response::reply(&q, Some(json("[1]")));
    assert_eq!(r2.result, Some(json("[1]")));
}

#[test]
fn response_from_outcomes() {
    let ok = Response::from(Ok(json("true")), Some(json("1")));
    assert_eq!(ok.result, Some(Json::Bool(true)));
    assert!(ok.error.is_none());
    assert_eq!(ok.method, Some(String::new()));
    let err = Response::from(Err(RpcError::invalid_request()), None);
    assert!(err.result.is_none());
    assert_eq!(err.error.unwrap().code, -32600);
}

#[test]
fn default_response() {
    let r = Response::default();
    assert_eq!(value(&r.to_json()), value(r#"{"jsonrpc":"2.0","id":0,"method":"","result":{}}"#));
}

#[test]
fn event_frame_has_no_id() {
    let e = Response::event("Page.loadEventFired".to_string(), json(r#"{"timestamp":123}"#));
    assert_eq!(
        value(&e.to_json()),
        value(r#"{"jsonrpc":"2.0","method":"Page.loadEventFired","params":{"timestamp":123}}"#)
    );
    assert!(!e.has_id());
}

#[test]
fn error_data_is_written() {
    let mut e = RpcError::invalid_request();
    e.data = Some(json(r#"{"why":"no"}"#));
    let r = Response::from(Err(e), Some(json("9")));
    assert_eq!(
        value(&encode(r)),
        value(r#"{"jsonrpc":"2.0","id":9,"method":"","error":{"code":-32600,"message":"Invalid Request","data":{"why":"no"}}}"#)
    );
}

#[test]
fn json_text_and_copy() {
    let j = json(r#"{"b":[1,"x",{"c":null}],"a":false}"#);
    assert_eq!(j.duplicate(), j);
    assert_eq!(value(&j.to_text()), value(r#"{"a":false,"b":[1,"x",{"c":null}]}"#));
    assert!(Json::parse("{").is_none());
}

#[test]
fn response_round_trip() {
    let r = Response::from(Ok(json(r#"{"value":2}"#)), Some(json("11")));
    let copy = r.duplicate();
    assert_eq!(response_from_json(response_to_json(r)), Some(copy));
}

#[test]
fn error_response_round_trip() {
    let mut e = RpcError::invalid_request();
    e.code = -32601;
    e.data = Some(json(r#"[1,"a"]"#));
    let r = Response::from(Err(e), Some(json(r#""abc""#)));
    let copy = r.duplicate();
    assert_eq!(response_from_json(response_to_json(r)), Some(copy));
    let pre = parse_error();
    let copy = pre.duplicate();
    assert_eq!(response_from_json(response_to_json(pre)), Some(copy));
}

#[test]
fn response_decoding_rejects_bad_shapes() {
    assert!(response_from_json(json("[]")).is_none());
    assert!(response_from_json(json(r#"{"method":3}"#)).is_none());
    assert!(response_from_json(json(r#"{"error":{"code":1.5,"message":"x"}}"#)).is_none());
    assert!(response_from_json(json(r#"{"error":{"code":4294967296,"message":"x"}}"#)).is_none());
    assert!(response_from_json(json(r#"{"error":{"code":1}}"#)).is_none());
    let r = response_from_json(json(r#"{"id":null,"result":null,"method":null,"error":null}"#)).unwrap();
    assert_eq!(r.jsonrpc, "2.0");
    assert!(r.id.is_none() && r.result.is_none() && r.method.is_none() && r.error.is_none());
}
