use devtools_server::json::Json;
use devtools_server::jsonrpc::{decode, encode, Frame, Response};
use devtools_server::util::{
    deliver, listener_reply, starts_with, unrouted, Either, Forwarder, HandlerBuilder, Outcome, Route,
};

fn json(text: &str) -> Json {
    Json::parse(text).expect("test input is JSON")
}

fn value(text: &str) -> serde_json::Value {
    serde_json::from_str(text).expect("text is JSON")
}

fn forwarder(prefixes: &[&str]) -> Forwarder {
    Forwarder::new(prefixes.iter().map(|p| p.to_string()).collect())
}

#[test]
fn forwarder_matches_prefix_in_any_case() {
    let f = forwarder(&["Runtime.", "debugger."]);
    assert!(f.has(&"Runtime.evaluate".to_string()));
    assert!(f.has(&"runtime.EVALUATE".to_string()));
    assert!(f.has(&"DEBUGGER.pause".to_string()));
    assert!(!f.has(&"DOM.getDocument".to_string()));
    assert!(!f.has(&"Runtime".to_string()));
    assert_eq!(f.prefixes().len(), 2);
}

#[test]
fn forwarder_without_prefixes_claims_nothing() {
    let f = forwarder(&[]);
    assert!(!f.has(&"Runtime.evaluate".to_string()));
    let g = forwarder(&[""]);
    assert!(g.has(&"anything".to_string()));
}

#[test]
fn starts_with_cases() {
    assert!(starts_with("Runtime.evaluate", "Runtime."));
    assert!(starts_with("abc", ""));
    assert!(!starts_with("ab", "abc"));
    assert!(!starts_with("abd", "abc"));
}

#[test]
fn unknown_method_scenario() {
    let h = HandlerBuilder::<(), ()>::new().build();
    let q = decode(Frame::Text(r#"{"jsonrpc":"2.0","id":7,"method":"Foo.bar","params":{}}"#.to_string())).unwrap();
    assert_eq!(h.route(&q.method), Route::NotFound);
    let r = unrouted(q.id, q.method);
    assert_eq!(
        value(&encode(r)),
        value(r#"{"jsonrpc":"2.0","id":7,"method":"Foo.bar","error":{"code":-32601,"message":"Method not found"}}"#)
    );
}

#[test]
fn typed_handler_success_scenario() {
    let mut b = HandlerBuilder::<(), &str>::new();
    b.add_listener("DOM.getDocument", "get-document");
    let h = b.build();
    let q = decode(Frame::Text(r#"{"jsonrpc":"2.0","id":3,"method":"DOM.getDocument","params":{}}"#.to_string())).unwrap();
    let route = h.route(&q.method);
    assert_eq!(route, Route::Listener(0));
    assert_eq!(*h.listener(0), "get-document");
    let r = listener_reply(q.id, q.method, Outcome::Returned(json(r#"{"root":{"nodeId":1,"nodeName":"DOCUMENT"}}"#)));
    let v = value(&r.to_json());
    assert_eq!(v["id"], value("3"));
    assert_eq!(v["method"], value(r#""DOM.getDocument""#));
    assert_eq!(v["result"]["root"]["nodeId"], value("1"));
    assert!(v.get("error").is_none());
}

#[test]
fn forwarder_precedence_scenario() {
    let mut b = HandlerBuilder::<&str, &str>::new();
    b.forward(forwarder(&["Runtime."]), "worker");
    b.add_listener("Runtime.evaluate", "local");
    let h = b.build();
    let q = decode(Frame::Text(r#"{"id":11,"method":"Runtime.evaluate","params":{"expression":"1+1"}}"#.to_string())).unwrap();
    assert_eq!(h.route(&q.method), Route::Forward(0));
    assert_eq!(*h.forwarder(0), "worker");
    let worker_reply = Response::from(Ok(json(r#"{"value":2}"#)), Some(json("11")));
    let out = deliver(q.id, worker_reply).unwrap();
    assert_eq!(out.id, Some(json("11")));
    assert_eq!(out.result, Some(json(r#"{"value":2}"#)));
}

#[test]
fn first_registered_forwarder_wins() {
    let mut b = HandlerBuilder::<u8, ()>::new();
    b.forward(forwarder(&["Page."]), 1);
    b.forward(forwarder(&["page.navigate"]), 2);
    b.forward(forwarder(&["Runtime."]), 3);
    let h = b.build();
    assert_eq!(h.route(&"Page.navigate".to_string()), Route::Forward(0));
    assert_eq!(h.route(&"runtime.enable".to_string()), Route::Forward(2));
}

#[test]
fn event_interleaving_scenario() {
    let q = decode(Frame::Text(r#"{"id":5,"method":"Page.enable"}"#.to_string())).unwrap();
    let event = Response::event("Page.loadEventFired".to_string(), json(r#"{"timestamp":123}"#));
    let reply = listener_reply(q.id.as_ref().map(|i| i.duplicate()), q.method.clone(), Outcome::Returned(json("{}")));
    let out = deliver(q.id, reply).unwrap();
    assert_eq!(out.id, Some(json("5")));
    assert_eq!(event.id, None);
    let ev = value(&encode(event));
    assert!(ev.get("id").is_none());
    assert_eq!(ev["params"]["timestamp"], value("123"));
}

#[test]
fn routing_ignores_case() {
    let mut b = HandlerBuilder::<(), u8>::new();
    b.add_listener("DOM.getDocument", 1);
    let h = b.build();
    let upper = h.route(&"DOM.GETDOCUMENT".to_string());
    let lower = h.route(&"dom.getdocument".to_string());
    assert_eq!(upper, Route::Listener(0));
    assert_eq!(upper, lower);
}

#[test]
fn registration_overwrites_same_method() {
    let mut b = HandlerBuilder::<(), u8>::new();
    b.add_listener("DOM.getDocument", 1);
    b.add_listener("Page.enable", 2);
    b.add_listener("dom.GetDocument", 3);
    assert_eq!(b.handlers.len(), 2);
    let h = b.build();
    let r = h.route(&"DOM.getDocument".to_string());
    assert_eq!(r, Route::Listener(0));
    assert_eq!(*h.listener(0), 3);
    assert_eq!(*h.listener(1), 2);
}

#[test]
fn listener_bad_params_and_domain_error() {
    let bad = listener_reply(Some(json("1")), "DOM.x".to_string(), Outcome::BadParams);
    assert_eq!(
        value(&encode(bad)),
        value(r#"{"jsonrpc":"2.0","id":1,"method":"DOM.x","error":{"code":-32600,"message":"Invalid Request"}}"#)
    );
    let failed = listener_reply(Some(json("2")), "DOM.y".to_string(), Outcome::Failed(json(r#""boom""#)));
    assert!(failed.result.is_none());
    assert_eq!(failed.error.as_ref().unwrap().data, Some(json(r#""boom""#)));
    assert_eq!(failed.method, Some("DOM.y".to_string()));
}

#[test]
fn replies_have_exactly_one_of_result_and_error() {
    let outcomes = vec![Outcome::BadParams, Outcome::Returned(json("1")), Outcome::Failed(json("2"))];
    for o in outcomes {
        let r = listener_reply(Some(json("1")), "A.b".to_string(), o);
        assert!(r.result.is_some() != r.error.is_some());
        assert!(r.params.is_none());
    }
    let nf = unrouted(None, "A.b".to_string());
    assert!(nf.result.is_none() && nf.error.is_some());
}

#[test]
fn one_reply_per_request_id() {
    let frames = [
        r#"{"id":1,"method":"A.a"}"#,
        r#"{"method":"A.note"}"#,
        r#"{"id":"two","method":"Nope.x"}"#,
        r#"{"id":null,"method":"A.a"}"#,
        r#"{"id":3,"method":"A.a"}"#,
    ];
    let mut b = HandlerBuilder::<(), ()>::new();
    b.add_listener("A.a", ());
    let h = b.build();
    let mut sent = Vec::new();
    for f in frames {
        let q = decode(Frame::Text(f.to_string())).unwrap();
        let reply = match h.route(&q.method) {
            Route::Listener(_) => listener_reply(q.id.as_ref().map(|i| i.duplicate()), q.method.clone(), Outcome::Returned(json("{}"))),
            _ => unrouted(q.id.as_ref().map(|i| i.duplicate()), q.method.clone()),
        };
        if let Some(out) = deliver(q.id, reply) {
            sent.push(out);
        }
    }
    let ids: Vec<Option<Json>> = sent.into_iter().map(|r| r.id).collect();
    assert_eq!(ids, vec![Some(json("1")), Some(json(r#""two""#)), Some(json("3"))]);
}

#[test]
fn deliver_stamps_request_id() {
    let reply = Response::from(Ok(json("0")), Some(json("99")));
    let out = deliver(Some(json("4")), reply).unwrap();
    assert_eq!(out.id, Some(json("4")));
    let none = deliver(None, Response::from(Ok(json("0")), None));
    assert!(none.is_none());
}

#[test]
fn either_takes_either_side() {
    let a: Result<u8, u8> = Ok(1);
    let b: Result<u8, u8> = Err(2);
    assert_eq!(a.either(), 1);
    assert_eq!(b.either(), 2);
}
