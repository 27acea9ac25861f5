use devtools_server::meta::{discovery_reply, MetaOperation};
use devtools_server::{BrowserVersion, Target, TLS};

fn value(text: &str) -> serde_json::Value {
    serde_json::from_str(text).expect("text is JSON")
}

#[test]
fn operations_from_path() {
    assert_eq!(MetaOperation::try_from("version".to_string()), Some(MetaOperation::Version));
    assert_eq!(MetaOperation::try_from("list".to_string()), Some(MetaOperation::Targets));
    assert_eq!(MetaOperation::try_from(String::new()), Some(MetaOperation::Targets));
    assert_eq!(MetaOperation::try_from("protocol".to_string()), None);
}

#[test]
fn version_report() {
    let (status, body) = discovery_reply("version".to_string(), &BrowserVersion::default(), &[]);
    assert_eq!(status, 200);
    assert_eq!(
        value(&body.to_text()),
        value(r#"{"Browser":"Remote-Debug-Test/Remote-Debug-Test 0.1.0","Protocol-Version":"1.3","User-Agent":"Remote Debug","V8-Version":null,"WebKit-Version":null,"webSocketDebuggerUrl":null}"#)
    );
}

#[test]
fn target_list_report() {
    let targets = vec![Target::default()];
    for seg in ["list", ""] {
        let (status, body) = discovery_reply(seg.to_string(), &BrowserVersion::default(), &targets);
        assert_eq!(status, 200);
        let v = value(&body.to_text());
        assert_eq!(v[0]["id"], value(r#""TEST-1""#));
        assert_eq!(v[0]["type"], value(r#""other""#));
        assert_eq!(v[0]["webSocketDebuggerUrl"], value(r#""ws://localhost:9002/devtools/page/TEST-1""#));
        assert_eq!(v[0]["faviconUrl"], value(r#""https://www.google.com/favicon.ico""#));
        assert_eq!(v.as_array().unwrap().len(), 1);
    }
}

#[test]
fn empty_target_list() {
    let body = MetaOperation::Targets.exec(&BrowserVersion::default(), &[]);
    assert_eq!(body.to_text(), "[]");
}

#[test]
fn unknown_report_is_not_found() {
    let (status, body) = discovery_reply("nope".to_string(), &BrowserVersion::default(), &[]);
    assert_eq!(status, 404);
    assert_eq!(body.to_text(), "{}");
}

#[test]
fn default_target_fields() {
    let t = Target::default();
    assert_eq!(t.title, "Remote Debug Test");
    assert_eq!(t.url, "test://remote-debug");
    assert!(t.description.ends_with('\u{1f980}'));
}

#[test]
fn tls_settings() {
    let t = TLS::new(9003, "keys/cert.pem", "keys/key.pem");
    assert_eq!(t.port, 9003);
    assert_eq!(t.certificate, "keys/cert.pem");
    assert_eq!(t.private_key, "keys/key.pem");
}
