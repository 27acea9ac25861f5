//! What the discovery endpoints report: the inspectable targets and the
//! browser version, and which report a path asks for.
use vstd::prelude::*;
use crate::json::{Json, JsonValue, members_of, push_member, values_of};

verus! {

/// A target listed by this server.
pub struct Target {
    pub description: String,
    pub devtools_frontend_url: Option<String>,
    pub id: String,
    pub title: String,
    pub target_type: String,
    pub url: String,
    pub web_socket_debugger_url: String,
    pub favicon_url: Option<String>,
}

/// The browser-version report.
pub struct BrowserVersion {
    /// Written `NAME/VERSION`.
    pub browser: String,
    pub protocol_version: String,
    pub user_agent: String,
    pub v8_version: Option<String>,
    pub webkit_version: Option<String>,
    pub web_socket_debugger_url: Option<String>,
}

/// A text member, or null where the text is absent.
pub open spec fn text_or_null(o: Option<String>) -> JsonValue {
    match o {
        Some(s) => JsonValue::Str(s@),
        None => JsonValue::Null,
    }
}

/// The JSON object for a target.
pub open spec fn target_json(t: Target) -> JsonValue {
    JsonValue::Object(
        seq![
            ("description"@, JsonValue::Str(t.description@)),
            ("devtoolsFrontendUrl"@, text_or_null(t.devtools_frontend_url)),
            ("id"@, JsonValue::Str(t.id@)),
            ("title"@, JsonValue::Str(t.title@)),
            ("type"@, JsonValue::Str(t.target_type@)),
            ("url"@, JsonValue::Str(t.url@)),
            ("webSocketDebuggerUrl"@, JsonValue::Str(t.web_socket_debugger_url@)),
            ("faviconUrl"@, text_or_null(t.favicon_url)),
        ],
    )
}

/// The JSON object for the browser-version report.
pub open spec fn version_json(v: BrowserVersion) -> JsonValue {
    JsonValue::Object(
        seq![
            ("Browser"@, JsonValue::Str(v.browser@)),
            ("Protocol-Version"@, JsonValue::Str(v.protocol_version@)),
            ("User-Agent"@, JsonValue::Str(v.user_agent@)),
            ("V8-Version"@, text_or_null(v.v8_version)),
            ("WebKit-Version"@, text_or_null(v.webkit_version)),
            ("webSocketDebuggerUrl"@, text_or_null(v.web_socket_debugger_url)),
        ],
    )
}

/// The JSON array for a list of targets.
pub open spec fn targets_json(ts: Seq<Target>) -> JsonValue {
    JsonValue::Array(ts.map_values(|t: Target| target_json(t)))
}

fn text_json(s: &String) -> (r: Json)
    ensures
        r@ == JsonValue::Str(s@),
{
    Json::Str(s.clone())
}

fn optional_text_json(o: &Option<String>) -> (r: Json)
    ensures
        r@ == text_or_null(*o),
{
    match o {
        Some(s) => Json::Str(s.clone()),
        None => Json::Null,
    }
}

fn empty_members() -> (r: Vec<(String, Json)>)
    ensures
        members_of(r@) == Seq::<(Seq<char>, JsonValue)>::empty(),
{
    let r: Vec<(String, Json)> = Vec::new();
    assert(members_of(r@) =~= Seq::<(Seq<char>, JsonValue)>::empty());
    r
}

impl Target {
    /// The JSON object for this target.
    pub fn to_json(&self) -> (r: Json)
        ensures
            r@ == target_json(*self),
    {
        let mut fs = empty_members();
        push_member(&mut fs, "description", text_json(&self.description));
        push_member(&mut fs, "devtoolsFrontendUrl", optional_text_json(&self.devtools_frontend_url));
        push_member(&mut fs, "id", text_json(&self.id));
        push_member(&mut fs, "title", text_json(&self.title));
        push_member(&mut fs, "type", text_json(&self.target_type));
        push_member(&mut fs, "url", text_json(&self.url));
        push_member(&mut fs, "webSocketDebuggerUrl", text_json(&self.web_socket_debugger_url));
        push_member(&mut fs, "faviconUrl", optional_text_json(&self.favicon_url));
        proof {
            assert(members_of(fs@) =~= target_json(*self)->Object_0);
        }
        Json::Object(fs)
    }
}

impl BrowserVersion {
    /// The JSON object for this report.
    pub fn to_json(&self) -> (r: Json)
        ensures
            r@ == version_json(*self),
    {
        let mut fs = empty_members();
        push_member(&mut fs, "Browser", text_json(&self.browser));
        push_member(&mut fs, "Protocol-Version", text_json(&self.protocol_version));
        push_member(&mut fs, "User-Agent", text_json(&self.user_agent));
        push_member(&mut fs, "V8-Version", optional_text_json(&self.v8_version));
        push_member(&mut fs, "WebKit-Version", optional_text_json(&self.webkit_version));
        push_member(&mut fs, "webSocketDebuggerUrl", optional_text_json(&self.web_socket_debugger_url));
        proof {
            assert(members_of(fs@) =~= version_json(*self)->Object_0);
        }
        Json::Object(fs)
    }
}

impl Default for Target {
    fn default() -> (r: Self)
        ensures
            r.id@ == "TEST-1"@,
            r.title@ == "Remote Debug Test"@,
            r.description@ == "A test of the devtools remote debug protocol, implemented in Rust! \u{1f980}"@,
            r.devtools_frontend_url matches Some(u) && u@ == "/devtools/inspector.html?ws=localhost:9002/devtools/page/TEST-1"@,
            r.target_type@ == "other"@,
            r.favicon_url matches Some(u) && u@ == "https://www.google.com/favicon.ico"@,
            r.url@ == "test://remote-debug"@,
            r.web_socket_debugger_url@ == "ws://localhost:9002/devtools/page/TEST-1"@,
    {
        Target {
            id: "TEST-1".to_owned(),
            title: "Remote Debug Test".to_owned(),
            description: "A test of the devtools remote debug protocol, implemented in Rust! \u{1f980}".to_owned(),
            devtools_frontend_url: Some("/devtools/inspector.html?ws=localhost:9002/devtools/page/TEST-1".to_owned()),
            target_type: "other".to_owned(),
            favicon_url: Some("https://www.google.com/favicon.ico".to_owned()),
            url: "test://remote-debug".to_owned(),
            web_socket_debugger_url: "ws://localhost:9002/devtools/page/TEST-1".to_owned(),
        }
    }
}

impl Default for BrowserVersion {
    fn default() -> (r: Self)
        ensures
            r.browser@ == "Remote-Debug-Test/Remote-Debug-Test 0.1.0"@,
            r.protocol_version@ == "1.3"@,
            r.user_agent@ == "Remote Debug"@,
            r.v8_version is None,
            r.webkit_version is None,
            r.web_socket_debugger_url is None,
    {
        BrowserVersion {
            browser: "Remote-Debug-Test/Remote-Debug-Test 0.1.0".to_owned(),
            protocol_version: "1.3".to_owned(),
            user_agent: "Remote Debug".to_owned(),
            v8_version: None,
            webkit_version: None,
            web_socket_debugger_url: None,
        }
    }
}

/// A report that the discovery endpoints give.
#[derive(Debug, PartialEq, Eq)]
pub enum MetaOperation {
    Targets,
    Version,
}

/// The report that the path segment after `/json/` asks for: `version`, or
/// the target list for `list` and for nothing.
pub open spec fn operation_of(s: Seq<char>) -> Option<MetaOperation> {
    if s == "version"@ {
        Some(MetaOperation::Version)
    } else if s == "list"@ || s.len() == 0 {
        Some(MetaOperation::Targets)
    } else {
        None
    }
}

impl MetaOperation {
    /// The report that a path segment asks for, if any.
    pub fn try_from(value: String) -> (r: Option<Self>)
        ensures
            r == operation_of(value@),
    {
        proof {
            reveal_strlit("version");
            reveal_strlit("list");
        }
        let version = "version".to_owned();
        let list = "list".to_owned();
        if value == version {
            Some(MetaOperation::Version)
        } else if value == list || value.as_str().unicode_len() == 0 {
            Some(MetaOperation::Targets)
        } else {
            None
        }
    }

    /// The body of this report.
    pub fn exec(&self, version: &BrowserVersion, targets: &[Target]) -> (r: Json)
        ensures
            r@ == match self {
                MetaOperation::Targets => targets_json(targets@),
                MetaOperation::Version => version_json(*version),
            },
    {
        match self {
            MetaOperation::Targets => {
                let mut out: Vec<Json> = Vec::new();
                let mut i: usize = 0;
                while i < targets.len()
                    invariant
                        i <= targets@.len(),
                        values_of(out@) == targets@.subrange(0, i as int).map_values(|t: Target| target_json(t)),
                    decreases targets.len() - i,
                {
                    let j = targets[i].to_json();
                    proof {
                        assert(out@.push(j).drop_last() =~= out@);
                        assert(targets@.subrange(0, i + 1).map_values(|t: Target| target_json(t)) =~= targets@.subrange(
                            0,
                            i as int,
                        ).map_values(|t: Target| target_json(t)).push(target_json(targets@[i as int])));
                    }
                    out.push(j);
                    i += 1;
                }
                proof {
                    assert(targets@.subrange(0, targets@.len() as int) =~= targets@);
                }
                Json::Array(out)
            },
            MetaOperation::Version => version.to_json(),
        }
    }
}

/// The status and body that `GET /json/<segment>` answers with: the
/// report the segment asks for with 200, or an empty object with 404.
pub fn discovery_reply(segment: String, version: &BrowserVersion, targets: &[Target]) -> (r: (u16, Json))
    ensures
        match operation_of(segment@) {
            Some(MetaOperation::Targets) => r.0 == 200 && r.1@ == targets_json(targets@),
            Some(MetaOperation::Version) => r.0 == 200 && r.1@ == version_json(*version),
            None => r.0 == 404 && r.1@ == JsonValue::Object(Seq::empty()),
        },
{
    match MetaOperation::try_from(segment) {
        Some(op) => (200, op.exec(version, targets)),
        None => (404, Json::Object(empty_members())),
    }
}

} // verus!
