//! JSON-RPC frames: requests, replies, events and errors, and their JSON form.
use vstd::prelude::*;
use crate::json::{
    Json, JsonValue, empty_object, field, json_parse, json_text, lemma_field_push, member, members_of, take_members,
    opt_view, parse_json, push_member, write_json,
};

verus! {

pub const PARSE_ERROR: i32 = -32700;
pub const INVALID_REQUEST: i32 = -32600;
pub const METHOD_NOT_FOUND: i32 = -32601;

/// The error object of a failed reply.
#[derive(Debug, PartialEq)]
pub struct RpcError {
    pub code: i32,
    pub message: String,
    pub data: Option<Json>,
}

pub struct RpcErrorView {
    pub code: i32,
    pub message: Seq<char>,
    pub data: Option<JsonValue>,
}

impl View for RpcError {
    type V = RpcErrorView;

    open spec fn view(&self) -> RpcErrorView {
        RpcErrorView { code: self.code, message: self.message@, data: opt_view(self.data) }
    }
}

/// An incoming call. A request without `id` is a notification.
#[derive(Debug, PartialEq)]
pub struct Request {
    pub jsonrpc: String,
    pub method: String,
    pub params: Json,
    pub id: Option<Json>,
}

pub struct RequestView {
    pub jsonrpc: Seq<char>,
    pub method: Seq<char>,
    pub params: JsonValue,
    pub id: Option<JsonValue>,
}

impl View for Request {
    type V = RequestView;

    open spec fn view(&self) -> RequestView {
        RequestView {
            jsonrpc: self.jsonrpc@,
            method: self.method@,
            params: self.params@,
            id: opt_view(self.id),
        }
    }
}

/// An outgoing frame: a reply (`result` or `error`) or an event (`params`).
#[derive(Debug, PartialEq)]
pub struct Response {
    pub jsonrpc: String,
    pub method: Option<String>,
    pub result: Option<Json>,
    pub params: Option<Json>,
    pub error: Option<RpcError>,
    pub id: Option<Json>,
}

pub struct ResponseView {
    pub jsonrpc: Seq<char>,
    pub method: Option<Seq<char>>,
    pub result: Option<JsonValue>,
    pub params: Option<JsonValue>,
    pub error: Option<RpcErrorView>,
    pub id: Option<JsonValue>,
}

pub open spec fn opt_text(o: Option<String>) -> Option<Seq<char>> {
    match o {
        Some(s) => Some(s@),
        None => None,
    }
}

impl View for Response {
    type V = ResponseView;

    open spec fn view(&self) -> ResponseView {
        ResponseView {
            jsonrpc: self.jsonrpc@,
            method: opt_text(self.method),
            result: opt_view(self.result),
            params: opt_view(self.params),
            error: match self.error {
                Some(e) => Some(e@),
                None => None,
            },
            id: opt_view(self.id),
        }
    }
}

pub open spec fn version() -> Seq<char> {
    "2.0"@
}

/// An error object with the given code and message, and no data.
pub open spec fn plain_error(code: i32, message: Seq<char>) -> RpcErrorView {
    RpcErrorView { code, message, data: None }
}

/// A reply that reports `e`, with neither result nor event parameters.
pub open spec fn error_frame(
    id: Option<JsonValue>,
    method: Option<Seq<char>>,
    e: RpcErrorView,
) -> ResponseView {
    ResponseView { jsonrpc: version(), method, result: None, params: None, error: Some(e), id }
}

/// A reply that carries `result`.
pub open spec fn result_frame(
    id: Option<JsonValue>,
    method: Option<Seq<char>>,
    result: JsonValue,
) -> ResponseView {
    ResponseView { jsonrpc: version(), method, result: Some(result), params: None, error: None, id }
}

/// An event: `method` and `params`, and no id.
pub open spec fn event_frame(method: Seq<char>, params: JsonValue) -> ResponseView {
    ResponseView { jsonrpc: version(), method: Some(method), result: None, params: Some(params), error: None, id: None }
}

/// Exactly one of `result` and `error` is set, and no event parameters.
pub open spec fn is_reply(r: ResponseView) -> bool {
    &&& (r.result is Some) != (r.error is Some)
    &&& r.params is None
}

/// Event parameters are set, with no id, result or error.
pub open spec fn is_event(r: ResponseView) -> bool {
    &&& r.params is Some
    &&& r.id is None
    &&& r.result is None
    &&& r.error is None
}

fn def_version() -> (r: String)
    ensures
        r@ == version(),
{
    "2.0".to_owned()
}

impl RpcError {
    pub fn invalid_request() -> (r: Self)
        ensures
            r@ == plain_error(INVALID_REQUEST, "Invalid Request"@),
    {
        RpcError { code: INVALID_REQUEST, message: "Invalid Request".to_owned(), data: None }
    }
}

/// The reply to a frame that is not text.
pub fn parse_error() -> (r: Response)
    ensures
        r@ == error_frame(None, None, plain_error(PARSE_ERROR, "Parse error"@)),
{
    Response {
        jsonrpc: def_version(),
        method: None,
        result: None,
        params: None,
        error: Some(RpcError { code: PARSE_ERROR, message: "Parse error".to_owned(), data: None }),
        id: None,
    }
}

/// The reply to a frame that is not a request, or to a request that a
/// handler refused.
pub fn invalid_request(id: Option<Json>, method: Option<String>) -> (r: Response)
    ensures
        r@ == error_frame(opt_view(id), opt_text(method), plain_error(INVALID_REQUEST, "Invalid Request"@)),
{
    Response {
        jsonrpc: def_version(),
        method,
        result: None,
        params: None,
        error: Some(RpcError::invalid_request()),
        id,
    }
}

/// The reply to a request that nothing routes.
pub fn method_not_found(id: Option<Json>, method: Option<String>) -> (r: Response)
    ensures
        r@ == error_frame(opt_view(id), opt_text(method), plain_error(METHOD_NOT_FOUND, "Method not found"@)),
{
    Response {
        jsonrpc: def_version(),
        method,
        result: None,
        params: None,
        error: Some(RpcError { code: METHOD_NOT_FOUND, message: "Method not found".to_owned(), data: None }),
        id,
    }
}

/// A JSON value is a request: an object whose `method` is a string and
/// whose `jsonrpc`, where present, is a string. Other members are ignored.
pub open spec fn request_accepts(j: JsonValue) -> bool {
    &&& j is Object
    &&& member(j, "method"@) matches Some(JsonValue::Str(_))
    &&& match member(j, "jsonrpc"@) {
        None => true,
        Some(JsonValue::Str(_)) => true,
        _ => false,
    }
}

/// The request that an accepted JSON value stands for: `jsonrpc` defaults to
/// "2.0", `params` to the empty object, and an absent or null `id` makes a
/// notification.
pub open spec fn request_value(j: JsonValue) -> RequestView {
    RequestView {
        jsonrpc: match member(j, "jsonrpc"@) {
            Some(JsonValue::Str(v)) => v,
            _ => version(),
        },
        method: member(j, "method"@)->Some_0->Str_0,
        params: match member(j, "params"@) {
            Some(p) => p,
            None => empty_object(),
        },
        id: match member(j, "id"@) {
            Some(JsonValue::Null) => None,
            Some(v) => Some(v),
            None => None,
        },
    }
}

/// The JSON object written for a request; `id` is left out of a notification.
pub open spec fn request_json(q: RequestView) -> JsonValue {
    let es = seq![
        ("jsonrpc"@, JsonValue::Str(q.jsonrpc)),
        ("method"@, JsonValue::Str(q.method)),
        ("params"@, q.params),
    ];
    JsonValue::Object(
        match q.id {
            Some(i) => es.push(("id"@, i)),
            None => es,
        },
    )
}

/// The JSON object written for an error: `code`, `message`, and `data` where set.
pub open spec fn error_json(e: RpcErrorView) -> JsonValue {
    let es = seq![
        ("code"@, JsonValue::Number(int_number(e.code as int))),
        ("message"@, JsonValue::Str(e.message)),
    ];
    JsonValue::Object(
        match e.data {
            Some(d) => es.push(("data"@, d)),
            None => es,
        },
    )
}

/// `es` with `k: v` appended where `v` is set, or `k: null` where it is
/// not and `null_if_absent` holds.
pub open spec fn with_member(
    es: Seq<(Seq<char>, JsonValue)>,
    k: Seq<char>,
    v: Option<JsonValue>,
    null_if_absent: bool,
) -> Seq<(Seq<char>, JsonValue)> {
    match v {
        Some(x) => es.push((k, x)),
        None => if null_if_absent {
            es.push((k, JsonValue::Null))
        } else {
            es
        },
    }
}

pub open spec fn opt_str(o: Option<Seq<char>>) -> Option<JsonValue> {
    match o {
        Some(s) => Some(JsonValue::Str(s)),
        None => None,
    }
}

/// The JSON object written for a frame. Absent members are left out, but an
/// error frame always carries `id` and `method`, as null where unknown.
pub open spec fn response_json(r: ResponseView) -> JsonValue {
    let is_err = r.error is Some;
    let es = seq![("jsonrpc"@, JsonValue::Str(r.jsonrpc))];
    let es = with_member(es, "id"@, r.id, is_err);
    let es = with_member(es, "method"@, opt_str(r.method), is_err);
    let es = with_member(es, "result"@, r.result, false);
    let es = with_member(es, "params"@, r.params, false);
    let es = with_member(
        es,
        "error"@,
        match r.error {
            Some(e) => Some(error_json(e)),
            None => None,
        },
        false,
    );
    JsonValue::Object(es)
}

/// The serde_json number of an integer.
pub uninterp spec fn int_number(i: int) -> serde_json::Number;

/// The integer that a serde_json number holds, where it is an integer that
/// fits in 64 signed bits.
pub uninterp spec fn number_int(n: serde_json::Number) -> Option<int>;

/// Relies on serde_json::Number's `From<i32>`, which depends on the integer
/// alone and makes an integer number, which `as_i64` gives back.
#[verifier::external_body]
fn number_of_i32(i: i32) -> (r: serde_json::Number)
    ensures
        r == int_number(i as int),
        number_int(r) == Some(i as int),
{
    serde_json::Number::from(i)
}

/// Relies on serde_json::Number::as_i64.
#[verifier::external_body]
fn number_as_i64(n: &serde_json::Number) -> (r: Option<i64>)
    ensures
        match r {
            Some(x) => number_int(*n) == Some(x as int),
            None => number_int(*n) is None,
        },
{
    n.as_i64()
}

fn push_optional(fs: &mut Vec<(String, Json)>, k: &str, v: Option<Json>, null_if_absent: bool)
    ensures
        members_of(final(fs)@) == with_member(members_of(old(fs)@), k@, opt_view(v), null_if_absent),
{
    match v {
        Some(x) => push_member(fs, k, x),
        None => {
            if null_if_absent {
                push_member(fs, k, Json::Null);
            }
        },
    }
}

/// The JSON object for an error.
pub fn error_to_json(e: RpcError) -> (r: Json)
    ensures
        r@ == error_json(e@),
{
    let mut fs: Vec<(String, Json)> = Vec::new();
    proof {
        assert(members_of(fs@) =~= Seq::<(Seq<char>, JsonValue)>::empty());
    }
    push_member(&mut fs, "code", Json::Number(number_of_i32(e.code)));
    push_member(&mut fs, "message", Json::Str(e.message));
    push_optional(&mut fs, "data", e.data, false);
    proof {
        assert(members_of(fs@) =~= match error_json(e@) {
            JsonValue::Object(es) => es,
            _ => Seq::empty(),
        });
    }
    Json::Object(fs)
}

/// The JSON object for a request.
pub fn request_to_json(q: Request) -> (r: Json)
    ensures
        r@ == request_json(q@),
{
    let mut fs: Vec<(String, Json)> = Vec::new();
    proof {
        assert(members_of(fs@) =~= Seq::<(Seq<char>, JsonValue)>::empty());
    }
    push_member(&mut fs, "jsonrpc", Json::Str(q.jsonrpc));
    push_member(&mut fs, "method", Json::Str(q.method));
    push_member(&mut fs, "params", q.params);
    push_optional(&mut fs, "id", q.id, false);
    proof {
        assert(members_of(fs@) =~= match request_json(q@) {
            JsonValue::Object(es) => es,
            _ => Seq::empty(),
        });
    }
    Json::Object(fs)
}

/// The JSON object for a frame.
pub fn response_to_json(r: Response) -> (j: Json)
    ensures
        j@ == response_json(r@),
{
    let is_err = r.error.is_some();
    let mut fs: Vec<(String, Json)> = Vec::new();
    proof {
        assert(members_of(fs@) =~= Seq::<(Seq<char>, JsonValue)>::empty());
    }
    push_member(&mut fs, "jsonrpc", Json::Str(r.jsonrpc));
    push_optional(&mut fs, "id", r.id, is_err);
    let m = match r.method {
        Some(s) => Some(Json::Str(s)),
        None => None,
    };
    push_optional(&mut fs, "method", m, is_err);
    push_optional(&mut fs, "result", r.result, false);
    push_optional(&mut fs, "params", r.params, false);
    let e = match r.error {
        Some(e) => Some(error_to_json(e)),
        None => None,
    };
    push_optional(&mut fs, "error", e, false);
    proof {
        assert(members_of(fs@) =~= match response_json(r@) {
            JsonValue::Object(es) => es,
            _ => Seq::empty(),
        });
    }
    Json::Object(fs)
}

/// A member read as an optional value: null reads as absent.
pub open spec fn non_null(v: Option<JsonValue>) -> Option<JsonValue> {
    match v {
        Some(JsonValue::Null) => None,
        other => other,
    }
}

/// A JSON value is an error object: its `code` is an integer that fits in
/// 32 bits and its `message` is a string.
pub open spec fn error_accepts(j: JsonValue) -> bool {
    &&& j is Object
    &&& member(j, "code"@) matches Some(JsonValue::Number(n))
    &&& number_int(n) matches Some(c)
    &&& i32::MIN <= c <= i32::MAX
    &&& member(j, "message"@) matches Some(JsonValue::Str(_))
}

/// The error object that an accepted JSON value stands for.
pub open spec fn error_value(j: JsonValue) -> RpcErrorView {
    RpcErrorView {
        code: number_int(member(j, "code"@)->Some_0->Number_0)->Some_0 as i32,
        message: member(j, "message"@)->Some_0->Str_0,
        data: non_null(member(j, "data"@)),
    }
}

/// A JSON value is a frame: an object whose `jsonrpc` is absent or a
/// string, whose `method` is absent, null or a string, and whose `error` is
/// absent, null or an error object.
pub open spec fn response_accepts(j: JsonValue) -> bool {
    &&& j is Object
    &&& match member(j, "jsonrpc"@) {
        None | Some(JsonValue::Str(_)) => true,
        _ => false,
    }
    &&& match member(j, "method"@) {
        None | Some(JsonValue::Null) | Some(JsonValue::Str(_)) => true,
        _ => false,
    }
    &&& match member(j, "error"@) {
        None | Some(JsonValue::Null) => true,
        Some(e) => error_accepts(e),
    }
}

/// The frame that an accepted JSON value stands for; null members read as
/// absent and `jsonrpc` defaults to "2.0".
pub open spec fn response_value(j: JsonValue) -> ResponseView {
    ResponseView {
        jsonrpc: match member(j, "jsonrpc"@) {
            Some(JsonValue::Str(v)) => v,
            _ => version(),
        },
        method: match member(j, "method"@) {
            Some(JsonValue::Str(m)) => Some(m),
            _ => None,
        },
        result: non_null(member(j, "result"@)),
        params: non_null(member(j, "params"@)),
        error: match non_null(member(j, "error"@)) {
            Some(e) => Some(error_value(e)),
            None => None,
        },
        id: non_null(member(j, "id"@)),
    }
}

fn take_non_null(v: Option<Json>) -> (r: Option<Json>)
    ensures
        opt_view(r) == non_null(opt_view(v)),
{
    match v {
        Some(Json::Null) => None,
        other => other,
    }
}

/// The error object that a JSON value stands for, or `None` where it is none.
pub fn error_from_json(j: Json) -> (r: Option<RpcError>)
    ensures
        r is Some <==> error_accepts(j@),
        r matches Some(e) ==> e@ == error_value(j@),
{
    let fs = match j {
        Json::Object(fs) => fs,
        _ => return None,
    };
    let ghost all = fs@;
    proof {
        reveal_strlit("code");
        reveal_strlit("message");
        reveal_strlit("data");
        assert("code"@[0] != "data"@[0]);
    }
    let keys = vec!["code".to_owned(), "message".to_owned(), "data".to_owned()];
    let mut slots = take_members(fs, &keys);
    proof {
        assert(opt_view(slots@[0]) == field(members_of(all), "code"@));
        assert(opt_view(slots@[1]) == field(members_of(all), "message"@));
        assert(opt_view(slots@[2]) == field(members_of(all), "data"@));
    }
    let data = slots.pop().unwrap();
    let message = slots.pop().unwrap();
    let code = slots.pop().unwrap();
    let code = match code {
        Some(Json::Number(n)) => match number_as_i64(&n) {
            Some(c) => {
                if c < i32::MIN as i64 || c > i32::MAX as i64 {
                    return None;
                }
                c as i32
            },
            None => return None,
        },
        _ => return None,
    };
    let message = match message {
        Some(Json::Str(m)) => m,
        _ => return None,
    };
    Some(RpcError { code, message, data: take_non_null(data) })
}

/// The frame that a JSON value stands for, or `None` where it is none.
pub fn response_from_json(j: Json) -> (r: Option<Response>)
    ensures
        r is Some <==> response_accepts(j@),
        r matches Some(x) ==> x@ == response_value(j@),
{
    let fs = match j {
        Json::Object(fs) => fs,
        _ => return None,
    };
    let ghost all = fs@;
    proof {
        reveal_strlit("jsonrpc");
        reveal_strlit("method");
        reveal_strlit("result");
        reveal_strlit("params");
        reveal_strlit("error");
        reveal_strlit("id");
        assert("method"@[0] != "result"@[0]);
        assert("method"@[0] != "params"@[0]);
        assert("result"@[0] != "params"@[0]);
    }
    let keys = vec![
        "jsonrpc".to_owned(),
        "method".to_owned(),
        "result".to_owned(),
        "params".to_owned(),
        "error".to_owned(),
        "id".to_owned(),
    ];
    proof {
        assert(keys@[0]@.len() == 7 && keys@[1]@.len() == 6 && keys@[2]@.len() == 6);
        assert(keys@[3]@.len() == 6 && keys@[4]@.len() == 5 && keys@[5]@.len() == 2);
        assert(keys@[1]@[0] != keys@[2]@[0] && keys@[1]@[0] != keys@[3]@[0] && keys@[2]@[0] != keys@[3]@[0]);
    }
    let mut slots = take_members(fs, &keys);
    proof {
        assert(opt_view(slots@[0]) == field(members_of(all), "jsonrpc"@));
        assert(opt_view(slots@[1]) == field(members_of(all), "method"@));
        assert(opt_view(slots@[2]) == field(members_of(all), "result"@));
        assert(opt_view(slots@[3]) == field(members_of(all), "params"@));
        assert(opt_view(slots@[4]) == field(members_of(all), "error"@));
        assert(opt_view(slots@[5]) == field(members_of(all), "id"@));
    }
    let id = slots.pop().unwrap();
    let error = slots.pop().unwrap();
    let params = slots.pop().unwrap();
    let result = slots.pop().unwrap();
    let method = slots.pop().unwrap();
    let jsonrpc = slots.pop().unwrap();
    let jsonrpc = match jsonrpc {
        None => def_version(),
        Some(Json::Str(v)) => v,
        _ => return None,
    };
    let method = match method {
        None | Some(Json::Null) => None,
        Some(Json::Str(m)) => Some(m),
        _ => return None,
    };
    let error = match take_non_null(error) {
        None => None,
        Some(e) => match error_from_json(e) {
            Some(e) => Some(e),
            None => return None,
        },
    };
    Some(Response {
        jsonrpc,
        method,
        result: take_non_null(result),
        params: take_non_null(params),
        error,
        id: take_non_null(id),
    })
}

/// The request that a JSON value stands for, or `None` where it is no request.
pub fn request_from_json(j: Json) -> (r: Option<Request>)
    ensures
        r is Some <==> request_accepts(j@),
        r matches Some(q) ==> q@ == request_value(j@),
{
    let fs = match j {
        Json::Object(fs) => fs,
        _ => return None,
    };
    let ghost all = fs@;
    proof {
        reveal_strlit("jsonrpc");
        reveal_strlit("method");
        reveal_strlit("params");
        reveal_strlit("id");
    }
    let keys = vec!["jsonrpc".to_owned(), "method".to_owned(), "params".to_owned(), "id".to_owned()];
    proof {
        assert(keys@[0]@.len() == 7 && keys@[1]@.len() == 6 && keys@[2]@.len() == 6 && keys@[3]@.len() == 2);
        assert(keys@[1]@[0] != keys@[2]@[0]);
    }
    let mut slots = take_members(fs, &keys);
    proof {
        assert(opt_view(slots@[0]) == field(members_of(all), "jsonrpc"@));
        assert(opt_view(slots@[1]) == field(members_of(all), "method"@));
        assert(opt_view(slots@[2]) == field(members_of(all), "params"@));
        assert(opt_view(slots@[3]) == field(members_of(all), "id"@));
    }
    let id = slots.pop().unwrap();
    let params = slots.pop().unwrap();
    let method = slots.pop().unwrap();
    let jsonrpc = slots.pop().unwrap();
    let method = match method {
        Some(Json::Str(m)) => m,
        _ => return None,
    };
    let jsonrpc = match jsonrpc {
        None => def_version(),
        Some(Json::Str(v)) => v,
        _ => return None,
    };
    let params = match params {
        Some(p) => p,
        None => {
            let none: Vec<(String, Json)> = Vec::new();
            proof {
                assert(members_of(none@) =~= Seq::<(Seq<char>, JsonValue)>::empty());
            }
            Json::Object(none)
        },
    };
    Some(Request { jsonrpc, method, params, id: take_non_null(id) })
}

/// Why a frame is not a request.
#[derive(Debug, PartialEq, Eq)]
pub enum DecodeError {
    /// The frame is binary, not text.
    NonText,
    /// The text is not JSON, or not a request.
    BadJson,
}

/// A frame as it comes off the socket.
pub enum Frame {
    Text(String),
    Binary(Vec<u8>),
}

/// What a frame decodes to.
pub open spec fn decoded(frame: Frame) -> Result<RequestView, DecodeError> {
    match frame {
        Frame::Binary(_) => Err(DecodeError::NonText),
        Frame::Text(t) => match json_parse(t@) {
            Some(j) => if request_accepts(j) {
                Ok(request_value(j))
            } else {
                Err(DecodeError::BadJson)
            },
            None => Err(DecodeError::BadJson),
        },
    }
}

/// The request a frame holds.
pub fn decode(frame: Frame) -> (r: Result<Request, DecodeError>)
    ensures
        match decoded(frame) {
            Ok(v) => r matches Ok(q) && q@ == v,
            Err(e) => r == Err::<Request, DecodeError>(e),
        },
{
    let text = match frame {
        Frame::Text(t) => t,
        Frame::Binary(_) => return Err(DecodeError::NonText),
    };
    match parse_json(text.as_str()) {
        Some(j) => match request_from_json(j) {
            Some(q) => Ok(q),
            None => Err(DecodeError::BadJson),
        },
        None => Err(DecodeError::BadJson),
    }
}

/// What the ingress side does with a frame: pass on a request, or answer at
/// once with a parse error (not text) or an invalid-request error (not a
/// request), both without id or method.
pub fn ingress(frame: Frame) -> (r: Result<Request, Response>)
    ensures
        match decoded(frame) {
            Ok(v) => r matches Ok(q) && q@ == v,
            Err(DecodeError::NonText) => r matches Err(e) && e@ == error_frame(
                None,
                None,
                plain_error(PARSE_ERROR, "Parse error"@),
            ),
            Err(DecodeError::BadJson) => r matches Err(e) && e@ == error_frame(
                None,
                None,
                plain_error(INVALID_REQUEST, "Invalid Request"@),
            ),
        },
{
    match decode(frame) {
        Ok(q) => Ok(q),
        Err(DecodeError::NonText) => Err(parse_error()),
        Err(DecodeError::BadJson) => Err(invalid_request(None, None)),
    }
}

/// The text written for a frame.
pub fn encode(r: Response) -> (t: String)
    ensures
        t@ == json_text(response_json(r@)),
{
    let j = response_to_json(r);
    write_json(&j)
}

/// Writing a request as JSON and reading it back gives the same request,
/// provided its id is not null (a null id reads back as a notification).
pub proof fn lemma_request_round_trip(q: RequestView)
    requires
        q.id != Some(JsonValue::Null),
    ensures
        request_accepts(request_json(q)),
        request_value(request_json(q)) == q,
{
    reveal_strlit("jsonrpc");
    reveal_strlit("method");
    reveal_strlit("params");
    reveal_strlit("id");
    assert("jsonrpc"@.len() == 7);
    assert("method"@.len() == 6);
    assert("params"@.len() == 6);
    assert("id"@.len() == 2);
    assert("method"@[0] != "params"@[0]);
    let es = request_json(q)->Object_0;
    let e1 = es.drop_first();
    let e2 = e1.drop_first();
    let e3 = e2.drop_first();
    assert(es[0].0 == "jsonrpc"@);
    assert(e1[0].0 == "method"@);
    assert(e2[0].0 == "params"@);
    assert(field(es, "jsonrpc"@) == Some(JsonValue::Str(q.jsonrpc)));
    assert(field(e1, "method"@) == Some(JsonValue::Str(q.method)));
    assert(field(es, "method"@) == Some(JsonValue::Str(q.method)));
    assert(field(e2, "params"@) == Some(q.params));
    assert(field(e1, "params"@) == Some(q.params));
    assert(field(es, "params"@) == Some(q.params));
    match q.id {
        Some(i) => {
            assert(e3[0] == ("id"@, i));
            assert(field(e3, "id"@) == Some(i));
            assert(field(e2, "id"@) == Some(i));
            assert(field(e1, "id"@) == Some(i));
            assert(field(es, "id"@) == Some(i));
        },
        None => {
            assert(e3.len() == 0);
            assert(field(e3, "id"@) == None::<JsonValue>);
            assert(field(e2, "id"@) == None::<JsonValue>);
            assert(field(e1, "id"@) == None::<JsonValue>);
            assert(field(es, "id"@) == None::<JsonValue>);
        },
    }
}

proof fn lemma_with_member(
    es: Seq<(Seq<char>, JsonValue)>,
    k: Seq<char>,
    v: Option<JsonValue>,
    null_if_absent: bool,
    q: Seq<char>,
)
    ensures
        field(with_member(es, k, v, null_if_absent), q) == match field(es, q) {
            Some(x) => Some(x),
            None => if k == q {
                match v {
                    Some(x) => Some(x),
                    None => if null_if_absent {
                        Some(JsonValue::Null)
                    } else {
                        None
                    },
                }
            } else {
                None
            },
        },
{
    match v {
        Some(x) => lemma_field_push(es, k, x, q),
        None => if null_if_absent {
            lemma_field_push(es, k, JsonValue::Null, q);
        },
    }
}

/// A value, or null where it is absent and `null_if_absent` holds.
pub open spec fn null_or(v: Option<JsonValue>, null_if_absent: bool) -> Option<JsonValue> {
    match v {
        Some(x) => Some(x),
        None => if null_if_absent {
            Some(JsonValue::Null)
        } else {
            None
        },
    }
}

/// What a lookup finds in the JSON object written for a frame.
proof fn lemma_response_member(r: ResponseView, q: Seq<char>)
    ensures
        field(response_json(r)->Object_0, q) == if q == "jsonrpc"@ {
            Some(JsonValue::Str(r.jsonrpc))
        } else if q == "id"@ {
            null_or(r.id, r.error is Some)
        } else if q == "method"@ {
            null_or(opt_str(r.method), r.error is Some)
        } else if q == "result"@ {
            r.result
        } else if q == "params"@ {
            r.params
        } else if q == "error"@ {
            match r.error {
                Some(e) => Some(error_json(e)),
                None => None,
            }
        } else {
            None
        },
{
    reveal_strlit("jsonrpc");
    reveal_strlit("method");
    reveal_strlit("result");
    reveal_strlit("params");
    reveal_strlit("error");
    reveal_strlit("id");
    let is_err = r.error is Some;
    let e0 = seq![("jsonrpc"@, JsonValue::Str(r.jsonrpc))];
    let e1 = with_member(e0, "id"@, r.id, is_err);
    let e2 = with_member(e1, "method"@, opt_str(r.method), is_err);
    let e3 = with_member(e2, "result"@, r.result, false);
    let e4 = with_member(e3, "params"@, r.params, false);
    let ej = match r.error {
        Some(e) => Some(error_json(e)),
        None => None,
    };
    assert(response_json(r)->Object_0 == with_member(e4, "error"@, ej, false));
    assert("jsonrpc"@.len() == 7 && "id"@.len() == 2 && "error"@.len() == 5);
    assert("method"@.len() == 6 && "result"@.len() == 6 && "params"@.len() == 6);
    assert("method"@[0] != "result"@[0] && "method"@[0] != "params"@[0] && "result"@[0] != "params"@[0]);
    assert(e0 == Seq::<(Seq<char>, JsonValue)>::empty().push(("jsonrpc"@, JsonValue::Str(r.jsonrpc))));
    lemma_field_push(Seq::empty(), "jsonrpc"@, JsonValue::Str(r.jsonrpc), q);
    lemma_with_member(e0, "id"@, r.id, is_err, q);
    lemma_with_member(e1, "method"@, opt_str(r.method), is_err, q);
    lemma_with_member(e2, "result"@, r.result, false, q);
    lemma_with_member(e3, "params"@, r.params, false, q);
    lemma_with_member(e4, "error"@, ej, false, q);
}

/// What a lookup finds in the JSON object written for an error.
proof fn lemma_error_member(e: RpcErrorView, q: Seq<char>)
    ensures
        field(error_json(e)->Object_0, q) == if q == "code"@ {
            Some(JsonValue::Number(int_number(e.code as int)))
        } else if q == "message"@ {
            Some(JsonValue::Str(e.message))
        } else if q == "data"@ {
            e.data
        } else {
            None
        },
{
    reveal_strlit("code");
    reveal_strlit("message");
    reveal_strlit("data");
    let c00 = seq![("code"@, JsonValue::Number(int_number(e.code as int)))];
    let c0 = c00.push(("message"@, JsonValue::Str(e.message)));
    assert(c00 == Seq::<(Seq<char>, JsonValue)>::empty().push(c00[0]));
    lemma_field_push(Seq::empty(), "code"@, JsonValue::Number(int_number(e.code as int)), q);
    lemma_field_push(c00, "message"@, JsonValue::Str(e.message), q);
    lemma_with_member(c0, "data"@, e.data, false, q);
    assert("code"@[0] != "data"@[0] && "code"@.len() == 4 && "message"@.len() == 7 && "data"@.len() == 4);
    assert(error_json(e)->Object_0 == with_member(c0, "data"@, e.data, false));
}

/// Writing a frame as JSON and reading it back gives the same frame,
/// provided none of its values is null (a null value reads back as absent).
/// The error code reads back as written: the writer of each code number
/// states this of the number it makes.
pub proof fn lemma_response_round_trip(r: ResponseView)
    requires
        r.id != Some(JsonValue::Null),
        r.result != Some(JsonValue::Null),
        r.params != Some(JsonValue::Null),
        r.error matches Some(e) ==> e.data != Some(JsonValue::Null) && number_int(int_number(e.code as int)) == Some(
            e.code as int,
        ),
    ensures
        response_accepts(response_json(r)),
        response_value(response_json(r)) == r,
{
    reveal_strlit("jsonrpc");
    reveal_strlit("method");
    reveal_strlit("result");
    reveal_strlit("params");
    reveal_strlit("error");
    reveal_strlit("id");
    reveal_strlit("code");
    reveal_strlit("message");
    reveal_strlit("data");
    assert("method"@[0] != "result"@[0] && "method"@[0] != "params"@[0] && "result"@[0] != "params"@[0]);
    assert("code"@[0] != "data"@[0]);
    assert("jsonrpc"@.len() == 7 && "id"@.len() == 2 && "error"@.len() == 5);
    assert("method"@.len() == 6 && "result"@.len() == 6 && "params"@.len() == 6);
    assert("code"@.len() == 4 && "message"@.len() == 7 && "data"@.len() == 4);
    lemma_response_member(r, "jsonrpc"@);
    lemma_response_member(r, "id"@);
    lemma_response_member(r, "method"@);
    lemma_response_member(r, "result"@);
    lemma_response_member(r, "params"@);
    lemma_response_member(r, "error"@);
    let j = response_json(r);
    if let Some(e) = r.error {
        lemma_error_member(e, "code"@);
        lemma_error_member(e, "message"@);
        lemma_error_member(e, "data"@);
        assert(error_accepts(error_json(e)));
        assert(error_value(error_json(e)) == e);
        assert(member(j, "error"@) == Some(error_json(e)));
    } else {
        assert(member(j, "error"@) is None);
    }
    assert(member(j, "jsonrpc"@) == Some(JsonValue::Str(r.jsonrpc)));
    assert(non_null(member(j, "id"@)) == r.id);
    assert(member(j, "result"@) == r.result);
    assert(member(j, "params"@) == r.params);
    assert(response_value(j).method == r.method);
    assert(response_value(j).error == r.error);
}

fn opt_duplicate(o: &Option<Json>) -> (r: Option<Json>)
    ensures
        opt_view(r) == opt_view(*o),
{
    match o {
        Some(j) => Some(j.duplicate()),
        None => None,
    }
}

impl RpcError {
    /// A deep copy.
    pub fn duplicate(&self) -> (r: RpcError)
        ensures
            r@ == self@,
    {
        RpcError { code: self.code, message: self.message.clone(), data: opt_duplicate(&self.data) }
    }
}

impl Default for Response {
    /// A success reply with id 0, an empty method name and an empty result.
    fn default() -> (r: Self)
        ensures
            r@ == result_frame(Some(JsonValue::Number(int_number(0))), Some(Seq::empty()), empty_object()),
    {
        let none: Vec<(String, Json)> = Vec::new();
        proof {
            assert(members_of(none@) =~= Seq::<(Seq<char>, JsonValue)>::empty());
        }
        Response {
            jsonrpc: def_version(),
            method: Some(String::new()),
            result: Some(Json::Object(none)),
            params: None,
            error: None,
            id: Some(Json::Number(number_of_i32(0))),
        }
    }
}

impl Response {
    /// The success reply to `req`, carrying `res`, or the empty object where
    /// `res` is `None`.
    pub fn reply(req: &Request, res: Option<Json>) -> (r: Self)
        ensures
            r@ == result_frame(
                req@.id,
                Some(req@.method),
                match res {
                    Some(x) => x@,
                    None => empty_object(),
                },
            ),
    {
        let result = match res {
            Some(x) => x,
            None => {
                let none: Vec<(String, Json)> = Vec::new();
                proof {
                    assert(members_of(none@) =~= Seq::<(Seq<char>, JsonValue)>::empty());
                }
                Json::Object(none)
            },
        };
        Response {
            jsonrpc: def_version(),
            method: Some(req.method.clone()),
            result: Some(result),
            params: None,
            error: None,
            id: opt_duplicate(&req.id),
        }
    }

    /// The reply that carries an outcome under `id`, with an empty method name.
    pub fn from(res: Result<Json, RpcError>, id: Option<Json>) -> (r: Self)
        ensures
            r@ == match res {
                Ok(x) => result_frame(opt_view(id), Some(Seq::empty()), x@),
                Err(e) => error_frame(opt_view(id), Some(Seq::empty()), e@),
            },
    {
        match res {
            Ok(x) => Response {
                jsonrpc: def_version(),
                method: Some(String::new()),
                result: Some(x),
                params: None,
                error: None,
                id,
            },
            Err(e) => Response {
                jsonrpc: def_version(),
                method: Some(String::new()),
                result: None,
                params: None,
                error: Some(e),
                id,
            },
        }
    }

    /// An event: a frame with `method` and `params`, and no id.
    pub fn event(method: String, params: Json) -> (r: Self)
        ensures
            r@ == event_frame(method@, params@),
    {
        Response { jsonrpc: def_version(), method: Some(method), result: None, params: Some(params), error: None, id: None }
    }

    /// A deep copy.
    pub fn duplicate(&self) -> (r: Self)
        ensures
            r@ == self@,
    {
        Response {
            jsonrpc: self.jsonrpc.clone(),
            method: match &self.method {
                Some(m) => Some(m.clone()),
                None => None,
            },
            result: opt_duplicate(&self.result),
            params: opt_duplicate(&self.params),
            error: match &self.error {
                Some(e) => Some(e.duplicate()),
                None => None,
            },
            id: opt_duplicate(&self.id),
        }
    }

    /// The text written for this frame.
    pub fn to_json(&self) -> (t: String)
        ensures
            t@ == json_text(response_json(self@)),
    {
        encode(self.duplicate())
    }

    pub fn has_id(&self) -> (r: bool)
        ensures
            r == (self.id is Some),
    {
        self.id.is_some()
    }
}

} // verus!
