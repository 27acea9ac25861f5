//! Routing of requests: forwarders that claim method prefixes, the registry
//! of local listeners, the dispatcher that chooses between them, and the
//! framing of what a listener or the session hands back.
use vstd::prelude::*;
use crate::json::{Json, JsonValue, opt_view};
use crate::jsonrpc::{
    INVALID_REQUEST, METHOD_NOT_FOUND, Response, ResponseView, RpcError, RpcErrorView, error_frame,
    event_frame, is_event, is_reply, method_not_found, plain_error, result_frame,
};

verus! {

/// The lower-case form of a text, as `str::to_lowercase` gives it.
pub uninterp spec fn lower_of(s: Seq<char>) -> Seq<char>;

/// Relies on str::to_lowercase: the result depends on the characters alone.
#[verifier::external_body]
fn lowercase(s: &str) -> (r: String)
    ensures
        r@ == lower_of(s@),
{
    s.to_lowercase()
}

pub open spec fn is_prefix(p: Seq<char>, s: Seq<char>) -> bool {
    p.len() <= s.len() && s.subrange(0, p.len() as int) == p
}

/// Whether `s` begins with `p`.
pub fn starts_with(s: &str, p: &str) -> (r: bool)
    ensures
        r == is_prefix(p@, s@),
{
    let n = p.unicode_len();
    if n > s.unicode_len() {
        return false;
    }
    let mut i: usize = 0;
    while i < n
        invariant
            n == p@.len(),
            n <= s@.len(),
            i <= n,
            s@.subrange(0, i as int) == p@.subrange(0, i as int),
        decreases n - i,
    {
        if s.get_char(i) != p.get_char(i) {
            assert(s@.subrange(0, n as int)[i as int] != p@[i as int]);
            return false;
        }
        assert(s@.subrange(0, i + 1) =~= s@.subrange(0, i as int).push(s@[i as int]));
        assert(p@.subrange(0, i + 1) =~= p@.subrange(0, i as int).push(p@[i as int]));
        i += 1;
    }
    assert(p@.subrange(0, n as int) =~= p@);
    true
}

/// A forwarder claims `m` where the lower-case form of one of its prefixes
/// begins the lower-case form of `m`.
pub open spec fn claims(prefixes: Seq<Seq<char>>, m: Seq<char>) -> bool {
    exists|i: int| 0 <= i < prefixes.len() && #[trigger] is_prefix(lower_of(prefixes[i]), lower_of(m))
}

/// The method prefixes that one forwarder claims, in any case.
pub struct Forwarder {
    pub actions: Vec<String>,
}

impl View for Forwarder {
    type V = Seq<Seq<char>>;

    open spec fn view(&self) -> Seq<Seq<char>> {
        self.actions@.map_values(|s: String| s@)
    }
}

impl Forwarder {
    pub fn new(actions: Vec<String>) -> (r: Self)
        ensures
            r@ == actions@.map_values(|s: String| s@),
    {
        Forwarder { actions }
    }

    pub fn prefixes(&self) -> (r: &Vec<String>)
        ensures
            r@.map_values(|s: String| s@) == self@,
    {
        &self.actions
    }

    /// Whether this forwarder claims `action`.
    pub fn has(&self, action: &String) -> (r: bool)
        ensures
            r == claims(self@, action@),
    {
        let m = lowercase(action.as_str());
        let mut i: usize = 0;
        while i < self.actions.len()
            invariant
                i <= self.actions@.len(),
                m@ == lower_of(action@),
                forall|j: int| 0 <= j < i ==> !#[trigger] is_prefix(lower_of(self@[j]), lower_of(action@)),
            decreases self.actions.len() - i,
        {
            let p = lowercase(self.actions[i].as_str());
            if starts_with(m.as_str(), p.as_str()) {
                assert(is_prefix(lower_of(self@[i as int]), lower_of(action@)));
                return true;
            }
            i += 1;
        }
        false
    }
}

/// The keys of a registry, as characters.
pub open spec fn keys_of<L>(entries: Seq<(String, L)>) -> Seq<Seq<char>> {
    entries.map_values(|e: (String, L)| e.0@)
}

/// No key stands twice.
pub open spec fn unique_keys(keys: Seq<Seq<char>>) -> bool {
    forall|i: int, j: int| 0 <= i < keys.len() && 0 <= j < keys.len() && i != j ==> keys[i] != keys[j]
}

/// The prefixes of each forwarder, in order of registration.
pub open spec fn prefixes_of<F>(forwarders: Seq<(Forwarder, F)>) -> Seq<Seq<Seq<char>>> {
    forwarders.map_values(|e: (Forwarder, F)| e.0@)
}

/// Where a request goes.
#[derive(Debug, PartialEq, Eq)]
pub enum Route {
    /// To the forwarder at this place in registration order.
    Forward(usize),
    /// To the listener at this place in the registry.
    Listener(usize),
    /// Nowhere: the method is not found.
    NotFound,
}

/// `r` is where a request for `m` goes: to the first forwarder that claims
/// `m`; else to the listener registered under the lower-case form of `m`;
/// else nowhere.
pub open spec fn routes_to(prefixes: Seq<Seq<Seq<char>>>, keys: Seq<Seq<char>>, m: Seq<char>, r: Route) -> bool {
    match r {
        Route::Forward(i) => {
            &&& i < prefixes.len()
            &&& claims(prefixes[i as int], m)
            &&& forall|j: int| 0 <= j < i ==> !#[trigger] claims(prefixes[j], m)
        },
        Route::Listener(k) => {
            &&& forall|j: int| 0 <= j < prefixes.len() ==> !#[trigger] claims(prefixes[j], m)
            &&& k < keys.len()
            &&& keys[k as int] == lower_of(m)
        },
        Route::NotFound => {
            &&& forall|j: int| 0 <= j < prefixes.len() ==> !#[trigger] claims(prefixes[j], m)
            &&& forall|k: int| 0 <= k < keys.len() ==> #[trigger] keys[k] != lower_of(m)
        },
    }
}

/// Collects forwarders and listeners for one session. `F` is the session's
/// end of a forwarder; `L` is a listener.
pub struct HandlerBuilder<F, L> {
    pub forwarders: Vec<(Forwarder, F)>,
    pub handlers: Vec<(String, L)>,
}

/// The dispatcher of one session.
pub struct Handler<F, L> {
    pub forwarders: Vec<(Forwarder, F)>,
    pub handlers: Vec<(String, L)>,
}

impl<F, L> HandlerBuilder<F, L> {
    /// No listener key stands twice.
    pub open spec fn wf(&self) -> bool {
        unique_keys(keys_of(self.handlers@))
    }

    /// An empty builder.
    pub fn new() -> (r: Self)
        ensures
            r.wf(),
            r.forwarders@.len() == 0,
            r.handlers@.len() == 0,
    {
        HandlerBuilder { forwarders: Vec::new(), handlers: Vec::new() }
    }

    /// Registers `listener` for the method `id`, in any case; it replaces a
    /// listener registered before for the same lower-case name.
    pub fn add_listener(&mut self, id: &str, listener: L)
        requires
            old(self).wf(),
        ensures
            final(self).wf(),
            final(self).forwarders == old(self).forwarders,
            ({
                let ks = keys_of(old(self).handlers@);
                let k = lower_of(id@);
                if ks.contains(k) {
                    exists|j: int| 0 <= j < ks.len() && ks[j] == k && final(self).handlers@ == old(self).handlers@.update(
                        j,
                        (final(self).handlers@[j].0, listener),
                    ) && #[trigger] final(self).handlers@[j].0@ == k
                } else {
                    keys_of(final(self).handlers@) == ks.push(k) && final(self).handlers@.len() == ks.len() + 1
                        && final(self).handlers@.drop_last() == old(self).handlers@ && final(self).handlers@.last().1 == listener
                }
            }),
    {
        let key = lowercase(id);
        let ghost ks = keys_of(self.handlers@);
        let mut i: usize = 0;
        while i < self.handlers.len()
            invariant
                self == old(self),
                ks == keys_of(self.handlers@),
                unique_keys(ks),
                key@ == lower_of(id@),
                i <= self.handlers@.len(),
                forall|j: int| 0 <= j < i ==> ks[j] != key@,
            decreases self.handlers.len() - i,
        {
            if self.handlers[i].0 == key {
                let ghost before = self.handlers@;
                let old_entry = self.handlers.remove(i);
                self.handlers.insert(i, (old_entry.0, listener));
                proof {
                    assert(self.handlers@ =~= before.update(i as int, (old_entry.0, listener)));
                    assert(keys_of(self.handlers@) =~= ks);
                    assert(unique_keys(ks));
                    assert(ks[i as int] == lower_of(id@));
                    assert(self.handlers@[i as int].0@ == lower_of(id@));
                }
                return;
            }
            i += 1;
        }
        let ghost before = self.handlers@;
        self.handlers.push((key, listener));
        proof {
            assert(!ks.contains(lower_of(id@)));
            assert(keys_of(self.handlers@) =~= ks.push(lower_of(id@)));
            assert(self.handlers@.drop_last() =~= before);
            assert(forall|k: int| 0 <= k < before.len() ==> #[trigger] self.handlers@[k] == before[k]);
        }
    }

    /// Gives the requests that `prefixes` claims to the forwarder end `end`,
    /// after those registered before it.
    pub fn forward(&mut self, prefixes: Forwarder, end: F)
        requires
            old(self).wf(),
        ensures
            final(self).wf(),
            final(self).handlers == old(self).handlers,
            final(self).forwarders@ == old(self).forwarders@.push((prefixes, end)),
    {
        self.forwarders.push((prefixes, end));
    }

    /// The dispatcher over what was registered.
    pub fn build(self) -> (h: Handler<F, L>)
        requires
            self.wf(),
        ensures
            h.wf(),
            h.forwarders == self.forwarders,
            h.handlers == self.handlers,
    {
        Handler { forwarders: self.forwarders, handlers: self.handlers }
    }
}

impl<F, L> Handler<F, L> {
    pub open spec fn wf(&self) -> bool {
        unique_keys(keys_of(self.handlers@))
    }

    /// Where a request for `method` goes.
    pub fn route(&self, method: &String) -> (r: Route)
        ensures
            routes_to(prefixes_of(self.forwarders@), keys_of(self.handlers@), method@, r),
    {
        let ghost ps = prefixes_of(self.forwarders@);
        let mut i: usize = 0;
        while i < self.forwarders.len()
            invariant
                ps == prefixes_of(self.forwarders@),
                i <= self.forwarders@.len(),
                forall|j: int| 0 <= j < i ==> !#[trigger] claims(ps[j], method@),
            decreases self.forwarders.len() - i,
        {
            if self.forwarders[i].0.has(method) {
                return Route::Forward(i);
            }
            i += 1;
        }
        let key = lowercase(method.as_str());
        let ghost ks = keys_of(self.handlers@);
        let mut k: usize = 0;
        while k < self.handlers.len()
            invariant
                ks == keys_of(self.handlers@),
                ps == prefixes_of(self.forwarders@),
                forall|j: int| 0 <= j < ps.len() ==> !#[trigger] claims(ps[j], method@),
                key@ == lower_of(method@),
                k <= self.handlers@.len(),
                forall|j: int| 0 <= j < k ==> #[trigger] ks[j] != key@,
            decreases self.handlers.len() - k,
        {
            if self.handlers[k].0 == key {
                assert(ks[k as int] == self.handlers@[k as int].0@);
                return Route::Listener(k);
            }
            k += 1;
        }
        Route::NotFound
    }

    /// The session end of the forwarder at place `i`.
    pub fn forwarder(&self, i: usize) -> (r: &F)
        requires
            i < self.forwarders@.len(),
        ensures
            *r == self.forwarders@[i as int].1,
    {
        &self.forwarders[i].1
    }

    /// The listener at place `k`.
    pub fn listener(&self, k: usize) -> (r: &L)
        requires
            k < self.handlers@.len(),
        ensures
            *r == self.handlers@[k as int].1,
    {
        &self.handlers[k].1
    }
}

/// What a typed listener made of a request: its parameters did not fit
/// the command, or it returned a value or a domain error, each as JSON.
pub enum Outcome {
    BadParams,
    Returned(Json),
    Failed(Json),
}

pub enum OutcomeView {
    BadParams,
    Returned(JsonValue),
    Failed(JsonValue),
}

impl View for Outcome {
    type V = OutcomeView;

    open spec fn view(&self) -> OutcomeView {
        match self {
            Outcome::BadParams => OutcomeView::BadParams,
            Outcome::Returned(x) => OutcomeView::Returned(x@),
            Outcome::Failed(e) => OutcomeView::Failed(e@),
        }
    }
}

/// The reply to a request with `id` and `method` that a listener handled:
/// its value as the result, or an invalid-request error that carries the
/// domain error as data, or a plain one where the parameters did not fit.
pub open spec fn listener_frame(id: Option<JsonValue>, method: Seq<char>, o: OutcomeView) -> ResponseView {
    match o {
        OutcomeView::BadParams => error_frame(id, Some(method), plain_error(INVALID_REQUEST, "Invalid Request"@)),
        OutcomeView::Returned(x) => result_frame(id, Some(method), x),
        OutcomeView::Failed(e) => error_frame(
            id,
            Some(method),
            RpcErrorView { code: INVALID_REQUEST, message: "Invalid Request"@, data: Some(e) },
        ),
    }
}

/// The reply to a request that nothing routes.
pub open spec fn not_found_frame(id: Option<JsonValue>, method: Seq<char>) -> ResponseView {
    error_frame(id, Some(method), plain_error(METHOD_NOT_FOUND, "Method not found"@))
}

/// Frames what a listener made of the request with `id` and `method`.
pub fn listener_reply(id: Option<Json>, method: String, outcome: Outcome) -> (r: Response)
    ensures
        r@ == listener_frame(opt_view(id), method@, outcome@),
{
    match outcome {
        Outcome::BadParams => crate::jsonrpc::invalid_request(id, Some(method)),
        Outcome::Returned(x) => {
            let mut r = Response::from(Ok(x), id);
            r.method = Some(method);
            r
        },
        Outcome::Failed(e) => {
            let mut err = RpcError::invalid_request();
            err.data = Some(e);
            let mut r = Response::from(Err(err), id);
            r.method = Some(method);
            r
        },
    }
}

/// The reply to a request that nothing routes.
pub fn unrouted(id: Option<Json>, method: String) -> (r: Response)
    ensures
        r@ == not_found_frame(opt_view(id), method@),
{
    method_not_found(id, Some(method))
}

/// A reply as the session sends it: carrying the id of its request.
pub open spec fn stamped(id: JsonValue, r: ResponseView) -> ResponseView {
    ResponseView { id: Some(id), ..r }
}

/// What the session sends for a request with `id` once it has the reply:
/// nothing for a notification, else the reply under the request's id.
pub open spec fn delivered(id: Option<JsonValue>, r: ResponseView) -> Option<ResponseView> {
    match id {
        Some(i) => Some(stamped(i, r)),
        None => None,
    }
}

/// What the session sends for a request with `id`, given its reply.
pub fn deliver(id: Option<Json>, reply: Response) -> (r: Option<Response>)
    ensures
        match r {
            Some(x) => delivered(opt_view(id), reply@) == Some(x@),
            None => delivered(opt_view(id), reply@) is None,
        },
{
    match id {
        Some(i) => {
            let mut out = reply;
            out.id = Some(i);
            Some(out)
        },
        None => None,
    }
}

/// Takes the value out of a result whose two sides have one type.
pub trait Either<T>: Sized {
    fn either(self) -> T;
}

impl<T> Either<T> for Result<T, T> {
    fn either(self) -> (r: T) {
        match self {
            Ok(e) => e,
            Err(e) => e,
        }
    }
}

/// What a session sends for a run of requests, each given as its id and the
/// reply the dispatcher made for it.
pub open spec fn session_output(exchanges: Seq<(Option<JsonValue>, ResponseView)>) -> Seq<ResponseView>
    decreases exchanges.len(),
{
    if exchanges.len() == 0 {
        Seq::empty()
    } else {
        let rest = session_output(exchanges.drop_last());
        match delivered(exchanges.last().0, exchanges.last().1) {
            Some(x) => rest.push(x),
            None => rest,
        }
    }
}

/// The ids of a run of frames.
pub open spec fn frame_ids(frames: Seq<ResponseView>) -> Seq<Option<JsonValue>>
    decreases frames.len(),
{
    if frames.len() == 0 {
        Seq::empty()
    } else {
        frame_ids(frames.drop_last()).push(frames.last().id)
    }
}

/// The ids of the requests in a run that expect a reply.
pub open spec fn call_ids(exchanges: Seq<(Option<JsonValue>, ResponseView)>) -> Seq<Option<JsonValue>>
    decreases exchanges.len(),
{
    if exchanges.len() == 0 {
        Seq::empty()
    } else if exchanges.last().0 is Some {
        call_ids(exchanges.drop_last()).push(exchanges.last().0)
    } else {
        call_ids(exchanges.drop_last())
    }
}

/// Over any run of requests, the session sends one reply for each request
/// with an id, in request order and under that id, so the multiset of reply
/// ids is the multiset of request ids.
pub proof fn lemma_one_reply_per_call(exchanges: Seq<(Option<JsonValue>, ResponseView)>)
    ensures
        frame_ids(session_output(exchanges)) == call_ids(exchanges),
        frame_ids(session_output(exchanges)).to_multiset() == call_ids(exchanges).to_multiset(),
    decreases exchanges.len(),
{
    if exchanges.len() > 0 {
        lemma_one_reply_per_call(exchanges.drop_last());
        let rest = session_output(exchanges.drop_last());
        match delivered(exchanges.last().0, exchanges.last().1) {
            Some(x) => {
                assert(rest.push(x).drop_last() =~= rest);
            },
            None => {},
        }
    }
}

/// A notification gets no reply: every frame the session sends for a run of
/// requests carries an id, and there are as many as requests with an id.
pub proof fn lemma_no_reply_without_id(exchanges: Seq<(Option<JsonValue>, ResponseView)>)
    ensures
        forall|i: int| 0 <= i < session_output(exchanges).len() ==> #[trigger] session_output(exchanges)[i].id is Some,
        session_output(exchanges).len() == call_ids(exchanges).len(),
    decreases exchanges.len(),
{
    if exchanges.len() > 0 {
        lemma_no_reply_without_id(exchanges.drop_last());
    }
}

/// Routing reads a method only through its lower-case form: two methods with
/// the same lower-case form go to the same place.
pub proof fn lemma_route_ignores_case(
    prefixes: Seq<Seq<Seq<char>>>,
    keys: Seq<Seq<char>>,
    m1: Seq<char>,
    m2: Seq<char>,
    r: Route,
)
    requires
        lower_of(m1) == lower_of(m2),
    ensures
        routes_to(prefixes, keys, m1, r) == routes_to(prefixes, keys, m2, r),
{
    assert forall|j: int| 0 <= j < prefixes.len() implies claims(prefixes[j], m1) == claims(prefixes[j], m2) by {}
}

/// Where registry keys stand once each, a method has one route.
pub proof fn lemma_route_unique(prefixes: Seq<Seq<Seq<char>>>, keys: Seq<Seq<char>>, m: Seq<char>, r1: Route, r2: Route)
    requires
        unique_keys(keys),
        routes_to(prefixes, keys, m, r1),
        routes_to(prefixes, keys, m, r2),
    ensures
        r1 == r2,
{
}

/// A request is forwarded exactly when the lower-case form of its method
/// begins with the lower-case form of a prefix of some forwarder.
pub proof fn lemma_forwarded_iff_prefix(prefixes: Seq<Seq<Seq<char>>>, keys: Seq<Seq<char>>, m: Seq<char>, r: Route)
    requires
        routes_to(prefixes, keys, m, r),
    ensures
        (r is Forward) <==> exists|i: int, j: int|
            0 <= i < prefixes.len() && 0 <= j < prefixes[i].len() && #[trigger] is_prefix(
                lower_of(prefixes[i][j]),
                lower_of(m),
            ),
{
    if exists|i: int, j: int|
        0 <= i < prefixes.len() && 0 <= j < prefixes[i].len() && #[trigger] is_prefix(lower_of(prefixes[i][j]), lower_of(m)) {
        let (i, j) = choose|i: int, j: int|
            0 <= i < prefixes.len() && 0 <= j < prefixes[i].len() && #[trigger] is_prefix(lower_of(prefixes[i][j]), lower_of(m));
        assert(claims(prefixes[i], m));
    }
}

/// Every reply the dispatcher makes has exactly one of result and error; a
/// reply keeps that shape when the session puts the request's id on it, so a
/// reply from a forwarder has it where the worker gave it so; an event has
/// neither.
pub proof fn lemma_reply_shape(
    id: Option<JsonValue>,
    method: Seq<char>,
    outcome: OutcomeView,
    forwarded: ResponseView,
    call_id: JsonValue,
    params: JsonValue,
)
    ensures
        is_reply(listener_frame(id, method, outcome)),
        is_reply(not_found_frame(id, method)),
        is_reply(forwarded) ==> is_reply(stamped(call_id, forwarded)),
        is_event(event_frame(method, params)),
{
}

} // verus!
