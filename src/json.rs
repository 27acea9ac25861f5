//! A JSON value held as plain data, and the text form that serde_json
//! reads and writes for it.
use vstd::prelude::*;

verus! {

#[verifier::external_type_specification]
#[verifier::external_body]
pub struct ExNumber(serde_json::Number);

#[verifier::external_type_specification]
#[verifier::external_body]
pub struct ExValue(serde_json::Value);

/// Relies on the derived serde_json::Number::clone, which copies the number.
pub assume_specification[ <serde_json::Number as Clone>::clone ](n: &serde_json::Number) -> (r: serde_json::Number)
    ensures
        r == *n,
;

/// A JSON value. Numbers are kept as serde_json holds them; everything else
/// is plain data. An object is the list of its members, in order.
#[derive(Debug, PartialEq)]
pub enum Json {
    Null,
    Bool(bool),
    Number(serde_json::Number),
    Str(String),
    Array(Vec<Json>),
    Object(Vec<(String, Json)>),
}

/// A JSON value as a mathematical object: text as characters, arrays and
/// objects as sequences.
pub enum JsonValue {
    Null,
    Bool(bool),
    Number(serde_json::Number),
    Str(Seq<char>),
    Array(Seq<JsonValue>),
    Object(Seq<(Seq<char>, JsonValue)>),
}

broadcast use vstd::std_specs::vec::axiom_vec_decreases_to_view, vstd::std_specs::vec::axiom_vec_index_decreases,
    vstd::seq::axiom_seq_index_decreases;

/// The values of the elements of an array.
pub open spec fn values_of(s: Seq<Json>) -> Seq<JsonValue>
    decreases s,
{
    if s.len() == 0 {
        Seq::empty()
    } else {
        values_of(s.drop_last()).push(s.last().view())
    }
}

/// The members of an object, each key read as its characters.
pub open spec fn members_of(s: Seq<(String, Json)>) -> Seq<(Seq<char>, JsonValue)>
    decreases s,
{
    if s.len() == 0 {
        Seq::empty()
    } else {
        members_of(s.drop_last()).push((s.last().0@, s.last().1.view()))
    }
}

impl View for Json {
    type V = JsonValue;

    open spec fn view(&self) -> JsonValue
        decreases self,
    {
        match self {
            Json::Null => JsonValue::Null,
            Json::Bool(b) => JsonValue::Bool(*b),
            Json::Number(n) => JsonValue::Number(*n),
            Json::Str(s) => JsonValue::Str(s@),
            Json::Array(a) => JsonValue::Array(values_of(a@)),
            Json::Object(o) => JsonValue::Object(members_of(o@)),
        }
    }
}

pub proof fn lemma_members_index(s: Seq<(String, Json)>)
    ensures
        members_of(s).len() == s.len(),
        forall|i: int| 0 <= i < s.len() ==> #[trigger] members_of(s)[i] == (s[i].0@, s[i].1@),
    decreases s.len(),
{
    if s.len() > 0 {
        lemma_members_index(s.drop_last());
        assert(members_of(s) == members_of(s.drop_last()).push((s.last().0@, s.last().1@)));
    } else {
        assert(members_of(s) == Seq::<(Seq<char>, JsonValue)>::empty());
    }
}

pub proof fn lemma_members_drop_first(s: Seq<(String, Json)>)
    requires
        s.len() > 0,
    ensures
        members_of(s.drop_first()) == members_of(s).drop_first(),
        members_of(s)[0] == (s[0].0@, s[0].1@),
{
    lemma_members_index(s);
    lemma_members_index(s.drop_first());
    assert(members_of(s.drop_first()) =~= members_of(s).drop_first());
}

/// Appends the member `k: v` to an object's members.
pub(crate) fn push_member(fs: &mut Vec<(String, Json)>, k: &str, v: Json)
    ensures
        members_of(final(fs)@) == members_of(old(fs)@).push((k@, v@)),
{
    let e = (k.to_owned(), v);
    proof {
        assert(old(fs)@.push(e).drop_last() =~= old(fs)@);
    }
    fs.push(e);
}

/// The value of the first member named `k`.
pub open spec fn field(es: Seq<(Seq<char>, JsonValue)>, k: Seq<char>) -> Option<JsonValue>
    decreases es.len(),
{
    if es.len() == 0 {
        None
    } else if es[0].0 == k {
        Some(es[0].1)
    } else {
        field(es.drop_first(), k)
    }
}

/// Appending a member changes no earlier lookup, and a lookup that found
/// nothing before finds the new member where the keys agree.
pub proof fn lemma_field_push(es: Seq<(Seq<char>, JsonValue)>, k: Seq<char>, v: JsonValue, q: Seq<char>)
    ensures
        field(es.push((k, v)), q) == match field(es, q) {
            Some(x) => Some(x),
            None => if k == q {
                Some(v)
            } else {
                None
            },
        },
    decreases es.len(),
{
    let pushed = es.push((k, v));
    if es.len() == 0 {
        assert(pushed.drop_first() =~= Seq::<(Seq<char>, JsonValue)>::empty());
    } else {
        assert(pushed.drop_first() =~= es.drop_first().push((k, v)));
        lemma_field_push(es.drop_first(), k, v, q);
    }
}

/// The member named `k` of `j`, where `j` is an object.
pub open spec fn member(j: JsonValue, k: Seq<char>) -> Option<JsonValue> {
    match j {
        JsonValue::Object(es) => field(es, k),
        _ => None,
    }
}

pub open spec fn empty_object() -> JsonValue {
    JsonValue::Object(Seq::empty())
}

/// The view of an optional value.
pub open spec fn opt_view(o: Option<Json>) -> Option<JsonValue> {
    match o {
        Some(j) => Some(j@),
        None => None,
    }
}

impl Json {
    /// The value that a JSON text holds, or `None` where it is not JSON.
    pub fn parse(text: &str) -> (r: Option<Json>)
        ensures
            opt_view(r) == json_parse(text@),
    {
        parse_json(text)
    }

    /// The compact JSON text of this value.
    pub fn to_text(&self) -> (r: String)
        ensures
            r@ == json_text(self@),
    {
        write_json(self)
    }

    /// A deep copy.
    pub fn duplicate(&self) -> (r: Json)
        ensures
            r@ == self@,
        decreases self,
    {
        match self {
            Json::Null => Json::Null,
            Json::Bool(b) => Json::Bool(*b),
            Json::Number(n) => Json::Number(n.clone()),
            Json::Str(s) => Json::Str(s.clone()),
            Json::Array(a) => {
                let mut v: Vec<Json> = Vec::new();
                let mut i: usize = 0;
                while i < a.len()
                    invariant
                        *self == Json::Array(*a),
                        i <= a.len(),
                        values_of(v@) == values_of(a@.subrange(0, i as int)),
                    decreases a.len() - i,
                {
                    proof {
                        assert(decreases_to!(*self => (*self)->Array_0));
                        assert(decreases_to!(*a => a@[i as int]));
                    }
                    let x = a[i].duplicate();
                    proof {
                        assert(v@.push(x).drop_last() =~= v@);
                        assert(a@.subrange(0, i + 1).drop_last() =~= a@.subrange(0, i as int));
                    }
                    v.push(x);
                    i += 1;
                }
                assert(a@.subrange(0, a.len() as int) =~= a@);
                Json::Array(v)
            },
            Json::Object(o) => {
                let mut v: Vec<(String, Json)> = Vec::new();
                let mut i: usize = 0;
                while i < o.len()
                    invariant
                        *self == Json::Object(*o),
                        i <= o.len(),
                        members_of(v@) == members_of(o@.subrange(0, i as int)),
                    decreases o.len() - i,
                {
                    proof {
                        assert(decreases_to!(*self => (*self)->Object_0));
                        assert(decreases_to!(*o => o@[i as int]));
                        assert(decreases_to!(o@[i as int] => o@[i as int].1));
                    }
                    let x = (o[i].0.clone(), o[i].1.duplicate());
                    proof {
                        assert(v@.push(x).drop_last() =~= v@);
                        assert(o@.subrange(0, i + 1).drop_last() =~= o@.subrange(0, i as int));
                    }
                    v.push(x);
                    i += 1;
                }
                assert(o@.subrange(0, o.len() as int) =~= o@);
                Json::Object(v)
            },
        }
    }
}

/// Where a member named by a key was seen while walking an object: the value
/// taken, or else where the rest of the walk finds it.
pub open spec fn found_or(found: Option<Json>, rest: Seq<(String, Json)>, k: Seq<char>) -> Option<JsonValue> {
    match found {
        Some(v) => Some(v@),
        None => field(members_of(rest), k),
    }
}

/// Where each key's first member stands after a walk over an object.
pub open spec fn firsts_found(
    all: Seq<(String, Json)>,
    rest: Seq<(String, Json)>,
    keys: Seq<Seq<char>>,
    slots: Seq<Option<Json>>,
) -> bool {
    &&& slots.len() == keys.len()
    &&& forall|i: int| 0 <= i < keys.len() ==> #[trigger] field(members_of(all), keys[i]) == found_or(slots[i], rest, keys[i])
}

fn key_index(keys: &Vec<String>, k: &String) -> (r: Option<usize>)
    ensures
        match r {
            Some(j) => j < keys@.len() && keys@[j as int]@ == k@,
            None => forall|i: int| 0 <= i < keys@.len() ==> #[trigger] keys@[i]@ != k@,
        },
{
    let mut i: usize = 0;
    while i < keys.len()
        invariant
            i <= keys@.len(),
            forall|j: int| 0 <= j < i ==> #[trigger] keys@[j]@ != k@,
        decreases keys.len() - i,
    {
        if keys[i] == *k {
            return Some(i);
        }
        i += 1;
    }
    None
}

/// Takes from an object's members the first value under each of `keys`.
pub(crate) fn take_members(fs: Vec<(String, Json)>, keys: &Vec<String>) -> (r: Vec<Option<Json>>)
    requires
        forall|i: int, j: int| 0 <= i < j < keys@.len() ==> keys@[i]@ != keys@[j]@,
    ensures
        r@.len() == keys@.len(),
        forall|i: int| 0 <= i < keys@.len() ==> #[trigger] opt_view(r@[i]) == field(members_of(fs@), keys@[i]@),
{
    let ghost all = fs@;
    let ghost ks = keys@.map_values(|s: String| s@);
    let mut fs = fs;
    let mut slots: Vec<Option<Json>> = Vec::new();
    let mut n: usize = 0;
    while n < keys.len()
        invariant
            n <= keys@.len(),
            slots@.len() == n,
            forall|i: int| 0 <= i < n ==> slots@[i] is None,
        decreases keys.len() - n,
    {
        slots.push(None);
        n += 1;
    }
    while fs.len() > 0
        invariant
            ks == keys@.map_values(|s: String| s@),
            firsts_found(all, fs@, ks, slots@),
            forall|i: int, j: int| 0 <= i < j < keys@.len() ==> keys@[i]@ != keys@[j]@,
        decreases fs.len(),
    {
        let ghost before = fs@;
        let ghost old_slots = slots@;
        proof {
            lemma_members_drop_first(before);
        }
        let (k, v) = fs.remove(0);
        let ghost gv = v@;
        proof {
            assert(fs@ == before.drop_first());
            lemma_members_index(before);
            assert(forall|i: int| 0 <= i < ks.len() ==> #[trigger] field(members_of(before), ks[i]) == if k@ == ks[i] {
                Some(gv)
            } else {
                field(members_of(fs@), ks[i])
            });
        }
        match key_index(keys, &k) {
            Some(j) => {
                if slots[j].is_none() {
                    slots[j] = Some(v);
                }
                proof {
                    assert forall|i: int| 0 <= i < ks.len() implies #[trigger] field(members_of(all), ks[i]) == found_or(
                        slots@[i],
                        fs@,
                        ks[i],
                    ) by {
                        if i != j {
                            assert(ks[i] != ks[j as int]);
                            assert(slots@[i] == old_slots[i]);
                        }
                    }
                }
            },
            None => {},
        }
    }
    proof {
        assert forall|i: int| 0 <= i < keys@.len() implies #[trigger] opt_view(slots@[i]) == field(
            members_of(all),
            keys@[i]@,
        ) by {
            assert(ks[i] == keys@[i]@);
            assert(members_of(fs@) =~= Seq::<(Seq<char>, JsonValue)>::empty()) by {
                lemma_members_index(fs@);
            }
        }
    }
    slots
}

/// What serde_json parses from a text, if the text is JSON.
pub uninterp spec fn json_parse(text: Seq<char>) -> Option<JsonValue>;

/// The compact text that serde_json writes for a value.
pub uninterp spec fn json_text(j: JsonValue) -> Seq<char>;
/// Moves a serde_json::Value into the same value as `Json`, variant for
/// variant, members in the order serde_json's map yields them. Used by the
/// parsing wrapper below.
#[verifier::external_body]
fn from_value(v: serde_json::Value) -> Json {
    match v {
        serde_json::Value::Null => Json::Null,
        serde_json::Value::Bool(b) => Json::Bool(b),
        serde_json::Value::Number(n) => Json::Number(n),
        serde_json::Value::String(s) => Json::Str(s),
        serde_json::Value::Array(a) => Json::Array(a.into_iter().map(from_value).collect()),
        serde_json::Value::Object(o) => Json::Object(o.into_iter().map(|(k, x)| (k, from_value(x))).collect()),
    }
}

/// Copies a `Json` into the same value as serde_json::Value, variant for
/// variant. Used by the writing wrapper below.
#[verifier::external_body]
fn into_value(j: &Json) -> serde_json::Value {
    match j {
        Json::Null => serde_json::Value::Null,
        Json::Bool(b) => serde_json::Value::Bool(*b),
        Json::Number(n) => serde_json::Value::Number(n.clone()),
        Json::Str(s) => serde_json::Value::String(s.clone()),
        Json::Array(a) => serde_json::Value::Array(a.iter().map(into_value).collect()),
        Json::Object(o) => serde_json::Value::Object(o.iter().map(|(k, x)| (k.clone(), into_value(x))).collect()),
    }
}

/// Relies on serde_json::from_str: `None` where the text is not JSON.
#[verifier::external_body]
pub(crate) fn parse_json(text: &str) -> (r: Option<Json>)
    ensures
        opt_view(r) == json_parse(text@),
{
    serde_json::from_str::<serde_json::Value>(text).ok().map(from_value)
}

/// Relies on serde_json::to_string, which cannot fail on a serde_json::Value.
#[verifier::external_body]
pub(crate) fn write_json(j: &Json) -> (r: String)
    ensures
        r@ == json_text(j@),
{
    serde_json::to_string(&into_value(j)).unwrap_or_default()
}

} // verus!
