//! The library's own model of a recorded value: a structured document
//! value, compared by deep structural equality. Numbers keep their exact
//! source form — signed, unsigned, or (for non-integer numbers) the
//! canonical decimal text — so that equality of two recorded values is a
//! plain, fully checkable relation on the data.

use vstd::prelude::*;

verus! {

/// One field of a document object.
#[derive(Debug)]
pub struct JsonField {
    pub key: String,
    pub value: JsonValue,
}

/// A structured document value.
#[derive(Debug)]
pub enum JsonValue {
    Null,
    Bool(bool),
    Int(i64),
    UInt(u64),
    /// A non-integer number, kept as its canonical decimal text.
    Float(String),
    Str(String),
    Array(Vec<JsonValue>),
    Object(Vec<JsonField>),
}

/// Mathematical model of `JsonField`.
pub struct JsonFieldM {
    pub key: Seq<char>,
    pub value: JsonM,
}

/// Mathematical model of `JsonValue`.
pub enum JsonM {
    Null,
    Bool(bool),
    Int(i64),
    UInt(u64),
    Float(Seq<char>),
    Str(Seq<char>),
    Array(Seq<JsonM>),
    Object(Seq<JsonFieldM>),
}

/// Model of a value, by structural recursion.
pub open spec fn json_view(t: JsonValue) -> JsonM
    decreases t,
{
    match t {
        JsonValue::Null => JsonM::Null,
        JsonValue::Bool(b) => JsonM::Bool(b),
        JsonValue::Int(n) => JsonM::Int(n),
        JsonValue::UInt(n) => JsonM::UInt(n),
        JsonValue::Float(s) => JsonM::Float(s@),
        JsonValue::Str(s) => JsonM::Str(s@),
        JsonValue::Array(v) => JsonM::Array(json_seq_view(v)),
        JsonValue::Object(fields) => JsonM::Object(json_fields_view(fields)),
    }
}

/// Models of the elements of an array.
pub open spec fn json_seq_view(v: Vec<JsonValue>) -> Seq<JsonM>
    decreases v,
{
    Seq::new(
        v@.len(),
        |i: int|
            if 0 <= i < v@.len() {
                json_view(v@[i])
            } else {
                JsonM::Null
            },
    )
}

/// Models of the fields of an object.
pub open spec fn json_fields_view(v: Vec<JsonField>) -> Seq<JsonFieldM>
    decreases v,
{
    Seq::new(
        v@.len(),
        |i: int|
            if 0 <= i < v@.len() {
                JsonFieldM { key: v@[i].key@, value: json_view(v@[i].value) }
            } else {
                JsonFieldM { key: Seq::empty(), value: JsonM::Null }
            },
    )
}

impl DeepView for JsonValue {
    type V = JsonM;

    open spec fn deep_view(&self) -> JsonM {
        json_view(*self)
    }
}

impl DeepView for JsonField {
    type V = JsonFieldM;

    open spec fn deep_view(&self) -> JsonFieldM {
        JsonFieldM { key: self.key@, value: json_view(self.value) }
    }
}

/// Deep structural equality of two document values, decided exactly:
/// the answer is `true` iff the mathematical models coincide.
pub fn json_eq(a: &JsonValue, b: &JsonValue) -> (r: bool)
    ensures
        r == (a.deep_view() == b.deep_view()),
    decreases *a,
{
    match (a, b) {
        (JsonValue::Null, JsonValue::Null) => true,
        (JsonValue::Bool(x), JsonValue::Bool(y)) => x == y,
        (JsonValue::Int(x), JsonValue::Int(y)) => x == y,
        (JsonValue::UInt(x), JsonValue::UInt(y)) => x == y,
        (JsonValue::Float(x), JsonValue::Float(y)) => x.eq(y),
        (JsonValue::Str(x), JsonValue::Str(y)) => x.eq(y),
        (JsonValue::Array(x), JsonValue::Array(y)) => {
            if x.len() != y.len() {
                assert(a is Array && a->Array_0 == *x);
                assert(json_seq_view(*x).len() == x@.len());
                assert(json_seq_view(*y).len() == y@.len());
                assert(a.deep_view() != b.deep_view());
                return false;
            }
            let mut i: usize = 0;
            while i < x.len()
                invariant
                    i <= x@.len(),
                    x@.len() == y@.len(),
                    a is Array && a->Array_0 == *x,
                    b is Array && b->Array_0 == *y,
                    forall|k: int| 0 <= k < i ==> x@[k].deep_view() == y@[k].deep_view(),
                decreases x@.len() - i,
            {
                if !json_eq(&x[i], &y[i]) {
                    assert(json_seq_view(*x)[i as int] == json_view(x@[i as int]));
                    assert(json_seq_view(*y)[i as int] == json_view(y@[i as int]));
                    assert(a.deep_view() != b.deep_view());
                    return false;
                }
                i = i + 1;
            }
            assert(json_seq_view(*x) =~= json_seq_view(*y));
            true
        },
        (JsonValue::Object(x), JsonValue::Object(y)) => {
            if x.len() != y.len() {
                assert(json_fields_view(*x).len() == x@.len());
                assert(json_fields_view(*y).len() == y@.len());
                assert(a.deep_view() != b.deep_view());
                return false;
            }
            let mut i: usize = 0;
            while i < x.len()
                invariant
                    i <= x@.len(),
                    x@.len() == y@.len(),
                    a is Object && a->Object_0 == *x,
                    b is Object && b->Object_0 == *y,
                    forall|k: int| 0 <= k < i ==> x@[k].deep_view() == y@[k].deep_view(),
                decreases x@.len() - i,
            {
                if !(x[i].key.eq(&y[i].key) && json_eq(&x[i].value, &y[i].value)) {
                    assert(json_fields_view(*x)[i as int] == x@[i as int].deep_view());
                    assert(json_fields_view(*y)[i as int] == y@[i as int].deep_view());
                    assert(x@[i as int].deep_view() != y@[i as int].deep_view());
                    assert(a.deep_view() != b.deep_view());
                    return false;
                }
                assert(x@[i as int].deep_view() == y@[i as int].deep_view());
                i = i + 1;
            }
            assert(json_fields_view(*x) =~= json_fields_view(*y));
            true
        },
        (_, _) => false,
    }
}

/// A copy of a document value whose model is the same.
pub fn json_clone(a: &JsonValue) -> (r: JsonValue)
    ensures
        r.deep_view() == a.deep_view(),
    decreases *a,
{
    match a {
        JsonValue::Null => JsonValue::Null,
        JsonValue::Bool(b) => JsonValue::Bool(*b),
        JsonValue::Int(n) => JsonValue::Int(*n),
        JsonValue::UInt(n) => JsonValue::UInt(*n),
        JsonValue::Float(s) => JsonValue::Float(s.clone()),
        JsonValue::Str(s) => JsonValue::Str(s.clone()),
        JsonValue::Array(v) => {
            let mut out: Vec<JsonValue> = Vec::new();
            let mut i: usize = 0;
            while i < v.len()
                invariant
                    i <= v@.len(),
                    out@.len() == i,
                    a is Array && a->Array_0 == *v,
                    forall|k: int| 0 <= k < i ==> out@[k].deep_view() == v@[k].deep_view(),
                decreases v@.len() - i,
            {
                out.push(json_clone(&v[i]));
                i = i + 1;
            }
            let r = JsonValue::Array(out);
            assert(r is Array && json_seq_view(r->Array_0) =~= json_seq_view(*v));
            r
        },
        JsonValue::Object(fields) => {
            let mut out: Vec<JsonField> = Vec::new();
            let mut i: usize = 0;
            while i < fields.len()
                invariant
                    i <= fields@.len(),
                    out@.len() == i,
                    a is Object && a->Object_0 == *fields,
                    forall|k: int| 0 <= k < i ==> out@[k].deep_view() == fields@[k].deep_view(),
                decreases fields@.len() - i,
            {
                out.push(
                    JsonField { key: fields[i].key.clone(), value: json_clone(&fields[i].value) },
                );
                i = i + 1;
            }
            let r = JsonValue::Object(out);
            assert(r is Object && json_fields_view(r->Object_0) =~= json_fields_view(*fields));
            r
        },
    }
}

impl PartialEq for JsonValue {
    fn eq(&self, other: &JsonValue) -> (r: bool) {
        json_eq(self, other)
    }
}

impl Eq for JsonValue {}

impl vstd::std_specs::cmp::PartialEqSpecImpl for JsonValue {
    open spec fn obeys_eq_spec() -> bool {
        true
    }

    open spec fn eq_spec(&self, other: &JsonValue) -> bool {
        self.deep_view() == other.deep_view()
    }
}

} // verus!
