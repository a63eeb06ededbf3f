//! A closed, tagged data model for JSON-like values.
//!
//! Filter expressions and migration payloads are dynamically shaped in the
//! surrounding system; here they are represented by the closed enum
//! `JsonValue` so that the compiler and the codec are exhaustive and an
//! unrecognized shape is a distinguishable case rather than untyped
//! fallthrough.
//!
//! A floating-point number is carried opaquely as `FloatVal`: the boundary
//! that produces the value supplies both the raw bit pattern (for lossless
//! transport back to the backend) and the truncated integer (the value the
//! compiler substitutes where the backend only matches integers).

use vstd::prelude::*;

verus! {

/// An opaque floating-point number: the 64-bit IEEE bit pattern together
/// with the integer it truncates to. The truncation is computed at the
/// unverified boundary; inside the library both fields are plain data.
#[derive(Clone, Copy, Debug, PartialEq, Eq, Structural)]
pub struct FloatVal {
    /// Raw IEEE-754 bit pattern of the number.
    pub bits: u64,
    /// The number truncated toward zero, saturating at the i64 range.
    pub trunc: i64,
}

/// A JSON-like value.
#[derive(Debug)]
pub enum JsonValue {
    Null,
    Bool(bool),
    Int(i64),
    Float(FloatVal),
    Str(String),
    Array(Vec<JsonValue>),
    Object(Vec<(String, JsonValue)>),
}

/// The mathematical shape of a `JsonValue`: strings become character
/// sequences, vectors become sequences. Contracts speak of this model.
#[verifier::ext_equal]
pub enum JsonModel {
    Null,
    Bool(bool),
    Int(i64),
    Float(FloatVal),
    Str(Seq<char>),
    Arr(Seq<JsonModel>),
    Obj(Seq<(Seq<char>, JsonModel)>),
}

/// The model of a value.
pub open spec fn json_model(v: JsonValue) -> JsonModel
    decreases v,
{
    match v {
        JsonValue::Null => JsonModel::Null,
        JsonValue::Bool(b) => JsonModel::Bool(b),
        JsonValue::Int(i) => JsonModel::Int(i),
        JsonValue::Float(f) => JsonModel::Float(f),
        JsonValue::Str(s) => JsonModel::Str(s@),
        JsonValue::Array(xs) => JsonModel::Arr(arr_model(xs@)),
        JsonValue::Object(fs) => JsonModel::Obj(fields_model(fs@)),
    }
}

/// The models of the elements of an array.
pub open spec fn arr_model(s: Seq<JsonValue>) -> Seq<JsonModel>
    decreases s,
{
    if s.len() == 0 {
        Seq::empty()
    } else {
        seq![json_model(s[0])] + arr_model(s.drop_first())
    }
}

/// The models of the fields of an object (or of a metadata map).
pub open spec fn fields_model(s: Seq<(String, JsonValue)>) -> Seq<(Seq<char>, JsonModel)>
    decreases s,
{
    if s.len() == 0 {
        Seq::empty()
    } else {
        seq![(s[0].0@, json_model(s[0].1))] + fields_model(s.drop_first())
    }
}

impl View for JsonValue {
    type V = JsonModel;

    open spec fn view(&self) -> JsonModel {
        json_model(*self)
    }
}

/// `arr_model` maps the sequence pointwise.
pub proof fn lemma_arr_model(s: Seq<JsonValue>)
    ensures
        arr_model(s).len() == s.len(),
        forall|i: int|
            #![trigger arr_model(s)[i]]
            #![trigger s[i]]
            0 <= i < s.len() ==> arr_model(s)[i] == json_model(s[i]),
    decreases s.len(),
{
    if s.len() > 0 {
        lemma_arr_model(s.drop_first());
        assert forall|i: int|
            #![trigger arr_model(s)[i]]
            #![trigger s[i]]
            0 <= i < s.len() implies arr_model(s)[i] == json_model(s[i]) by {
            if i > 0 {
                assert(s.drop_first()[i - 1] == s[i]);
                assert(arr_model(s)[i] == arr_model(s.drop_first())[i - 1]);
            }
        }
    }
}

/// `fields_model` maps the field list pointwise.
pub proof fn lemma_fields_model(s: Seq<(String, JsonValue)>)
    ensures
        fields_model(s).len() == s.len(),
        forall|i: int|
            #![trigger fields_model(s)[i]]
            #![trigger s[i]]
            0 <= i < s.len() ==> fields_model(s)[i] == (s[i].0@, json_model(s[i].1)),
    decreases s.len(),
{
    if s.len() > 0 {
        lemma_fields_model(s.drop_first());
        assert forall|i: int|
            #![trigger fields_model(s)[i]]
            #![trigger s[i]]
            0 <= i < s.len() implies fields_model(s)[i] == (s[i].0@, json_model(s[i].1)) by {
            if i > 0 {
                assert(s.drop_first()[i - 1] == s[i]);
                assert(fields_model(s)[i] == fields_model(s.drop_first())[i - 1]);
            }
        }
    }
}

/// First binding of `key` in a modelled field list, if any.
pub open spec fn fields_find(fs: Seq<(Seq<char>, JsonModel)>, key: Seq<char>) -> Option<JsonModel>
    decreases fs.len(),
{
    if fs.len() == 0 {
        None
    } else if fs[0].0 == key {
        Some(fs[0].1)
    } else {
        fields_find(fs.drop_first(), key)
    }
}

/// Skipping a prefix that does not bind `key` leaves the lookup unchanged.
proof fn lemma_fields_find_skip(fs: Seq<(Seq<char>, JsonModel)>, key: Seq<char>, i: int)
    requires
        0 <= i < fs.len(),
        fs[i].0 != key,
        fields_find(fs, key) == fields_find(fs.skip(i), key),
    ensures
        fields_find(fs, key) == fields_find(fs.skip(i + 1), key),
{
    assert(fs.skip(i)[0] == fs[i]);
    assert(fs.skip(i).drop_first() =~= fs.skip(i + 1));
}

/// Structural equality of two values, decided on their models.
#[verifier::loop_isolation(false)]
pub fn json_value_eq(a: &JsonValue, b: &JsonValue) -> (r: bool)
    ensures
        r == (a@ == b@),
    decreases *a,
{
    match a {
        JsonValue::Null => match b {
            JsonValue::Null => true,
            _ => false,
        },
        JsonValue::Bool(x) => match b {
            JsonValue::Bool(y) => *x == *y,
            _ => false,
        },
        JsonValue::Int(x) => match b {
            JsonValue::Int(y) => *x == *y,
            _ => false,
        },
        JsonValue::Float(x) => match b {
            JsonValue::Float(y) => *x == *y,
            _ => false,
        },
        JsonValue::Str(x) => match b {
            JsonValue::Str(y) => *x == *y,
            _ => false,
        },
        JsonValue::Array(xs) => match b {
            JsonValue::Array(ys) => {
            proof {
                lemma_arr_model(xs@);
                lemma_arr_model(ys@);
            }
            if xs.len() != ys.len() {
                return false;
            }
            let mut i: usize = 0;
            while i < xs.len()
                invariant
                    i <= xs.len(),
                    xs@.len() == ys@.len(),
                    arr_model(xs@).len() == xs@.len(),
                    arr_model(ys@).len() == ys@.len(),
                    forall|j: int| 0 <= j < xs@.len() ==> arr_model(xs@)[j] == json_model(
                        #[trigger] xs@[j],
                    ),
                    forall|j: int| 0 <= j < ys@.len() ==> arr_model(ys@)[j] == json_model(
                        #[trigger] ys@[j],
                    ),
                    forall|j: int| 0 <= j < i ==> arr_model(xs@)[j] == arr_model(ys@)[j],
                    a@ == JsonModel::Arr(arr_model(xs@)),
                    b@ == JsonModel::Arr(arr_model(ys@)),
                decreases xs.len() - i,
            {
                if !json_value_eq(&xs[i], &ys[i]) {
                    return false;
                }
                i += 1;
            }
                proof {
                    assert(arr_model(xs@) =~= arr_model(ys@));
                }
                true
            },
            _ => false,
        },
        JsonValue::Object(xs) => match b {
            JsonValue::Object(ys) => {
            proof {
                lemma_fields_model(xs@);
                lemma_fields_model(ys@);
            }
            if xs.len() != ys.len() {
                return false;
            }
            let mut i: usize = 0;
            while i < xs.len()
                invariant
                    i <= xs.len(),
                    xs@.len() == ys@.len(),
                    fields_model(xs@).len() == xs@.len(),
                    fields_model(ys@).len() == ys@.len(),
                    forall|j: int| 0 <= j < xs@.len() ==> fields_model(xs@)[j] == ((
                    #[trigger] xs@[j]).0@, json_model(xs@[j].1)),
                    forall|j: int| 0 <= j < ys@.len() ==> fields_model(ys@)[j] == ((
                    #[trigger] ys@[j]).0@, json_model(ys@[j].1)),
                    forall|j: int| 0 <= j < i ==> fields_model(xs@)[j] == fields_model(ys@)[j],
                    a@ == JsonModel::Obj(fields_model(xs@)),
                    b@ == JsonModel::Obj(fields_model(ys@)),
                decreases xs.len() - i,
            {
                if !(xs[i].0 == ys[i].0) {
                    return false;
                }
                if !json_value_eq(&xs[i].1, &ys[i].1) {
                    return false;
                }
                i += 1;
            }
                proof {
                    assert(fields_model(xs@) =~= fields_model(ys@));
                }
                true
            },
            _ => false,
        },
    }
}

/// A copy of a value with the same model.
#[verifier::loop_isolation(false)]
pub fn json_value_clone(v: &JsonValue) -> (r: JsonValue)
    ensures
        r@ == v@,
    decreases *v,
{
    match v {
        JsonValue::Null => JsonValue::Null,
        JsonValue::Bool(b) => JsonValue::Bool(*b),
        JsonValue::Int(i) => JsonValue::Int(*i),
        JsonValue::Float(f) => JsonValue::Float(*f),
        JsonValue::Str(s) => JsonValue::Str(s.clone()),
        JsonValue::Array(xs) => {
            proof {
                lemma_arr_model(xs@);
            }
            let mut out: Vec<JsonValue> = Vec::new();
            let mut i: usize = 0;
            while i < xs.len()
                invariant
                    i <= xs.len(),
                    out@.len() == i,
                    arr_model(xs@).len() == xs@.len(),
                    forall|j: int| 0 <= j < xs@.len() ==> arr_model(xs@)[j] == json_model(
                        #[trigger] xs@[j],
                    ),
                    forall|j: int| 0 <= j < i ==> json_model(#[trigger] out@[j]) == json_model(
                        xs@[j],
                    ),
                decreases xs.len() - i,
            {
                let c = json_value_clone(&xs[i]);
                out.push(c);
                i += 1;
            }
            proof {
                lemma_arr_model(out@);
                assert forall|k: int| 0 <= k < out@.len() implies arr_model(out@)[k] == arr_model(
                    xs@,
                )[k] by {
                    assert(json_model(out@[k]) == json_model(xs@[k]));
                }
                assert(arr_model(out@) =~= arr_model(xs@));
            }
            JsonValue::Array(out)
        },
        JsonValue::Object(fs) => {
            proof {
                lemma_fields_model(fs@);
            }
            let mut out: Vec<(String, JsonValue)> = Vec::new();
            let mut i: usize = 0;
            while i < fs.len()
                invariant
                    i <= fs.len(),
                    out@.len() == i,
                    fields_model(fs@).len() == fs@.len(),
                    forall|j: int| 0 <= j < fs@.len() ==> fields_model(fs@)[j] == ((
                    #[trigger] fs@[j]).0@, json_model(fs@[j].1)),
                    forall|j: int| 0 <= j < i ==> ((#[trigger] out@[j]).0@ == fs@[j].0@
                        && json_model(out@[j].1) == json_model(fs@[j].1)),
                decreases fs.len() - i,
            {
                let k = fs[i].0.clone();
                let c = json_value_clone(&fs[i].1);
                out.push((k, c));
                i += 1;
            }
            proof {
                lemma_fields_model(out@);
                assert forall|k: int|
                    0 <= k < out@.len() implies fields_model(out@)[k] == fields_model(fs@)[k] by {
                    assert(out@[k].0@ == fs@[k].0@ && json_model(out@[k].1) == json_model(
                        fs@[k].1,
                    ));
                }
                assert(fields_model(out@) =~= fields_model(fs@));
            }
            JsonValue::Object(out)
        },
    }
}

/// A copy of a field list with the same model.
#[verifier::loop_isolation(false)]
pub fn fields_clone(fs: &Vec<(String, JsonValue)>) -> (r: Vec<(String, JsonValue)>)
    ensures
        fields_model(r@) == fields_model(fs@),
{
    proof {
        lemma_fields_model(fs@);
    }
    let mut out: Vec<(String, JsonValue)> = Vec::new();
    let mut i: usize = 0;
    while i < fs.len()
        invariant
            i <= fs.len(),
            out@.len() == i,
            fields_model(fs@).len() == fs@.len(),
            forall|j: int| 0 <= j < fs@.len() ==> fields_model(fs@)[j] == ((#[trigger] fs@[j]).0@,
            json_model(fs@[j].1)),
            forall|j: int| 0 <= j < i ==> ((#[trigger] out@[j]).0@ == fs@[j].0@ && json_model(
                out@[j].1,
            ) == json_model(fs@[j].1)),
        decreases fs.len() - i,
    {
        let k = fs[i].0.clone();
        let c = json_value_clone(&fs[i].1);
        out.push((k, c));
        i += 1;
    }
    proof {
        lemma_fields_model(out@);
        assert forall|k: int| 0 <= k < out@.len() implies fields_model(out@)[k] == fields_model(
            fs@,
        )[k] by {
            assert(out@[k].0@ == fs@[k].0@ && json_model(out@[k].1) == json_model(fs@[k].1));
        }
        assert(fields_model(out@) =~= fields_model(fs@));
    }
    out
}

/// Relies on str's `PartialEq`: two string slices are equal exactly when
/// their character sequences are equal.
#[verifier::external_body]
pub fn str_eq(a: &str, b: &str) -> (r: bool)
    ensures
        r == (a@ == b@),
{
    a == b
}

/// Look up the first binding of `key` in a field list.
pub fn fields_get<'a>(fs: &'a Vec<(String, JsonValue)>, key: &str) -> (r: Option<
    &'a JsonValue,
>)
    ensures
        match r {
            Some(v) => fields_find(fields_model(fs@), key@) == Some(v@),
            None => fields_find(fields_model(fs@), key@) is None,
        },
{
    proof {
        lemma_fields_model(fs@);
        assert(fields_model(fs@).skip(0) =~= fields_model(fs@));
    }
    let mut i: usize = 0;
    while i < fs.len()
        invariant
            i <= fs.len(),
            fields_model(fs@).len() == fs@.len(),
            forall|j: int|
                0 <= j < fs@.len() ==> fields_model(fs@)[j] == ((#[trigger] fs@[j]).0@,
                json_model(fs@[j].1)),
            fields_find(fields_model(fs@), key@) == fields_find(
                fields_model(fs@).skip(i as int),
                key@,
            ),
        decreases fs.len() - i,
    {
        proof {
            assert(fields_model(fs@).skip(i as int)[0] == fields_model(fs@)[i as int]);
        }
        if str_eq(fs[i].0.as_str(), key) {
            return Some(&fs[i].1);
        }
        proof {
            lemma_fields_find_skip(fields_model(fs@), key@, i as int);
        }
        i += 1;
    }
    None
}

} // verus!
