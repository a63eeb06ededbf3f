//! The query-filter compiler.
//!
//! A filter is given as a mapping from field name to a JSON-like filter
//! expression: a scalar means exact-match equality, and an object with a
//! recognized operator key (`$gte`/`$lte`/`$gt`/`$lt`, `$in`, `$exists`,
//! `$ne`) means the corresponding condition. Compilation produces a
//! backend-native condition tree of MUST / SHOULD / MUST-NOT groups.
//!
//! Per-field behaviour, stated by `classify`:
//! - a scalar becomes a MUST equality leaf (a float is matched on its
//!   truncated integer — a documented limitation; exact float matching
//!   requires a range expression);
//! - an object with range keys merges every bound present into one range
//!   leaf, and is skipped if any of its values is non-numeric;
//! - `$in` with a non-empty array seeds an equality leaf from the first
//!   element (a documented simplification of full OR-expansion);
//! - `$exists` with a boolean operand becomes a presence/absence leaf
//!   (a non-boolean operand is a malformed operator object and the field
//!   is skipped);
//! - `$ne` is declared but unsupported: compilation of the whole filter
//!   fails with a not-implemented error rather than silently matching
//!   everything;
//! - any other shape (a bare array, an object without a recognized key)
//!   contributes no condition.

use vstd::prelude::*;

use crate::errors::VectorError;
use crate::json::fields_find;
use crate::json::fields_get;
use crate::json::fields_model;
use crate::json::lemma_fields_model;
use crate::json::str_eq;
use crate::json::FloatVal;
use crate::json::JsonModel;
use crate::json::JsonValue;
use crate::qdrant_errors::make_string;

verus! {

/// A numeric bound: an integer, or an opaque float.
#[derive(Clone, Copy, Debug)]
pub enum NumValue {
    Int(i64),
    Float(FloatVal),
}

/// The value an equality leaf matches against.
#[derive(Debug)]
pub enum MatchValue {
    Keyword(String),
    Integer(i64),
    Boolean(bool),
}

/// The model of a `MatchValue`.
pub enum MatchValueModel {
    Keyword(Seq<char>),
    Integer(i64),
    Boolean(bool),
}

impl View for MatchValue {
    type V = MatchValueModel;

    open spec fn view(&self) -> MatchValueModel {
        match self {
            MatchValue::Keyword(s) => MatchValueModel::Keyword(s@),
            MatchValue::Integer(i) => MatchValueModel::Integer(*i),
            MatchValue::Boolean(b) => MatchValueModel::Boolean(*b),
        }
    }
}

/// A range constraint; each bound is open (absent) or present, `gte`/`lte`
/// inclusive and `gt`/`lt` strict.
#[derive(Clone, Copy, Debug)]
pub struct RangeSpec {
    pub gte: Option<NumValue>,
    pub lte: Option<NumValue>,
    pub gt: Option<NumValue>,
    pub lt: Option<NumValue>,
}

/// What one leaf condition asserts about its field.
#[derive(Debug)]
pub enum ConditionKind {
    /// Exact-match equality.
    Match(MatchValue),
    /// A numeric range.
    Range(RangeSpec),
    /// Presence (`true`) or absence (`false`) of the field.
    Exists(bool),
}

/// The model of a `ConditionKind`.
pub enum ConditionKindModel {
    Match(MatchValueModel),
    Range(RangeSpec),
    Exists(bool),
}

impl View for ConditionKind {
    type V = ConditionKindModel;

    open spec fn view(&self) -> ConditionKindModel {
        match self {
            ConditionKind::Match(m) => ConditionKindModel::Match(m@),
            ConditionKind::Range(r) => ConditionKindModel::Range(*r),
            ConditionKind::Exists(b) => ConditionKindModel::Exists(*b),
        }
    }
}

/// A leaf condition bound to one field.
#[derive(Debug)]
pub struct FieldCondition {
    pub key: String,
    pub kind: ConditionKind,
}

/// The model of a `FieldCondition`.
pub struct FieldConditionModel {
    pub key: Seq<char>,
    pub kind: ConditionKindModel,
}

impl View for FieldCondition {
    type V = FieldConditionModel;

    open spec fn view(&self) -> FieldConditionModel {
        FieldConditionModel { key: self.key@, kind: self.kind@ }
    }
}

/// A compiled query: conditions combined in three logical groups. All of
/// `must` holds, none of `must_not` holds, and at least `min_should` of
/// `should` hold (`None` meaning "any one" when the group is non-empty).
#[derive(Debug)]
pub struct Filter {
    pub must: Vec<FieldCondition>,
    pub should: Vec<FieldCondition>,
    pub must_not: Vec<FieldCondition>,
    pub min_should: Option<u64>,
}

/// The model of a `Filter`.
pub struct FilterModel {
    pub must: Seq<FieldConditionModel>,
    pub should: Seq<FieldConditionModel>,
    pub must_not: Seq<FieldConditionModel>,
    pub min_should: Option<u64>,
}

/// The models of a condition list.
pub open spec fn conds_model(s: Seq<FieldCondition>) -> Seq<FieldConditionModel> {
    Seq::new(s.len(), |i: int| s[i]@)
}

impl View for Filter {
    type V = FilterModel;

    open spec fn view(&self) -> FilterModel {
        FilterModel {
            must: conds_model(self.must@),
            should: conds_model(self.should@),
            must_not: conds_model(self.must_not@),
            min_should: self.min_should,
        }
    }
}

/// The equality leaf a scalar compiles to, if it is a scalar.
pub open spec fn scalar_match(v: JsonModel) -> Option<MatchValueModel> {
    match v {
        JsonModel::Str(s) => Some(MatchValueModel::Keyword(s)),
        JsonModel::Int(i) => Some(MatchValueModel::Integer(i)),
        JsonModel::Float(f) => Some(MatchValueModel::Integer(f.trunc)),
        JsonModel::Bool(b) => Some(MatchValueModel::Boolean(b)),
        _ => None,
    }
}

/// The numeric value of a model, if it is numeric.
pub open spec fn num_of(v: JsonModel) -> Option<NumValue> {
    match v {
        JsonModel::Int(i) => Some(NumValue::Int(i)),
        JsonModel::Float(f) => Some(NumValue::Float(f)),
        _ => None,
    }
}

/// Whether `k` is one of the four range operator keys.
pub open spec fn is_range_key(k: Seq<char>) -> bool {
    k == "$gte"@ || k == "$lte"@ || k == "$gt"@ || k == "$lt"@
}

/// Whether an operator object carries any range operator.
pub open spec fn has_range_key(fs: Seq<(Seq<char>, JsonModel)>) -> bool {
    exists|i: int| 0 <= i < fs.len() && is_range_key((#[trigger] fs[i]).0)
}

/// Whether every value of an operator object is numeric.
pub open spec fn all_numeric(fs: Seq<(Seq<char>, JsonModel)>) -> bool {
    forall|i: int| 0 <= i < fs.len() ==> num_of((#[trigger] fs[i]).1) is Some
}

/// One entry of an operator object folded into a range: a recognized key
/// with a numeric value sets its bound, anything else leaves the range
/// unchanged.
pub open spec fn apply_range_entry(r: RangeSpec, k: Seq<char>, v: JsonModel) -> RangeSpec {
    match num_of(v) {
        Some(n) => if k == "$gte"@ {
            RangeSpec { gte: Some(n), ..r }
        } else if k == "$lte"@ {
            RangeSpec { lte: Some(n), ..r }
        } else if k == "$gt"@ {
            RangeSpec { gt: Some(n), ..r }
        } else if k == "$lt"@ {
            RangeSpec { lt: Some(n), ..r }
        } else {
            r
        },
        None => r,
    }
}

/// The empty range: all four bounds open.
pub open spec fn empty_range() -> RangeSpec {
    RangeSpec { gte: None, lte: None, gt: None, lt: None }
}

/// The range an operator object merges to, entries applied in order.
pub open spec fn range_of(fs: Seq<(Seq<char>, JsonModel)>) -> RangeSpec
    decreases fs.len(),
{
    if fs.len() == 0 {
        empty_range()
    } else {
        apply_range_entry(range_of(fs.drop_last()), fs.last().0, fs.last().1)
    }
}

/// The equality leaf a `$in` object compiles to: the first element of the
/// array, if the operand is a non-empty array with a scalar first element.
pub open spec fn in_leaf(fs: Seq<(Seq<char>, JsonModel)>) -> Option<MatchValueModel> {
    match fields_find(fs, "$in"@) {
        Some(JsonModel::Arr(vs)) => if vs.len() > 0 {
            scalar_match(vs[0])
        } else {
            None
        },
        _ => None,
    }
}

/// The presence flag a `$exists` object compiles to: the boolean
/// operand, or nothing when the operand is malformed (not a boolean).
pub open spec fn exists_flag(fs: Seq<(Seq<char>, JsonModel)>) -> Option<bool> {
    match fields_find(fs, "$exists"@) {
        Some(JsonModel::Bool(b)) => Some(b),
        _ => None,
    }
}

/// How one field's expression is treated by the compiler.
pub enum FieldClass {
    /// A leaf condition is emitted.
    Leaf(ConditionKindModel),
    /// Compilation of the whole filter fails: `$ne` is unsupported.
    NotImplemented,
    /// The field contributes no condition.
    Skip,
}

/// The classification of one field's expression.
pub open spec fn classify(v: JsonModel) -> FieldClass {
    match v {
        JsonModel::Obj(fs) => if has_range_key(fs) {
            if all_numeric(fs) {
                FieldClass::Leaf(ConditionKindModel::Range(range_of(fs)))
            } else {
                FieldClass::Skip
            }
        } else if fields_find(fs, "$in"@) is Some {
            match in_leaf(fs) {
                Some(m) => FieldClass::Leaf(ConditionKindModel::Match(m)),
                None => FieldClass::Skip,
            }
        } else if fields_find(fs, "$ne"@) is Some {
            FieldClass::NotImplemented
        } else if fields_find(fs, "$exists"@) is Some {
            match exists_flag(fs) {
                Some(b) => FieldClass::Leaf(ConditionKindModel::Exists(b)),
                None => FieldClass::Skip,
            }
        } else {
            FieldClass::Skip
        },
        JsonModel::Str(s) => FieldClass::Leaf(
            ConditionKindModel::Match(MatchValueModel::Keyword(s)),
        ),
        JsonModel::Int(i) => FieldClass::Leaf(
            ConditionKindModel::Match(MatchValueModel::Integer(i)),
        ),
        JsonModel::Float(f) => FieldClass::Leaf(
            ConditionKindModel::Match(MatchValueModel::Integer(f.trunc)),
        ),
        JsonModel::Bool(b) => FieldClass::Leaf(
            ConditionKindModel::Match(MatchValueModel::Boolean(b)),
        ),
        _ => FieldClass::Skip,
    }
}

/// Whether some field of the filter uses the unsupported `$ne` operator.
pub open spec fn has_ne(fs: Seq<(Seq<char>, JsonModel)>) -> bool {
    exists|i: int| 0 <= i < fs.len() && classify((#[trigger] fs[i]).1) is NotImplemented
}

/// The MUST leaves of a filter map: one leaf per field that classifies to
/// a leaf, in field order.
pub open spec fn must_leaves(fs: Seq<(Seq<char>, JsonModel)>) -> Seq<FieldConditionModel>
    decreases fs.len(),
{
    if fs.len() == 0 {
        Seq::empty()
    } else {
        let init = must_leaves(fs.drop_last());
        match classify(fs.last().1) {
            FieldClass::Leaf(k) => init.push(
                FieldConditionModel { key: fs.last().0, kind: k },
            ),
            _ => init,
        }
    }
}

/// Merge the range bounds of an operator object into one range condition
/// for `field`; fails exactly when some value in the object is not numeric.
pub fn build_range_condition(field: &str, obj: &Vec<(String, JsonValue)>) -> (r: Result<
    FieldCondition,
    VectorError,
>)
    ensures
        all_numeric(fields_model(obj@)) <==> r is Ok,
        r matches Ok(c) ==> c@ == (FieldConditionModel {
            key: field@,
            kind: ConditionKindModel::Range(range_of(fields_model(obj@))),
        }),
{
    let ghost fm = fields_model(obj@);
    proof {
        lemma_fields_model(obj@);
        assert(fm.take(0) =~= Seq::<(Seq<char>, JsonModel)>::empty());
    }
    let mut acc = RangeSpec { gte: None, lte: None, gt: None, lt: None };
    let mut i: usize = 0;
    while i < obj.len()
        invariant
            i <= obj.len(),
            fm == fields_model(obj@),
            fm.len() == obj@.len(),
            forall|j: int| 0 <= j < obj@.len() ==> fm[j] == ((#[trigger] obj@[j]).0@, crate::json::json_model(obj@[j].1)),
            acc == range_of(fm.take(i as int)),
            forall|j: int| 0 <= j < i ==> num_of((#[trigger] fm[j]).1) is Some,
        decreases obj.len() - i,
    {
        let n: NumValue = match &obj[i].1 {
            JsonValue::Int(x) => NumValue::Int(*x),
            JsonValue::Float(f) => NumValue::Float(*f),
            _ => {
                proof {
                    assert(num_of(fm[i as int].1) is None);
                }
                return Err(VectorError::Validation {
                    field: make_string("filter"),
                    message: make_string("range bound is not numeric"),
                });
            },
        };
        let key = obj[i].0.as_str();
        if str_eq(key, "$gte") {
            acc = RangeSpec { gte: Some(n), ..acc };
        } else if str_eq(key, "$lte") {
            acc = RangeSpec { lte: Some(n), ..acc };
        } else if str_eq(key, "$gt") {
            acc = RangeSpec { gt: Some(n), ..acc };
        } else if str_eq(key, "$lt") {
            acc = RangeSpec { lt: Some(n), ..acc };
        }
        proof {
            assert(fm.take(i + 1).drop_last() =~= fm.take(i as int));
            assert(fm.take(i + 1).last() == fm[i as int]);
        }
        i += 1;
    }
    proof {
        assert(fm.take(obj@.len() as int) =~= fm);
    }
    Ok(FieldCondition { key: make_string(field), kind: ConditionKind::Range(acc) })
}

/// Compile a `$in` object into an equality condition on the first array
/// element; fails exactly when no usable first element is present.
pub fn build_in_condition(field: &str, obj: &Vec<(String, JsonValue)>) -> (r: Result<
    FieldCondition,
    VectorError,
>)
    ensures
        in_leaf(fields_model(obj@)) is Some <==> r is Ok,
        r matches Ok(c) ==> c@ == (FieldConditionModel {
            key: field@,
            kind: ConditionKindModel::Match(in_leaf(fields_model(obj@))->Some_0),
        }),
{
    proof {
        lemma_fields_model(obj@);
    }
    match fields_get(obj, "$in") {
        Some(JsonValue::Array(vs)) => {
            if vs.len() > 0 {
                proof {
                    crate::json::lemma_arr_model(vs@);
                }
                let mv: Option<MatchValue> = match &vs[0] {
                    JsonValue::Str(s) => Some(MatchValue::Keyword(s.clone())),
                    JsonValue::Int(x) => Some(MatchValue::Integer(*x)),
                    JsonValue::Float(f) => Some(MatchValue::Integer(f.trunc)),
                    JsonValue::Bool(b) => Some(MatchValue::Boolean(*b)),
                    _ => None,
                };
                match mv {
                    Some(m) => Ok(FieldCondition {
                        key: make_string(field),
                        kind: ConditionKind::Match(m),
                    }),
                    None => Err(VectorError::Validation {
                        field: make_string("filter"),
                        message: make_string("membership operand has no usable first element"),
                    }),
                }
            } else {
                Err(VectorError::Validation {
                    field: make_string("filter"),
                    message: make_string("membership operand is an empty array"),
                })
            }
        },
        _ => Err(VectorError::Validation {
            field: make_string("filter"),
            message: make_string("membership operand is not an array"),
        }),
    }
}

/// `$ne` is declared but not implemented: always fails, never silently
/// matches everything.
pub fn build_not_equals_condition(_field: &str, _obj: &Vec<(String, JsonValue)>) -> (r: Result<
    FieldCondition,
    VectorError,
>)
    ensures
        r matches Err(e) && e matches VectorError::NotImplemented { feature } && feature@
            == "$ne"@,
{
    Err(VectorError::NotImplemented { feature: make_string("$ne") })
}

/// Compile a `$exists` object into a presence/absence condition; fails
/// exactly when the operand is not a boolean (a malformed operator
/// object, which the caller skips).
pub fn build_exists_condition(field: &str, obj: &Vec<(String, JsonValue)>) -> (r: Result<
    FieldCondition,
    VectorError,
>)
    ensures
        exists_flag(fields_model(obj@)) is Some <==> r is Ok,
        r matches Ok(c) ==> c@ == (FieldConditionModel {
            key: field@,
            kind: ConditionKindModel::Exists(exists_flag(fields_model(obj@))->Some_0),
        }),
{
    proof {
        lemma_fields_model(obj@);
    }
    match fields_get(obj, "$exists") {
        Some(JsonValue::Bool(b)) => Ok(
            FieldCondition { key: make_string(field), kind: ConditionKind::Exists(*b) },
        ),
        _ => Err(VectorError::Validation {
            field: make_string("filter"),
            message: make_string("presence operand is not a boolean"),
        }),
    }
}

/// Compile a filter map into a conjunctive query.
///
/// Every usable field contributes one MUST leaf, in field order; a field
/// using `$ne` fails the whole compilation with a not-implemented error;
/// a map yielding no leaves compiles to "no filter".
pub fn build_filter(filters: &Vec<(String, JsonValue)>) -> (r: Result<
    Option<Filter>,
    VectorError,
>)
    ensures
        has_ne(fields_model(filters@)) ==> (r matches Err(e) && e matches VectorError::NotImplemented {
            feature,
        } && feature@ == "$ne"@),
        !has_ne(fields_model(filters@)) && must_leaves(fields_model(filters@)).len() == 0 ==> (r
            matches Ok(o) && o is None),
        !has_ne(fields_model(filters@)) && must_leaves(fields_model(filters@)).len() > 0 ==> (r
            matches Ok(o) && o matches Some(f) && f@ == (FilterModel {
            must: must_leaves(fields_model(filters@)),
            should: Seq::empty(),
            must_not: Seq::empty(),
            min_should: None,
        })),
{
    let ghost fm = fields_model(filters@);
    proof {
        lemma_fields_model(filters@);
        assert(fm.take(0) =~= Seq::<(Seq<char>, JsonModel)>::empty());
    }
    let mut conds: Vec<FieldCondition> = Vec::new();
    let mut i: usize = 0;
    while i < filters.len()
        invariant
            i <= filters.len(),
            fm == fields_model(filters@),
            fm.len() == filters@.len(),
            forall|j: int| 0 <= j < filters@.len() ==> fm[j] == ((#[trigger] filters@[j]).0@, crate::json::json_model(filters@[j].1)),
            conds@.len() == must_leaves(fm.take(i as int)).len(),
            forall|j: int| 0 <= j < conds@.len() ==> (#[trigger] conds@[j])@ == must_leaves(
                fm.take(i as int),
            )[j],
            forall|j: int| 0 <= j < i ==> !(classify((#[trigger] fm[j]).1) is NotImplemented),
        decreases filters.len() - i,
    {
        let field: &String = &filters[i].0;
        let value: &JsonValue = &filters[i].1;
        let leaf: Option<FieldCondition> = match value {
            JsonValue::Object(obj) => {
                if obj_contains(obj, "$gte") || obj_contains(obj, "$lte") || obj_contains(
                    obj,
                    "$gt",
                ) || obj_contains(obj, "$lt") {
                    proof {
                        lemma_has_range_key(fields_model(obj@));
                    }
                    match build_range_condition(field.as_str(), obj) {
                        Ok(c) => Some(c),
                        Err(_) => None,
                    }
                } else if obj_contains(obj, "$in") {
                    proof {
                        lemma_no_range_key(fields_model(obj@));
                    }
                    match build_in_condition(field.as_str(), obj) {
                        Ok(c) => Some(c),
                        Err(_) => None,
                    }
                } else if obj_contains(obj, "$ne") {
                    proof {
                        lemma_no_range_key(fields_model(obj@));
                    }
                    match build_not_equals_condition(field.as_str(), obj) {
                        Ok(c) => Some(c),
                        Err(e) => {
                            return Err(e);
                        },
                    }
                } else if obj_contains(obj, "$exists") {
                    proof {
                        lemma_no_range_key(fields_model(obj@));
                    }
                    match build_exists_condition(field.as_str(), obj) {
                        Ok(c) => Some(c),
                        Err(_) => None,
                    }
                } else {
                    proof {
                        lemma_no_range_key(fields_model(obj@));
                    }
                    None
                }
            },
            JsonValue::Str(s) => Some(FieldCondition {
                key: field.clone(),
                kind: ConditionKind::Match(MatchValue::Keyword(s.clone())),
            }),
            JsonValue::Int(x) => Some(FieldCondition {
                key: field.clone(),
                kind: ConditionKind::Match(MatchValue::Integer(*x)),
            }),
            JsonValue::Float(f) => Some(FieldCondition {
                key: field.clone(),
                kind: ConditionKind::Match(MatchValue::Integer(f.trunc)),
            }),
            JsonValue::Bool(b) => Some(FieldCondition {
                key: field.clone(),
                kind: ConditionKind::Match(MatchValue::Boolean(*b)),
            }),
            _ => None,
        };
        proof {
            assert(fm.take(i + 1).drop_last() =~= fm.take(i as int));
            assert(fm.take(i + 1).last() == fm[i as int]);
        }
        match leaf {
            Some(c) => {
                conds.push(c);
            },
            None => {},
        }
        i += 1;
    }
    proof {
        assert(fm.take(filters@.len() as int) =~= fm);
    }
    if conds.len() == 0 {
        Ok(None)
    } else {
        let should: Vec<FieldCondition> = Vec::new();
        let must_not: Vec<FieldCondition> = Vec::new();
        proof {
            assert(conds_model(conds@) =~= must_leaves(fm));
            assert(conds_model(should@) =~= Seq::<FieldConditionModel>::empty());
            assert(conds_model(must_not@) =~= Seq::<FieldConditionModel>::empty());
        }
        Ok(Some(Filter { must: conds, should, must_not, min_should: None }))
    }
}

/// Whether an object binds `key`.
fn obj_contains(obj: &Vec<(String, JsonValue)>, key: &str) -> (r: bool)
    ensures
        r == (fields_find(fields_model(obj@), key@) is Some),
{
    fields_get(obj, key).is_some()
}

/// A bound key is seen by `has_range_key` when it is a range key.
proof fn lemma_has_range_key(fs: Seq<(Seq<char>, JsonModel)>)
    ensures
        (fields_find(fs, "$gte"@) is Some || fields_find(fs, "$lte"@) is Some || fields_find(
            fs,
            "$gt"@,
        ) is Some || fields_find(fs, "$lt"@) is Some) ==> has_range_key(fs),
    decreases fs.len(),
{
    if fs.len() > 0 {
        lemma_has_range_key(fs.drop_first());
        assert forall|k: Seq<char>|
            is_range_key(k) && fields_find(fs, k) is Some implies has_range_key(fs) by {
            if fs[0].0 == k {
                assert(is_range_key(fs[0].0));
            } else {
                assert(fields_find(fs.drop_first(), k) is Some);
            }
        }
    }
}

/// When no range key is bound, `has_range_key` is false.
proof fn lemma_no_range_key(fs: Seq<(Seq<char>, JsonModel)>)
    ensures
        (fields_find(fs, "$gte"@) is None && fields_find(fs, "$lte"@) is None && fields_find(
            fs,
            "$gt"@,
        ) is None && fields_find(fs, "$lt"@) is None) ==> !has_range_key(fs),
    decreases fs.len(),
{
    if fs.len() > 0 {
        lemma_no_range_key(fs.drop_first());
        if fields_find(fs, "$gte"@) is None && fields_find(fs, "$lte"@) is None && fields_find(
            fs,
            "$gt"@,
        ) is None && fields_find(fs, "$lt"@) is None {
            assert(fs[0].0 != "$gte"@ && fs[0].0 != "$lte"@ && fs[0].0 != "$gt"@ && fs[0].0
                != "$lt"@);
            assert(fields_find(fs.drop_first(), "$gte"@) is None);
            assert(fields_find(fs.drop_first(), "$lte"@) is None);
            assert(fields_find(fs.drop_first(), "$gt"@) is None);
            assert(fields_find(fs.drop_first(), "$lt"@) is None);
            assert forall|i: int| 0 <= i < fs.len() implies !is_range_key(
                (#[trigger] fs[i]).0,
            ) by {
                if i > 0 {
                    assert(fs.drop_first()[i - 1] == fs[i]);
                }
            }
        }
    }
}

/// The equality leaves of a direct-condition list, in order: each
/// scalar pair (a float on its truncated integer, as in the flat map
/// path) contributes one leaf, anything else is skipped.
pub open spec fn eq_leaves(fs: Seq<(Seq<char>, JsonModel)>) -> Seq<FieldConditionModel>
    decreases fs.len(),
{
    if fs.len() == 0 {
        Seq::empty()
    } else {
        let init = eq_leaves(fs.drop_last());
        match scalar_match(fs.last().1) {
            Some(m) => init.push(
                FieldConditionModel { key: fs.last().0, kind: ConditionKindModel::Match(m) },
            ),
            None => init,
        }
    }
}

/// Compile a list of (field, scalar) pairs into equality conditions.
fn build_condition_list(conds: &Vec<(String, JsonValue)>) -> (r: Vec<FieldCondition>)
    ensures
        conds_model(r@) == eq_leaves(fields_model(conds@)),
{
    let ghost fm = fields_model(conds@);
    proof {
        lemma_fields_model(conds@);
        assert(fm.take(0) =~= Seq::<(Seq<char>, JsonModel)>::empty());
    }
    let mut out: Vec<FieldCondition> = Vec::new();
    let mut i: usize = 0;
    while i < conds.len()
        invariant
            i <= conds.len(),
            fm == fields_model(conds@),
            fm.len() == conds@.len(),
            forall|j: int| 0 <= j < conds@.len() ==> fm[j] == ((#[trigger] conds@[j]).0@, crate::json::json_model(conds@[j].1)),
            out@.len() == eq_leaves(fm.take(i as int)).len(),
            forall|j: int| 0 <= j < out@.len() ==> (#[trigger] out@[j])@ == eq_leaves(
                fm.take(i as int),
            )[j],
        decreases conds.len() - i,
    {
        let mv: Option<MatchValue> = match &conds[i].1 {
            JsonValue::Str(s) => Some(MatchValue::Keyword(s.clone())),
            JsonValue::Int(x) => Some(MatchValue::Integer(*x)),
            JsonValue::Float(f) => Some(MatchValue::Integer(f.trunc)),
            JsonValue::Bool(b) => Some(MatchValue::Boolean(*b)),
            _ => None,
        };
        proof {
            assert(fm.take(i + 1).drop_last() =~= fm.take(i as int));
            assert(fm.take(i + 1).last() == fm[i as int]);
        }
        match mv {
            Some(m) => {
                out.push(
                    FieldCondition { key: conds[i].0.clone(), kind: ConditionKind::Match(m) },
                );
            },
            None => {},
        }
        i += 1;
    }
    proof {
        assert(fm.take(conds@.len() as int) =~= fm);
        assert(conds_model(out@) =~= eq_leaves(fm));
    }
    out
}

/// Compose MUST / SHOULD / MUST-NOT equality-condition lists into one
/// query, without going through the operator-object mapping. Returns
/// nothing when no list contributes a usable condition.
pub fn build_complex_filter(
    must_conditions: Vec<(String, JsonValue)>,
    should_conditions: Vec<(String, JsonValue)>,
    must_not_conditions: Vec<(String, JsonValue)>,
) -> (r: Option<Filter>)
    ensures
        ({
            let m = eq_leaves(fields_model(must_conditions@));
            let s = eq_leaves(fields_model(should_conditions@));
            let n = eq_leaves(fields_model(must_not_conditions@));
            if m.len() == 0 && s.len() == 0 && n.len() == 0 {
                r is None
            } else {
                r matches Some(f) && f@ == (FilterModel {
                    must: m,
                    should: s,
                    must_not: n,
                    min_should: None,
                })
            }
        }),
{
    let must = build_condition_list(&must_conditions);
    let should = build_condition_list(&should_conditions);
    let must_not = build_condition_list(&must_not_conditions);
    if must.len() == 0 && should.len() == 0 && must_not.len() == 0 {
        None
    } else {
        Some(Filter { must, should, must_not, min_should: None })
    }
}

/// Build a pure numeric range query for one field from optional bounds;
/// by construction the bounds are strict (`gt`/`lt`).
pub fn build_range_filter(field: &str, min: Option<NumValue>, max: Option<NumValue>) -> (r:
    Option<Filter>)
    ensures
        min is None && max is None ==> r is None,
        min is Some || max is Some ==> (r matches Some(f) && f@ == (FilterModel {
            must: seq![
                (FieldConditionModel {
                    key: field@,
                    kind: ConditionKindModel::Range(
                        RangeSpec { gte: None, lte: None, gt: min, lt: max },
                    ),
                }),
            ],
            should: Seq::empty(),
            must_not: Seq::empty(),
            min_should: None,
        })),
{
    if min.is_none() && max.is_none() {
        return None;
    }
    let condition = FieldCondition {
        key: make_string(field),
        kind: ConditionKind::Range(RangeSpec { gte: None, lte: None, gt: min, lt: max }),
    };
    let mut must: Vec<FieldCondition> = Vec::new();
    must.push(condition);
    let should: Vec<FieldCondition> = Vec::new();
    let must_not: Vec<FieldCondition> = Vec::new();
    let f = Filter { must, should, must_not, min_should: None };
    proof {
        assert(conds_model(f.must@) =~= seq![
            (FieldConditionModel {
                key: field@,
                kind: ConditionKindModel::Range(
                    RangeSpec { gte: None, lte: None, gt: min, lt: max },
                ),
            }),
        ]);
        assert(conds_model(f.should@) =~= Seq::<FieldConditionModel>::empty());
        assert(conds_model(f.must_not@) =~= Seq::<FieldConditionModel>::empty());
    }
    Some(f)
}

/// Whether an equality leaf matches the value a record holds for the
/// field (`None` meaning the field is absent). A float value never
/// matches an integer leaf; exact float matching requires a range.
pub open spec fn match_eval(m: MatchValueModel, v: Option<JsonModel>) -> bool {
    match (m, v) {
        (MatchValueModel::Keyword(k), Some(JsonModel::Str(s))) => k == s,
        (MatchValueModel::Integer(i), Some(JsonModel::Int(x))) => i == x,
        (MatchValueModel::Boolean(b), Some(JsonModel::Bool(y))) => b == y,
        _ => false,
    }
}

/// Whether an integer satisfies one optional bound under `cmp_le`
/// (inclusive) semantics is split per bound below; a bound is decided
/// only when it is an integer.
pub open spec fn int_bound(b: Option<NumValue>) -> Option<Option<i64>> {
    match b {
        None => Some(None),
        Some(NumValue::Int(i)) => Some(Some(i)),
        Some(NumValue::Float(_)) => None,
    }
}

/// Whether a range leaf matches the value a record holds for the field.
/// The integer fragment is decided exactly; a float bound or a float
/// record value is left undecided (`None`) — the backend decides those.
pub open spec fn range_eval(r: RangeSpec, v: Option<JsonModel>) -> Option<bool> {
    match v {
        Some(JsonModel::Int(x)) => match (
            int_bound(r.gte),
            int_bound(r.lte),
            int_bound(r.gt),
            int_bound(r.lt),
        ) {
            (Some(gte), Some(lte), Some(gt), Some(lt)) => Some(
                (match gte {
                    Some(a) => a <= x,
                    None => true,
                }) && (match lte {
                    Some(b) => x <= b,
                    None => true,
                }) && (match gt {
                    Some(a) => a < x,
                    None => true,
                }) && (match lt {
                    Some(b) => x < b,
                    None => true,
                }),
            ),
            _ => None,
        },
        Some(JsonModel::Float(_)) => None,
        _ => Some(false),
    }
}

/// Whether a presence leaf matches: presence demands the field be bound
/// to a non-null value, absence demands it be unbound or null.
pub open spec fn exists_eval(present: bool, v: Option<JsonModel>) -> bool {
    if present {
        v matches Some(x) && !(x is Null)
    } else {
        v is None || (v matches Some(x) && x is Null)
    }
}

/// What a leaf condition decides about a record's metadata: `Some(b)`
/// where the integer fragment decides, `None` where only the backend can
/// (float bounds or float values in a range).
pub open spec fn eval_condition(c: FieldConditionModel, md: Seq<(Seq<char>, JsonModel)>) -> Option<
    bool,
> {
    let v = fields_find(md, c.key);
    match c.kind {
        ConditionKindModel::Match(m) => Some(match_eval(m, v)),
        ConditionKindModel::Range(r) => range_eval(r, v),
        ConditionKindModel::Exists(p) => Some(exists_eval(p, v)),
    }
}

/// Decide a leaf condition against a record's metadata.
pub fn condition_matches(cond: &FieldCondition, metadata: &Vec<(String, JsonValue)>) -> (r:
    Option<bool>)
    ensures
        r == eval_condition(cond@, fields_model(metadata@)),
{
    proof {
        lemma_fields_model(metadata@);
    }
    let found = fields_get(metadata, cond.key.as_str());
    match &cond.kind {
        ConditionKind::Match(m) => Some(
            match (m, found) {
                (MatchValue::Keyword(k), Some(JsonValue::Str(s))) => str_eq(
                    k.as_str(),
                    s.as_str(),
                ),
                (MatchValue::Integer(i), Some(JsonValue::Int(x))) => *i == *x,
                (MatchValue::Boolean(b), Some(JsonValue::Bool(y))) => *b == *y,
                _ => false,
            },
        ),
        ConditionKind::Range(rg) => match found {
            Some(JsonValue::Int(x)) => {
                let x = *x;
                let gte: Option<Option<i64>> = match rg.gte {
                    None => Some(None),
                    Some(NumValue::Int(i)) => Some(Some(i)),
                    Some(NumValue::Float(_)) => None,
                };
                let lte: Option<Option<i64>> = match rg.lte {
                    None => Some(None),
                    Some(NumValue::Int(i)) => Some(Some(i)),
                    Some(NumValue::Float(_)) => None,
                };
                let gt: Option<Option<i64>> = match rg.gt {
                    None => Some(None),
                    Some(NumValue::Int(i)) => Some(Some(i)),
                    Some(NumValue::Float(_)) => None,
                };
                let lt: Option<Option<i64>> = match rg.lt {
                    None => Some(None),
                    Some(NumValue::Int(i)) => Some(Some(i)),
                    Some(NumValue::Float(_)) => None,
                };
                match (gte, lte, gt, lt) {
                    (Some(a), Some(b), Some(c), Some(d)) => {
                        let ok = (match a {
                            Some(v) => v <= x,
                            None => true,
                        }) && (match b {
                            Some(v) => x <= v,
                            None => true,
                        }) && (match c {
                            Some(v) => v < x,
                            None => true,
                        }) && (match d {
                            Some(v) => x < v,
                            None => true,
                        });
                        Some(ok)
                    },
                    _ => None,
                }
            },
            Some(JsonValue::Float(_)) => None,
            _ => Some(false),
        },
        ConditionKind::Exists(p) => {
            let is_bound_non_null: bool = match found {
                Some(JsonValue::Null) => false,
                Some(_) => true,
                None => false,
            };
            let is_unbound_or_null: bool = match found {
                Some(JsonValue::Null) => true,
                Some(_) => false,
                None => true,
            };
            if *p {
                Some(is_bound_non_null)
            } else {
                Some(is_unbound_or_null)
            }
        },
    }
}

/// LAW: a single-field equality filter compiles to exactly one MUST leaf
/// matching that field and that value.
pub proof fn lemma_single_equality_filter(field: Seq<char>, v: JsonModel)
    requires
        scalar_match(v) is Some,
        !(v is Obj),
    ensures
        !has_ne(seq![(field, v)]),
        must_leaves(seq![(field, v)]) == seq![
            (FieldConditionModel {
                key: field,
                kind: ConditionKindModel::Match(scalar_match(v)->Some_0),
            }),
        ],
{
    reveal_with_fuel(must_leaves, 2);
    let fs = seq![(field, v)];
    assert(fs.drop_last() =~= Seq::<(Seq<char>, JsonModel)>::empty());
    assert(fs.last() == (field, v));
    assert(classify(v) == FieldClass::Leaf(
        ConditionKindModel::Match(scalar_match(v)->Some_0),
    ));
    assert(must_leaves(fs) =~= seq![
        (FieldConditionModel {
            key: field,
            kind: ConditionKindModel::Match(scalar_match(v)->Some_0),
        }),
    ]);
}

/// LAW: a `{"$gte": a, "$lte": b}` operator object compiles to one range
/// leaf whose lower bound is `a` inclusive and whose upper bound is `b`
/// inclusive, with both strict bounds open.
pub proof fn lemma_range_compile(a: i64, b: i64)
    requires
        a <= b,
    ensures
        classify(
            JsonModel::Obj(
                seq![("$gte"@, JsonModel::Int(a)), ("$lte"@, JsonModel::Int(b))],
            ),
        ) == FieldClass::Leaf(
            ConditionKindModel::Range(
                RangeSpec {
                    gte: Some(NumValue::Int(a)),
                    lte: Some(NumValue::Int(b)),
                    gt: None,
                    lt: None,
                },
            ),
        ),
{
    reveal_strlit("$gte");
    reveal_strlit("$lte");
    reveal_strlit("$gt");
    reveal_strlit("$lt");
    reveal_strlit("$in");
    reveal_with_fuel(range_of, 4);
    let fs = seq![("$gte"@, JsonModel::Int(a)), ("$lte"@, JsonModel::Int(b))];
    assert(is_range_key(fs[0].0));
    assert(has_range_key(fs));
    assert(all_numeric(fs));
    let one = fs.drop_last();
    assert(one =~= seq![("$gte"@, JsonModel::Int(a))]);
    assert(one.drop_last() =~= Seq::<(Seq<char>, JsonModel)>::empty());
    assert("$gte"@ != "$lte"@) by {
        assert("$gte"@.len() == 4 && "$lte"@.len() == 4);
        assert("$gte"@[1] == 'g' && "$lte"@[1] == 'l');
    }
    assert(range_of(one) == (RangeSpec {
        gte: Some(NumValue::Int(a)),
        lte: None,
        gt: None,
        lt: None,
    }));
    assert(range_of(fs) == (RangeSpec {
        gte: Some(NumValue::Int(a)),
        lte: Some(NumValue::Int(b)),
        gt: None,
        lt: None,
    }));
}

/// LAW: against a record whose field holds integer `x`, the inclusive
/// range leaf `[a, b]` matches exactly the values with `a <= x <= b`;
/// in particular both boundary values are included.
pub proof fn lemma_range_eval(field: Seq<char>, a: i64, b: i64, x: i64, md: Seq<
    (Seq<char>, JsonModel),
>)
    requires
        a <= b,
        fields_find(md, field) == Some(JsonModel::Int(x)),
    ensures
        eval_condition(
            FieldConditionModel {
                key: field,
                kind: ConditionKindModel::Range(
                    RangeSpec {
                        gte: Some(NumValue::Int(a)),
                        lte: Some(NumValue::Int(b)),
                        gt: None,
                        lt: None,
                    },
                ),
            },
            md,
        ) == Some(a <= x && x <= b),
{
}

/// LAW: for every record and field, the `$exists: true` leaf and the
/// `$exists: false` leaf are both decided and decide oppositely — the two
/// partitions are disjoint and together cover every record.
pub proof fn lemma_exists_partition(field: Seq<char>, md: Seq<(Seq<char>, JsonModel)>)
    ensures
        eval_condition(
            FieldConditionModel { key: field, kind: ConditionKindModel::Exists(true) },
            md,
        ) is Some,
        eval_condition(
            FieldConditionModel { key: field, kind: ConditionKindModel::Exists(false) },
            md,
        ) is Some,
        eval_condition(
            FieldConditionModel { key: field, kind: ConditionKindModel::Exists(true) },
            md,
        )->Some_0 != eval_condition(
            FieldConditionModel { key: field, kind: ConditionKindModel::Exists(false) },
            md,
        )->Some_0,
{
}

/// LAW: a `{"$exists": flag}` operator object compiles to the presence
/// leaf for exactly that flag.
pub proof fn lemma_exists_compile(flag: bool)
    ensures
        classify(JsonModel::Obj(seq![("$exists"@, JsonModel::Bool(flag))])) == FieldClass::Leaf(
            ConditionKindModel::Exists(flag),
        ),
{
    reveal_strlit("$exists");
    reveal_strlit("$gte");
    reveal_strlit("$lte");
    reveal_strlit("$gt");
    reveal_strlit("$lt");
    reveal_strlit("$in");
    reveal_strlit("$ne");
    reveal_with_fuel(fields_find, 3);
    let fs = seq![("$exists"@, JsonModel::Bool(flag))];
    assert(fs[0] == ("$exists"@, JsonModel::Bool(flag)));
    assert(fs.drop_first() =~= Seq::<(Seq<char>, JsonModel)>::empty());
    assert("$exists"@.len() == 7);
    assert(!is_range_key(fs[0].0)) by {
        assert("$gte"@.len() == 4 && "$lte"@.len() == 4 && "$gt"@.len() == 3 && "$lt"@.len()
            == 3);
    }
    assert(!has_range_key(fs));
    assert(fields_find(fs, "$in"@) is None) by {
        assert("$in"@.len() == 3);
        assert(fs.drop_first() =~= Seq::<(Seq<char>, JsonModel)>::empty());
    }
    assert(fields_find(fs, "$ne"@) is None) by {
        assert("$ne"@.len() == 3);
        assert(fs.drop_first() =~= Seq::<(Seq<char>, JsonModel)>::empty());
    }
    assert(fields_find(fs, "$exists"@) == Some(JsonModel::Bool(flag)));
}

/// LAW: a `{"$ne": x}` operator object classifies as not-implemented, so
/// `build_filter` on any map containing it returns the not-implemented
/// error rather than silently ignoring the condition.
pub proof fn lemma_ne_rejected(x: JsonModel)
    requires
        !(x is Obj),
    ensures
        classify(JsonModel::Obj(seq![("$ne"@, x)])) is NotImplemented,
{
    reveal_strlit("$ne");
    reveal_strlit("$gte");
    reveal_strlit("$lte");
    reveal_strlit("$gt");
    reveal_strlit("$lt");
    reveal_strlit("$in");
    reveal_with_fuel(fields_find, 3);
    let fs = seq![("$ne"@, x)];
    assert(fs[0] == ("$ne"@, x));
    assert(fs.drop_first() =~= Seq::<(Seq<char>, JsonModel)>::empty());
    assert("$ne"@.len() == 3);
    assert(!is_range_key(fs[0].0)) by {
        assert("$gte"@.len() == 4 && "$lte"@.len() == 4);
        assert("$ne"@[1] == 'n' && "$gt"@[1] == 'g' && "$lt"@[1] == 'l');
    }
    assert(!has_range_key(fs));
    assert(fields_find(fs, "$in"@) is None) by {
        assert("$in"@[1] == 'i' && "$ne"@[1] == 'n');
        assert(fs.drop_first() =~= Seq::<(Seq<char>, JsonModel)>::empty());
    }
    assert(fields_find(fs, "$ne"@) == Some(x));
}


/// Whether every condition of a group holds; undecided when some
/// condition is undecided.
pub open spec fn eval_all(cs: Seq<FieldConditionModel>, md: Seq<(Seq<char>, JsonModel)>) -> Option<
    bool,
>
    decreases cs.len(),
{
    if cs.len() == 0 {
        Some(true)
    } else {
        match (eval_condition(cs[0], md), eval_all(cs.drop_first(), md)) {
            (Some(b), Some(rest)) => Some(b && rest),
            _ => None,
        }
    }
}

/// How many conditions of a group hold; undecided when some condition
/// is undecided.
pub open spec fn eval_count(cs: Seq<FieldConditionModel>, md: Seq<(Seq<char>, JsonModel)>) -> Option<
    int,
>
    decreases cs.len(),
{
    if cs.len() == 0 {
        Some(0)
    } else {
        match (eval_condition(cs[0], md), eval_count(cs.drop_first(), md)) {
            (Some(b), Some(rest)) => Some(
                rest + if b {
                    1int
                } else {
                    0int
                },
            ),
            _ => None,
        }
    }
}

/// What a whole compiled query decides about a record: every MUST leaf
/// holds, no MUST-NOT leaf holds, and — when the SHOULD group is
/// non-empty — at least the configured minimum of them (one, if no
/// minimum is set) hold. Undecided when some leaf is undecided.
pub open spec fn filter_eval(f: FilterModel, md: Seq<(Seq<char>, JsonModel)>) -> Option<bool> {
    match (eval_all(f.must, md), eval_count(f.should, md), eval_count(f.must_not, md)) {
        (Some(must_ok), Some(should_true), Some(not_true)) => {
            let needed: int = match f.min_should {
                Some(n) => n as int,
                None => 1,
            };
            Some(
                must_ok && not_true == 0 && (f.should.len() == 0 || should_true >= needed),
            )
        },
        _ => None,
    }
}

/// One step of a group fold, shifting the suffix by one.
proof fn lemma_eval_step(cs: Seq<FieldConditionModel>, md: Seq<(Seq<char>, JsonModel)>, i: int)
    requires
        0 <= i < cs.len(),
    ensures
        eval_all(cs.skip(i), md) == (match (
            eval_condition(cs[i], md),
            eval_all(cs.skip(i + 1), md),
        ) {
            (Some(b), Some(rest)) => Some(b && rest),
            _ => None,
        }),
        eval_count(cs.skip(i), md) == (match (
            eval_condition(cs[i], md),
            eval_count(cs.skip(i + 1), md),
        ) {
            (Some(b), Some(rest)) => Some(
                rest + if b {
                    1int
                } else {
                    0int
                },
            ),
            _ => None,
        }),
{
    assert(cs.skip(i)[0] == cs[i]);
    assert(cs.skip(i).drop_first() =~= cs.skip(i + 1));
}

/// Whether every condition of a group holds for a record.
fn group_all(cs: &Vec<FieldCondition>, md: &Vec<(String, JsonValue)>) -> (r: Option<bool>)
    ensures
        r == eval_all(conds_model(cs@), fields_model(md@)),
{
    let ghost cm = conds_model(cs@);
    let ghost mm = fields_model(md@);
    proof {
        assert(cm.skip(0) =~= cm);
    }
    let mut acc = true;
    let mut i: usize = 0;
    while i < cs.len()
        invariant
            i <= cs.len(),
            cm == conds_model(cs@),
            mm == fields_model(md@),
            cm.len() == cs@.len(),
            forall|j: int| 0 <= j < cs@.len() ==> cm[j] == (#[trigger] cs@[j])@,
            eval_all(cm, mm) == (match eval_all(cm.skip(i as int), mm) {
                Some(rest) => Some(acc && rest),
                None => None,
            }),
        decreases cs.len() - i,
    {
        proof {
            lemma_eval_step(cm, mm, i as int);
        }
        match condition_matches(&cs[i], md) {
            Some(b) => {
                acc = acc && b;
            },
            None => {
                return None;
            },
        }
        i += 1;
    }
    proof {
        assert(cm.skip(cs@.len() as int) =~= Seq::<FieldConditionModel>::empty());
    }
    Some(acc)
}

/// How many conditions of a group hold for a record.
fn group_count(cs: &Vec<FieldCondition>, md: &Vec<(String, JsonValue)>) -> (r: Option<usize>)
    ensures
        r matches Some(n) ==> eval_count(conds_model(cs@), fields_model(md@)) == Some(n as int),
        r is None ==> eval_count(conds_model(cs@), fields_model(md@)) is None,
{
    let ghost cm = conds_model(cs@);
    let ghost mm = fields_model(md@);
    proof {
        assert(cm.skip(0) =~= cm);
    }
    let mut count: usize = 0;
    let mut i: usize = 0;
    while i < cs.len()
        invariant
            i <= cs.len(),
            count <= i,
            cm == conds_model(cs@),
            mm == fields_model(md@),
            cm.len() == cs@.len(),
            forall|j: int| 0 <= j < cs@.len() ==> cm[j] == (#[trigger] cs@[j])@,
            eval_count(cm, mm) == (match eval_count(cm.skip(i as int), mm) {
                Some(rest) => Some(rest + count),
                None => None,
            }),
        decreases cs.len() - i,
    {
        proof {
            lemma_eval_step(cm, mm, i as int);
        }
        match condition_matches(&cs[i], md) {
            Some(b) => {
                if b {
                    count += 1;
                }
            },
            None => {
                return None;
            },
        }
        i += 1;
    }
    proof {
        assert(cm.skip(cs@.len() as int) =~= Seq::<FieldConditionModel>::empty());
    }
    Some(count)
}

/// Decide a whole compiled query against a record's metadata.
pub fn filter_matches(f: &Filter, metadata: &Vec<(String, JsonValue)>) -> (r: Option<bool>)
    ensures
        r == filter_eval(f@, fields_model(metadata@)),
{
    let must_ok = match group_all(&f.must, metadata) {
        Some(b) => b,
        None => {
            return None;
        },
    };
    let should_true = match group_count(&f.should, metadata) {
        Some(n) => n,
        None => {
            return None;
        },
    };
    let not_true = match group_count(&f.must_not, metadata) {
        Some(n) => n,
        None => {
            return None;
        },
    };
    let needed: u64 = match f.min_should {
        Some(n) => n,
        None => 1,
    };
    Some(
        must_ok && not_true == 0 && (f.should.len() == 0 || (should_true as u64) >= needed),
    )
}

/// LAW: the query compiled from a single-field equality filter matches
/// exactly the records whose field holds that value.
pub proof fn lemma_single_equality_query_semantics(
    field: Seq<char>,
    v: JsonModel,
    md: Seq<(Seq<char>, JsonModel)>,
)
    requires
        scalar_match(v) is Some,
        !(v is Obj),
    ensures
        filter_eval(
            FilterModel {
                must: must_leaves(seq![(field, v)]),
                should: Seq::empty(),
                must_not: Seq::empty(),
                min_should: None,
            },
            md,
        ) == Some(match_eval(scalar_match(v)->Some_0, fields_find(md, field))),
{
    lemma_single_equality_filter(field, v);
    let leaf = FieldConditionModel {
        key: field,
        kind: ConditionKindModel::Match(scalar_match(v)->Some_0),
    };
    let ms = must_leaves(seq![(field, v)]);
    assert(ms.len() == 1 && ms[0] == leaf);
    assert(ms.drop_first() =~= Seq::<FieldConditionModel>::empty());
    reveal_with_fuel(eval_all, 2);
    reveal_with_fuel(eval_count, 2);
}

} // verus!
