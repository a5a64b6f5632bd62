//! JSON values as the audit reads them: frontmatter converted from YAML and
//! frontmatter schemas.

use vstd::prelude::*;
use crate::text::str_eq;

verus! {

/// A JSON number: a non-negative integer, a negative integer, or a finite
/// float held as the text `serde_json` prints for it.
#[derive(Debug)]
pub enum JsonNumber {
    PosInt(u64),
    NegInt(i64),
    Float(String),
}

/// A JSON value. Object entries are kept in ascending key order with unique
/// keys, the order in which `serde_json`'s default map walks them.
#[derive(Debug)]
pub enum JsonValue {
    Null,
    Bool(bool),
    Number(JsonNumber),
    Text(String),
    List(Vec<JsonValue>),
    Object(Vec<(String, JsonValue)>),
}

/// The mathematical model of a JSON number.
pub enum NumberModel {
    PosInt(u64),
    NegInt(i64),
    Float(Seq<char>),
}

/// The mathematical model of a JSON value.
pub enum JsonModel {
    Null,
    Bool(bool),
    Number(NumberModel),
    Text(Seq<char>),
    List(Seq<JsonModel>),
    Object(Seq<(Seq<char>, JsonModel)>),
}

pub open spec fn number_model(n: JsonNumber) -> NumberModel {
    match n {
        JsonNumber::PosInt(u) => NumberModel::PosInt(u),
        JsonNumber::NegInt(i) => NumberModel::NegInt(i),
        JsonNumber::Float(t) => NumberModel::Float(t@),
    }
}

pub open spec fn json_model(j: JsonValue) -> JsonModel
    decreases j,
{
    match j {
        JsonValue::Null => JsonModel::Null,
        JsonValue::Bool(b) => JsonModel::Bool(b),
        JsonValue::Number(n) => JsonModel::Number(number_model(n)),
        JsonValue::Text(s) => JsonModel::Text(s@),
        JsonValue::List(v) => JsonModel::List(
            Seq::new(
                v@.len(),
                |i: int|
                    if 0 <= i < v@.len() {
                        proof {
                            assert(decreases_to!(v => v@));
                        }
                        json_model(v@[i])
                    } else {
                        JsonModel::Null
                    },
            ),
        ),
        JsonValue::Object(v) => JsonModel::Object(
            Seq::new(
                v@.len(),
                |i: int|
                    if 0 <= i < v@.len() {
                        proof {
                            assert(decreases_to!(v => v@));
                            assert(decreases_to!(v@[i] => v@[i].1));
                        }
                        (v@[i].0@, json_model(v@[i].1))
                    } else {
                        (Seq::empty(), JsonModel::Null)
                    },
            ),
        ),
    }
}

impl View for JsonValue {
    type V = JsonModel;

    open spec fn view(&self) -> JsonModel {
        json_model(*self)
    }
}

/// The models of object entries.
pub open spec fn json_entries(v: Seq<(String, JsonValue)>) -> Seq<(Seq<char>, JsonModel)> {
    v.map_values(|e: (String, JsonValue)| (e.0@, e.1@))
}

/// The models of list items.
pub open spec fn json_items(v: Seq<JsonValue>) -> Seq<JsonModel> {
    v.map_values(|e: JsonValue| e@)
}

/// An object's model is the model of its entries; a list's, that of its items.
pub proof fn lemma_json_compound(j: JsonValue)
    ensures
        j matches JsonValue::Object(v) ==> j@ == JsonModel::Object(json_entries(v@)),
        j matches JsonValue::List(v) ==> j@ == JsonModel::List(json_items(v@)),
{
    match j {
        JsonValue::Object(v) => {
            assert(j@->Object_0 =~= json_entries(v@));
        },
        JsonValue::List(v) => {
            assert(j@->List_0 =~= json_items(v@));
        },
        _ => {},
    }
}

/// The value stored under `key` in an entry list (the first match).
pub open spec fn entries_get(es: Seq<(Seq<char>, JsonModel)>, key: Seq<char>) -> Option<JsonModel>
    decreases es.len(),
{
    if es.len() == 0 {
        None
    } else if es[0].0 == key {
        Some(es[0].1)
    } else {
        entries_get(es.drop_first(), key)
    }
}

/// `serde_json::Value::get` with a string key: the member of an object, else nothing.
pub open spec fn model_get(v: JsonModel, key: Seq<char>) -> Option<JsonModel> {
    match v {
        JsonModel::Object(es) => entries_get(es, key),
        _ => None,
    }
}

/// Whether an entry list has `key`.
pub open spec fn entries_have(es: Seq<(Seq<char>, JsonModel)>, key: Seq<char>) -> bool {
    exists|i: int| 0 <= i < es.len() && #[trigger] es[i].0 == key
}

/// Whether a float's text is that of zero, `0.0` or `-0.0`.
pub open spec fn zero_float(p: Seq<char>) -> bool {
    p == "0.0"@ || p == "-0.0"@
}

/// Whether two float texts denote equal floats: the shortest round-trip
/// texts of two finite floats differ exactly when the floats do, except
/// that `0.0` and `-0.0` are equal.
pub open spec fn float_texts_equal(p: Seq<char>, q: Seq<char>) -> bool {
    p == q || (zero_float(p) && zero_float(q))
}

/// Equality of two values as `serde_json::Value`'s `==` decides it: the same
/// shape and contents, floats compared as floats.
pub open spec fn json_same(a: JsonModel, b: JsonModel) -> bool
    decreases a,
{
    match (a, b) {
        (JsonModel::Number(NumberModel::Float(p)), JsonModel::Number(NumberModel::Float(q))) => float_texts_equal(p, q),
        (JsonModel::List(x), JsonModel::List(y)) => x.len() == y.len() && forall|k: int|
            #![trigger x[k]]
            0 <= k < x.len() ==> json_same(x[k], y[k]),
        (JsonModel::Object(x), JsonModel::Object(y)) => x.len() == y.len() && forall|k: int|
            #![trigger x[k]]
            0 <= k < x.len() ==> x[k].0 == y[k].0 && json_same(x[k].1, y[k].1),
        _ => a == b,
    }
}

/// Whether a list holds a value equal to `v` (as `serde_json` compares).
pub open spec fn list_has(vals: Seq<JsonModel>, v: JsonModel) -> bool {
    exists|k: int| #![trigger vals[k]] 0 <= k < vals.len() && json_same(vals[k], v)
}

/// The JSON type name of a value.
pub open spec fn kind_name(v: JsonModel) -> Seq<char> {
    match v {
        JsonModel::Null => "null"@,
        JsonModel::Bool(_) => "boolean"@,
        JsonModel::Number(_) => "number"@,
        JsonModel::Text(_) => "string"@,
        JsonModel::List(_) => "array"@,
        JsonModel::Object(_) => "object"@,
    }
}

/// Whether a value has the JSON-Schema type named `t`; unknown names match everything.
pub open spec fn matches_type(v: JsonModel, t: Seq<char>) -> bool {
    if t == "string"@ {
        v is Text
    } else if t == "integer"@ {
        v matches JsonModel::Number(n) && !(n is Float)
    } else if t == "number"@ {
        v is Number
    } else if t == "boolean"@ {
        v is Bool
    } else if t == "array"@ {
        v is List
    } else if t == "object"@ {
        v is Object
    } else if t == "null"@ {
        v is Null
    } else {
        true
    }
}

/// The compact JSON text `serde_json` writes for a value.
pub uninterp spec fn json_compact_text(v: JsonModel) -> Seq<char>;

/// The indented JSON text `serde_json::to_string_pretty` writes for a value.
pub uninterp spec fn json_pretty_text(v: JsonModel) -> Seq<char>;

/// What `serde_json::from_str::<serde_json::Value>` makes of a text: the value,
/// or the text of its error.
pub uninterp spec fn json_parse_result(text: Seq<char>) -> Result<JsonModel, Seq<char>>;

/// How a value is shown in a message: strings bare, everything else as JSON.
pub open spec fn shown(v: JsonModel) -> Seq<char> {
    match v {
        JsonModel::Text(s) => s,
        _ => json_compact_text(v),
    }
}

proof fn lemma_entries_get_skip(es: Seq<(Seq<char>, JsonModel)>, key: Seq<char>, i: int)
    requires
        0 <= i <= es.len(),
        forall|k: int| 0 <= k < i ==> es[k].0 != key,
    ensures
        entries_get(es, key) == entries_get(es.skip(i), key),
    decreases i,
{
    if i > 0 {
        lemma_entries_get_skip(es.drop_first(), key, i - 1);
        assert(es.drop_first().skip(i - 1) =~= es.skip(i));
    } else {
        assert(es.skip(0) =~= es);
    }
}

/// `entries_get` finds a value exactly for keys that are present.
pub proof fn lemma_entries_get_some(es: Seq<(Seq<char>, JsonModel)>, key: Seq<char>)
    ensures
        entries_get(es, key) is Some <==> entries_have(es, key),
    decreases es.len(),
{
    if es.len() > 0 {
        lemma_entries_get_some(es.drop_first(), key);
        if entries_have(es.drop_first(), key) {
            let k = choose|k: int| 0 <= k < es.drop_first().len() && #[trigger] es.drop_first()[k].0 == key;
            assert(es[k + 1].0 == key);
        }
        if es[0].0 != key && entries_have(es, key) {
            let k = choose|k: int| 0 <= k < es.len() && #[trigger] es[k].0 == key;
            assert(es.drop_first()[k - 1].0 == key);
        }
    }
}

/// The value stored under `key` in object entries (the first match).
pub fn entries_lookup<'a>(es: &'a Vec<(String, JsonValue)>, key: &str) -> (r: Option<&'a JsonValue>)
    ensures
        match r {
            Some(v) => entries_get(json_entries(es@), key@) == Some(v@),
            None => entries_get(json_entries(es@), key@) is None,
        },
{
    let ghost m = json_entries(es@);
    for i in 0..es.len()
        invariant
            m == json_entries(es@),
            forall|k: int| 0 <= k < i ==> m[k].0 != key@,
    {
        proof {
            assert(m[i as int] == (es@[i as int].0@, es@[i as int].1@));
        }
        if str_eq(es[i].0.as_str(), key) {
            proof {
                lemma_entries_get_skip(m, key@, i as int);
                assert(m.skip(i as int)[0] == m[i as int]);
            }
            return Some(&es[i].1);
        }
    }
    proof {
        lemma_entries_get_skip(m, key@, m.len() as int);
    }
    None
}

/// Whether object entries have a member named `key`.
pub fn entries_contain(es: &Vec<(String, JsonValue)>, key: &str) -> (r: bool)
    ensures
        r == entries_have(json_entries(es@), key@),
{
    proof {
        lemma_entries_get_some(json_entries(es@), key@);
    }
    entries_lookup(es, key).is_some()
}

/// Whether a list holds a value equal to `v`.
pub fn list_contains(items: &Vec<JsonValue>, v: &JsonValue) -> (r: bool)
    ensures
        r == list_has(json_items(items@), v@),
{
    let ghost m = json_items(items@);
    for i in 0..items.len()
        invariant
            m == json_items(items@),
            forall|k: int| #![trigger m[k]] 0 <= k < i ==> !json_same(m[k], v@),
    {
        if json_eq(&items[i], v) {
            proof {
                assert(m[i as int] == items@[i as int]@);
            }
            return true;
        }
    }
    false
}

impl JsonValue {
    /// The member stored under `key` when this is an object.
    pub fn get(&self, key: &str) -> (r: Option<&JsonValue>)
        ensures
            match r {
                Some(v) => model_get(self@, key@) == Some(v@),
                None => model_get(self@, key@) is None,
            },
    {
        match self {
            JsonValue::Object(es) => {
                proof {
                    lemma_json_compound(*self);
                }
                entries_lookup(es, key)
            },
            _ => None,
        }
    }

    /// The string content when this is a string.
    pub fn as_text(&self) -> (r: Option<&String>)
        ensures
            match r {
                Some(s) => self@ == JsonModel::Text(s@),
                None => !(self@ is Text),
            },
    {
        match self {
            JsonValue::Text(s) => Some(s),
            _ => None,
        }
    }

    /// The JSON type name of this value.
    pub fn kind_name(&self) -> (r: &'static str)
        ensures
            r@ == kind_name(self@),
    {
        match self {
            JsonValue::Null => "null",
            JsonValue::Bool(_) => "boolean",
            JsonValue::Number(_) => "number",
            JsonValue::Text(_) => "string",
            JsonValue::List(_) => "array",
            JsonValue::Object(_) => "object",
        }
    }

    /// Whether this value has the JSON-Schema type named `t`.
    pub fn matches_type(&self, t: &str) -> (r: bool)
        ensures
            r == matches_type(self@, t@),
    {
        proof {
            reveal_strlit("string");
            reveal_strlit("integer");
            reveal_strlit("number");
            reveal_strlit("boolean");
            reveal_strlit("array");
            reveal_strlit("object");
            reveal_strlit("null");
        }
        if str_eq(t, "string") {
            matches!(self, JsonValue::Text(_))
        } else if str_eq(t, "integer") {
            match self {
                JsonValue::Number(JsonNumber::Float(_)) => false,
                JsonValue::Number(_) => true,
                _ => false,
            }
        } else if str_eq(t, "number") {
            matches!(self, JsonValue::Number(_))
        } else if str_eq(t, "boolean") {
            matches!(self, JsonValue::Bool(_))
        } else if str_eq(t, "array") {
            matches!(self, JsonValue::List(_))
        } else if str_eq(t, "object") {
            matches!(self, JsonValue::Object(_))
        } else if str_eq(t, "null") {
            matches!(self, JsonValue::Null)
        } else {
            true
        }
    }
}

/// Equality of two values, as `serde_json::Value`'s `==` decides it: floats
/// are compared as floats, so `0.0` equals `-0.0`.
pub fn json_eq(a: &JsonValue, b: &JsonValue) -> (r: bool)
    ensures
        r == json_same(a@, b@),
    decreases a,
{
    match (a, b) {
        (JsonValue::Null, JsonValue::Null) => true,
        (JsonValue::Bool(x), JsonValue::Bool(y)) => *x == *y,
        (JsonValue::Number(x), JsonValue::Number(y)) => match (x, y) {
            (JsonNumber::PosInt(p), JsonNumber::PosInt(q)) => *p == *q,
            (JsonNumber::NegInt(p), JsonNumber::NegInt(q)) => *p == *q,
            (JsonNumber::Float(p), JsonNumber::Float(q)) => {
                proof {
                    reveal_strlit("0.0");
                    reveal_strlit("-0.0");
                }
                str_eq(p.as_str(), q.as_str()) || ((str_eq(p.as_str(), "0.0") || str_eq(p.as_str(), "-0.0")) && (str_eq(
                    q.as_str(),
                    "0.0",
                ) || str_eq(q.as_str(), "-0.0")))
            },
            _ => false,
        },
        (JsonValue::Text(x), JsonValue::Text(y)) => str_eq(x.as_str(), y.as_str()),
        (JsonValue::List(x), JsonValue::List(y)) => {
            proof {
                lemma_json_compound(*a);
                lemma_json_compound(*b);
            }
            let ghost ma = a@->List_0;
            let ghost mb = b@->List_0;
            if x.len() != y.len() {
                proof {
                    assert(ma.len() != mb.len());
                }
                return false;
            }
            for i in 0..x.len()
                invariant
                    x.len() == y.len(),
                    *a == JsonValue::List(*x),
                    *b == JsonValue::List(*y),
                    ma == a@->List_0,
                    mb == b@->List_0,
                    a@ == JsonModel::List(ma),
                    b@ == JsonModel::List(mb),
                    ma.len() == x.len(),
                    mb.len() == y.len(),
                    forall|k: int| #![trigger ma[k]] 0 <= k < i ==> json_same(ma[k], mb[k]),
            {
                proof {
                    assert(ma[i as int] == x@[i as int]@);
                    assert(mb[i as int] == y@[i as int]@);
                }
                if !json_eq(&x[i], &y[i]) {
                    proof {
                        assert(!json_same(ma[i as int], mb[i as int]));
                    }
                    return false;
                }
            }
            proof {
                assert(a@ == JsonModel::List(ma) && b@ == JsonModel::List(mb));
                assert(ma.len() == mb.len());
            }
            true
        },
        (JsonValue::Object(x), JsonValue::Object(y)) => {
            proof {
                lemma_json_compound(*a);
                lemma_json_compound(*b);
            }
            let ghost ma = a@->Object_0;
            let ghost mb = b@->Object_0;
            if x.len() != y.len() {
                proof {
                    assert(ma.len() != mb.len());
                }
                return false;
            }
            for i in 0..x.len()
                invariant
                    x.len() == y.len(),
                    *a == JsonValue::Object(*x),
                    *b == JsonValue::Object(*y),
                    ma == a@->Object_0,
                    mb == b@->Object_0,
                    a@ == JsonModel::Object(ma),
                    b@ == JsonModel::Object(mb),
                    ma.len() == x.len(),
                    mb.len() == y.len(),
                    forall|k: int| #![trigger ma[k]] 0 <= k < i ==> ma[k].0 == mb[k].0 && json_same(ma[k].1, mb[k].1),
            {
                proof {
                    assert(ma[i as int] == (x@[i as int].0@, x@[i as int].1@));
                    assert(mb[i as int] == (y@[i as int].0@, y@[i as int].1@));
                }
                if !str_eq(x[i].0.as_str(), y[i].0.as_str()) {
                    proof {
                        assert(ma[i as int].0 != mb[i as int].0);
                    }
                    return false;
                }
                if !json_eq(&x[i].1, &y[i].1) {
                    proof {
                        assert(!json_same(ma[i as int].1, mb[i as int].1));
                    }
                    return false;
                }
                proof {
                    assert(ma[i as int].0 == mb[i as int].0);
                    assert(json_same(ma[i as int].1, mb[i as int].1));
                }
            }
            proof {
                assert(a@ == JsonModel::Object(ma) && b@ == JsonModel::Object(mb));
                assert(ma.len() == mb.len());
            }
            true
        },
        _ => false,
    }
}

} // verus!

verus! {

#[verifier::external_type_specification]
#[verifier::external_body]
pub struct ExternalJsonValue(serde_json::Value);

#[verifier::external_type_specification]
#[verifier::external_body]
pub struct ExternalJsonNumber(serde_json::Number);

/// Copies a `serde_json::Number`: a non-negative integer, a negative one, or
/// the text of a float.
#[verifier::external_body]
fn from_serde_number(n: &serde_json::Number) -> JsonNumber {
    match (n.as_u64(), n.as_i64()) {
        (Some(u), _) => JsonNumber::PosInt(u),
        (None, Some(i)) => JsonNumber::NegInt(i),
        (None, None) => JsonNumber::Float(n.to_string()),
    }
}

/// Copies a library JSON number back into a `serde_json::Value`.
#[verifier::external_body]
fn number_to_serde(n: &JsonNumber) -> serde_json::Value {
    match n {
        JsonNumber::PosInt(u) => serde_json::Value::from(*u),
        JsonNumber::NegInt(i) => serde_json::Value::from(*i),
        JsonNumber::Float(t) => serde_json::from_str(t).unwrap_or(serde_json::Value::Null),
    }
}

/// Copies a `serde_json::Value` into the library's own JSON type, node for node.
#[verifier::external_body]
fn from_serde(v: &serde_json::Value) -> JsonValue {
    match v {
        serde_json::Value::Null => JsonValue::Null,
        serde_json::Value::Bool(b) => JsonValue::Bool(*b),
        serde_json::Value::Number(n) => JsonValue::Number(from_serde_number(n)),
        serde_json::Value::String(s) => JsonValue::Text(s.clone()),
        serde_json::Value::Array(a) => JsonValue::List(a.iter().map(from_serde).collect()),
        serde_json::Value::Object(m) => JsonValue::Object(m.iter().map(|(k, x)| (k.clone(), from_serde(x))).collect()),
    }
}

/// Copies a library JSON value back into a `serde_json::Value`, node for node.
#[verifier::external_body]
fn to_serde(v: &JsonValue) -> serde_json::Value {
    match v {
        JsonValue::Null => serde_json::Value::Null,
        JsonValue::Bool(b) => serde_json::Value::Bool(*b),
        JsonValue::Number(n) => number_to_serde(n),
        JsonValue::Text(s) => serde_json::Value::String(s.clone()),
        JsonValue::List(a) => serde_json::Value::Array(a.iter().map(to_serde).collect()),
        JsonValue::Object(m) => serde_json::Value::Object(m.iter().map(|(k, x)| (k.clone(), to_serde(x))).collect()),
    }
}

/// Parses JSON text with `serde_json::from_str`. The contract names the
/// result (`json_parse_result`): the value, or the error's text.
#[verifier::external_body]
pub(crate) fn parse_json(text: &str) -> (r: Result<JsonValue, String>)
    ensures
        match r {
            Ok(v) => json_parse_result(text@) == Ok::<JsonModel, Seq<char>>(v@),
            Err(e) => json_parse_result(text@) == Err::<JsonModel, Seq<char>>(e@),
        },
{
    match serde_json::from_str::<serde_json::Value>(text) {
        Ok(v) => Ok(from_serde(&v)),
        Err(e) => Err(e.to_string()),
    }
}

/// The compact JSON text of a value, as `serde_json::Value`'s `to_string`
/// writes it. The contract names the result (`json_compact_text`).
#[verifier::external_body]
pub(crate) fn compact_text(v: &JsonValue) -> (r: String)
    ensures
        r@ == json_compact_text(v@),
{
    to_serde(v).to_string()
}

/// The indented JSON text of a value, as `serde_json::to_string_pretty`
/// writes it. The contract names the result (`json_pretty_text`).
#[verifier::external_body]
pub(crate) fn pretty_text(v: &JsonValue) -> (r: String)
    ensures
        r@ == json_pretty_text(v@),
{
    serde_json::to_string_pretty(&to_serde(v)).unwrap_or_else(|_| String::from("{}"))
}

/// How a value is shown in a message: strings bare, anything else as compact JSON.
pub fn display_text(v: &JsonValue) -> (r: String)
    ensures
        r@ == shown(v@),
{
    match v {
        JsonValue::Text(s) => s.clone(),
        _ => compact_text(v),
    }
}

} // verus!
