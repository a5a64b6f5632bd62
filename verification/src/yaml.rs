//! YAML values as frontmatter parsing yields them, and their conversion to JSON.

use vstd::prelude::*;
use crate::json::{JsonModel, JsonNumber, JsonValue, NumberModel, json_entries, lemma_json_compound};
use crate::text::{chars_lt, seq_lt, to_chars};

verus! {

/// A YAML number: a non-negative integer, a negative integer, or a float held as
/// the JSON number text of its value (`None` when it has none: NaN or infinite).
#[derive(Debug)]
pub enum YamlNumber {
    PosInt(u64),
    NegInt(i64),
    Float(Option<String>),
}

/// A YAML value.
#[derive(Debug)]
pub enum YamlValue {
    Null,
    Bool(bool),
    Number(YamlNumber),
    Text(String),
    Sequence(Vec<YamlValue>),
    Mapping(Vec<(YamlValue, YamlValue)>),
    Tagged(String, Box<YamlValue>),
}

pub enum YamlNumberModel {
    PosInt(u64),
    NegInt(i64),
    Float(Option<Seq<char>>),
}

/// The mathematical model of a YAML value.
pub enum YamlModel {
    Null,
    Bool(bool),
    Number(YamlNumberModel),
    Text(Seq<char>),
    Sequence(Seq<YamlModel>),
    Mapping(Seq<(YamlModel, YamlModel)>),
    Tagged(Seq<char>, Box<YamlModel>),
}

pub open spec fn yaml_number_model(n: YamlNumber) -> YamlNumberModel {
    match n {
        YamlNumber::PosInt(u) => YamlNumberModel::PosInt(u),
        YamlNumber::NegInt(i) => YamlNumberModel::NegInt(i),
        YamlNumber::Float(t) => YamlNumberModel::Float(
            match t {
                Some(s) => Some(s@),
                None => None,
            },
        ),
    }
}

pub open spec fn yaml_model(y: YamlValue) -> YamlModel
    decreases y,
{
    match y {
        YamlValue::Null => YamlModel::Null,
        YamlValue::Bool(b) => YamlModel::Bool(b),
        YamlValue::Number(n) => YamlModel::Number(yaml_number_model(n)),
        YamlValue::Text(s) => YamlModel::Text(s@),
        YamlValue::Sequence(v) => YamlModel::Sequence(
            Seq::new(
                v@.len(),
                |i: int|
                    if 0 <= i < v@.len() {
                        proof {
                            assert(decreases_to!(v => v@));
                        }
                        yaml_model(v@[i])
                    } else {
                        YamlModel::Null
                    },
            ),
        ),
        YamlValue::Mapping(v) => YamlModel::Mapping(
            Seq::new(
                v@.len(),
                |i: int|
                    if 0 <= i < v@.len() {
                        proof {
                            assert(decreases_to!(v => v@));
                            assert(decreases_to!(v@[i] => v@[i].0));
                            assert(decreases_to!(v@[i] => v@[i].1));
                        }
                        (yaml_model(v@[i].0), yaml_model(v@[i].1))
                    } else {
                        (YamlModel::Null, YamlModel::Null)
                    },
            ),
        ),
        YamlValue::Tagged(t, b) => YamlModel::Tagged(t@, Box::new(yaml_model(*b))),
    }
}

impl View for YamlValue {
    type V = YamlModel;

    open spec fn view(&self) -> YamlModel {
        yaml_model(*self)
    }
}

/// What `serde_yaml::from_str::<serde_yaml::Value>` makes of a text; `None`
/// when it reports an error.
pub uninterp spec fn yaml_document(text: Seq<char>) -> Option<YamlModel>;

/// Inserts a member into an object's entries as an ordered map does: entries
/// with smaller keys, then the new member, then entries with larger keys (an
/// entry with the same key is replaced).
pub open spec fn object_insert(es: Seq<(Seq<char>, JsonModel)>, k: Seq<char>, v: JsonModel) -> Seq<
    (Seq<char>, JsonModel),
> {
    es.filter(|e: (Seq<char>, JsonModel)| seq_lt(e.0, k)).push((k, v)) + es.filter(
        |e: (Seq<char>, JsonModel)| seq_lt(k, e.0),
    )
}

/// Builds an object from converted pairs, in order; pairs whose key is not a
/// string are dropped.
pub open spec fn object_from_pairs(ps: Seq<(YamlModel, JsonModel)>) -> Seq<(Seq<char>, JsonModel)>
    decreases ps.len(),
{
    if ps.len() == 0 {
        Seq::empty()
    } else {
        let acc = object_from_pairs(ps.drop_last());
        match ps.last().0 {
            YamlModel::Text(k) => object_insert(acc, k, ps.last().1),
            _ => acc,
        }
    }
}

/// The JSON value a YAML value converts to: tags are dropped, floats without a
/// JSON number become null, mappings keep only their string keys.
pub open spec fn yaml_to_json_model(y: YamlModel) -> JsonModel
    decreases y,
{
    match y {
        YamlModel::Null => JsonModel::Null,
        YamlModel::Bool(b) => JsonModel::Bool(b),
        YamlModel::Number(n) => match n {
            YamlNumberModel::PosInt(u) => JsonModel::Number(NumberModel::PosInt(u)),
            YamlNumberModel::NegInt(i) => if i < 0 {
                JsonModel::Number(NumberModel::NegInt(i))
            } else {
                JsonModel::Number(NumberModel::PosInt(i as u64))
            },
            YamlNumberModel::Float(Some(t)) => JsonModel::Number(NumberModel::Float(t)),
            YamlNumberModel::Float(None) => JsonModel::Null,
        },
        YamlModel::Text(s) => JsonModel::Text(s),
        YamlModel::Sequence(items) => JsonModel::List(
            Seq::new(
                items.len(),
                |i: int|
                    if 0 <= i < items.len() {
                        yaml_to_json_model(items[i])
                    } else {
                        JsonModel::Null
                    },
            ),
        ),
        YamlModel::Mapping(ps) => JsonModel::Object(object_from_pairs(convert_pairs(ps))),
        YamlModel::Tagged(_, b) => yaml_to_json_model(*b),
    }
}

/// The pairs of a mapping with their values converted.
pub open spec fn convert_pairs(ps: Seq<(YamlModel, YamlModel)>) -> Seq<(YamlModel, JsonModel)>
    decreases ps,
{
    Seq::new(
        ps.len(),
        |i: int|
            if 0 <= i < ps.len() {
                proof {
                    assert(decreases_to!(ps => ps[i]));
                    assert(decreases_to!(ps[i] => ps[i].1));
                }
                (ps[i].0, yaml_to_json_model(ps[i].1))
            } else {
                (YamlModel::Null, JsonModel::Null)
            },
    )
}

proof fn lemma_filter_push<A>(s: Seq<A>, x: A, p: spec_fn(A) -> bool)
    ensures
        s.push(x).filter(p) == if p(x) { s.filter(p).push(x) } else { s.filter(p) },
{
    reveal(Seq::filter);
    assert(s.push(x).drop_last() =~= s);
}

/// `seq_lt` never holds both ways.
pub proof fn lemma_seq_lt_asymmetric(a: Seq<char>, b: Seq<char>)
    ensures
        !(seq_lt(a, b) && seq_lt(b, a)),
    decreases a.len(),
{
    if a.len() > 0 && b.len() > 0 && a[0] == b[0] {
        lemma_seq_lt_asymmetric(a.drop_first(), b.drop_first());
    }
}

/// Inserts `(k, v)` into object entries as an ordered map does.
pub fn insert_member(es: Vec<(String, JsonValue)>, k: String, v: JsonValue) -> (r: Vec<(String, JsonValue)>)
    ensures
        json_entries(r@) == object_insert(json_entries(es@), k@, v@),
{
    let kc = to_chars(k.as_str());
    let ghost orig = json_entries(es@);
    let ghost lo = |e: (Seq<char>, JsonModel)| seq_lt(e.0, k@);
    let ghost hi = |e: (Seq<char>, JsonModel)| seq_lt(k@, e.0);
    let mut es = es;
    let mut left: Vec<(String, JsonValue)> = Vec::new();
    let mut right: Vec<(String, JsonValue)> = Vec::new();
    let ghost mut j: int = 0;
    proof {
        assert(orig.skip(0) =~= orig);
        assert(orig.take(0) =~= Seq::<(Seq<char>, JsonModel)>::empty());
        assert(json_entries(left@) =~= orig.take(0).filter(lo));
        assert(json_entries(right@) =~= orig.take(0).filter(hi));
    }
    while es.len() > 0
        invariant
            0 <= j <= orig.len(),
            json_entries(es@) == orig.skip(j),
            json_entries(left@) == orig.take(j).filter(lo),
            json_entries(right@) == orig.take(j).filter(hi),
            kc@ == k@,
            lo == (|e: (Seq<char>, JsonModel)| seq_lt(e.0, k@)),
            hi == (|e: (Seq<char>, JsonModel)| seq_lt(k@, e.0)),
        decreases es.len(),
    {
        let ghost before = es@;
        let e = es.remove(0);
        let ec = to_chars(e.0.as_str());
        let ghost em = (e.0@, e.1@);
        proof {
            assert(json_entries(before).len() == before.len());
            assert(j < orig.len());
            assert(json_entries(before)[0] == em);
            assert(orig.skip(j)[0] == orig[j]);
            assert(es@ =~= before.drop_first());
            assert forall|i: int| 0 <= i < json_entries(es@).len() implies json_entries(es@)[i]
                == orig.skip(j + 1)[i] by {
                assert(json_entries(es@)[i] == json_entries(before)[i + 1]);
                assert(orig.skip(j)[i + 1] == orig.skip(j + 1)[i]);
            }
            assert(json_entries(es@) =~= orig.skip(j + 1));
            assert(orig.take(j + 1) =~= orig.take(j).push(orig[j]));
            lemma_filter_push(orig.take(j), em, lo);
            lemma_filter_push(orig.take(j), em, hi);
            lemma_seq_lt_asymmetric(em.0, k@);
        }
        if chars_lt(ec.as_slice(), kc.as_slice()) {
            let ghost l0 = left@;
            left.push(e);
            proof {
                assert(json_entries(left@) =~= json_entries(l0).push(em));
            }
        } else if chars_lt(kc.as_slice(), ec.as_slice()) {
            let ghost r0 = right@;
            right.push(e);
            proof {
                assert(json_entries(right@) =~= json_entries(r0).push(em));
            }
        }
        proof {
            j = j + 1;
        }
    }
    proof {
        assert(orig.take(j) =~= orig);
    }
    let ghost l0 = left@;
    let ghost r0 = right@;
    left.push((k, v));
    left.append(&mut right);
    proof {
        assert(json_entries(left@) =~= json_entries(l0).push((k@, v@)) + json_entries(r0));
    }
    left
}

} // verus!

verus! {

#[verifier::external_type_specification]
#[verifier::external_body]
pub struct ExternalYamlValue(serde_yaml::Value);

#[verifier::external_type_specification]
#[verifier::external_body]
pub struct ExternalYamlNumber(serde_yaml::Number);

#[verifier::external_type_specification]
#[verifier::external_body]
pub struct ExternalTaggedValue(serde_yaml::value::TaggedValue);

/// Copies a `serde_yaml::Number`: a non-negative integer, a negative one, or
/// a float as the text `serde_json` prints for it (none for NaN and infinities).
#[verifier::external_body]
fn from_yaml_number(n: &serde_yaml::Number) -> YamlNumber {
    match (n.as_u64(), n.as_i64()) {
        (Some(u), _) => YamlNumber::PosInt(u),
        (None, Some(i)) => YamlNumber::NegInt(i),
        (None, None) => YamlNumber::Float(n.as_f64().and_then(serde_json::Number::from_f64).map(|x| x.to_string())),
    }
}

/// Copies a tagged YAML value: its tag's text and its value.
#[verifier::external_body]
fn from_tagged(t: &serde_yaml::value::TaggedValue) -> YamlValue {
    YamlValue::Tagged(t.tag.to_string(), Box::new(from_serde_yaml(&t.value)))
}

/// Copies a `serde_yaml::Value` into the library's own YAML type, node for node;
/// a float keeps the text `serde_json` prints for it.
#[verifier::external_body]
fn from_serde_yaml(v: &serde_yaml::Value) -> YamlValue {
    match v {
        serde_yaml::Value::Null => YamlValue::Null,
        serde_yaml::Value::Bool(b) => YamlValue::Bool(*b),
        serde_yaml::Value::Number(n) => YamlValue::Number(from_yaml_number(n)),
        serde_yaml::Value::String(s) => YamlValue::Text(s.clone()),
        serde_yaml::Value::Sequence(a) => YamlValue::Sequence(a.iter().map(from_serde_yaml).collect()),
        serde_yaml::Value::Mapping(m) => YamlValue::Mapping(m.iter().map(|(k, x)| (from_serde_yaml(k), from_serde_yaml(x))).collect()),
        serde_yaml::Value::Tagged(t) => from_tagged(t),
    }
}

/// Parses YAML text with `serde_yaml::from_str::<serde_yaml::Value>`; `None` when
/// it reports an error. The contract names the result (`yaml_document`).
#[verifier::external_body]
pub(crate) fn parse_yaml(text: &str) -> (r: Option<YamlValue>)
    ensures
        match r {
            Some(y) => yaml_document(text@) == Some(y@),
            None => yaml_document(text@) is None,
        },
{
    serde_yaml::from_str::<serde_yaml::Value>(text).ok().map(|v| from_serde_yaml(&v))
}

} // verus!

verus! {

/// Converts a YAML value to JSON: tags are dropped, floats without a JSON number
/// become null, mappings keep their string keys only, in key order.
pub fn yaml_to_json(y: &YamlValue) -> (r: JsonValue)
    ensures
        r@ == yaml_to_json_model(y@),
    decreases y,
{
    match y {
        YamlValue::Null => JsonValue::Null,
        YamlValue::Bool(b) => JsonValue::Bool(*b),
        YamlValue::Number(n) => match n {
            YamlNumber::PosInt(u) => JsonValue::Number(JsonNumber::PosInt(*u)),
            YamlNumber::NegInt(i) => if *i < 0 {
                JsonValue::Number(JsonNumber::NegInt(*i))
            } else {
                JsonValue::Number(JsonNumber::PosInt(*i as u64))
            },
            YamlNumber::Float(Some(t)) => JsonValue::Number(JsonNumber::Float(t.clone())),
            YamlNumber::Float(None) => JsonValue::Null,
        },
        YamlValue::Text(s) => JsonValue::Text(s.clone()),
        YamlValue::Sequence(items) => {
            let ghost ms = y@->Sequence_0;
            let mut out: Vec<JsonValue> = Vec::new();
            for i in 0..items.len()
                invariant
                    *y == YamlValue::Sequence(*items),
                    ms == y@->Sequence_0,
                    out@.len() == i,
                    forall|k: int| 0 <= k < i ==> (#[trigger] out@[k])@ == yaml_to_json_model(ms[k]),
            {
                proof {
                    assert(ms[i as int] == items@[i as int]@);
                }
                let c = yaml_to_json(&items[i]);
                out.push(c);
            }
            let r = JsonValue::List(out);
            proof {
                assert(r@->List_0 =~= yaml_to_json_model(y@)->List_0);
            }
            r
        },
        YamlValue::Mapping(pairs) => {
            let ghost ps = y@->Mapping_0;
            let ghost conv = convert_pairs(ps);
            let mut obj: Vec<(String, JsonValue)> = Vec::new();
            proof {
                assert(json_entries(obj@) =~= object_from_pairs(conv.take(0)));
            }
            for i in 0..pairs.len()
                invariant
                    *y == YamlValue::Mapping(*pairs),
                    ps == y@->Mapping_0,
                    conv.len() == ps.len(),
                    forall|k: int| 0 <= k < ps.len() ==> #[trigger] conv[k] == (ps[k].0, yaml_to_json_model(ps[k].1)),
                    json_entries(obj@) == object_from_pairs(conv.take(i as int)),
            {
                proof {
                    assert(ps[i as int] == (pairs@[i as int].0@, pairs@[i as int].1@));
                    assert(conv.take(i + 1).drop_last() =~= conv.take(i as int));
                    assert(conv.take(i + 1).last() == conv[i as int]);
                }
                let c = yaml_to_json(&pairs[i].1);
                match &pairs[i].0 {
                    YamlValue::Text(k) => {
                        obj = insert_member(obj, k.clone(), c);
                    },
                    _ => {},
                }
            }
            proof {
                assert(conv.take(pairs.len() as int) =~= conv);
            }
            let r = JsonValue::Object(obj);
            proof {
                lemma_json_compound(r);
            }
            r
        },
        YamlValue::Tagged(_, b) => yaml_to_json(b),
    }
}

} // verus!
