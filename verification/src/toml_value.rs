//! TOML documents as the template manifests and folder rules are read.

use vstd::prelude::*;

verus! {

/// A TOML value. Floats are kept as the text Rust's `f64` formatting gives
/// them, datetimes as the text `toml` prints for them; table entries are in
/// ascending key order with unique keys.
#[derive(Debug)]
pub enum TomlValue {
    Text(String),
    Integer(i64),
    Float(String),
    Boolean(bool),
    Datetime(String),
    Array(Vec<TomlValue>),
    Table(Vec<(String, TomlValue)>),
}

/// The mathematical model of a TOML value.
pub enum TomlModel {
    Text(Seq<char>),
    Integer(i64),
    Float(Seq<char>),
    Boolean(bool),
    Datetime(Seq<char>),
    Array(Seq<TomlModel>),
    Table(Seq<(Seq<char>, TomlModel)>),
}

pub open spec fn toml_model(v: TomlValue) -> TomlModel
    decreases v,
{
    match v {
        TomlValue::Text(s) => TomlModel::Text(s@),
        TomlValue::Integer(i) => TomlModel::Integer(i),
        TomlValue::Float(s) => TomlModel::Float(s@),
        TomlValue::Boolean(b) => TomlModel::Boolean(b),
        TomlValue::Datetime(s) => TomlModel::Datetime(s@),
        TomlValue::Array(a) => TomlModel::Array(
            Seq::new(
                a@.len(),
                |i: int|
                    if 0 <= i < a@.len() {
                        proof {
                            assert(decreases_to!(a => a@));
                        }
                        toml_model(a@[i])
                    } else {
                        TomlModel::Boolean(false)
                    },
            ),
        ),
        TomlValue::Table(es) => TomlModel::Table(
            Seq::new(
                es@.len(),
                |i: int|
                    if 0 <= i < es@.len() {
                        proof {
                            assert(decreases_to!(es => es@));
                            assert(decreases_to!(es@[i] => es@[i].1));
                        }
                        (es@[i].0@, toml_model(es@[i].1))
                    } else {
                        (Seq::empty(), TomlModel::Boolean(false))
                    },
            ),
        ),
    }
}

impl View for TomlValue {
    type V = TomlModel;

    open spec fn view(&self) -> TomlModel {
        toml_model(*self)
    }
}

/// The models of table entries.
pub open spec fn toml_entries(v: Seq<(String, TomlValue)>) -> Seq<(Seq<char>, TomlModel)> {
    v.map_values(|e: (String, TomlValue)| (e.0@, e.1@))
}

/// The models of array items.
pub open spec fn toml_items(v: Seq<TomlValue>) -> Seq<TomlModel> {
    v.map_values(|e: TomlValue| e@)
}

/// A table's model is the model of its entries; an array's, that of its items.
pub proof fn lemma_toml_compound(v: TomlValue)
    ensures
        v matches TomlValue::Table(es) ==> v@ == TomlModel::Table(toml_entries(es@)),
        v matches TomlValue::Array(a) ==> v@ == TomlModel::Array(toml_items(a@)),
{
    match v {
        TomlValue::Table(es) => {
            assert(v@->Table_0 =~= toml_entries(es@));
        },
        TomlValue::Array(a) => {
            assert(v@->Array_0 =~= toml_items(a@));
        },
        _ => {},
    }
}

/// The value under `key` in table entries (the first match).
pub open spec fn table_get(es: Seq<(Seq<char>, TomlModel)>, key: Seq<char>) -> Option<TomlModel>
    decreases es.len(),
{
    if es.len() == 0 {
        None
    } else if es[0].0 == key {
        Some(es[0].1)
    } else {
        table_get(es.drop_first(), key)
    }
}

/// `toml::Value::get` with a string key: the member of a table, else nothing.
pub open spec fn toml_get(v: TomlModel, key: Seq<char>) -> Option<TomlModel> {
    match v {
        TomlModel::Table(es) => table_get(es, key),
        _ => None,
    }
}

proof fn lemma_table_get_skip(es: Seq<(Seq<char>, TomlModel)>, key: Seq<char>, i: int)
    requires
        0 <= i <= es.len(),
        forall|k: int| 0 <= k < i ==> es[k].0 != key,
    ensures
        table_get(es, key) == table_get(es.skip(i), key),
    decreases i,
{
    if i > 0 {
        lemma_table_get_skip(es.drop_first(), key, i - 1);
        assert(es.drop_first().skip(i - 1) =~= es.skip(i));
    } else {
        assert(es.skip(0) =~= es);
    }
}

impl TomlValue {
    /// The member stored under `key` when this is a table.
    pub fn get(&self, key: &str) -> (r: Option<&TomlValue>)
        ensures
            match r {
                Some(v) => toml_get(self@, key@) == Some(v@),
                None => toml_get(self@, key@) is None,
            },
    {
        match self {
            TomlValue::Table(es) => {
                proof {
                    lemma_toml_compound(*self);
                }
                let ghost m = toml_entries(es@);
                for i in 0..es.len()
                    invariant
                        m == toml_entries(es@),
                        *self == TomlValue::Table(*es),
                        self@ == TomlModel::Table(m),
                        forall|k: int| 0 <= k < i ==> m[k].0 != key@,
                {
                    proof {
                        assert(m[i as int] == (es@[i as int].0@, es@[i as int].1@));
                    }
                    if crate::text::str_eq(es[i].0.as_str(), key) {
                        proof {
                            lemma_table_get_skip(m, key@, i as int);
                            assert(m.skip(i as int)[0] == m[i as int]);
                        }
                        return Some(&es[i].1);
                    }
                }
                proof {
                    lemma_table_get_skip(m, key@, m.len() as int);
                }
                None
            },
            _ => None,
        }
    }
}

/// What `toml::from_str::<toml::Value>` makes of a text: the document's
/// value, or the text of its error.
pub uninterp spec fn toml_document(text: Seq<char>) -> Result<TomlModel, Seq<char>>;

#[verifier::external_type_specification]
#[verifier::external_body]
pub struct ExternalTomlValue(toml::Value);

/// Copies a `toml::Value` into the library's own TOML type, node for node.
#[verifier::external_body]
fn from_toml(v: &toml::Value) -> TomlValue {
    match v {
        toml::Value::String(s) => TomlValue::Text(s.clone()),
        toml::Value::Integer(i) => TomlValue::Integer(*i),
        toml::Value::Float(f) => TomlValue::Float(f.to_string()),
        toml::Value::Boolean(b) => TomlValue::Boolean(*b),
        toml::Value::Datetime(d) => TomlValue::Datetime(d.to_string()),
        toml::Value::Array(a) => TomlValue::Array(a.iter().map(from_toml).collect()),
        toml::Value::Table(t) => TomlValue::Table(t.iter().map(|(k, x)| (k.clone(), from_toml(x))).collect()),
    }
}

/// Parses a TOML document with `toml::from_str::<toml::Value>`. The contract
/// names the result (`toml_document`): the value, or the error's text.
#[verifier::external_body]
pub(crate) fn parse_toml(text: &str) -> (r: Result<TomlValue, String>)
    ensures
        match r {
            Ok(v) => toml_document(text@) == Ok::<TomlModel, Seq<char>>(v@),
            Err(e) => toml_document(text@) == Err::<TomlModel, Seq<char>>(e@),
        },
{
    match toml::from_str::<toml::Value>(text) {
        Ok(v) => Ok(from_toml(&v)),
        Err(e) => Err(e.to_string()),
    }
}

} // verus!
