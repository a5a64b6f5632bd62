//! Frontmatter extraction and validation against a JSON Schema.

use vstd::prelude::*;
use vstd::string::StringExecFns;
use crate::audit::drift::{DriftCategory, DriftEntry, DriftView, drift, drift_views, push_entry, append_entries};
use crate::json::{JsonModel, JsonValue, entries_contain, entries_lookup, list_contains, list_has, entries_get, entries_have, model_get, matches_type, kind_name, shown, display_text, lemma_json_compound, json_entries, json_items};
use crate::text::{find, starts_with, join, str_eq, to_chars, from_chars, find_chars, starts_with_chars, slice_chars};
use crate::yaml::{YamlValue, YamlModel, yaml_document, parse_yaml, yaml_to_json, yaml_to_json_model};

verus! {

// ---------------------------------------------------------------------------
// Frontmatter block
// ---------------------------------------------------------------------------

/// The text with every leading byte-order mark removed.
pub open spec fn strip_bom(s: Seq<char>) -> Seq<char>
    decreases s.len(),
{
    if s.len() > 0 && s[0] == '\u{feff}' {
        strip_bom(s.drop_first())
    } else {
        s
    }
}

/// The text after the opening `---` fence and its line break, if the content
/// opens with one.
pub open spec fn after_opening_fence(content: Seq<char>) -> Option<Seq<char>> {
    let c = strip_bom(content);
    if !starts_with(c, "---"@) {
        None
    } else {
        let rest = c.skip(3);
        if rest.len() >= 1 && rest[0] == '\n' {
            Some(rest.skip(1))
        } else if rest.len() >= 2 && rest[0] == '\r' && rest[1] == '\n' {
            Some(rest.skip(2))
        } else {
            None
        }
    }
}

/// The YAML text between the opening fence and the first line that starts
/// with `---`.
pub open spec fn frontmatter_block(content: Seq<char>) -> Option<Seq<char>> {
    match after_opening_fence(content) {
        None => None,
        Some(rest) => match find(rest, "\n---"@) {
            Some(end) => Some(rest.take(end)),
            None => match find(rest, "\r\n---"@) {
                Some(end) => Some(rest.take(end)),
                None => None,
            },
        },
    }
}

/// The parsed frontmatter of a content, as YAML: `None` without a fenced block
/// or when the block is not valid YAML.
pub open spec fn frontmatter_yaml(content: Seq<char>) -> Option<YamlModel> {
    match frontmatter_block(content) {
        None => None,
        Some(b) => yaml_document(b),
    }
}

fn strip_bom_exec(c: &Vec<char>) -> (r: usize)
    ensures
        r <= c@.len(),
        c@.skip(r as int) == strip_bom(c@),
{
    let mut i: usize = 0;
    proof {
        assert(c@.skip(0) =~= c@);
    }
    while i < c.len() && c[i] == '\u{feff}'
        invariant
            i <= c@.len(),
            strip_bom(c@) == strip_bom(c@.skip(i as int)),
        decreases c.len() - i,
    {
        proof {
            assert(c@.skip(i as int).drop_first() =~= c@.skip(i + 1));
        }
        i += 1;
    }
    i
}

/// The YAML text of the frontmatter block, if the content has one.
pub fn frontmatter_text(content: &str) -> (r: Option<String>)
    ensures
        match r {
            Some(t) => frontmatter_block(content@) == Some(t@),
            None => frontmatter_block(content@) is None,
        },
{
    let all = to_chars(content);
    let start = strip_bom_exec(&all);
    let c = slice_chars(all.as_slice(), start, all.len());
    proof {
        assert(c@ =~= strip_bom(content@));
    }
    let fence = to_chars("---");
    if !starts_with_chars(c.as_slice(), fence.as_slice()) {
        return None;
    }
    proof {
        assert(c@.len() >= 3) by {
            reveal_strlit("---");
        }
    }
    let rest0 = slice_chars(c.as_slice(), 3, c.len());
    let rest = if rest0.len() >= 1 && rest0[0] == '\n' {
        slice_chars(rest0.as_slice(), 1, rest0.len())
    } else if rest0.len() >= 2 && rest0[0] == '\r' && rest0[1] == '\n' {
        slice_chars(rest0.as_slice(), 2, rest0.len())
    } else {
        return None;
    };
    let p1 = to_chars("\n---");
    let p2 = to_chars("\r\n---");
    let end = match find_chars(rest.as_slice(), p1.as_slice()) {
        Some(e) => e,
        None => match find_chars(rest.as_slice(), p2.as_slice()) {
            Some(e) => e,
            None => return None,
        },
    };
    proof {
        assert(end <= rest@.len()) by {
            let p = if find(rest@, "\n---"@) is Some { "\n---"@ } else { "\r\n---"@ };
            lemma_find_in_range(rest@, p);
        }
    }
    let block = slice_chars(rest.as_slice(), 0, end);
    proof {
        assert(block@ =~= rest@.take(end as int));
    }
    Some(from_chars(block.as_slice()))
}

/// A found index lies within the text.
proof fn lemma_find_in_range(s: Seq<char>, p: Seq<char>)
    ensures
        find(s, p) matches Some(i) ==> 0 <= i <= s.len(),
{
    lemma_find_from_in_range(s, p, 0);
}

proof fn lemma_find_from_in_range(s: Seq<char>, p: Seq<char>, i: int)
    ensures
        crate::text::find_from(s, p, i) matches Some(k) ==> i <= k && k + p.len() <= s.len(),
    decreases s.len() + 1 - i,
{
    if i >= 0 && i + p.len() <= s.len() && !crate::text::occurs_at(s, p, i) {
        lemma_find_from_in_range(s, p, i + 1);
    }
}

/// Parses the YAML frontmatter delimited by `---` lines; `None` when the
/// content does not open with a `---` block or the block is not valid YAML.
pub fn parse_frontmatter(content: &str) -> (r: Option<YamlValue>)
    ensures
        match r {
            Some(y) => frontmatter_yaml(content@) == Some(y@),
            None => frontmatter_yaml(content@) is None,
        },
{
    match frontmatter_text(content) {
        Some(t) => parse_yaml(t.as_str()),
        None => None,
    }
}

} // verus!

verus! {

// ---------------------------------------------------------------------------
// Messages
// ---------------------------------------------------------------------------

pub open spec fn required_msg(f: Seq<char>) -> Seq<char> {
    "required field '"@ + f + "' is absent"@
}

pub open spec fn type_msg(f: Seq<char>, t: Seq<char>, got: Seq<char>) -> Seq<char> {
    "field '"@ + f + "' expected type '"@ + t + "' but got '"@ + got + "'"@
}

pub open spec fn enum_msg(f: Seq<char>, value: Seq<char>, allowed: Seq<char>) -> Seq<char> {
    "field '"@ + f + "' value '"@ + value + "' is not in allowed enum ["@ + allowed + "]"@
}

pub open spec fn unknown_msg(f: Seq<char>) -> Seq<char> {
    "field '"@ + f + "' is not defined in the frontmatter schema"@
}

pub open spec fn typed_required_msg(f: Seq<char>, t: Seq<char>) -> Seq<char> {
    "field '"@ + f + "' is required for type '"@ + t + "' but is absent"@
}

pub open spec fn no_frontmatter_msg() -> Seq<char> {
    "file has no frontmatter"@
}

fn required_message(f: &str) -> (r: String)
    ensures
        r@ == required_msg(f@),
{
    let mut s = String::from_str("required field '");
    s.append(f);
    s.append("' is absent");
    s
}

fn type_message(f: &str, t: &str, got: &str) -> (r: String)
    ensures
        r@ == type_msg(f@, t@, got@),
{
    let mut s = String::from_str("field '");
    s.append(f);
    s.append("' expected type '");
    s.append(t);
    s.append("' but got '");
    s.append(got);
    s.append("'");
    s
}

fn enum_message(f: &str, value: &str, allowed: &str) -> (r: String)
    ensures
        r@ == enum_msg(f@, value@, allowed@),
{
    let mut s = String::from_str("field '");
    s.append(f);
    s.append("' value '");
    s.append(value);
    s.append("' is not in allowed enum [");
    s.append(allowed);
    s.append("]");
    s
}

fn unknown_message(f: &str) -> (r: String)
    ensures
        r@ == unknown_msg(f@),
{
    let mut s = String::from_str("field '");
    s.append(f);
    s.append("' is not defined in the frontmatter schema");
    s
}

fn typed_required_message(f: &str, t: &str) -> (r: String)
    ensures
        r@ == typed_required_msg(f@, t@),
{
    let mut s = String::from_str("field '");
    s.append(f);
    s.append("' is required for type '");
    s.append(t);
    s.append("' but is absent");
    s
}

// ---------------------------------------------------------------------------
// Schema checks, as specifications
// ---------------------------------------------------------------------------

/// The string items of `req` that name no member of the frontmatter, in order.
pub open spec fn missing_fields(req: Seq<JsonModel>, fm: Seq<(Seq<char>, JsonModel)>) -> Seq<Seq<char>>
    decreases req.len(),
{
    if req.len() == 0 {
        Seq::empty()
    } else {
        let rest = missing_fields(req.drop_last(), fm);
        match req.last() {
            JsonModel::Text(f) => if entries_have(fm, f) {
                rest
            } else {
                rest.push(f)
            },
            _ => rest,
        }
    }
}

/// The string items of a list, in order.
pub open spec fn text_items(vals: Seq<JsonModel>) -> Seq<Seq<char>>
    decreases vals.len(),
{
    if vals.len() == 0 {
        Seq::empty()
    } else {
        let rest = text_items(vals.drop_last());
        match vals.last() {
            JsonModel::Text(s) => rest.push(s),
            _ => rest,
        }
    }
}

/// The entries for one frontmatter member checked against the schema's `properties`.
pub open spec fn property_drift(
    path: Seq<char>,
    field: Seq<char>,
    value: JsonModel,
    props: Seq<(Seq<char>, JsonModel)>,
) -> Seq<DriftView> {
    match entries_get(props, field) {
        Some(ps) => {
            let type_fails = match model_get(ps, "type"@) {
                Some(JsonModel::Text(t)) => !matches_type(value, t),
                _ => false,
            };
            if type_fails {
                seq![
                    drift(
                        path,
                        DriftCategory::FrontmatterTypeWrong,
                        type_msg(field, model_get(ps, "type"@)->0->Text_0, kind_name(value)),
                    ),
                ]
            } else {
                match model_get(ps, "enum"@) {
                    Some(JsonModel::List(vals)) => if list_has(vals, value) {
                        Seq::empty()
                    } else {
                        seq![
                            drift(
                                path,
                                DriftCategory::FrontmatterValueInvalid,
                                enum_msg(field, shown(value), join(text_items(vals), ", "@)),
                            ),
                        ]
                    },
                    _ => Seq::empty(),
                }
            }
        },
        None => seq![drift(path, DriftCategory::UnknownFieldInfo, unknown_msg(field))],
    }
}

/// The entries for every frontmatter member, in member order.
pub open spec fn properties_drift(
    path: Seq<char>,
    fm: Seq<(Seq<char>, JsonModel)>,
    props: Seq<(Seq<char>, JsonModel)>,
) -> Seq<DriftView>
    decreases fm.len(),
{
    if fm.len() == 0 {
        Seq::empty()
    } else {
        properties_drift(path, fm.drop_last(), props) + property_drift(
            path,
            fm.last().0,
            fm.last().1,
            props,
        )
    }
}

/// Whether one `if.properties` member holds: the field is present and, when the
/// constraint has a string `const`, equal to it.
pub open spec fn if_property_holds(fm: Seq<(Seq<char>, JsonModel)>, field: Seq<char>, constraint: JsonModel) -> bool {
    match entries_get(fm, field) {
        None => false,
        Some(v) => match model_get(constraint, "const"@) {
            Some(JsonModel::Text(c)) => v == JsonModel::Text(c),
            _ => true,
        },
    }
}

/// Whether the frontmatter meets an `allOf` condition's `if` clause.
pub open spec fn if_matches(fm: Seq<(Seq<char>, JsonModel)>, ifc: JsonModel) -> bool {
    let props_ok = match model_get(ifc, "properties"@) {
        Some(JsonModel::Object(ip)) => forall|i: int|
            0 <= i < ip.len() ==> #[trigger] if_property_holds(fm, ip[i].0, ip[i].1),
        _ => true,
    };
    let required_ok = match model_get(ifc, "required"@) {
        Some(JsonModel::List(rs)) => forall|i: int|
            0 <= i < rs.len() ==> (#[trigger] rs[i] matches JsonModel::Text(f) && entries_have(fm, f)),
        _ => true,
    };
    props_ok && required_ok
}

/// The type an `if` clause selects: `properties.type.const`, when a string.
pub open spec fn const_type(ifc: JsonModel) -> Option<Seq<char>> {
    match model_get(ifc, "properties"@) {
        Some(p) => match model_get(p, "type"@) {
            Some(t) => match model_get(t, "const"@) {
                Some(JsonModel::Text(s)) => Some(s),
                _ => None,
            },
            None => None,
        },
        None => None,
    }
}

/// The entries for one `allOf` condition.
pub open spec fn condition_drift(path: Seq<char>, fm: Seq<(Seq<char>, JsonModel)>, cond: JsonModel) -> Seq<DriftView> {
    match (model_get(cond, "if"@), model_get(cond, "then"@)) {
        (Some(ifc), Some(thenc)) => if if_matches(fm, ifc) {
            match model_get(thenc, "required"@) {
                Some(JsonModel::List(req)) => {
                    let t = match const_type(ifc) {
                        Some(s) => s,
                        None => "unknown"@,
                    };
                    missing_fields(req, fm).map_values(
                        |f: Seq<char>| drift(path, DriftCategory::FrontmatterRequiredMissing, typed_required_msg(f, t)),
                    )
                },
                _ => Seq::empty(),
            }
        } else {
            Seq::empty()
        },
        _ => Seq::empty(),
    }
}

/// The entries for all `allOf` conditions, in order.
pub open spec fn conditions_drift(path: Seq<char>, fm: Seq<(Seq<char>, JsonModel)>, conds: Seq<JsonModel>) -> Seq<DriftView>
    decreases conds.len(),
{
    if conds.len() == 0 {
        Seq::empty()
    } else {
        conditions_drift(path, fm, conds.drop_last()) + condition_drift(path, fm, conds.last())
    }
}

/// The entries a frontmatter value yields against a schema: missing required
/// fields, then per-member type/enum/unknown checks, then `allOf` conditions.
/// A frontmatter that is not an object yields nothing.
pub open spec fn frontmatter_value_drift(path: Seq<char>, fm: JsonModel, schema: JsonModel) -> Seq<DriftView> {
    match fm {
        JsonModel::Object(fo) => {
            let required = match model_get(schema, "required"@) {
                Some(JsonModel::List(req)) => missing_fields(req, fo).map_values(
                    |f: Seq<char>| drift(path, DriftCategory::FrontmatterRequiredMissing, required_msg(f)),
                ),
                _ => Seq::empty(),
            };
            let props = match model_get(schema, "properties"@) {
                Some(JsonModel::Object(ps)) => properties_drift(path, fo, ps),
                _ => Seq::empty(),
            };
            let conds = match model_get(schema, "allOf"@) {
                Some(JsonModel::List(cs)) => conditions_drift(path, fo, cs),
                _ => Seq::empty(),
            };
            required + props + conds
        },
        _ => Seq::empty(),
    }
}

/// The entries a file yields: none without a schema; one when the file has no
/// parsable frontmatter; otherwise those of its frontmatter value.
pub open spec fn frontmatter_drift(path: Seq<char>, content: Seq<char>, schema: Option<JsonModel>) -> Seq<DriftView> {
    match schema {
        None => Seq::empty(),
        Some(s) => match frontmatter_yaml(content) {
            None => seq![drift(path, DriftCategory::FrontmatterRequiredMissing, no_frontmatter_msg())],
            Some(y) => frontmatter_value_drift(path, yaml_to_json_model(y), s),
        },
    }
}

} // verus!

verus! {

// ---------------------------------------------------------------------------
// Schema checks
// ---------------------------------------------------------------------------

/// Joining one more item appends the separator and the item.
pub proof fn lemma_join_push(items: Seq<Seq<char>>, sep: Seq<char>, x: Seq<char>)
    ensures
        join(items.push(x), sep) == if items.len() == 0 { x } else { join(items, sep) + sep + x },
{
    assert(items.push(x).drop_last() =~= items);
}

proof fn lemma_items_take_push(vals: Seq<JsonValue>, i: int)
    requires
        0 <= i < vals.len(),
    ensures
        json_items(vals.take(i + 1)) == json_items(vals.take(i)).push(vals[i]@),
{
    assert(json_items(vals.take(i + 1)) =~= json_items(vals.take(i)).push(vals[i]@));
}

proof fn lemma_entries_take_push(es: Seq<(String, JsonValue)>, i: int)
    requires
        0 <= i < es.len(),
    ensures
        json_entries(es.take(i + 1)) == json_entries(es.take(i)).push((es[i].0@, es[i].1@)),
{
    assert(json_entries(es.take(i + 1)) =~= json_entries(es.take(i)).push((es[i].0@, es[i].1@)));
}

/// The string items of a list joined with `", "`.
fn join_text_items(vals: &Vec<JsonValue>) -> (r: String)
    ensures
        r@ == join(text_items(json_items(vals@)), ", "@),
{
    let mut r = String::new();
    let mut first = true;
    for i in 0..vals.len()
        invariant
            r@ == join(text_items(json_items(vals@.take(i as int))), ", "@),
            first == (text_items(json_items(vals@.take(i as int))).len() == 0),
    {
        proof {
            lemma_items_take_push(vals@, i as int);
            assert(json_items(vals@.take(i + 1)).drop_last() =~= json_items(vals@.take(i as int)));
        }
        match &vals[i] {
            JsonValue::Text(s) => {
                proof {
                    lemma_join_push(text_items(json_items(vals@.take(i as int))), ", "@, s@);
                }
                if !first {
                    r.append(", ");
                }
                r.append(s.as_str());
                first = false;
            },
            _ => {},
        }
    }
    proof {
        assert(vals@.take(vals@.len() as int) =~= vals@);
    }
    r
}

/// The entry for a missing required field: plain, or for the type an
/// `allOf` condition selects.
pub open spec fn required_entry(path: Seq<char>, f: Seq<char>, t: Option<Seq<char>>) -> DriftView {
    match t {
        None => drift(path, DriftCategory::FrontmatterRequiredMissing, required_msg(f)),
        Some(t) => drift(path, DriftCategory::FrontmatterRequiredMissing, typed_required_msg(f, t)),
    }
}

/// One entry per string item of `req` that names no frontmatter member.
fn check_required(
    path: &str,
    req: &Vec<JsonValue>,
    fo: &Vec<(String, JsonValue)>,
    t: Option<&str>,
) -> (r: Vec<DriftEntry>)
    ensures
        drift_views(r@) == missing_fields(json_items(req@), json_entries(fo@)).map_values(
            |f: Seq<char>| required_entry(path@, f, match t { Some(s) => Some(s@), None => None }),
        ),
{
    let ghost tm: Option<Seq<char>> = match t { Some(s) => Some(s@), None => None };
    let ghost fm = json_entries(fo@);
    let mut out: Vec<DriftEntry> = Vec::new();
    for i in 0..req.len()
        invariant
            tm == (match t { Some(s) => Some(s@), None => None }),
            fm == json_entries(fo@),
            drift_views(out@) == missing_fields(json_items(req@.take(i as int)), fm).map_values(
                |f: Seq<char>| required_entry(path@, f, tm),
            ),
    {
        proof {
            lemma_items_take_push(req@, i as int);
            assert(json_items(req@.take(i + 1)).drop_last() =~= json_items(req@.take(i as int)));
        }
        match &req[i] {
            JsonValue::Text(f) => {
                if !entries_contain(fo, f.as_str()) {
                    let msg = match t {
                        None => required_message(f.as_str()),
                        Some(ts) => typed_required_message(f.as_str(), ts),
                    };
                    let ghost before = drift_views(out@);
                    push_entry(&mut out, DriftEntry::new(path.to_string(), DriftCategory::FrontmatterRequiredMissing, msg));
                    proof {
                        let m0 = missing_fields(json_items(req@.take(i as int)), fm);
                        assert(missing_fields(json_items(req@.take(i + 1)), fm) == m0.push(f@));
                        assert(m0.push(f@).map_values(|g: Seq<char>| required_entry(path@, g, tm))
                            =~= m0.map_values(|g: Seq<char>| required_entry(path@, g, tm)).push(required_entry(path@, f@, tm)));
                    }
                }
            },
            _ => {},
        }
    }
    proof {
        assert(req@.take(req@.len() as int) =~= req@);
    }
    out
}

/// The entries for one frontmatter member checked against `properties`.
fn check_property(path: &str, field: &str, value: &JsonValue, props: &Vec<(String, JsonValue)>) -> (r: Vec<DriftEntry>)
    ensures
        drift_views(r@) == property_drift(path@, field@, value@, json_entries(props@)),
{
    let mut out: Vec<DriftEntry> = Vec::new();
    match entries_lookup(props, field) {
        Some(ps) => {
            match ps.get("type") {
                Some(JsonValue::Text(t)) => {
                    if !value.matches_type(t.as_str()) {
                        let msg = type_message(field, t.as_str(), value.kind_name());
                        push_entry(&mut out, DriftEntry::new(path.to_string(), DriftCategory::FrontmatterTypeWrong, msg));
                        proof {
                            assert(drift_views(out@) =~= property_drift(path@, field@, value@, json_entries(props@)));
                        }
                        return out;
                    }
                },
                _ => {},
            }
            match ps.get("enum") {
                Some(ev) => match ev {
                    JsonValue::List(vals) => {
                        proof {
                            lemma_json_compound(*ev);
                        }
                        if !list_contains(vals, value) {
                            let shown_text = display_text(value);
                            let allowed = join_text_items(vals);
                            let msg = enum_message(field, shown_text.as_str(), allowed.as_str());
                            push_entry(&mut out, DriftEntry::new(path.to_string(), DriftCategory::FrontmatterValueInvalid, msg));
                        }
                    },
                    _ => {},
                },
                None => {},
            }
            proof {
                assert(drift_views(out@) =~= property_drift(path@, field@, value@, json_entries(props@)));
            }
            out
        },
        None => {
            let msg = unknown_message(field);
            push_entry(&mut out, DriftEntry::new(path.to_string(), DriftCategory::UnknownFieldInfo, msg));
            proof {
                assert(drift_views(out@) =~= property_drift(path@, field@, value@, json_entries(props@)));
            }
            out
        },
    }
}

} // verus!

verus! {

/// Whether the frontmatter meets an `if` clause.
fn if_clause_holds(fo: &Vec<(String, JsonValue)>, ifc: &JsonValue) -> (r: bool)
    ensures
        r == if_matches(json_entries(fo@), ifc@),
{
    let ghost fm = json_entries(fo@);
    let props_ok = match ifc.get("properties") {
        Some(pv) => match pv {
            JsonValue::Object(ip) => {
                proof {
                    lemma_json_compound(*pv);
                }
                let ghost ipm = json_entries(ip@);
                let mut ok = true;
                for i in 0..ip.len()
                    invariant
                        fm == json_entries(fo@),
                        ipm == json_entries(ip@),
                        ok == (forall|k: int| 0 <= k < i ==> #[trigger] if_property_holds(fm, ipm[k].0, ipm[k].1)),
                {
                    proof {
                        assert(ipm[i as int] == (ip@[i as int].0@, ip@[i as int].1@));
                    }
                    let holds = match entries_lookup(fo, ip[i].0.as_str()) {
                        None => false,
                        Some(v) => match ip[i].1.get("const") {
                            Some(JsonValue::Text(c)) => match v {
                                JsonValue::Text(s) => str_eq(s.as_str(), c.as_str()),
                                _ => false,
                            },
                            _ => true,
                        },
                    };
                    proof {
                        assert(holds == if_property_holds(fm, ipm[i as int].0, ipm[i as int].1));
                    }
                    ok = ok && holds;
                    proof {
                        if !holds {
                            assert(!if_property_holds(fm, ipm[i as int].0, ipm[i as int].1));
                        }
                    }
                }
                ok
            },
            _ => true,
        },
        None => true,
    };
    let required_ok = match ifc.get("required") {
        Some(rv) => match rv {
            JsonValue::List(rs) => {
                proof {
                    lemma_json_compound(*rv);
                }
                let ghost rsm = json_items(rs@);
                let mut ok = true;
                for i in 0..rs.len()
                    invariant
                        fm == json_entries(fo@),
                        rsm == json_items(rs@),
                        ok == (forall|k: int| 0 <= k < i ==> (#[trigger] rsm[k] matches JsonModel::Text(f) && entries_have(fm, f))),
                {
                    proof {
                        assert(rsm[i as int] == rs@[i as int]@);
                    }
                    let holds = match &rs[i] {
                        JsonValue::Text(f) => entries_contain(fo, f.as_str()),
                        _ => false,
                    };
                    ok = ok && holds;
                }
                ok
            },
            _ => true,
        },
        None => true,
    };
    props_ok && required_ok
}

/// The type an `if` clause selects (`properties.type.const`), when a string.
fn const_type_of(ifc: &JsonValue) -> (r: Option<&String>)
    ensures
        match r {
            Some(s) => const_type(ifc@) == Some(s@),
            None => const_type(ifc@) is None,
        },
{
    match ifc.get("properties") {
        Some(p) => match p.get("type") {
            Some(t) => match t.get("const") {
                Some(JsonValue::Text(s)) => Some(s),
                _ => None,
            },
            None => None,
        },
        None => None,
    }
}

/// The entries for one `allOf` condition.
fn check_condition(path: &str, fo: &Vec<(String, JsonValue)>, cond: &JsonValue) -> (r: Vec<DriftEntry>)
    ensures
        drift_views(r@) == condition_drift(path@, json_entries(fo@), cond@),
{
    let ghost fm = json_entries(fo@);
    let ifc = match cond.get("if") {
        Some(x) => x,
        None => return Vec::new(),
    };
    let thenc = match cond.get("then") {
        Some(x) => x,
        None => return Vec::new(),
    };
    if !if_clause_holds(fo, ifc) {
        return Vec::new();
    }
    match thenc.get("required") {
        Some(rv) => match rv {
            JsonValue::List(req) => {
                proof {
                    lemma_json_compound(*rv);
                }
                let t: &str = match const_type_of(ifc) {
                    Some(s) => s.as_str(),
                    None => "unknown",
                };
                let r = check_required(path, req, fo, Some(t));
                proof {
                    let tt = match const_type(ifc@) { Some(s) => s, None => "unknown"@ };
                    assert(t@ == tt);
                    assert(missing_fields(json_items(req@), fm).map_values(|f: Seq<char>| required_entry(path@, f, Some(t@)))
                        =~= missing_fields(json_items(req@), fm).map_values(
                            |f: Seq<char>| drift(path@, DriftCategory::FrontmatterRequiredMissing, typed_required_msg(f, tt)),
                        ));
                }
                r
            },
            _ => Vec::new(),
        },
        None => Vec::new(),
    }
}

/// Validates a file's frontmatter against a parsed JSON Schema. Without a
/// schema nothing is reported; a file without parsable frontmatter yields one
/// `FrontmatterRequiredMissing` entry; otherwise the entries are the missing
/// `required` fields, then for each member (in key order) its type, enum or
/// unknown-field finding, then the missing fields of each matching `allOf`
/// condition.
pub fn check_frontmatter(path: &str, content: &str, schema: Option<&JsonValue>) -> (r: Vec<DriftEntry>)
    ensures
        drift_views(r@) == frontmatter_drift(path@, content@, match schema { Some(s) => Some(s@), None => None }),
{
    let mut out: Vec<DriftEntry> = Vec::new();
    let schema = match schema {
        Some(s) => s,
        None => {
            proof {
                assert(drift_views(out@) =~= Seq::<DriftView>::empty());
            }
            return out;
        },
    };
    let fm_yaml = match parse_frontmatter(content) {
        Some(y) => y,
        None => {
            push_entry(&mut out, DriftEntry::new(path.to_string(), DriftCategory::FrontmatterRequiredMissing, String::from_str("file has no frontmatter")));
            proof {
                assert(drift_views(out@) =~= seq![drift(path@, DriftCategory::FrontmatterRequiredMissing, no_frontmatter_msg())]);
            }
            return out;
        },
    };
    let more = check_parsed_frontmatter(path, &fm_yaml, schema);
    append_entries(&mut out, more);
    proof {
        assert(drift_views(out@) =~= frontmatter_drift(path@, content@, Some(schema@)));
    }
    out
}

/// Validates a parsed frontmatter value against a JSON Schema: the entries
/// are the missing `required` fields, then for each member (in key order) its
/// type, enum or unknown-field finding, then the missing fields of each
/// matching `allOf` condition; a value that is not a mapping yields none.
pub fn check_parsed_frontmatter(path: &str, fm: &YamlValue, schema: &JsonValue) -> (r: Vec<DriftEntry>)
    ensures
        drift_views(r@) == frontmatter_value_drift(path@, yaml_to_json_model(fm@), schema@),
{
    let fm_json = yaml_to_json(fm);
    check_frontmatter_value(path, &fm_json, schema)
}

/// Validates a frontmatter value, as JSON, against a JSON Schema.
fn check_frontmatter_value(path: &str, fm_json: &JsonValue, schema: &JsonValue) -> (r: Vec<DriftEntry>)
    ensures
        drift_views(r@) == frontmatter_value_drift(path@, fm_json@, schema@),
{
    let mut out: Vec<DriftEntry> = Vec::new();
    let fo = match fm_json {
        JsonValue::Object(m) => m,
        _ => {
            proof {
                assert(drift_views(out@) =~= Seq::<DriftView>::empty());
            }
            return out;
        },
    };
    proof {
        lemma_json_compound(*fm_json);
    }
    let ghost fm = json_entries(fo@);
    let ghost req_part = match model_get(schema@, "required"@) {
        Some(JsonModel::List(req)) => missing_fields(req, fm).map_values(
            |f: Seq<char>| drift(path@, DriftCategory::FrontmatterRequiredMissing, required_msg(f)),
        ),
        _ => Seq::empty(),
    };
    match schema.get("required") {
        Some(rv) => match rv {
            JsonValue::List(req) => {
                proof {
                    lemma_json_compound(*rv);
                }
                let more = check_required(path, req, fo, None);
                append_entries(&mut out, more);
                proof {
                    assert(drift_views(out@) =~= req_part);
                }
            },
            _ => {},
        },
        None => {},
    }
    proof {
        assert(drift_views(out@) =~= req_part);
    }
    match schema.get("properties") {
        Some(pv) => match pv {
            JsonValue::Object(props) => {
                proof {
                    lemma_json_compound(*pv);
                }
                let ghost pm = json_entries(props@);
                for i in 0..fo.len()
                    invariant
                        fm == json_entries(fo@),
                        pm == json_entries(props@),
                        drift_views(out@) == req_part + properties_drift(path@, fm.take(i as int), pm),
                {
                    proof {
                        lemma_entries_take_push(fo@, i as int);
                        assert(fm.take(i + 1) == json_entries(fo@.take(i + 1)));
                        assert(fm.take(i as int) == json_entries(fo@.take(i as int)));
                        assert(fm.take(i + 1).drop_last() =~= fm.take(i as int));
                    }
                    let more = check_property(path, fo[i].0.as_str(), &fo[i].1, props);
                    append_entries(&mut out, more);
                    proof {
                        assert(req_part + properties_drift(path@, fm.take(i + 1), pm)
                            =~= req_part + properties_drift(path@, fm.take(i as int), pm) + property_drift(path@, fo@[i as int].0@, fo@[i as int].1@, pm));
                    }
                }
                proof {
                    assert(fm.take(fo.len() as int) =~= fm);
                }
            },
            _ => {},
        },
        None => {},
    }
    let ghost props_part = match model_get(schema@, "properties"@) {
        Some(JsonModel::Object(ps)) => properties_drift(path@, fm, ps),
        _ => Seq::empty(),
    };
    proof {
        assert(drift_views(out@) =~= req_part + props_part);
    }
    match schema.get("allOf") {
        Some(av) => match av {
            JsonValue::List(conds) => {
                proof {
                    lemma_json_compound(*av);
                }
                let ghost cm = json_items(conds@);
                for i in 0..conds.len()
                    invariant
                        fm == json_entries(fo@),
                        cm == json_items(conds@),
                        drift_views(out@) == req_part + props_part + conditions_drift(path@, fm, cm.take(i as int)),
                {
                    proof {
                        lemma_items_take_push(conds@, i as int);
                        assert(cm.take(i + 1) == json_items(conds@.take(i + 1)));
                        assert(cm.take(i as int) == json_items(conds@.take(i as int)));
                        assert(cm.take(i + 1).drop_last() =~= cm.take(i as int));
                    }
                    let more = check_condition(path, fo, &conds[i]);
                    append_entries(&mut out, more);
                    proof {
                        assert(req_part + props_part + conditions_drift(path@, fm, cm.take(i + 1))
                            =~= req_part + props_part + conditions_drift(path@, fm, cm.take(i as int)) + condition_drift(path@, fm, conds@[i as int]@));
                    }
                }
                proof {
                    assert(cm.take(conds.len() as int) =~= cm);
                }
            },
            _ => {},
        },
        None => {},
    }
    proof {
        let conds_part = match model_get(schema@, "allOf"@) {
            Some(JsonModel::List(cs)) => conditions_drift(path@, fm, cs),
            _ => Seq::empty(),
        };
        assert(drift_views(out@) =~= req_part + props_part + conds_part);
    }
    out
}

} // verus!
