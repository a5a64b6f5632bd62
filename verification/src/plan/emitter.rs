//! Classification of drift entries into mechanical plan operations and
//! judgment cases.

use vstd::prelude::*;
use vstd::string::StringExecFns;
use crate::audit::drift::{DriftCategory, DriftEntry, DriftView, drift_views};
use crate::files::{FileTree, NodeView, file_name, file_name_of, join_path, parent, parent_of, path_join, strip_root, strip_root_of, text_at};
use crate::plan::judgment_iface::JudgmentEmitter;
use crate::plan::types::{MainOpView, FmOpView, main_op_views, fm_op_views, CaseView, FmPlan, FmPlanOp, GapReportRow, JudgmentCase, JudgmentCategory, MainPlan, MainPlanOp, case_view, case_views, opt_text, row_views};
use crate::template::LoadedTemplate;
use crate::text::{find, find_chars, from_chars, slice_chars, str_eq, to_chars};
use crate::audit::frontmatter::{frontmatter_yaml, parse_frontmatter};
use crate::json::{JsonModel, model_get};
use crate::yaml::{yaml_to_json, yaml_to_json_model};
use crate::toml_value::{TomlModel, TomlValue, lemma_toml_compound, parse_toml, toml_document, toml_get, toml_items};

verus! {

// ---------------------------------------------------------------------------
// Folder number map (`folder-rules.toml`)
// ---------------------------------------------------------------------------

pub open spec fn is_digit(c: char) -> bool {
    '0' <= c && c <= '9'
}

/// The `folder` of every category, or `None` when the document does not
/// have the shape `[[categories]]` tables with a string `folder` each.
pub open spec fn category_folders(items: Seq<TomlModel>) -> Option<Seq<Seq<char>>>
    decreases items.len(),
{
    if items.len() == 0 {
        Some(Seq::empty())
    } else {
        match category_folders(items.drop_last()) {
            None => None,
            Some(fs) => {
                let it = items.last();
                if it is Table {
                    match toml_get(it, "folder"@) {
                        Some(TomlModel::Text(f)) => Some(fs.push(f)),
                        _ => None,
                    }
                } else {
                    None
                }
            },
        }
    }
}

/// The folders a `folder-rules.toml` document declares; a missing
/// `categories` key declares none.
pub open spec fn rules_folders(doc: TomlModel) -> Option<Seq<Seq<char>>> {
    match toml_get(doc, "categories"@) {
        None => Some(Seq::empty()),
        Some(TomlModel::Array(items)) => category_folders(items),
        Some(_) => None,
    }
}

/// For a folder named `NN-name`, the pair `(name, NN-name)`.
pub open spec fn numbered_pair(f: Seq<char>) -> Option<(Seq<char>, Seq<char>)> {
    match find(f, "-"@) {
        Some(i) => if i == 2 && is_digit(f[0]) && is_digit(f[1]) {
            Some((f.skip(3), f))
        } else {
            None
        },
        None => None,
    }
}

/// The map pairs the folders give, in order; later pairs win.
pub open spec fn folder_pairs(fs: Seq<Seq<char>>) -> Seq<(Seq<char>, Seq<char>)>
    decreases fs.len(),
{
    if fs.len() == 0 {
        Seq::empty()
    } else {
        let rest = folder_pairs(fs.drop_last());
        match numbered_pair(fs.last()) {
            Some(p) => rest.push(p),
            None => rest,
        }
    }
}

/// The parsed `folder-rules.toml` of a template directory, when it has a
/// readable, well-formed one.
pub open spec fn rules_doc(t: Seq<NodeView>, dir: Option<Seq<char>>) -> Option<TomlModel> {
    match dir {
        None => None,
        Some(d) => match text_at(t, path_join(d, "folder-rules.toml"@)) {
            None => None,
            Some(c) => match toml_document(c) {
                Err(_) => None,
                Ok(doc) => Some(doc),
            },
        },
    }
}

/// The category folder number map of a template directory: empty when it
/// has no readable, well-formed `folder-rules.toml`.
pub open spec fn rules_folder_map(t: Seq<NodeView>, dir: Option<Seq<char>>) -> Seq<(Seq<char>, Seq<char>)> {
    match rules_doc(t, dir) {
        None => Seq::empty(),
        Some(doc) => rules_map(doc),
    }
}

/// The folder number map for a corpus: the category folders of the
/// template's `folder-rules.toml`, then the folders its
/// `[[engine_class_extensions]]` give the corpus's engine class (these win
/// over a category folder of the same name).
pub open spec fn folder_map(t: Seq<NodeView>, dir: Option<Seq<char>>, corpus: Seq<char>) -> Seq<(Seq<char>, Seq<char>)> {
    match rules_doc(t, dir) {
        None => Seq::empty(),
        Some(doc) => rules_map(doc) + class_map(doc, engine_class_of(t, corpus)),
    }
}

// ---------------------------------------------------------------------------
// Engine-class extensions
// ---------------------------------------------------------------------------

/// The path of a corpus's identity index, `<corpus>/01-identity/_INDEX.md`.
pub open spec fn identity_index(corpus: Seq<char>) -> Seq<char> {
    path_join(path_join(corpus, "01-identity"@), "_INDEX.md"@)
}

/// A string field of the frontmatter of the corpus's identity index; `None`
/// when the file, its frontmatter or a string under `key` is missing.
pub open spec fn identity_field(t: Seq<NodeView>, corpus: Seq<char>, key: Seq<char>) -> Option<Seq<char>> {
    match text_at(t, identity_index(corpus)) {
        None => None,
        Some(c) => match frontmatter_yaml(c) {
            None => None,
            Some(y) => match model_get(yaml_to_json_model(y), key) {
                Some(JsonModel::Text(v)) => Some(v),
                _ => None,
            },
        },
    }
}

/// The engine class of a corpus: the `engine_class` field of its identity
/// index.
pub open spec fn engine_class_of(t: Seq<NodeView>, corpus: Seq<char>) -> Option<Seq<char>> {
    identity_field(t, corpus, "engine_class"@)
}

/// The string items of a TOML array, in order; other items are skipped.
pub open spec fn toml_texts(items: Seq<TomlModel>) -> Seq<Seq<char>>
    decreases items.len(),
{
    if items.len() == 0 {
        Seq::empty()
    } else {
        let rest = toml_texts(items.drop_last());
        match items.last() {
            TomlModel::Text(f) => rest.push(f),
            _ => rest,
        }
    }
}

/// The folders one `[[engine_class_extensions]]` entry gives engine class
/// `k`: its `folders` when its `engine_class` is `k`. An entry without a
/// string `engine_class` and an array `folders` gives none.
pub open spec fn extension_folders(it: TomlModel, k: Seq<char>) -> Seq<Seq<char>> {
    match (toml_get(it, "engine_class"@), toml_get(it, "folders"@)) {
        (Some(TomlModel::Text(c)), Some(TomlModel::Array(fs))) => if c == k {
            toml_texts(fs)
        } else {
            Seq::empty()
        },
        _ => Seq::empty(),
    }
}

/// The folders all extension entries give engine class `k`, in order.
pub open spec fn extensions_folders(items: Seq<TomlModel>, k: Seq<char>) -> Seq<Seq<char>>
    decreases items.len(),
{
    if items.len() == 0 {
        Seq::empty()
    } else {
        extensions_folders(items.drop_last(), k) + extension_folders(items.last(), k)
    }
}

/// The map pairs the engine-class extensions of a `folder-rules.toml`
/// document give an engine class; none without a class.
pub open spec fn class_map(doc: TomlModel, class: Option<Seq<char>>) -> Seq<(Seq<char>, Seq<char>)> {
    match class {
        None => Seq::empty(),
        Some(k) => match toml_get(doc, "engine_class_extensions"@) {
            Some(TomlModel::Array(items)) => folder_pairs(extensions_folders(items, k)),
            _ => Seq::empty(),
        },
    }
}

/// The value of the last pair with key `k`.
pub open spec fn map_lookup(m: Seq<(Seq<char>, Seq<char>)>, k: Seq<char>) -> Option<Seq<char>>
    decreases m.len(),
{
    if m.len() == 0 {
        None
    } else if m.last().0 == k {
        Some(m.last().1)
    } else {
        map_lookup(m.drop_last(), k)
    }
}

/// The pair a folder name gives, if it is `NN-name`.
fn numbered_pair_of(f: &String) -> (r: Option<(String, String)>)
    ensures
        match r {
            Some(p) => numbered_pair(f@) == Some((p.0@, p.1@)),
            None => numbered_pair(f@) is None,
        },
{
    let c = to_chars(f.as_str());
    let dash = to_chars("-");
    proof {
        reveal_strlit("-");
        lemma_find_bounds(f@, "-"@, 0);
    }
    match find_chars(c.as_slice(), dash.as_slice()) {
        Some(i) => {
            if i == 2 && '0' <= c[0] && c[0] <= '9' && '0' <= c[1] && c[1] <= '9' {
                let name = slice_chars(c.as_slice(), 3, c.len());
                proof {
                    assert(name@ =~= f@.skip(3));
                }
                Some((from_chars(name.as_slice()), f.clone()))
            } else {
                None
            }
        },
        None => None,
    }
}

/// Reads the folder number map from `<template_dir>/folder-rules.toml`: each
/// category folder `NN-name` maps `name` to `NN-name`.
pub fn load_folder_number_map(template_dir: &Option<String>, tree: &FileTree) -> (r: Vec<(String, String)>)
    ensures
        r@.map_values(|p: (String, String)| (p.0@, p.1@)) == rules_folder_map(tree@, opt_text(*template_dir)),
{
    let empty: Vec<(String, String)> = Vec::new();
    proof {
        assert(empty@.map_values(|p: (String, String)| (p.0@, p.1@)) =~= Seq::<(Seq<char>, Seq<char>)>::empty());
    }
    let d = match template_dir {
        Some(d) => d,
        None => return empty,
    };
    let path = join_path(d.as_str(), "folder-rules.toml");
    let content = match tree.read_text(path.as_str()) {
        Some(c) => c,
        None => return empty,
    };
    let doc = match parse_toml(content.as_str()) {
        Ok(v) => v,
        Err(_) => return empty,
    };
    let r = folder_map_from_rules(&doc);
    proof {
        assert(rules_folder_map(tree@, opt_text(*template_dir)) == rules_map(doc@));
    }
    r
}

/// The folder number map a `folder-rules.toml` document gives: empty when
/// it is not well formed.
pub open spec fn rules_map(doc: TomlModel) -> Seq<(Seq<char>, Seq<char>)> {
    match rules_folders(doc) {
        None => Seq::empty(),
        Some(fs) => folder_pairs(fs),
    }
}

/// Reads the folder number map from a parsed `folder-rules.toml`: each
/// category folder `NN-name` maps `name` to `NN-name`.
pub fn folder_map_from_rules(doc: &TomlValue) -> (r: Vec<(String, String)>)
    ensures
        r@.map_values(|p: (String, String)| (p.0@, p.1@)) == rules_map(doc@),
{
    let empty: Vec<(String, String)> = Vec::new();
    proof {
        assert(empty@.map_values(|p: (String, String)| (p.0@, p.1@)) =~= Seq::<(Seq<char>, Seq<char>)>::empty());
    }
    let items = match doc.get("categories") {
        None => return empty,
        Some(v) => match v {
            TomlValue::Array(items) => {
                proof {
                    lemma_toml_compound(*v);
                }
                items
            },
            _ => return empty,
        },
    };
    let ghost im = toml_items(items@);
    proof {
        assert(rules_map(doc@) == match category_folders(im) {
            None => Seq::empty(),
            Some(fs) => folder_pairs(fs),
        });
    }
    let mut folders: Vec<String> = Vec::new();
    for i in 0..items.len()
        invariant
            im == toml_items(items@),
            empty@.len() == 0,
            rules_map(doc@) == match category_folders(im) {
                None => Seq::empty(),
                Some(fs) => folder_pairs(fs),
            },
            category_folders(im.take(i as int)) == Some(folders@.map_values(|f: String| f@)),
    {
        proof {
            assert(im.take(i + 1).drop_last() =~= im.take(i as int));
            assert(im.take(i + 1).last() == items@[i as int]@);
        }
        let it = &items[i];
        let ok = match it {
            TomlValue::Table(_) => match it.get("folder") {
                Some(TomlValue::Text(f)) => {
                    let ghost before = folders@;
                    folders.push(f.clone());
                    proof {
                        assert(folders@.map_values(|g: String| g@) =~= before.map_values(|g: String| g@).push(f@));
                    }
                    true
                },
                _ => false,
            },
            _ => false,
        };
        if !ok {
            proof {
                assert(empty@.map_values(|p: (String, String)| (p.0@, p.1@)) =~= Seq::<(Seq<char>, Seq<char>)>::empty());
                assert(category_folders(im.take(i + 1)) is None);
                lemma_category_folders_none(im, i + 1);
            }
            return empty;
        }
    }
    proof {
        assert(im.take(im.len() as int) =~= im);
    }
    let ghost fs = folders@.map_values(|f: String| f@);
    let mut map: Vec<(String, String)> = Vec::new();
    proof {
        assert(map@.map_values(|p: (String, String)| (p.0@, p.1@)) =~= folder_pairs(fs.take(0)));
    }
    for i in 0..folders.len()
        invariant
            fs == folders@.map_values(|f: String| f@),
            rules_map(doc@) == folder_pairs(fs),
            map@.map_values(|p: (String, String)| (p.0@, p.1@)) == folder_pairs(fs.take(i as int)),
    {
        proof {
            assert(fs.take(i + 1).drop_last() =~= fs.take(i as int));
            assert(fs.take(i + 1).last() == folders@[i as int]@);
        }
        match numbered_pair_of(&folders[i]) {
            Some(p) => {
                let ghost before = map@;
                map.push(p);
                proof {
                    assert(map@.map_values(|p: (String, String)| (p.0@, p.1@)) =~= before.map_values(
                        |p: (String, String)| (p.0@, p.1@),
                    ).push((p.0@, p.1@)));
                }
            },
            None => {},
        }
    }
    proof {
        assert(fs.take(fs.len() as int) =~= fs);
    }
    map
}

/// The string items of a TOML array, in order.
fn texts_of(items: &Vec<TomlValue>) -> (r: Vec<String>)
    ensures
        r@.map_values(|f: String| f@) == toml_texts(toml_items(items@)),
{
    let ghost im = toml_items(items@);
    let mut out: Vec<String> = Vec::new();
    proof {
        assert(out@.map_values(|f: String| f@) =~= toml_texts(im.take(0)));
    }
    for i in 0..items.len()
        invariant
            im == toml_items(items@),
            out@.map_values(|f: String| f@) == toml_texts(im.take(i as int)),
    {
        proof {
            assert(im.take(i + 1).drop_last() =~= im.take(i as int));
            assert(im.take(i + 1).last() == items@[i as int]@);
        }
        let ghost before = out@;
        match &items[i] {
            TomlValue::Text(f) => {
                out.push(f.clone());
                proof {
                    assert(out@.map_values(|g: String| g@) =~= before.map_values(|g: String| g@).push(f@));
                }
            },
            _ => {},
        }
    }
    proof {
        assert(im.take(im.len() as int) =~= im);
    }
    out
}

/// The folders one `[[engine_class_extensions]]` entry gives engine class `k`.
fn extension_folders_of(it: &TomlValue, k: &str) -> (r: Vec<String>)
    ensures
        r@.map_values(|f: String| f@) == extension_folders(it@, k@),
{
    let empty: Vec<String> = Vec::new();
    proof {
        assert(empty@.map_values(|f: String| f@) =~= Seq::<Seq<char>>::empty());
    }
    match (it.get("engine_class"), it.get("folders")) {
        (Some(TomlValue::Text(c)), Some(fv)) => match fv {
            TomlValue::Array(fs) => {
                proof {
                    lemma_toml_compound(*fv);
                }
                if str_eq(c.as_str(), k) {
                    texts_of(fs)
                } else {
                    empty
                }
            },
            _ => empty,
        },
        _ => empty,
    }
}

/// The folders all extension entries give engine class `k`, in order.
fn class_folders(items: &Vec<TomlValue>, k: &str) -> (r: Vec<String>)
    ensures
        r@.map_values(|f: String| f@) == extensions_folders(toml_items(items@), k@),
{
    let ghost im = toml_items(items@);
    let mut out: Vec<String> = Vec::new();
    proof {
        assert(out@.map_values(|f: String| f@) =~= extensions_folders(im.take(0), k@));
    }
    for i in 0..items.len()
        invariant
            im == toml_items(items@),
            out@.map_values(|f: String| f@) == extensions_folders(im.take(i as int), k@),
    {
        proof {
            assert(im.take(i + 1).drop_last() =~= im.take(i as int));
            assert(im.take(i + 1).last() == items@[i as int]@);
        }
        let mut more = extension_folders_of(&items[i], k);
        let ghost before = out@;
        let ghost added = more@;
        out.append(&mut more);
        proof {
            assert(out@.map_values(|g: String| g@) =~= before.map_values(|g: String| g@) + added.map_values(|g: String| g@));
        }
    }
    proof {
        assert(im.take(im.len() as int) =~= im);
    }
    out
}

/// The map pairs numbered folders give, in order.
fn pairs_of(folders: &Vec<String>) -> (r: Vec<(String, String)>)
    ensures
        r@.map_values(|p: (String, String)| (p.0@, p.1@)) == folder_pairs(folders@.map_values(|f: String| f@)),
{
    let ghost fs = folders@.map_values(|f: String| f@);
    let mut map: Vec<(String, String)> = Vec::new();
    proof {
        assert(map@.map_values(|p: (String, String)| (p.0@, p.1@)) =~= folder_pairs(fs.take(0)));
    }
    for i in 0..folders.len()
        invariant
            fs == folders@.map_values(|f: String| f@),
            map@.map_values(|p: (String, String)| (p.0@, p.1@)) == folder_pairs(fs.take(i as int)),
    {
        proof {
            assert(fs.take(i + 1).drop_last() =~= fs.take(i as int));
            assert(fs.take(i + 1).last() == folders@[i as int]@);
        }
        match numbered_pair_of(&folders[i]) {
            Some(p) => {
                let ghost before = map@;
                map.push(p);
                proof {
                    assert(map@.map_values(|p: (String, String)| (p.0@, p.1@)) =~= before.map_values(
                        |p: (String, String)| (p.0@, p.1@),
                    ).push((p.0@, p.1@)));
                }
            },
            None => {},
        }
    }
    proof {
        assert(fs.take(fs.len() as int) =~= fs);
    }
    map
}

/// Reads the engine-class folder map from a parsed `folder-rules.toml`:
/// each folder `NN-name` that an `[[engine_class_extensions]]` entry lists
/// for `class` maps `name` to `NN-name`; none without a class.
pub fn class_map_from_rules(doc: &TomlValue, class: &Option<String>) -> (r: Vec<(String, String)>)
    ensures
        r@.map_values(|p: (String, String)| (p.0@, p.1@)) == class_map(doc@, opt_text(*class)),
{
    let empty: Vec<(String, String)> = Vec::new();
    proof {
        assert(empty@.map_values(|p: (String, String)| (p.0@, p.1@)) =~= Seq::<(Seq<char>, Seq<char>)>::empty());
    }
    let k = match class {
        Some(k) => k,
        None => return empty,
    };
    match doc.get("engine_class_extensions") {
        Some(v) => match v {
            TomlValue::Array(items) => {
                proof {
                    lemma_toml_compound(*v);
                }
                let folders = class_folders(items, k.as_str());
                pairs_of(&folders)
            },
            _ => empty,
        },
        None => empty,
    }
}

/// Reads a string field of the frontmatter of
/// `<corpus_root>/01-identity/_INDEX.md`.
pub fn read_identity_field(corpus_root: &str, key: &str, tree: &FileTree) -> (r: Option<String>)
    ensures
        opt_text(r) == identity_field(tree@, corpus_root@, key@),
{
    let d = join_path(corpus_root, "01-identity");
    let p = join_path(d.as_str(), "_INDEX.md");
    let c = match tree.read_text(p.as_str()) {
        Some(c) => c,
        None => return None,
    };
    let y = match parse_frontmatter(c.as_str()) {
        Some(y) => y,
        None => return None,
    };
    let j = yaml_to_json(&y);
    match j.get(key) {
        Some(v) => match v.as_text() {
            Some(s) => Some(s.clone()),
            None => None,
        },
        None => None,
    }
}

/// Reads the folder number map for a corpus: the category folders of
/// `<template_dir>/folder-rules.toml`, then the folders its engine-class
/// extensions give the engine class of `<corpus_root>/01-identity/_INDEX.md`.
pub fn load_folder_map(template_dir: &Option<String>, corpus_root: &str, tree: &FileTree) -> (r: Vec<(String, String)>)
    ensures
        r@.map_values(|p: (String, String)| (p.0@, p.1@)) == folder_map(tree@, opt_text(*template_dir), corpus_root@),
{
    let empty: Vec<(String, String)> = Vec::new();
    proof {
        assert(empty@.map_values(|p: (String, String)| (p.0@, p.1@)) =~= Seq::<(Seq<char>, Seq<char>)>::empty());
    }
    let d = match template_dir {
        Some(d) => d,
        None => return empty,
    };
    let path = join_path(d.as_str(), "folder-rules.toml");
    let content = match tree.read_text(path.as_str()) {
        Some(c) => c,
        None => return empty,
    };
    let doc = match parse_toml(content.as_str()) {
        Ok(v) => v,
        Err(_) => return empty,
    };
    let mut m = folder_map_from_rules(&doc);
    let class = read_identity_field(corpus_root, "engine_class", tree);
    let mut extra = class_map_from_rules(&doc, &class);
    let ghost a = m@;
    let ghost b = extra@;
    m.append(&mut extra);
    proof {
        assert(m@.map_values(|p: (String, String)| (p.0@, p.1@)) =~= a.map_values(|p: (String, String)| (p.0@, p.1@))
            + b.map_values(|p: (String, String)| (p.0@, p.1@)));
    }
    m
}

/// A failed prefix makes every longer prefix fail.
proof fn lemma_category_folders_none(items: Seq<TomlModel>, i: int)
    requires
        0 <= i <= items.len(),
        category_folders(items.take(i)) is None,
    ensures
        category_folders(items) is None,
    decreases items.len() - i,
{
    if i < items.len() {
        assert(items.take(i + 1).drop_last() =~= items.take(i));
        lemma_category_folders_none(items, i + 1);
    } else {
        assert(items.take(i) =~= items);
    }
}

/// The value of the last pair with key `k`.
fn lookup_folder(m: &Vec<(String, String)>, k: &str) -> (r: Option<String>)
    ensures
        match r {
            Some(v) => map_lookup(m@.map_values(|p: (String, String)| (p.0@, p.1@)), k@) == Some(v@),
            None => map_lookup(m@.map_values(|p: (String, String)| (p.0@, p.1@)), k@) is None,
        },
{
    let ghost mm = m@.map_values(|p: (String, String)| (p.0@, p.1@));
    let mut i = m.len();
    proof {
        assert(mm.take(i as int) =~= mm);
    }
    while i > 0
        invariant
            i <= m@.len(),
            mm == m@.map_values(|p: (String, String)| (p.0@, p.1@)),
            map_lookup(mm, k@) == map_lookup(mm.take(i as int), k@),
        decreases i,
    {
        proof {
            assert(mm.take(i as int).last() == mm[i - 1]);
            assert(mm.take(i as int).drop_last() =~= mm.take(i - 1));
        }
        if str_eq(m[i - 1].0.as_str(), k) {
            return Some(m[i - 1].1.clone());
        }
        i -= 1;
    }
    None
}

// ---------------------------------------------------------------------------
// Message fields and plan paths
// ---------------------------------------------------------------------------

/// The field a frontmatter message names: the text between `field '` and the
/// next `'`.
pub open spec fn extracted_field(msg: Seq<char>) -> Option<Seq<char>> {
    match find(msg, "field '"@) {
        Some(i) => {
            let start = i + 7;
            match find(msg.skip(start), "'"@) {
                Some(e) => Some(msg.subrange(start, start + e)),
                None => None,
            }
        },
        None => None,
    }
}

proof fn lemma_find_bounds(s: Seq<char>, p: Seq<char>, i: int)
    ensures
        crate::text::find_from(s, p, i) matches Some(k) ==> i <= k && k + p.len() <= s.len(),
    decreases s.len() + 1 - i,
{
    if i >= 0 && i + p.len() <= s.len() && !crate::text::occurs_at(s, p, i) {
        lemma_find_bounds(s, p, i + 1);
    }
}

/// The field name in a frontmatter drift message (`required field 'X' is
/// absent`, `field 'X' expected ...`).
pub fn extract_field_from_message(msg: &str) -> (r: Option<String>)
    ensures
        match r {
            Some(f) => extracted_field(msg@) == Some(f@),
            None => extracted_field(msg@) is None,
        },
{
    let c = to_chars(msg);
    let marker = to_chars("field '");
    proof {
        reveal_strlit("field '");
        reveal_strlit("'");
    }
    let i = match find_chars(c.as_slice(), marker.as_slice()) {
        Some(i) => i,
        None => return None,
    };
    proof {
        lemma_find_bounds(msg@, "field '"@, 0);
        assert("field '"@.len() == 7);
        assert(i + 7 <= c@.len());
    }
    let n = c.len();
    assert(i + 7 <= n);
    let start = i + 7;
    let rest = slice_chars(c.as_slice(), start, c.len());
    proof {
        assert(rest@ =~= msg@.skip(start as int));
    }
    let quote = to_chars("'");
    match find_chars(rest.as_slice(), quote.as_slice()) {
        Some(e) => {
            proof {
                lemma_find_bounds(rest@, "'"@, 0);
            }
            let f = slice_chars(c.as_slice(), start, start + e);
            Some(from_chars(f.as_slice()))
        },
        None => None,
    }
}

/// Backslashes turned into forward slashes.
pub open spec fn slashes(s: Seq<char>) -> Seq<char> {
    s.map_values(|c: char| if c == '\\' { '/' } else { c })
}

fn to_slashes(s: &str) -> (r: String)
    ensures
        r@ == slashes(s@),
{
    let c = to_chars(s);
    let mut out: Vec<char> = Vec::new();
    for i in 0..c.len()
        invariant
            c@ == s@,
            out@ == slashes(c@.take(i as int)),
    {
        let ch = if c[i] == '\\' { '/' } else { c[i] };
        out.push(ch);
        proof {
            assert(out@ =~= slashes(c@.take(i + 1)));
        }
    }
    proof {
        assert(c@.take(c@.len() as int) =~= c@);
    }
    from_chars(out.as_slice())
}

/// A path relative to `root` when it lies below it, else the whole path.
pub open spec fn plan_path(root: Seq<char>, p: Seq<char>) -> Seq<char> {
    match strip_root(root, p) {
        Some(r) => slashes(r),
        None => slashes(p),
    }
}

fn plan_path_of(root: &str, p: &str) -> (r: String)
    ensures
        r@ == plan_path(root@, p@),
{
    match strip_root_of(root, p) {
        Some(rel) => to_slashes(rel.as_str()),
        None => to_slashes(p),
    }
}

/// Where a folder moves: next to it, under its numbered name.
pub open spec fn move_dst(root: Seq<char>, p: Seq<char>, numbered: Seq<char>) -> Seq<char> {
    match parent(p) {
        Some(q) => match strip_root(root, q) {
            Some(r) => if slashes(r).len() > 0 {
                slashes(r) + "/"@ + numbered
            } else {
                numbered
            },
            None => numbered,
        },
        None => numbered,
    }
}

fn move_dst_of(root: &str, p: &str, numbered: &str) -> (r: String)
    ensures
        r@ == move_dst(root@, p@, numbered@),
{
    match parent_of(p) {
        Some(q) => match strip_root_of(root, q.as_str()) {
            Some(rel) => {
                let s = to_slashes(rel.as_str());
                if s.as_str().unicode_len() > 0 {
                    let mut d = s;
                    d.append("/");
                    d.append(numbered);
                    d
                } else {
                    numbered.to_string()
                }
            },
            None => numbered.to_string(),
        },
        None => numbered.to_string(),
    }
}

// ---------------------------------------------------------------------------
// Classification
// ---------------------------------------------------------------------------

pub open spec fn needs_prefix_msg(folder: Seq<char>) -> Seq<char> {
    "folder '"@ + folder + "' needs a numbered prefix; no mapping found in template folder-rules"@
}

pub open spec fn author_index_msg(p: Seq<char>) -> Seq<char> {
    "_INDEX.md must be authored in '"@ + p + "'; content authoring not automatable"@
}

/// The structural operation an entry yields, if any.
pub open spec fn entry_main_op(m: Seq<(Seq<char>, Seq<char>)>, root: Seq<char>, e: DriftView) -> Option<MainOpView> {
    if e.category == DriftCategory::FolderShape {
        let folder = match file_name(e.path) { Some(n) => n, None => Seq::empty() };
        match map_lookup(m, folder) {
            Some(numbered) => Some(MainOpView::Move(plan_path(root, e.path), move_dst(root, e.path, numbered))),
            None => None,
        }
    } else {
        None
    }
}

/// The migration an entry yields, if any: a missing required field is added,
/// a field of the wrong type or value is set, both to `FIXME`.
pub open spec fn entry_fm_op(root: Seq<char>, e: DriftView) -> Option<FmOpView> {
    match extracted_field(e.message) {
        Some(f) => if e.category == DriftCategory::FrontmatterRequiredMissing {
            Some(FmOpView::Add(plan_path(root, e.path), f, "FIXME"@))
        } else if e.category == DriftCategory::FrontmatterTypeWrong || e.category == DriftCategory::FrontmatterValueInvalid {
            Some(FmOpView::Overwrite(plan_path(root, e.path), f, "FIXME"@))
        } else {
            None
        },
        None => None,
    }
}

/// The judgment case an entry yields, if any.
pub open spec fn entry_case(m: Seq<(Seq<char>, Seq<char>)>, e: DriftView) -> Option<CaseView> {
    if e.category == DriftCategory::FolderShape {
        let folder = match file_name(e.path) { Some(n) => n, None => Seq::empty() };
        match map_lookup(m, folder) {
            Some(_) => None,
            None => Some(case_view(e.path, JudgmentCategory::IdAssignment, needs_prefix_msg(folder))),
        }
    } else if e.category == DriftCategory::MissingIndex {
        Some(case_view(e.path, JudgmentCategory::IdAssignment, author_index_msg(slashes(e.path))))
    } else if e.category == DriftCategory::GraduationCandidate || e.category == DriftCategory::ContentSplitSuggested {
        Some(case_view(e.path, JudgmentCategory::GraduationBoundary, e.message))
    } else if e.category == DriftCategory::InvariantViolation {
        Some(case_view(e.path, JudgmentCategory::TypeAmbiguous, e.message))
    } else {
        None
    }
}

pub open spec fn opt_seq<A>(o: Option<A>) -> Seq<A> {
    match o {
        Some(a) => seq![a],
        None => Seq::empty(),
    }
}

pub open spec fn planned_main_ops(m: Seq<(Seq<char>, Seq<char>)>, root: Seq<char>, es: Seq<DriftView>) -> Seq<MainOpView>
    decreases es.len(),
{
    if es.len() == 0 {
        Seq::empty()
    } else {
        planned_main_ops(m, root, es.drop_last()) + opt_seq(entry_main_op(m, root, es.last()))
    }
}

pub open spec fn planned_fm_ops(root: Seq<char>, es: Seq<DriftView>) -> Seq<FmOpView>
    decreases es.len(),
{
    if es.len() == 0 {
        Seq::empty()
    } else {
        planned_fm_ops(root, es.drop_last()) + opt_seq(entry_fm_op(root, es.last()))
    }
}

pub open spec fn planned_cases(m: Seq<(Seq<char>, Seq<char>)>, es: Seq<DriftView>) -> Seq<CaseView>
    decreases es.len(),
{
    if es.len() == 0 {
        Seq::empty()
    } else {
        planned_cases(m, es.drop_last()) + opt_seq(entry_case(m, es.last()))
    }
}

/// The root plan paths are made relative to: the workspace root when given,
/// else the corpus root's parent, else the corpus root.
pub open spec fn path_root(corpus_root: Seq<char>, workspace_root: Option<Seq<char>>) -> Seq<char> {
    match workspace_root {
        Some(w) => w,
        None => match parent(corpus_root) {
            Some(p) => p,
            None => corpus_root,
        },
    }
}

/// The corpus's name, empty when it has none.
pub open spec fn corpus_name(corpus_root: Seq<char>) -> Seq<char> {
    match file_name(corpus_root) {
        Some(n) => n,
        None => Seq::empty(),
    }
}

pub open spec fn main_description(name: Seq<char>) -> Seq<char> {
    "canon align: structural ops for '"@ + name + "'"@
}

pub open spec fn fm_description(name: Seq<char>) -> Seq<char> {
    "canon align: frontmatter migrations for '"@ + name + "'"@
}

/// The result of one plan emission pass.
#[derive(Debug)]
pub struct PlanEmission {
    /// Structural anchor plan (create_dir and move ops).
    pub main_plan: MainPlan,
    /// Frontmatter migration plan (add_field and set_field ops).
    pub fm_plan: FmPlan,
    /// Gap report rows produced by the judgment emitter.
    pub gap_rows: Vec<GapReportRow>,
}

/// What can go wrong during plan emission.
#[derive(Debug)]
pub enum EmitError {
    Io(String),
    Serialize(String),
}

pub open spec fn emit_error_text(e: EmitError) -> Seq<char> {
    match e {
        EmitError::Io(m) => "I/O error: "@ + m@,
        EmitError::Serialize(m) => "serialization error: "@ + m@,
    }
}

impl EmitError {
    /// The description of this error.
    pub fn message(&self) -> (r: String)
        ensures
            r@ == emit_error_text(*self),
    {
        match self {
            EmitError::Io(m) => {
                let mut s = String::from_str("I/O error: ");
                s.append(m.as_str());
                s
            },
            EmitError::Serialize(m) => {
                let mut s = String::from_str("serialization error: ");
                s.append(m.as_str());
                s
            },
        }
    }
}

/// The plans and cases a drift report gives, before the judgment emitter
/// sees the cases.
pub struct Classified {
    pub main_plan: MainPlan,
    pub fm_plan: FmPlan,
    pub cases: Vec<JudgmentCase>,
}

fn quoted_description(prefix: &str, name: &str) -> (r: String)
    ensures
        r@ == prefix@ + name@ + "'"@,
{
    let mut s = prefix.to_string();
    s.append(name);
    s.append("'");
    s
}

/// Classifies drift entries into structural moves (folders whose numbered
/// name the template's folder rules give), frontmatter migrations, and
/// judgment cases, each in entry order.
pub fn classify_drift(corpus_root: &str, drift: &[DriftEntry], template: &LoadedTemplate, workspace_root: Option<&str>, tree: &FileTree) -> (r: Classified)
    ensures
        ({
            let m = folder_map(tree@, template@.dir, corpus_root@);
            let root = path_root(corpus_root@, match workspace_root { Some(w) => Some(w@), None => None });
            let es = drift_views(drift@);
            &&& opt_text(r.main_plan.description) == Some(main_description(corpus_name(corpus_root@)))
            &&& opt_text(r.fm_plan.description) == Some(fm_description(corpus_name(corpus_root@)))
            &&& main_op_views(r.main_plan.ops@) == planned_main_ops(m, root, es)
            &&& fm_op_views(r.fm_plan.ops@) == planned_fm_ops(root, es)
            &&& case_views(r.cases@) == planned_cases(m, es)
        }),
{
    let folder_map_v = load_folder_map(&template.dir, corpus_root, tree);
    let ghost m = folder_map(tree@, template@.dir, corpus_root@);
    let root: String = match workspace_root {
        Some(w) => w.to_string(),
        None => match parent_of(corpus_root) {
            Some(p) => p,
            None => corpus_root.to_string(),
        },
    };
    let name = match file_name_of(corpus_root) {
        Some(n) => n,
        None => String::new(),
    };
    let mut main_plan = MainPlan::new(Some(quoted_description("canon align: structural ops for '", name.as_str())));
    let mut fm_plan = FmPlan::new(Some(quoted_description("canon align: frontmatter migrations for '", name.as_str())));
    let mut cases: Vec<JudgmentCase> = Vec::new();
    let ghost es = drift_views(drift@);
    for i in 0..drift.len()
        invariant
            es == drift_views(drift@),
            m == folder_map_v@.map_values(|p: (String, String)| (p.0@, p.1@)),
            opt_text(main_plan.description) == Some(main_description(corpus_name(corpus_root@))),
            opt_text(fm_plan.description) == Some(fm_description(corpus_name(corpus_root@))),
            main_op_views(main_plan.ops@) == planned_main_ops(m, root@, es.take(i as int)),
            fm_op_views(fm_plan.ops@) == planned_fm_ops(root@, es.take(i as int)),
            case_views(cases@) == planned_cases(m, es.take(i as int)),
    {
        let entry = &drift[i];
        proof {
            assert(es.take(i + 1).drop_last() =~= es.take(i as int));
            assert(es.take(i + 1).last() == entry@);
        }
        let ghost main0 = main_plan.ops@;
        let ghost fm0 = fm_plan.ops@;
        let ghost cases0 = cases@;
        match entry.category {
            DriftCategory::FolderShape => {
                let folder = match file_name_of(entry.path.as_str()) {
                    Some(n) => n,
                    None => String::new(),
                };
                match lookup_folder(&folder_map_v, folder.as_str()) {
                    Some(numbered) => {
                        let src = plan_path_of(root.as_str(), entry.path.as_str());
                        let dst = move_dst_of(root.as_str(), entry.path.as_str(), numbered.as_str());
                        main_plan.ops.push(MainPlanOp::Move { src, dst });
                    },
                    None => {
                        let mut d = String::from_str("folder '");
                        d.append(folder.as_str());
                        d.append("' needs a numbered prefix; no mapping found in template folder-rules");
                        cases.push(JudgmentCase { path: entry.path.clone(), category: JudgmentCategory::IdAssignment, description: d });
                    },
                }
            },
            DriftCategory::MissingIndex => {
                let shown = to_slashes(entry.path.as_str());
                let mut d = String::from_str("_INDEX.md must be authored in '");
                d.append(shown.as_str());
                d.append("'; content authoring not automatable");
                cases.push(JudgmentCase { path: entry.path.clone(), category: JudgmentCategory::IdAssignment, description: d });
            },
            DriftCategory::FrontmatterRequiredMissing => {
                match extract_field_from_message(entry.message.as_str()) {
                    Some(field) => {
                        let p = plan_path_of(root.as_str(), entry.path.as_str());
                        fm_plan.ops.push(FmPlanOp::AddField { path: p, field, value: String::from_str("FIXME") });
                    },
                    None => {},
                }
            },
            DriftCategory::FrontmatterTypeWrong | DriftCategory::FrontmatterValueInvalid => {
                match extract_field_from_message(entry.message.as_str()) {
                    Some(field) => {
                        let p = plan_path_of(root.as_str(), entry.path.as_str());
                        fm_plan.ops.push(FmPlanOp::SetField { path: p, field, value: String::from_str("FIXME") });
                    },
                    None => {},
                }
            },
            DriftCategory::GraduationCandidate | DriftCategory::ContentSplitSuggested => {
                cases.push(JudgmentCase { path: entry.path.clone(), category: JudgmentCategory::GraduationBoundary, description: entry.message.clone() });
            },
            DriftCategory::UnknownFieldInfo => {},
            DriftCategory::InvariantViolation => {
                cases.push(JudgmentCase { path: entry.path.clone(), category: JudgmentCategory::TypeAmbiguous, description: entry.message.clone() });
            },
        }
        proof {
            assert(main_op_views(main_plan.ops@) =~= main_op_views(main0) + opt_seq(entry_main_op(m, root@, entry@)));
            assert(fm_op_views(fm_plan.ops@) =~= fm_op_views(fm0) + opt_seq(entry_fm_op(root@, entry@)));
            assert(case_views(cases@) =~= case_views(cases0) + opt_seq(entry_case(m, entry@)));
        }
    }
    proof {
        assert(es.take(es.len() as int) =~= es);
    }
    Classified { main_plan, fm_plan, cases }
}

/// Classifies drift entries and emits plans plus gap rows.
pub struct MechanicalPlanEmitter<'a, E: JudgmentEmitter> {
    pub judgment_emitter: &'a E,
}

impl<'a, E: JudgmentEmitter> MechanicalPlanEmitter<'a, E> {
    /// An emitter that hands judgment cases to `judgment_emitter`.
    pub fn new(judgment_emitter: &'a E) -> (r: Self)
        ensures
            r.judgment_emitter == judgment_emitter,
    {
        MechanicalPlanEmitter { judgment_emitter }
    }

    /// `emit_with_root` with plan paths relative to the corpus root's parent.
    pub fn emit(&self, corpus_root: &str, drift: &[DriftEntry], template: &LoadedTemplate, tree: &FileTree) -> (r: Result<PlanEmission, EmitError>)
        ensures
            r matches Ok(em) && ({
                let m = folder_map(tree@, template@.dir, corpus_root@);
                let root = path_root(corpus_root@, None);
                let es = drift_views(drift@);
                &&& opt_text(em.main_plan.description) == Some(main_description(corpus_name(corpus_root@)))
                &&& opt_text(em.fm_plan.description) == Some(fm_description(corpus_name(corpus_root@)))
                &&& main_op_views(em.main_plan.ops@) == planned_main_ops(m, root, es)
                &&& fm_op_views(em.fm_plan.ops@) == planned_fm_ops(root, es)
                &&& self.judgment_emitter.admits(planned_cases(m, es), row_views(em.gap_rows@))
            }),
    {
        self.emit_with_root(corpus_root, drift, template, None, tree)
    }

    /// Classifies drift entries into plans and hands the judgment cases to
    /// the judgment emitter for the gap rows. Plan paths are relative to
    /// `workspace_root` when given, else to the corpus root's parent.
    pub fn emit_with_root(&self, corpus_root: &str, drift: &[DriftEntry], template: &LoadedTemplate, workspace_root: Option<&str>, tree: &FileTree) -> (r: Result<PlanEmission, EmitError>)
        ensures
            r matches Ok(em) && ({
                let m = folder_map(tree@, template@.dir, corpus_root@);
                let root = path_root(corpus_root@, match workspace_root { Some(w) => Some(w@), None => None });
                let es = drift_views(drift@);
                &&& opt_text(em.main_plan.description) == Some(main_description(corpus_name(corpus_root@)))
                &&& opt_text(em.fm_plan.description) == Some(fm_description(corpus_name(corpus_root@)))
                &&& main_op_views(em.main_plan.ops@) == planned_main_ops(m, root, es)
                &&& fm_op_views(em.fm_plan.ops@) == planned_fm_ops(root, es)
                &&& self.judgment_emitter.admits(planned_cases(m, es), row_views(em.gap_rows@))
            }),
    {
        let c = classify_drift(corpus_root, drift, template, workspace_root, tree);
        let gap_rows = self.judgment_emitter.emit_judgment_cases(c.cases.as_slice());
        Ok(PlanEmission { main_plan: c.main_plan, fm_plan: c.fm_plan, gap_rows })
    }
}

} // verus!
