//! Corpus audits against a structure template.

pub mod drift;
pub mod frontmatter;
pub mod folder;
pub mod invariants;

pub use drift::{DriftCategory, DriftEntry, has_blocking_drift};

use vstd::prelude::*;
use vstd::string::StringExecFns;
use crate::audit::drift::{DriftView, drift_views, append_entries};
use crate::audit::folder::{check_folder_shape, folder_shape_drift};
use crate::audit::frontmatter::{check_frontmatter, frontmatter_drift};
use crate::audit::invariants::{check_invariants, invariants_drift};
use crate::files::{FileTree, NodeView, NodeKind, entry_is_file, extension, file_name, has_component, has_component_exec, has_extension, is_file_at, is_under, join_path, path_join, text_at, under};
use crate::json::{JsonModel, JsonValue, json_parse_result, parse_json};
use crate::template::{LoadedTemplate, TemplateError, template_error_text};
use crate::template::manifest::TemplateView;

verus! {

/// What can go wrong during a corpus audit.
#[derive(Debug)]
pub enum AuditError {
    TemplateError(TemplateError),
    MissingSchema(String),
    MalformedSchema(String),
    Io(String),
}

/// How an audit error is described.
pub open spec fn audit_error_text(e: AuditError) -> Seq<char> {
    match e {
        AuditError::TemplateError(t) => "template error: "@ + template_error_text(t@),
        AuditError::MissingSchema(p) => "schema file not found: "@ + p@,
        AuditError::MalformedSchema(m) => "malformed JSON schema: "@ + m@,
        AuditError::Io(m) => "I/O error: "@ + m@,
    }
}

impl AuditError {
    /// The description of this error.
    pub fn message(&self) -> (r: String)
        ensures
            r@ == audit_error_text(*self),
    {
        match self {
            AuditError::TemplateError(t) => {
                let mut s = String::from_str("template error: ");
                let m = t.message();
                s.append(m.as_str());
                s
            },
            AuditError::MissingSchema(p) => {
                let mut s = String::from_str("schema file not found: ");
                s.append(p.as_str());
                s
            },
            AuditError::MalformedSchema(m) => {
                let mut s = String::from_str("malformed JSON schema: ");
                s.append(m.as_str());
                s
            },
            AuditError::Io(m) => {
                let mut s = String::from_str("I/O error: ");
                s.append(m.as_str());
                s
            },
        }
    }
}

/// The message `fs::read_to_string` reports for a file that is not UTF-8.
pub open spec fn invalid_utf8_msg() -> Seq<char> {
    "stream did not contain valid UTF-8"@
}

/// Whether a walked node is a Markdown file outside any `.git` directory.
pub open spec fn is_md_node(root: Seq<char>, n: NodeView) -> bool {
    under(root, n.path) && entry_is_file(n) && (match file_name(n.path) {
        Some(f) => extension(f) == Some("md"@),
        None => false,
    }) && !has_component(n.path, ".git"@)
}

/// The Markdown files below `root`, in walk order.
pub open spec fn md_files(ns: Seq<NodeView>, root: Seq<char>) -> Seq<Seq<char>>
    decreases ns.len(),
{
    if ns.len() == 0 {
        Seq::empty()
    } else {
        let rest = md_files(ns.drop_last(), root);
        if is_md_node(root, ns.last()) {
            rest.push(ns.last().path)
        } else {
            rest
        }
    }
}

/// The outcome of loading a template's frontmatter schema.
pub enum SchemaOutcome {
    /// The template names no schema, or has no directory to resolve it in.
    Absent,
    Loaded(JsonModel),
    Missing(Seq<char>),
    Malformed(Seq<char>),
    Unreadable,
}

/// Loading the schema: resolved against the template's directory; missing
/// when it is not a file; otherwise its text parsed as JSON.
pub open spec fn schema_outcome(t: Seq<NodeView>, tmpl: TemplateView) -> SchemaOutcome {
    match tmpl.manifest.schema {
        None => SchemaOutcome::Absent,
        Some(sch) => match tmpl.dir {
            None => SchemaOutcome::Absent,
            Some(d) => {
                let p = path_join(d, sch);
                if !is_file_at(t, p) {
                    SchemaOutcome::Missing(p)
                } else {
                    match text_at(t, p) {
                        None => SchemaOutcome::Unreadable,
                        Some(c) => match json_parse_result(c) {
                            Ok(v) => SchemaOutcome::Loaded(v),
                            Err(e) => SchemaOutcome::Malformed(e),
                        },
                    }
                }
            },
        },
    }
}

/// The frontmatter entries of the files `fs`, in order; unreadable files are skipped.
pub open spec fn files_frontmatter_drift(t: Seq<NodeView>, fs: Seq<Seq<char>>, schema: Option<JsonModel>) -> Seq<DriftView>
    decreases fs.len(),
{
    if fs.len() == 0 {
        Seq::empty()
    } else {
        files_frontmatter_drift(t, fs.drop_last(), schema) + match text_at(t, fs.last()) {
            Some(c) => frontmatter_drift(fs.last(), c, schema),
            None => Seq::empty(),
        }
    }
}

/// The drift of a corpus once the schema is known: folder shape, then the
/// frontmatter of every Markdown file, then heuristics and invariants.
pub open spec fn audit_drift(t: Seq<NodeView>, root: Seq<char>, tmpl: TemplateView, schema: Option<JsonModel>) -> Seq<DriftView> {
    folder_shape_drift(t, root, tmpl.manifest.shape) + files_frontmatter_drift(t, md_files(t, root), schema)
        + invariants_drift(t, root, tmpl.manifest, md_files(t, root))
}

/// The Markdown files below `root`, in walk order, skipping `.git`.
pub fn collect_md_files(corpus_root: &str, tree: &FileTree) -> (r: Vec<String>)
    ensures
        r@.map_values(|f: String| f@) == md_files(tree@, corpus_root@),
{
    let ghost t = tree@;
    let mut out: Vec<String> = Vec::new();
    for i in 0..tree.nodes.len()
        invariant
            t == tree@,
            t.len() == tree.nodes@.len(),
            out@.map_values(|f: String| f@) == md_files(t.take(i as int), corpus_root@),
    {
        let n = &tree.nodes[i];
        proof {
            assert(t[i as int] == n@);
            assert(t.take(i + 1).drop_last() =~= t.take(i as int));
            assert(t.take(i + 1).last() == t[i as int]);
        }
        if is_under(corpus_root, n.path.as_str()) && n.kind == NodeKind::File && !n.link
            && has_extension(n.path.as_str(), "md") && !has_component_exec(n.path.as_str(), ".git") {
            let ghost before = out@;
            out.push(n.path.clone());
            proof {
                assert(out@.map_values(|f: String| f@) =~= before.map_values(|f: String| f@).push(n.path@));
            }
        }
        proof {
            assert(out@.map_values(|f: String| f@) == md_files(t.take(i + 1), corpus_root@));
        }
    }
    proof {
        assert(t.take(t.len() as int) =~= t);
    }
    out
}

/// Loads the frontmatter schema a template references: `None` when it names
/// none or has no directory (a built-in).
pub fn load_schema(template: &LoadedTemplate, tree: &FileTree) -> (r: Result<Option<JsonValue>, AuditError>)
    ensures
        match schema_outcome(tree@, template@) {
            SchemaOutcome::Absent => r matches Ok(None),
            SchemaOutcome::Loaded(v) => r matches Ok(Some(s)) && s@ == v,
            SchemaOutcome::Missing(p) => r matches Err(AuditError::MissingSchema(q)) && q@ == p,
            SchemaOutcome::Malformed(m) => r matches Err(AuditError::MalformedSchema(q)) && q@ == m,
            SchemaOutcome::Unreadable => r matches Err(AuditError::Io(q)) && q@ == invalid_utf8_msg(),
        },
{
    let fr = match &template.manifest.frontmatter {
        Some(f) => f,
        None => return Ok(None),
    };
    let dir = match &template.dir {
        Some(d) => d,
        None => return Ok(None),
    };
    let schema_path = join_path(dir.as_str(), fr.schema.as_str());
    if !tree.is_file(schema_path.as_str()) {
        return Err(AuditError::MissingSchema(schema_path));
    }
    let content = match tree.read_text(schema_path.as_str()) {
        Some(c) => c,
        None => return Err(AuditError::Io(String::from_str("stream did not contain valid UTF-8"))),
    };
    match parse_json(content.as_str()) {
        Ok(v) => Ok(Some(v)),
        Err(e) => Err(AuditError::MalformedSchema(e)),
    }
}

/// Audits a corpus directory against a loaded template. Fails only when the
/// template's frontmatter schema cannot be loaded; otherwise returns every
/// entry found.
pub fn run_audit(corpus_root: &str, template: &LoadedTemplate, tree: &FileTree) -> (r: Result<Vec<DriftEntry>, AuditError>)
    ensures
        match schema_outcome(tree@, template@) {
            SchemaOutcome::Absent => r matches Ok(es) && drift_views(es@) == audit_drift(tree@, corpus_root@, template@, None),
            SchemaOutcome::Loaded(v) => r matches Ok(es) && drift_views(es@) == audit_drift(tree@, corpus_root@, template@, Some(v)),
            SchemaOutcome::Missing(p) => r matches Err(AuditError::MissingSchema(q)) && q@ == p,
            SchemaOutcome::Malformed(m) => r matches Err(AuditError::MalformedSchema(q)) && q@ == m,
            SchemaOutcome::Unreadable => r matches Err(AuditError::Io(q)) && q@ == invalid_utf8_msg(),
        },
{
    let mut entries = check_folder_shape(corpus_root, template, tree);
    let md = collect_md_files(corpus_root, tree);
    let schema = match load_schema(template, tree) {
        Ok(s) => s,
        Err(e) => return Err(e),
    };
    let ghost sm: Option<JsonModel> = match &schema { Some(s) => Some(s@), None => None };
    let ghost fs = md@.map_values(|f: String| f@);
    let ghost base = drift_views(entries@);
    for i in 0..md.len()
        invariant
            fs == md@.map_values(|f: String| f@),
            sm == (match &schema { Some(s) => Some(s@), None => None }),
            drift_views(entries@) == base + files_frontmatter_drift(tree@, fs.take(i as int), sm),
    {
        proof {
            assert(fs.take(i + 1).drop_last() =~= fs.take(i as int));
            assert(fs.take(i + 1).last() == md@[i as int]@);
        }
        match tree.read_text(md[i].as_str()) {
            Some(content) => {
                let more = match &schema {
                    Some(s) => check_frontmatter(md[i].as_str(), content.as_str(), Some(s)),
                    None => check_frontmatter(md[i].as_str(), content.as_str(), None),
                };
                append_entries(&mut entries, more);
            },
            None => {},
        }
        proof {
            assert(drift_views(entries@) =~= base + files_frontmatter_drift(tree@, fs.take(i + 1), sm));
        }
    }
    proof {
        assert(fs.take(fs.len() as int) =~= fs);
    }
    let inv = check_invariants(corpus_root, template, &md, tree);
    append_entries(&mut entries, inv);
    Ok(entries)
}

} // verus!
