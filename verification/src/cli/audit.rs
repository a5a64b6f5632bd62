//! `canon audit`: a drift report of a corpus against a template.

use vstd::prelude::*;
use vstd::string::StringExecFns;
use crate::audit::{audit_drift, run_audit, schema_outcome, SchemaOutcome};
use crate::audit::drift::{DriftEntry, DriftView, any_blocking, blocking_count, category_name, drift_views, has_blocking_drift, informational};
use crate::files::{FileTree, NodeView, exists_at, is_absolute, join_path, path_join, strip_root, strip_root_of};
use crate::json::{JsonModel, JsonNumber, JsonValue, NumberModel, json_pretty_text, pretty_text};
use crate::orchestrator::pipeline::{count_blocking, schema_failure_text};
use crate::template::{LoadedTemplate, TemplateError, TemplateErrorView, TemplateLoader, join_strings, template_error_text};
use crate::template::loader::{dir_template, name_load, production_registry};
use crate::template::manifest::{TemplateView, TierView};
use crate::text::{decimal, join, starts_with, str_eq, to_chars, starts_with_chars, usize_text};

verus! {

/// Output format of the audit report.
#[derive(Debug, Clone, Copy, PartialEq, Eq, Structural)]
pub enum OutputFormat {
    Table,
    Json,
    Markdown,
}

/// The format a `--format` value names.
pub open spec fn format_named(s: Seq<char>) -> Option<OutputFormat> {
    if s == "table"@ {
        Some(OutputFormat::Table)
    } else if s == "json"@ {
        Some(OutputFormat::Json)
    } else if s == "markdown"@ {
        Some(OutputFormat::Markdown)
    } else {
        None
    }
}

/// Parses a `--format` value; an unknown one is described in the error.
pub fn parse_format(s: &str) -> (r: Result<OutputFormat, String>)
    ensures
        match format_named(s@) {
            Some(f) => r == Ok::<OutputFormat, String>(f),
            None => r matches Err(e) && e@ == "unknown format '"@ + s@ + "'; valid values: table, json, markdown"@,
        },
{
    proof {
        reveal_strlit("table");
        reveal_strlit("json");
        reveal_strlit("markdown");
    }
    if str_eq(s, "table") {
        Ok(OutputFormat::Table)
    } else if str_eq(s, "json") {
        Ok(OutputFormat::Json)
    } else if str_eq(s, "markdown") {
        Ok(OutputFormat::Markdown)
    } else {
        let mut e = String::from_str("unknown format '");
        e.append(s);
        e.append("'; valid values: table, json, markdown");
        Err(e)
    }
}

// ---------------------------------------------------------------------------
// Paths and templates, as every corpus-reading command resolves them
// ---------------------------------------------------------------------------

pub open spec fn line(s: Seq<char>) -> Seq<char> {
    s + "\n"@
}

/// Whether a template argument is a path rather than a name.
pub open spec fn is_path_spec(s: Seq<char>) -> bool {
    starts_with(s, "/"@) || starts_with(s, "./"@) || starts_with(s, "../"@)
}

/// A source path: absolute as given, else relative to the workspace root,
/// else to the current directory; it must exist.
pub open spec fn resolved_src(t: Seq<NodeView>, p: Seq<char>, ws: Seq<char>, cwd: Seq<char>) -> Option<Seq<char>> {
    if is_absolute(p) {
        if exists_at(t, p) {
            Some(p)
        } else {
            None
        }
    } else if exists_at(t, path_join(ws, p)) {
        Some(path_join(ws, p))
    } else if exists_at(t, path_join(cwd, p)) {
        Some(path_join(cwd, p))
    } else {
        None
    }
}

pub open spec fn corpus_missing_msg(p: Seq<char>, ws: Seq<char>) -> Seq<char> {
    line("error: corpus path '"@ + p + "' not found\nHint: paths are resolved from workspace root ("@ + ws + ")"@)
}

/// The template a command names: a directory for a path, else resolved by
/// name over the production registry, the workspace and the user directory.
pub open spec fn spec_template(t: Seq<NodeView>, ws: Seq<char>, user_dir: Seq<char>, spec: Seq<char>) -> Result<TemplateView, TemplateErrorView> {
    if is_path_spec(spec) {
        dir_template(t, spec, TierView::ExplicitPath(spec))
    } else {
        name_load(production_registry(), path_join(ws, ".accelmars/canon/templates"@), user_dir, t, spec)
    }
}

/// How a command reports a template that cannot be loaded.
pub open spec fn template_failure_msg(e: TemplateErrorView) -> Seq<char> {
    match e {
        TemplateErrorView::NotFound(name, searched) => line(
            "error: template '"@ + name + "' not found; searched:\n  "@ + join(searched, "\n  "@),
        ),
        _ => line("error: "@ + template_error_text(e)),
    }
}

/// Whether a template argument is a path rather than a name.
pub fn is_path_spec_exec(s: &str) -> (r: bool)
    ensures
        r == is_path_spec(s@),
{
    let c = to_chars(s);
    let a = to_chars("/");
    let b = to_chars("./");
    let d = to_chars("../");
    starts_with_chars(c.as_slice(), a.as_slice()) || starts_with_chars(c.as_slice(), b.as_slice())
        || starts_with_chars(c.as_slice(), d.as_slice())
}

/// Resolves a source path: absolute as given, else workspace-root-relative,
/// else relative to the current directory; `None` when it does not exist.
pub fn resolve_src_path(path_str: &str, workspace_root: &str, cwd: &str, tree: &FileTree) -> (r: Option<String>)
    ensures
        match resolved_src(tree@, path_str@, workspace_root@, cwd@) {
            Some(p) => r matches Some(q) && q@ == p,
            None => r is None,
        },
{
    let c = to_chars(path_str);
    if c.len() > 0 && c[0] == '/' {
        return if tree.path_exists(path_str) { Some(path_str.to_string()) } else { None };
    }
    let ws_rel = join_path(workspace_root, path_str);
    if tree.path_exists(ws_rel.as_str()) {
        return Some(ws_rel);
    }
    let cwd_rel = join_path(cwd, path_str);
    if tree.path_exists(cwd_rel.as_str()) {
        return Some(cwd_rel);
    }
    None
}

/// Loads the template a command names, reporting a failure on `err`.
pub fn load_cli_template(spec: &str, workspace_root: &str, user_dir: &str, tree: &FileTree, err: &mut String) -> (r: Option<LoadedTemplate>)
    ensures
        match spec_template(tree@, workspace_root@, user_dir@, spec@) {
            Ok(v) => r matches Some(lt) && lt@ == v && final(err)@ == old(err)@,
            Err(e) => r is None && final(err)@ == old(err)@ + template_failure_msg(e),
        },
{
    let loader = TemplateLoader::from_workspace_root(workspace_root, user_dir);
    let loaded = if is_path_spec_exec(spec) {
        loader.load_by_path(spec, tree)
    } else {
        loader.load_by_name(spec, tree)
    };
    match loaded {
        Ok(t) => Some(t),
        Err(TemplateError::NotFound { name, searched }) => {
            err.append("error: template '");
            err.append(name.as_str());
            err.append("' not found; searched:\n  ");
            let j = join_strings(&searched, "\n  ");
            err.append(j.as_str());
            err.append("\n");
            None
        },
        Err(e) => {
            err.append("error: ");
            let m = e.message();
            err.append(m.as_str());
            err.append("\n");
            None
        },
    }
}

// ---------------------------------------------------------------------------
// Report rendering
// ---------------------------------------------------------------------------

/// `n` copies of `c`.
pub open spec fn repeat(c: char, n: nat) -> Seq<char> {
    Seq::new(n, |i: int| c)
}

/// Left-aligned in a field `w` characters wide (`{:<w}`).
pub open spec fn pad(s: Seq<char>, w: nat) -> Seq<char> {
    if s.len() >= w {
        s
    } else {
        s + repeat(' ', (w - s.len()) as nat)
    }
}

/// An entry's path relative to the corpus, or the whole path outside it.
pub open spec fn shown_path(corpus: Seq<char>, p: Seq<char>) -> Seq<char> {
    match strip_root(corpus, p) {
        Some(r) => r,
        None => p,
    }
}

pub open spec fn table_row(c: Seq<char>, e: DriftView) -> Seq<char> {
    pad(shown_path(c, e.path), 40) + " "@ + pad(category_name(e.category), 30) + " "@ + e.message + "\n"@
}

pub open spec fn info_row(c: Seq<char>, e: DriftView) -> Seq<char> {
    "  "@ + shown_path(c, e.path) + " — "@ + category_name(e.category) + " — "@ + e.message + "\n"@
}

/// The rows of the blocking entries, in order.
pub open spec fn table_rows(c: Seq<char>, d: Seq<DriftView>) -> Seq<char>
    decreases d.len(),
{
    if d.len() == 0 {
        Seq::empty()
    } else {
        table_rows(c, d.drop_last()) + if informational(d.last().category) {
            Seq::empty()
        } else {
            table_row(c, d.last())
        }
    }
}

/// The rows of the informational entries, in order.
pub open spec fn info_rows(c: Seq<char>, d: Seq<DriftView>) -> Seq<char>
    decreases d.len(),
{
    if d.len() == 0 {
        Seq::empty()
    } else {
        info_rows(c, d.drop_last()) + if informational(d.last().category) {
            info_row(c, d.last())
        } else {
            Seq::empty()
        }
    }
}

/// The table report: a header, one row per blocking entry and their count,
/// then the informational notices; a clean corpus gets one line.
pub open spec fn table_text(c: Seq<char>, d: Seq<DriftView>) -> Seq<char> {
    if d.len() == 0 {
        line("canon audit: no drift found in '"@ + c + "'"@)
    } else {
        let bc = blocking_count(d);
        let ic = (d.len() - bc) as nat;
        (if bc > 0 {
            pad("File"@, 40) + " "@ + pad("Category"@, 30) + " Message\n"@ + repeat('-', 110) + "\n"@ + table_rows(c, d) + "\n"@
                + decimal(bc) + " blocking drift entries.\n"@
        } else {
            Seq::empty()
        }) + (if ic > 0 {
            "\n[info] "@ + decimal(ic) + " informational notices:\n"@ + info_rows(c, d)
        } else {
            Seq::empty()
        })
    }
}

/// `|` escaped as `\|`.
pub open spec fn escape_pipes(s: Seq<char>) -> Seq<char>
    decreases s.len(),
{
    if s.len() == 0 {
        Seq::empty()
    } else {
        escape_pipes(s.drop_last()) + if s.last() == '|' {
            seq!['\\', '|']
        } else {
            seq![s.last()]
        }
    }
}

pub open spec fn md_row(c: Seq<char>, e: DriftView) -> Seq<char> {
    "| `"@ + shown_path(c, e.path) + "` | "@ + category_name(e.category) + " | "@ + escape_pipes(e.message) + " |\n"@
}

pub open spec fn md_rows(c: Seq<char>, d: Seq<DriftView>) -> Seq<char>
    decreases d.len(),
{
    if d.len() == 0 {
        Seq::empty()
    } else {
        md_rows(c, d.drop_last()) + if informational(d.last().category) {
            Seq::empty()
        } else {
            md_row(c, d.last())
        }
    }
}

/// The Markdown report: a heading with the blocking count and a table of the
/// blocking entries.
pub open spec fn markdown_text(c: Seq<char>, d: Seq<DriftView>) -> Seq<char> {
    let bc = blocking_count(d);
    if bc == 0 {
        "## Canon Audit — No Drift Found\n\nCorpus: `"@ + c + "`\n"@ + "\n"@
    } else {
        "## Canon Audit — "@ + decimal(bc) + " Drift Entries\n"@ + "\n"@ + "Corpus: `"@ + c + "`\n"@ + "\n"@
            + "| File | Category | Message |\n"@ + "|------|----------|---------|\n"@ + md_rows(c, d)
    }
}

/// The JSON object of one entry (keys in order).
pub open spec fn entry_json(c: Seq<char>, e: DriftView) -> JsonModel {
    JsonModel::Object(
        seq![
            ("category"@, JsonModel::Text(category_name(e.category))),
            ("informational"@, JsonModel::Bool(informational(e.category))),
            ("message"@, JsonModel::Text(e.message)),
            ("path"@, JsonModel::Text(shown_path(c, e.path))),
        ],
    )
}

/// The JSON report: corpus, blocking and total counts, and every entry.
pub open spec fn report_json(c: Seq<char>, d: Seq<DriftView>) -> JsonModel {
    JsonModel::Object(
        seq![
            ("blocking_count"@, JsonModel::Number(NumberModel::PosInt(blocking_count(d) as u64))),
            ("corpus"@, JsonModel::Text(c)),
            ("entries"@, JsonModel::List(Seq::new(d.len(), |i: int| entry_json(c, d[i])))),
            ("total_count"@, JsonModel::Number(NumberModel::PosInt(d.len() as u64))),
        ],
    )
}

/// The report in the chosen format.
pub open spec fn report_text(c: Seq<char>, d: Seq<DriftView>, f: OutputFormat) -> Seq<char> {
    match f {
        OutputFormat::Table => table_text(c, d),
        OutputFormat::Json => line(json_pretty_text(report_json(c, d))),
        OutputFormat::Markdown => markdown_text(c, d),
    }
}

fn shown_path_of(corpus: &str, p: &str) -> (r: String)
    ensures
        r@ == shown_path(corpus@, p@),
{
    match strip_root_of(corpus, p) {
        Some(r) => r,
        None => p.to_string(),
    }
}

/// Appends `s` left-aligned in a field `w` characters wide.
pub fn push_padded(out: &mut String, s: &str, w: usize)
    ensures
        final(out)@ == old(out)@ + pad(s@, w as nat),
{
    out.append(s);
    let n = s.unicode_len();
    let ghost start = out@;
    let mut k = n;
    while k < w
        invariant
            n == s@.len(),
            n <= k <= w || (n > w && k == n),
            start == old(out)@ + s@,
            out@ == start + repeat(' ', (k - n) as nat),
        decreases w - k,
    {
        crate::text::push_char(out, ' ');
        proof {
            assert(out@ =~= start + repeat(' ', (k + 1 - n) as nat));
        }
        k += 1;
    }
    proof {
        if n >= w {
            assert(out@ =~= old(out)@ + s@);
        } else {
            assert(out@ =~= old(out)@ + (s@ + repeat(' ', (w - n) as nat)));
        }
    }
}

fn emit_table_rows(entries: &Vec<DriftEntry>, corpus: &str, out: &mut String)
    ensures
        final(out)@ == old(out)@ + table_rows(corpus@, drift_views(entries@)),
{
    let ghost d = drift_views(entries@);
    let ghost s1 = out@;
    for i in 0..entries.len()
        invariant
            d == drift_views(entries@),
            s1 == old(out)@,
            out@ == s1 + table_rows(corpus@, d.take(i as int)),
    {
        let e = &entries[i];
        proof {
            assert(d.take(i + 1).drop_last() =~= d.take(i as int));
            assert(d.take(i + 1).last() == e@);
        }
        if !e.category.is_informational() {
            let rel = shown_path_of(corpus, e.path.as_str());
            push_padded(out, rel.as_str(), 40);
            out.append(" ");
            push_padded(out, e.category.as_str(), 30);
            out.append(" ");
            out.append(e.message.as_str());
            out.append("\n");
        }
        proof {
            assert(out@ =~= s1 + table_rows(corpus@, d.take(i + 1)));
        }
    }
    proof {
        assert(d.take(d.len() as int) =~= d);
    }
}

fn emit_info_rows(entries: &Vec<DriftEntry>, corpus: &str, out: &mut String)
    ensures
        final(out)@ == old(out)@ + info_rows(corpus@, drift_views(entries@)),
{
    let ghost d = drift_views(entries@);
    let ghost s3 = out@;
    for i in 0..entries.len()
        invariant
            d == drift_views(entries@),
            s3 == old(out)@,
            out@ == s3 + info_rows(corpus@, d.take(i as int)),
    {
        let e = &entries[i];
        proof {
            assert(d.take(i + 1).drop_last() =~= d.take(i as int));
            assert(d.take(i + 1).last() == e@);
        }
        if e.category.is_informational() {
            let rel = shown_path_of(corpus, e.path.as_str());
            out.append("  ");
            out.append(rel.as_str());
            out.append(" — ");
            out.append(e.category.as_str());
            out.append(" — ");
            out.append(e.message.as_str());
            out.append("\n");
        }
        proof {
            assert(out@ =~= s3 + info_rows(corpus@, d.take(i + 1)));
        }
    }
    proof {
        assert(d.take(d.len() as int) =~= d);
    }
}

fn push_repeat(out: &mut String, c: char, n: usize)
    ensures
        final(out)@ == old(out)@ + repeat(c, n as nat),
{
    let ghost s0 = out@;
    for k in 0..n
        invariant
            s0 == old(out)@,
            out@ == s0 + repeat(c, k as nat),
    {
        crate::text::push_char(out, c);
        proof {
            assert(out@ =~= s0 + repeat(c, (k + 1) as nat));
        }
    }
}

#[verifier::spinoff_prover]
#[verifier::rlimit(40)]
fn emit_table(entries: &Vec<DriftEntry>, corpus: &str, out: &mut String)
    ensures
        final(out)@ == old(out)@ + table_text(corpus@, drift_views(entries@)),
{
    let ghost d = drift_views(entries@);
    if entries.len() == 0 {
        out.append("canon audit: no drift found in '");
        out.append(corpus);
        out.append("'");
        out.append("\n");
        return;
    }
    let bc = count_blocking(entries);
    proof {
        lemma_blocking_count_le(d);
    }
    let ic = entries.len() - bc;
    let ghost s0 = out@;
    if bc > 0 {
        push_padded(out, "File", 40);
        out.append(" ");
        push_padded(out, "Category", 30);
        out.append(" Message\n");
        push_repeat(out, '-', 110);
        out.append("\n");
        emit_table_rows(entries, corpus, out);
        out.append("\n");
        let n = usize_text(bc);
        out.append(n.as_str());
        out.append(" blocking drift entries.\n");
    }
    let ghost s2 = out@;
    if ic > 0 {
        out.append("\n[info] ");
        let n = usize_text(ic);
        out.append(n.as_str());
        out.append(" informational notices:\n");
        emit_info_rows(entries, corpus, out);
    }
    proof {
        assert(out@ =~= old(out)@ + table_text(corpus@, d));
    }
}

proof fn lemma_blocking_count_le(d: Seq<DriftView>)
    ensures
        blocking_count(d) <= d.len(),
    decreases d.len(),
{
    if d.len() > 0 {
        lemma_blocking_count_le(d.drop_last());
    }
}

fn escape_pipes_of(s: &str) -> (r: String)
    ensures
        r@ == escape_pipes(s@),
{
    let c = to_chars(s);
    let mut out = String::new();
    for i in 0..c.len()
        invariant
            c@ == s@,
            out@ == escape_pipes(c@.take(i as int)),
    {
        proof {
            assert(c@.take(i + 1).drop_last() =~= c@.take(i as int));
        }
        if c[i] == '|' {
            crate::text::push_char(&mut out, '\\');
            crate::text::push_char(&mut out, '|');
        } else {
            crate::text::push_char(&mut out, c[i]);
        }
        proof {
            assert(out@ =~= escape_pipes(c@.take(i + 1)));
        }
    }
    proof {
        assert(c@.take(c@.len() as int) =~= c@);
    }
    out
}

fn emit_markdown(entries: &Vec<DriftEntry>, corpus: &str, out: &mut String)
    ensures
        final(out)@ == old(out)@ + markdown_text(corpus@, drift_views(entries@)),
{
    let ghost d = drift_views(entries@);
    let bc = count_blocking(entries);
    if bc == 0 {
        out.append("## Canon Audit — No Drift Found\n\nCorpus: `");
        out.append(corpus);
        out.append("`\n");
        out.append("\n");
        return;
    }
    out.append("## Canon Audit — ");
    let n = usize_text(bc);
    out.append(n.as_str());
    out.append(" Drift Entries\n");
    out.append("\n");
    out.append("Corpus: `");
    out.append(corpus);
    out.append("`\n");
    out.append("\n");
    out.append("| File | Category | Message |\n");
    out.append("|------|----------|---------|\n");
    let ghost s1 = out@;
    for i in 0..entries.len()
        invariant
            d == drift_views(entries@),
            out@ == s1 + md_rows(corpus@, d.take(i as int)),
    {
        let e = &entries[i];
        proof {
            assert(d.take(i + 1).drop_last() =~= d.take(i as int));
            assert(d.take(i + 1).last() == e@);
        }
        if !e.category.is_informational() {
            let rel = shown_path_of(corpus, e.path.as_str());
            out.append("| `");
            out.append(rel.as_str());
            out.append("` | ");
            out.append(e.category.as_str());
            out.append(" | ");
            let m = escape_pipes_of(e.message.as_str());
            out.append(m.as_str());
            out.append(" |\n");
        }
        proof {
            assert(out@ =~= s1 + md_rows(corpus@, d.take(i + 1)));
        }
    }
    proof {
        assert(d.take(d.len() as int) =~= d);
        assert(out@ =~= old(out)@ + markdown_text(corpus@, d));
    }
}

/// The JSON report as a value: corpus, blocking and total counts, and
/// every entry with its path relative to the corpus.
pub fn report_json_value(entries: &Vec<DriftEntry>, corpus: &str) -> (r: JsonValue)
    ensures
        r@ == report_json(corpus@, drift_views(entries@)),
{
    let ghost d = drift_views(entries@);
    let mut items: Vec<JsonValue> = Vec::new();
    for i in 0..entries.len()
        invariant
            d == drift_views(entries@),
            items@.len() == i,
            forall|k: int| 0 <= k < i ==> (#[trigger] items@[k])@ == entry_json(corpus@, d[k]),
    {
        let e = &entries[i];
        let rel = shown_path_of(corpus, e.path.as_str());
        let mut fields: Vec<(String, JsonValue)> = Vec::new();
        fields.push((String::from_str("category"), JsonValue::Text(String::from_str(e.category.as_str()))));
        fields.push((String::from_str("informational"), JsonValue::Bool(e.category.is_informational())));
        fields.push((String::from_str("message"), JsonValue::Text(e.message.clone())));
        fields.push((String::from_str("path"), JsonValue::Text(rel)));
        let ghost fv = fields@;
        let obj = JsonValue::Object(fields);
        proof {
            crate::json::lemma_json_compound(obj);
            assert(crate::json::json_entries(fv) =~= entry_json(corpus@, d[i as int])->Object_0);
        }
        items.push(obj);
    }
    let bc = count_blocking(entries);
    let mut top: Vec<(String, JsonValue)> = Vec::new();
    top.push((String::from_str("blocking_count"), JsonValue::Number(JsonNumber::PosInt(bc as u64))));
    top.push((String::from_str("corpus"), JsonValue::Text(corpus.to_string())));
    let ghost iv = items@;
    let list = JsonValue::List(items);
    proof {
        crate::json::lemma_json_compound(list);
        assert(crate::json::json_items(iv) =~= Seq::new(d.len(), |i: int| entry_json(corpus@, d[i])));
    }
    top.push((String::from_str("entries"), list));
    top.push((String::from_str("total_count"), JsonValue::Number(JsonNumber::PosInt(entries.len() as u64))));
    let ghost tv = top@;
    let report = JsonValue::Object(top);
    proof {
        crate::json::lemma_json_compound(report);
        assert(crate::json::json_entries(tv) =~= report_json(corpus@, d)->Object_0);
    }
    report
}

fn emit_json(entries: &Vec<DriftEntry>, corpus: &str, out: &mut String)
    ensures
        final(out)@ == old(out)@ + line(json_pretty_text(report_json(corpus@, drift_views(entries@)))),
{
    let report = report_json_value(entries, corpus);
    let text = pretty_text(&report);
    out.append(text.as_str());
    out.append("\n");
}

/// Writes the report of `entries` in the chosen format.
pub fn emit_output(entries: &Vec<DriftEntry>, corpus: &str, format: OutputFormat, out: &mut String)
    ensures
        final(out)@ == old(out)@ + report_text(corpus@, drift_views(entries@), format),
{
    match format {
        OutputFormat::Table => emit_table(entries, corpus, out),
        OutputFormat::Json => emit_json(entries, corpus, out),
        OutputFormat::Markdown => emit_markdown(entries, corpus, out),
    }
}

// ---------------------------------------------------------------------------
// The command
// ---------------------------------------------------------------------------

/// What `canon audit` does: the exit code, and the text it writes to
/// standard output and standard error. A corpus path that does not resolve,
/// a template that does not load and a schema that does not load are errors
/// (exit 2); otherwise the report is written and the exit code is 1 when the
/// drift blocks, else 0.
pub open spec fn audit_command(
    t: Seq<NodeView>,
    corpus_str: Seq<char>,
    spec: Seq<char>,
    format: OutputFormat,
    ws: Seq<char>,
    cwd: Seq<char>,
    user_dir: Seq<char>,
) -> (i32, Seq<char>, Seq<char>) {
    match resolved_src(t, corpus_str, ws, cwd) {
        None => (2, Seq::empty(), corpus_missing_msg(corpus_str, ws)),
        Some(c) => match spec_template(t, ws, user_dir, spec) {
            Err(e) => (2, Seq::empty(), template_failure_msg(e)),
            Ok(tv) => match schema_outcome(t, tv) {
                SchemaOutcome::Absent => {
                    let d = audit_drift(t, c, tv, None);
                    (if any_blocking(d) { 1 } else { 0 }, report_text(c, d, format), Seq::empty())
                },
                SchemaOutcome::Loaded(s) => {
                    let d = audit_drift(t, c, tv, Some(s));
                    (if any_blocking(d) { 1 } else { 0 }, report_text(c, d, format), Seq::empty())
                },
                so => (2, Seq::empty(), line("error: "@ + schema_failure_text(so))),
            },
        },
    }
}

/// Runs `canon audit` on a snapshot: resolves the corpus (workspace-root
/// relative first, then current-directory relative), loads the template,
/// audits, and writes the report. Returns 0 (conformant), 1 (drift) or 2
/// (error).
pub fn run_impl(
    corpus_path_str: &str,
    template_spec: &str,
    format: OutputFormat,
    workspace_root: &str,
    cwd: &str,
    user_dir: &str,
    tree: &FileTree,
    out: &mut String,
    err: &mut String,
) -> (r: i32)
    ensures
        ({
            let (code, o, e) = audit_command(tree@, corpus_path_str@, template_spec@, format, workspace_root@, cwd@, user_dir@);
            r == code && final(out)@ =~= old(out)@ + o && final(err)@ =~= old(err)@ + e
        }),
{
    let corpus_path = match resolve_src_path(corpus_path_str, workspace_root, cwd, tree) {
        Some(p) => p,
        None => {
            err.append("error: corpus path '");
            err.append(corpus_path_str);
            err.append("' not found\nHint: paths are resolved from workspace root (");
            err.append(workspace_root);
            err.append(")");
            err.append("\n");
            return 2;
        },
    };
    let template = match load_cli_template(template_spec, workspace_root, user_dir, tree, err) {
        Some(t) => t,
        None => return 2,
    };
    let entries = match run_audit(corpus_path.as_str(), &template, tree) {
        Ok(e) => e,
        Err(e) => {
            err.append("error: ");
            let m = e.message();
            err.append(m.as_str());
            err.append("\n");
            return 2;
        },
    };
    emit_output(&entries, corpus_path.as_str(), format, out);
    if has_blocking_drift(entries.as_slice()) {
        1
    } else {
        0
    }
}

} // verus!
