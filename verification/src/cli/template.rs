//! `canon template`: list, show, validate and install templates.

use vstd::prelude::*;
use vstd::string::StringExecFns;
use crate::cli::{is_flag, line, unknown_flag_msg};
use crate::cli::audit::{is_path_spec_exec, pad, push_padded, spec_template};
use crate::json::{JsonModel, JsonValue, json_pretty_text, pretty_text};
use crate::template::validate::{schema_path_of, schema_ref_msg, schema_ref_rejected, validate};
use crate::template::{TemplateErrorView, FolderShape, ListedTemplate, LoadedTemplate, TemplateError, TemplateLoader, TemplateTier, template_error_text, texts};
use crate::template::loader::{ListedView, dir_template, read_failure_text, all_listing, listed_views, load_is, production_registry, production_builtins};
use crate::template::manifest::{gaps_folder_of, InvariantsModel, ManifestModel, TemplateManifest, TemplateView, manifest_model, TierView, shape_text, tier_view};
use crate::files::{FileTree, NodeKind, NodeView, exists_at, is_absolute, is_dir_at, last_index, node_at, text_at, join_path, path_join};
use crate::text::{ends_with, starts_with, str_eq};
use crate::toml_value::{TomlModel, TomlValue, parse_toml, toml_document, toml_get};

verus! {

/// The help text of `canon template`.
pub const TEMPLATE_HELP: &'static str = "USAGE:\n  canon template <subcommand> [options]\n\nSUBCOMMANDS:\n  list               List all installed templates\n  show <name>        Show manifest details for a template\n  validate <path>    Validate a template directory\n  install <source>   Install a template (local path or git URL)";

/// The help text of `canon template list`.
pub const LIST_HELP: &'static str = "USAGE:\n  canon template list\n\nLists all installed templates organized by tier (built-in, workspace, user).";

/// The help text of `canon template show`.
pub const SHOW_HELP: &'static str = "USAGE:\n  canon template show <name> [--format table|json]\n\nPrints manifest details for the named template.";

/// The help text of `canon template validate`.
pub const VALIDATE_HELP: &'static str = "USAGE:\n  canon template validate <path>\n\nValidates a template directory.\n\nEXIT CODES:\n  0  Valid\n  1  Invalid (with field/line info)\n  2  Error (unreadable)";

/// The help text of `canon template install`.
pub const INSTALL_HELP: &'static str = "USAGE:\n  canon template install <local-path|git-url>\n\nInstalls a template to the user templates directory.\nFor local paths: copies the template directory.\nFor git URLs: clones the repository.\n\nSECURITY NOTE: v1 install is unsigned and user-local.\nRegistry, signing, and trust model are out of scope for v1.";

/// A clone's outcome as plain values.
pub open spec fn clone_view(r: Result<(), String>) -> Result<(), Seq<char>> {
    match r {
        Ok(_) => Ok(()),
        Err(e) => Err(e@),
    }
}

/// Clones a git repository into a destination directory. Whether a clone
/// succeeds depends on the network and the repository, so the trait promises
/// nothing of the outcome; an implementation says which outcomes it may give.
pub trait GitCloner {
    /// Whether `r` is an outcome this cloner may give for cloning `url` into
    /// `dest`. By default any outcome may come; an implementation may say
    /// more by defining it.
    open spec fn clone_outcome(&self, url: Seq<char>, dest: Seq<char>, r: Result<(), Seq<char>>) -> bool {
        true
    }

    fn clone_repo(&self, url: &str, dest: &str) -> (r: Result<(), String>)
        ensures
            self.clone_outcome(url@, dest@, clone_view(r)),
    ;
}

/// Whether an argument asks for help.
pub open spec fn is_help(a: Seq<char>) -> bool {
    a == "--help"@ || a == "-h"@
}

// ---------------------------------------------------------------------------
// canon template list
// ---------------------------------------------------------------------------

/// The workspace templates directory of a workspace root.
pub open spec fn workspace_templates(ws: Seq<char>) -> Seq<char> {
    path_join(ws, ".accelmars/canon/templates"@)
}

pub open spec fn list_row(t: ListedView) -> Seq<char> {
    "  "@ + pad(t.name, 22) + "  "@ + t.description + "\n"@
}

/// The rows of the templates of one tier, in listing order.
pub open spec fn tier_rows(l: Seq<ListedView>, tier: TemplateTier) -> Seq<char>
    decreases l.len(),
{
    if l.len() == 0 {
        Seq::empty()
    } else {
        tier_rows(l.drop_last(), tier) + if l.last().tier == tier {
            list_row(l.last())
        } else {
            Seq::empty()
        }
    }
}

/// A section's rows, or `(none)` when the tier has no template.
pub open spec fn section(l: Seq<ListedView>, tier: TemplateTier) -> Seq<char> {
    if tier_rows(l, tier).len() == 0 {
        "  (none)\n"@
    } else {
        tier_rows(l, tier)
    }
}

/// The listing: built-in, workspace and user sections, in that order.
pub open spec fn list_text(l: Seq<ListedView>, user_dir: Seq<char>) -> Seq<char> {
    "BUILT-IN TEMPLATES\n"@ + section(l, TemplateTier::BuiltIn) + "\n"@
        + "WORKSPACE TEMPLATES (.accelmars/canon/templates/)\n"@ + section(l, TemplateTier::Workspace) + "\n"@
        + "USER TEMPLATES ("@ + user_dir + "/)\n"@ + section(l, TemplateTier::User)
}

/// Whether some argument asks for help.
pub open spec fn has_help(rest: Seq<Seq<char>>) -> bool {
    exists|i: int| 0 <= i < rest.len() && is_help(#[trigger] rest[i])
}

/// The first argument that is a flag.
pub open spec fn first_flag(rest: Seq<Seq<char>>) -> Option<Seq<char>>
    decreases rest.len(),
{
    if rest.len() == 0 {
        None
    } else if is_flag(rest[0]) {
        Some(rest[0])
    } else {
        first_flag(rest.drop_first())
    }
}

/// What `canon template list` does: help, an unknown flag, or the listing of
/// every tier.
pub open spec fn list_command(rest: Seq<Seq<char>>, ws: Seq<char>, user_dir: Seq<char>, t: Seq<NodeView>) -> (i32, Seq<char>, Seq<char>) {
    if has_help(rest) {
        (0, line(LIST_HELP@), Seq::empty())
    } else {
        match first_flag(rest) {
            Some(a) => (2, Seq::empty(), unknown_flag_msg(a)),
            None => (0, list_text(all_listing(production_registry(), workspace_templates(ws), user_dir, t), user_dir), Seq::empty()),
        }
    }
}

fn same_tier(a: &TemplateTier, b: &TemplateTier) -> (r: bool)
    requires
        !(*b is ExplicitPath),
    ensures
        r == (*a == *b),
{
    match (a, b) {
        (TemplateTier::BuiltIn, TemplateTier::BuiltIn) => true,
        (TemplateTier::Workspace, TemplateTier::Workspace) => true,
        (TemplateTier::User, TemplateTier::User) => true,
        _ => false,
    }
}

fn tier_rows_of(templates: &[ListedTemplate], tier: &TemplateTier) -> (r: String)
    requires
        !(*tier is ExplicitPath),
    ensures
        r@ == tier_rows(listed_views(templates@), *tier),
{
    let ghost l = listed_views(templates@);
    let mut s = String::new();
    for i in 0..templates.len()
        invariant
            l == listed_views(templates@),
            !(*tier is ExplicitPath),
            s@ == tier_rows(l.take(i as int), *tier),
    {
        proof {
            assert(l.take(i + 1).drop_last() =~= l.take(i as int));
            assert(l.take(i + 1).last() == templates@[i as int]@);
        }
        let t = &templates[i];
        if same_tier(&t.tier, tier) {
            s.append("  ");
            push_padded(&mut s, t.name.as_str(), 22);
            s.append("  ");
            s.append(t.description.as_str());
            s.append("\n");
        }
        proof {
            assert(s@ =~= tier_rows(l.take(i + 1), *tier));
        }
    }
    proof {
        assert(l.take(l.len() as int) =~= l);
    }
    s
}

fn push_section(out: &mut String, templates: &[ListedTemplate], tier: &TemplateTier)
    requires
        !(*tier is ExplicitPath),
    ensures
        final(out)@ == old(out)@ + section(listed_views(templates@), *tier),
{
    let rows = tier_rows_of(templates, tier);
    if rows.as_str().unicode_len() == 0 {
        out.append("  (none)\n");
    } else {
        out.append(rows.as_str());
    }
}

/// Writes the listing of `templates`, grouped by tier: built-in, workspace,
/// then user, each name padded to 22 characters before its description.
pub fn format_list(templates: &[ListedTemplate], user_dir: &str, out: &mut String)
    ensures
        final(out)@ == old(out)@ + list_text(listed_views(templates@), user_dir@),
{
    out.append("BUILT-IN TEMPLATES\n");
    push_section(out, templates, &TemplateTier::BuiltIn);
    out.append("\n");
    out.append("WORKSPACE TEMPLATES (.accelmars/canon/templates/)\n");
    push_section(out, templates, &TemplateTier::Workspace);
    out.append("\n");
    out.append("USER TEMPLATES (");
    out.append(user_dir);
    out.append("/)\n");
    push_section(out, templates, &TemplateTier::User);
    proof {
        assert(out@ =~= old(out)@ + list_text(listed_views(templates@), user_dir@));
    }
}

fn args_have_help(args: &[String]) -> (r: bool)
    requires
        args@.len() >= 1,
    ensures
        r == has_help(texts(args@).skip(1)),
{
    let ghost rest = texts(args@).skip(1);
    for i in 1..args.len()
        invariant
            rest == texts(args@).skip(1),
            forall|k: int| 0 <= k < i - 1 ==> !is_help(#[trigger] rest[k]),
    {
        proof {
            assert(rest[i - 1] == args@[i as int]@);
            reveal_strlit("--help");
            reveal_strlit("-h");
        }
        if str_eq(args[i].as_str(), "--help") || str_eq(args[i].as_str(), "-h") {
            return true;
        }
    }
    false
}

proof fn lemma_first_flag_skip(rest: Seq<Seq<char>>, i: int)
    requires
        0 <= i <= rest.len(),
        forall|k: int| 0 <= k < i ==> !is_flag(#[trigger] rest[k]),
    ensures
        first_flag(rest) == first_flag(rest.skip(i)),
    decreases i,
{
    if i > 0 {
        lemma_first_flag_skip(rest.drop_first(), i - 1);
        assert(rest.drop_first().skip(i - 1) =~= rest.skip(i));
    } else {
        assert(rest.skip(0) =~= rest);
    }
}

fn args_first_flag(args: &[String]) -> (r: Option<usize>)
    requires
        args@.len() >= 1,
    ensures
        match r {
            Some(i) => 1 <= i < args@.len() && first_flag(texts(args@).skip(1)) == Some(args@[i as int]@),
            None => first_flag(texts(args@).skip(1)) is None,
        },
{
    let ghost rest = texts(args@).skip(1);
    for i in 1..args.len()
        invariant
            rest == texts(args@).skip(1),
            forall|k: int| 0 <= k < i - 1 ==> !is_flag(#[trigger] rest[k]),
    {
        proof {
            assert(rest[i - 1] == args@[i as int]@);
        }
        if crate::cli::is_flag_exec(args[i].as_str()) {
            proof {
                lemma_first_flag_skip(rest, i - 1);
                assert(rest.skip(i - 1)[0] == rest[i - 1]);
            }
            return Some(i);
        }
    }
    proof {
        lemma_first_flag_skip(rest, rest.len() as int);
    }
    None
}

/// `canon template list` (`args[0]` is the subcommand).
fn cmd_list(args: &[String], out: &mut String, err: &mut String, workspace_root: &str, user_dir: &str, tree: &FileTree) -> (r: i32)
    requires
        args@.len() >= 1,
    ensures
        ({
            let (code, o, e) = list_command(texts(args@).skip(1), workspace_root@, user_dir@, tree@);
            r == code && final(out)@ == old(out)@ + o && final(err)@ == old(err)@ + e
        }),
{
    if args_have_help(args) {
        out.append(LIST_HELP);
        out.append("\n");
        return 0;
    }
    match args_first_flag(args) {
        Some(i) => {
            err.append("error: unknown flag '");
            err.append(args[i].as_str());
            err.append("'");
            err.append("\n");
            return 2;
        },
        None => {},
    }
    let loader = TemplateLoader::with_builtins(
        production_builtins(),
        join_path(workspace_root, ".accelmars/canon/templates"),
        user_dir.to_string(),
    );
    let all = loader.list_all(tree);
    format_list(all.as_slice(), user_dir, out);
    0
}

// ---------------------------------------------------------------------------
// canon template show
// ---------------------------------------------------------------------------

/// Where scanning the arguments of `show` ends: an exit with its texts, or
/// the template to show and whether as JSON.
pub enum ShowScan {
    Stop(i32, Seq<char>, Seq<char>),
    Go(Seq<char>, bool),
}

/// `canon template show` arguments from index `i` on.
pub open spec fn show_scan(rest: Seq<Seq<char>>, i: int, name: Option<Seq<char>>, json: bool) -> ShowScan
    decreases rest.len() - i,
{
    if i < 0 || i >= rest.len() {
        match name {
            None => ShowScan::Stop(2, Seq::empty(), line("error: <name> is required"@)),
            Some(n) => ShowScan::Go(n, json),
        }
    } else {
        let a = rest[i];
        if a == "--format"@ || a == "-f"@ {
            if i + 1 >= rest.len() {
                ShowScan::Stop(2, Seq::empty(), line("error: --format requires a value"@))
            } else if rest[i + 1] == "json"@ {
                show_scan(rest, i + 2, name, true)
            } else if rest[i + 1] == "table"@ {
                show_scan(rest, i + 2, name, json)
            } else {
                ShowScan::Stop(2, Seq::empty(), line("error: unknown format '"@ + rest[i + 1] + "'; valid values: table, json"@))
            }
        } else if is_help(a) {
            ShowScan::Stop(0, line(SHOW_HELP@), Seq::empty())
        } else if !is_flag(a) {
            if name is Some {
                ShowScan::Stop(2, Seq::empty(), line("error: unexpected argument '"@ + a + "' (name already set)"@))
            } else {
                show_scan(rest, i + 1, Some(a), json)
            }
        } else {
            ShowScan::Stop(2, Seq::empty(), unknown_flag_msg(a))
        }
    }
}

/// How a tier is shown: its name, or the path of an explicit template.
pub open spec fn tier_name(t: TierView) -> Seq<char> {
    match t {
        TierView::BuiltIn => "built-in"@,
        TierView::Workspace => "workspace"@,
        TierView::User => "user"@,
        TierView::ExplicitPath(p) => p,
    }
}

pub open spec fn bool_text(b: bool) -> Seq<char> {
    if b {
        "true"@
    } else {
        "false"@
    }
}

pub open spec fn show_head(tv: TemplateView) -> Seq<char> {
    let m = tv.manifest;
    "name:             "@ + m.name + "\n"@ + "version:          "@ + m.version + "\n"@ + "description:      "@ + m.description
        + "\n"@ + "tier:             "@ + tier_name(tv.tier) + "\n"@ + "shape:            "@ + shape_text(m.shape) + "\n"@
}

pub open spec fn show_schema(m: ManifestModel) -> Seq<char> {
    match m.schema {
        Some(s) => "schema:           "@ + s + "\n"@,
        None => Seq::empty(),
    }
}

pub open spec fn show_invariants(m: ManifestModel) -> Seq<char> {
    match m.invariants {
        Some(inv) => "index_required:   "@ + bool_text(inv.index_required) + "\n"@ + "atomic_file_gate: "@ + bool_text(
            inv.atomic_file_gate,
        ) + "\n"@ + match inv.gaps_folder {
            Some(g) => "gaps_folder:      "@ + g + "\n"@,
            None => Seq::empty(),
        },
        None => Seq::empty(),
    }
}

pub open spec fn show_dir(tv: TemplateView) -> Seq<char> {
    match tv.dir {
        Some(d) => "path:             "@ + d + "\n"@,
        None => Seq::empty(),
    }
}

/// The table form of `show`: one `key: value` line per manifest field that
/// is present, values aligned.
pub open spec fn show_table_text(tv: TemplateView) -> Seq<char> {
    show_head(tv) + show_schema(tv.manifest) + show_invariants(tv.manifest) + show_dir(tv)
}

/// The `invariants` object of the JSON form (keys in order).
pub open spec fn invariants_json(inv: InvariantsModel) -> JsonModel {
    JsonModel::Object(
        seq![("atomic_file_gate"@, JsonModel::Bool(inv.atomic_file_gate))] + match inv.gaps_folder {
            Some(g) => seq![("gaps_folder"@, JsonModel::Text(g))],
            None => Seq::empty(),
        } + seq![("index_required"@, JsonModel::Bool(inv.index_required))],
    )
}

/// The JSON form of `show`: the manifest fields that are present, the tier
/// and the directory, keys in order.
pub open spec fn show_json_model(tv: TemplateView) -> JsonModel {
    let m = tv.manifest;
    JsonModel::Object(
        seq![
            ("description"@, JsonModel::Text(m.description)),
            ("folder_rules"@, JsonModel::Object(seq![("shape"@, JsonModel::Text(shape_text(m.shape)))])),
        ] + match m.schema {
            Some(s) => seq![("frontmatter"@, JsonModel::Object(seq![("schema"@, JsonModel::Text(s))]))],
            None => Seq::empty(),
        } + match m.invariants {
            Some(inv) => seq![("invariants"@, invariants_json(inv))],
            None => Seq::empty(),
        } + seq![("name"@, JsonModel::Text(m.name))] + match tv.dir {
            Some(d) => seq![("path"@, JsonModel::Text(d))],
            None => Seq::empty(),
        } + seq![("tier"@, JsonModel::Text(tier_name(tv.tier))), ("version"@, JsonModel::Text(m.version))],
    )
}

/// What `canon template show` does: scan the arguments, load the template
/// (a path, or a name resolved over the tiers with `user_dir` as the user
/// tier), and show it as a table or as JSON.
pub open spec fn show_command(rest: Seq<Seq<char>>, ws: Seq<char>, user_dir: Seq<char>, t: Seq<NodeView>) -> (i32, Seq<char>, Seq<char>) {
    match show_scan(rest, 0, None, false) {
        ShowScan::Stop(c, o, e) => (c, o, e),
        ShowScan::Go(spec, json) => match spec_template(t, ws, user_dir, spec) {
            Ok(tv) => (
                0,
                if json {
                    line(json_pretty_text(show_json_model(tv)))
                } else {
                    show_table_text(tv)
                },
                Seq::empty(),
            ),
            Err(e) => (2, Seq::empty(), line("error: "@ + template_error_text(e))),
        },
    }
}

fn shape_str(s: FolderShape) -> (r: &'static str)
    ensures
        r@ == shape_text(s),
{
    proof {
        reveal_strlit("numbered-tiers");
        reveal_strlit("flat");
        reveal_strlit("by-domain");
        reveal_strlit("custom");
    }
    match s {
        FolderShape::NumberedTiers => "numbered-tiers",
        FolderShape::Flat => "flat",
        FolderShape::ByDomain => "by-domain",
        FolderShape::Custom => "custom",
    }
}

fn bool_str(b: bool) -> (r: &'static str)
    ensures
        r@ == bool_text(b),
{
    proof {
        reveal_strlit("true");
        reveal_strlit("false");
    }
    if b {
        "true"
    } else {
        "false"
    }
}

/// How a tier is shown.
pub fn tier_display_name(t: &TemplateTier) -> (r: String)
    ensures
        r@ == tier_name(tier_view(*t)),
{
    match t {
        TemplateTier::BuiltIn => String::from_str("built-in"),
        TemplateTier::Workspace => String::from_str("workspace"),
        TemplateTier::User => String::from_str("user"),
        TemplateTier::ExplicitPath(p) => p.clone(),
    }
}

fn push_head(t: &LoadedTemplate, out: &mut String)
    ensures
        final(out)@ == old(out)@ + show_head(t@),
{
    let m = &t.manifest;
    let tier = tier_display_name(&t.tier);
    out.append("name:             ");
    out.append(m.name.as_str());
    out.append("\n");
    out.append("version:          ");
    out.append(m.version.as_str());
    out.append("\n");
    out.append("description:      ");
    out.append(m.description.as_str());
    out.append("\n");
    out.append("tier:             ");
    out.append(tier.as_str());
    out.append("\n");
    out.append("shape:            ");
    out.append(shape_str(m.folder_rules.shape));
    out.append("\n");
    proof {
        assert(out@ =~= old(out)@ + show_head(t@));
    }
}

fn push_invariants(m: &TemplateManifest, out: &mut String)
    ensures
        final(out)@ == old(out)@ + show_invariants(manifest_model(*m)),
{
    match &m.invariants {
        Some(inv) => {
            out.append("index_required:   ");
            out.append(bool_str(inv.index_required));
            out.append("\n");
            out.append("atomic_file_gate: ");
            out.append(bool_str(inv.atomic_file_gate));
            out.append("\n");
            match &inv.gaps_folder {
                Some(gf) => {
                    out.append("gaps_folder:      ");
                    out.append(gf.as_str());
                    out.append("\n");
                },
                None => {},
            }
        },
        None => {},
    }
    proof {
        assert(out@ =~= old(out)@ + show_invariants(manifest_model(*m)));
    }
}

/// Writes the table form of a loaded template.
#[verifier::spinoff_prover]
pub fn show_table(t: &LoadedTemplate, out: &mut String)
    ensures
        final(out)@ == old(out)@ + show_table_text(t@),
{
    push_head(t, out);
    let ghost s1 = out@;
    match &t.manifest.frontmatter {
        Some(fm) => {
            out.append("schema:           ");
            out.append(fm.schema.as_str());
            out.append("\n");
        },
        None => {},
    }
    proof {
        assert(out@ =~= s1 + show_schema(t@.manifest));
    }
    push_invariants(&t.manifest, out);
    let ghost s3 = out@;
    match &t.dir {
        Some(d) => {
            out.append("path:             ");
            out.append(d.as_str());
            out.append("\n");
        },
        None => {},
    }
    proof {
        assert(out@ =~= s3 + show_dir(t@));
        assert(out@ =~= old(out)@ + show_table_text(t@));
    }
}

fn text_entry(key: &str, value: String) -> (r: (String, JsonValue))
    ensures
        r.0@ == key@,
        r.1@ == JsonModel::Text(value@),
{
    (key.to_string(), JsonValue::Text(value))
}

/// The JSON form of a loaded template, as a value.
pub fn show_json_value(t: &LoadedTemplate) -> (r: JsonValue)
    ensures
        r@ == show_json_model(t@),
{
    let m = &t.manifest;
    let ghost tv = t@;
    let mut fields: Vec<(String, JsonValue)> = Vec::new();
    fields.push(text_entry("description", m.description.clone()));
    let mut shape: Vec<(String, JsonValue)> = Vec::new();
    shape.push(text_entry("shape", String::from_str(shape_str(m.folder_rules.shape))));
    let ghost shv = shape@;
    let rules = JsonValue::Object(shape);
    proof {
        crate::json::lemma_json_compound(rules);
        assert(crate::json::json_entries(shv) =~= seq![("shape"@, JsonModel::Text(shape_text(tv.manifest.shape)))]);
    }
    fields.push((String::from_str("folder_rules"), rules));
    let ghost e1 = crate::json::json_entries(fields@);
    match &m.frontmatter {
        Some(fm) => {
            let mut f: Vec<(String, JsonValue)> = Vec::new();
            f.push(text_entry("schema", fm.schema.clone()));
            let ghost fv = f@;
            let o = JsonValue::Object(f);
            proof {
                crate::json::lemma_json_compound(o);
                assert(crate::json::json_entries(fv) =~= seq![("schema"@, JsonModel::Text(fm.schema@))]);
            }
            fields.push((String::from_str("frontmatter"), o));
        },
        None => {},
    }
    let ghost e2 = crate::json::json_entries(fields@);
    match &m.invariants {
        Some(inv) => {
            let mut iv: Vec<(String, JsonValue)> = Vec::new();
            iv.push((String::from_str("atomic_file_gate"), JsonValue::Bool(inv.atomic_file_gate)));
            match &inv.gaps_folder {
                Some(gf) => {
                    iv.push(text_entry("gaps_folder", gf.clone()));
                },
                None => {},
            }
            iv.push((String::from_str("index_required"), JsonValue::Bool(inv.index_required)));
            let ghost ivv = iv@;
            let o = JsonValue::Object(iv);
            proof {
                crate::json::lemma_json_compound(o);
                assert(crate::json::json_entries(ivv) =~= invariants_json(tv.manifest.invariants->Some_0)->Object_0);
            }
            fields.push((String::from_str("invariants"), o));
        },
        None => {},
    }
    let ghost e3 = crate::json::json_entries(fields@);
    fields.push(text_entry("name", m.name.clone()));
    match &t.dir {
        Some(d) => {
            fields.push(text_entry("path", d.clone()));
        },
        None => {},
    }
    let ghost e4 = crate::json::json_entries(fields@);
    fields.push(text_entry("tier", tier_display_name(&t.tier)));
    fields.push(text_entry("version", m.version.clone()));
    let ghost fv = fields@;
    let r = JsonValue::Object(fields);
    proof {
        crate::json::lemma_json_compound(r);
        assert(crate::json::json_entries(fv) =~= show_json_model(tv)->Object_0);
    }
    r
}

/// Writes the JSON form of a loaded template.
pub fn show_json(t: &LoadedTemplate, out: &mut String)
    ensures
        final(out)@ == old(out)@ + line(json_pretty_text(show_json_model(t@))),
{
    let v = show_json_value(t);
    let text = pretty_text(&v);
    out.append(text.as_str());
    out.append("\n");
}

/// Scans the arguments of `show` (`args[1..]`).
#[verifier::rlimit(30)]
fn scan_show(args: &[String], out: &mut String, err: &mut String) -> (r: Result<(String, bool), i32>)
    requires
        args@.len() >= 1,
    ensures
        match show_scan(texts(args@).skip(1), 0, None, false) {
            ShowScan::Stop(c, o, e) => r == Err::<(String, bool), i32>(c) && final(out)@ == old(out)@ + o && final(err)@ == old(err)@ + e,
            ShowScan::Go(n, j) => r matches Ok(p) && p.0@ == n && p.1 == j && final(out)@ == old(out)@ && final(err)@ == old(err)@,
        },
{
    let ghost rest = texts(args@).skip(1);
    let ghost goal = show_scan(rest, 0, None, false);
    let mut name: Option<String> = None;
    let mut json = false;
    let mut i: usize = 1;
    while i < args.len()
        invariant
            rest == texts(args@).skip(1),
            1 <= i <= args@.len() + 1,
            goal == show_scan(rest, 0, None, false),
            goal == show_scan(rest, i - 1, crate::cli::opt_view(name), json),
            out@ == old(out)@,
            err@ == old(err)@,
        decreases args.len() + 1 - i,
    {
        let a = args[i].as_str();
        proof {
            assert(rest[i - 1] == a@);
            reveal_strlit("--format");
            reveal_strlit("-f");
            reveal_strlit("--help");
            reveal_strlit("-h");
            reveal_strlit("json");
            reveal_strlit("table");
        }
        if str_eq(a, "--format") || str_eq(a, "-f") {
            if i + 1 >= args.len() {
                err.append("error: --format requires a value");
                err.append("\n");
                return Err(2);
            }
            proof {
                assert(rest[i as int] == args@[i + 1]@);
            }
            let v = args[i + 1].as_str();
            if str_eq(v, "json") {
                json = true;
            } else if str_eq(v, "table") {
            } else {
                err.append("error: unknown format '");
                err.append(v);
                err.append("'; valid values: table, json");
                err.append("\n");
                return Err(2);
            }
            i = i + 2;
        } else if str_eq(a, "--help") || str_eq(a, "-h") {
            out.append(SHOW_HELP);
            out.append("\n");
            return Err(0);
        } else if !crate::cli::is_flag_exec(a) {
            if name.is_some() {
                err.append("error: unexpected argument '");
                err.append(a);
                err.append("' (name already set)");
                err.append("\n");
                return Err(2);
            }
            name = Some(args[i].clone());
            i = i + 1;
        } else {
            err.append("error: unknown flag '");
            err.append(a);
            err.append("'");
            err.append("\n");
            return Err(2);
        }
    }
    match name {
        None => {
            err.append("error: <name> is required");
            err.append("\n");
            Err(2)
        },
        Some(n) => Ok((n, json)),
    }
}

/// Loads a template for `show`: a path, or a name over the tiers.
fn load_for_show(spec: &str, workspace_root: &str, user_dir: &str, tree: &FileTree) -> (r: Result<LoadedTemplate, TemplateError>)
    ensures
        load_is(r, spec_template(tree@, workspace_root@, user_dir@, spec@)),
{
    let loader = TemplateLoader::from_workspace_root(workspace_root, user_dir);
    if is_path_spec_exec(spec) {
        loader.load_by_path(spec, tree)
    } else {
        loader.load_by_name(spec, tree)
    }
}

/// `canon template show` (`args[0]` is the subcommand).
fn cmd_show(args: &[String], out: &mut String, err: &mut String, workspace_root: &str, user_dir: &str, tree: &FileTree) -> (r: i32)
    requires
        args@.len() >= 1,
    ensures
        ({
            let (code, o, e) = show_command(texts(args@).skip(1), workspace_root@, user_dir@, tree@);
            r == code && final(out)@ == old(out)@ + o && final(err)@ == old(err)@ + e
        }),
{
    let (spec, json) = match scan_show(args, out, err) {
        Err(code) => {
            return code;
        },
        Ok(p) => p,
    };
    match load_for_show(spec.as_str(), workspace_root, user_dir, tree) {
        Ok(t) => {
            if json {
                show_json(&t, out);
            } else {
                show_table(&t, out);
            }
            0
        },
        Err(e) => {
            err.append("error: ");
            let m = e.message();
            err.append(m.as_str());
            err.append("\n");
            2
        },
    }
}

// ---------------------------------------------------------------------------
// canon template validate
// ---------------------------------------------------------------------------

/// Where scanning the arguments of a subcommand with one positional argument
/// ends: an exit with its texts, or the argument if one was given.
pub enum SingleScan {
    Stop(i32, Seq<char>, Seq<char>),
    Got(Option<Seq<char>>),
}

/// Scans arguments from index `i` on: help stops with `help`, a second
/// positional argument or any flag is an error (`extra` ends the message of
/// the first).
pub open spec fn single_scan(rest: Seq<Seq<char>>, i: int, cur: Option<Seq<char>>, help: Seq<char>, extra: Seq<char>) -> SingleScan
    decreases rest.len() - i,
{
    if i < 0 || i >= rest.len() {
        SingleScan::Got(cur)
    } else {
        let a = rest[i];
        if is_help(a) {
            SingleScan::Stop(0, line(help), Seq::empty())
        } else if !is_flag(a) {
            if cur is Some {
                SingleScan::Stop(2, Seq::empty(), line("error: unexpected argument '"@ + a + "'"@ + extra))
            } else {
                single_scan(rest, i + 1, Some(a), help, extra)
            }
        } else {
            SingleScan::Stop(2, Seq::empty(), unknown_flag_msg(a))
        }
    }
}

/// The directory `validate` checks: absolute as given, else relative to the
/// workspace root, else to the current directory, if it exists.
pub open spec fn validate_path(t: Seq<NodeView>, p: Seq<char>, ws: Seq<char>, cwd: Seq<char>) -> Option<Seq<char>> {
    if is_absolute(p) {
        Some(p)
    } else if exists_at(t, path_join(ws, p)) {
        Some(path_join(ws, p))
    } else if exists_at(t, path_join(cwd, p)) {
        Some(path_join(cwd, p))
    } else {
        None
    }
}

/// The verdict on a loaded template: a missing schema or an empty gaps
/// folder makes it invalid (exit 1), else it is valid (exit 0).
pub open spec fn validation_report(t: Seq<NodeView>, tv: TemplateView, path: Seq<char>) -> (i32, Seq<char>, Seq<char>) {
    let name = tv.manifest.name;
    match tv.manifest.schema {
        Some(s) if schema_ref_rejected(s) => (1, Seq::empty(), line("invalid: "@ + name + " — "@ + schema_ref_msg(s))),
        _ => match schema_path_of(tv) {
        Some(p) if !exists_at(t, p) => (1, Seq::empty(), line("invalid: template '"@ + name + "' — schema '"@ + p + "' not found"@)),
        _ => if gaps_folder_of(tv.manifest) == Some(Seq::<char>::empty()) {
            (1, Seq::empty(), line("invalid: "@ + name + " — "@ + "invariants.gaps_folder must not be empty if specified"@))
        } else {
            (0, line("valid: template '"@ + name + "' at '"@ + path + "'"@), Seq::empty())
        },
        },
    }
}

/// What `canon template validate` does: a manifest that does not parse or a
/// template that fails validation is invalid (exit 1); a path that does not
/// resolve or a template that cannot be read is an error (exit 2).
pub open spec fn validate_command(rest: Seq<Seq<char>>, ws: Seq<char>, cwd: Seq<char>, t: Seq<NodeView>) -> (i32, Seq<char>, Seq<char>) {
    match single_scan(rest, 0, None, VALIDATE_HELP@, " (path already set)"@) {
        SingleScan::Stop(c, o, e) => (c, o, e),
        SingleScan::Got(None) => (2, Seq::empty(), line("error: <path> is required"@)),
        SingleScan::Got(Some(ps)) => match validate_path(t, ps, ws, cwd) {
            None => (
                2,
                Seq::empty(),
                line("error: template path '"@ + ps + "' not found\nHint: paths are resolved from workspace root ("@ + ws + ")"@),
            ),
            Some(path) => match dir_template(t, path, TierView::ExplicitPath(path)) {
                Err(TemplateErrorView::Malformed(src, e)) => (1, Seq::empty(), line("invalid: "@ + src + " — "@ + e)),
                Err(e) => (2, Seq::empty(), line("error: "@ + template_error_text(e))),
                Ok(tv) => validation_report(t, tv, path),
            },
        },
    }
}

/// Scans the arguments of a subcommand with one positional argument
/// (`args[1..]`).
#[verifier::rlimit(30)]
fn scan_single(args: &[String], help: &str, extra: &str, out: &mut String, err: &mut String) -> (r: Result<Option<String>, i32>)
    requires
        args@.len() >= 1,
    ensures
        match single_scan(texts(args@).skip(1), 0, None, help@, extra@) {
            SingleScan::Stop(c, o, e) => r == Err::<Option<String>, i32>(c) && final(out)@ == old(out)@ + o && final(err)@ == old(err)@ + e,
            SingleScan::Got(g) => r matches Ok(x) && crate::cli::opt_view(x) == g && final(out)@ == old(out)@ && final(err)@ == old(err)@,
        },
{
    let ghost rest = texts(args@).skip(1);
    let ghost goal = single_scan(rest, 0, None, help@, extra@);
    let mut cur: Option<String> = None;
    let mut i: usize = 1;
    while i < args.len()
        invariant
            rest == texts(args@).skip(1),
            1 <= i <= args@.len(),
            goal == single_scan(rest, 0, None, help@, extra@),
            goal == single_scan(rest, i - 1, crate::cli::opt_view(cur), help@, extra@),
            out@ == old(out)@,
            err@ == old(err)@,
        decreases args.len() - i,
    {
        let a = args[i].as_str();
        proof {
            assert(rest[i - 1] == a@);
            reveal_strlit("--help");
            reveal_strlit("-h");
        }
        if str_eq(a, "--help") || str_eq(a, "-h") {
            out.append(help);
            out.append("\n");
            return Err(0);
        } else if !crate::cli::is_flag_exec(a) {
            if cur.is_some() {
                err.append("error: unexpected argument '");
                err.append(a);
                err.append("'");
                err.append(extra);
                err.append("\n");
                return Err(2);
            }
            cur = Some(args[i].clone());
            i = i + 1;
        } else {
            err.append("error: unknown flag '");
            err.append(a);
            err.append("'");
            err.append("\n");
            return Err(2);
        }
    }
    Ok(cur)
}

/// Resolves the directory `validate` checks.
fn resolve_validate_path(p: &str, workspace_root: &str, cwd: &str, tree: &FileTree) -> (r: Option<String>)
    ensures
        match validate_path(tree@, p@, workspace_root@, cwd@) {
            Some(q) => r matches Some(x) && x@ == q,
            None => r is None,
        },
{
    let c = crate::text::to_chars(p);
    if c.len() > 0 && c[0] == '/' {
        return Some(p.to_string());
    }
    let ws_rel = join_path(workspace_root, p);
    if tree.path_exists(ws_rel.as_str()) {
        return Some(ws_rel);
    }
    let cwd_rel = join_path(cwd, p);
    if tree.path_exists(cwd_rel.as_str()) {
        return Some(cwd_rel);
    }
    None
}

/// Reports the validation of a loaded template found at `path`.
fn report_validation(t: &LoadedTemplate, path: &str, tree: &FileTree, out: &mut String, err: &mut String) -> (r: i32)
    ensures
        ({
            let (code, o, e) = validation_report(tree@, t@, path@);
            r == code && final(out)@ == old(out)@ + o && final(err)@ == old(err)@ + e
        }),
{
    match validate(t, tree) {
        Err(TemplateError::MissingSchema { template, schema_path }) => {
            err.append("invalid: template '");
            err.append(template.as_str());
            err.append("' — schema '");
            err.append(schema_path.as_str());
            err.append("' not found");
            err.append("\n");
            1
        },
        Err(TemplateError::Malformed { source, error }) => {
            err.append("invalid: ");
            err.append(source.as_str());
            err.append(" — ");
            err.append(error.as_str());
            err.append("\n");
            1
        },
        Err(e) => {
            err.append("error: ");
            let m = e.message();
            err.append(m.as_str());
            err.append("\n");
            2
        },
        Ok(()) => {
            out.append("valid: template '");
            out.append(t.manifest.name.as_str());
            out.append("' at '");
            out.append(path);
            out.append("'");
            out.append("\n");
            0
        },
    }
}

/// `canon template validate` (`args[0]` is the subcommand).
fn cmd_validate(
    args: &[String],
    out: &mut String,
    err: &mut String,
    workspace_root: &str,
    cwd: &str,
    user_dir: &str,
    tree: &FileTree,
) -> (r: i32)
    requires
        args@.len() >= 1,
    ensures
        ({
            let (code, o, e) = validate_command(texts(args@).skip(1), workspace_root@, cwd@, tree@);
            r == code && final(out)@ == old(out)@ + o && final(err)@ == old(err)@ + e
        }),
{
    proof {
        reveal_strlit(" (path already set)");
    }
    let ps = match scan_single(args, VALIDATE_HELP, " (path already set)", out, err) {
        Err(code) => {
            return code;
        },
        Ok(None) => {
            err.append("error: <path> is required");
            err.append("\n");
            return 2;
        },
        Ok(Some(p)) => p,
    };
    let path = match resolve_validate_path(ps.as_str(), workspace_root, cwd, tree) {
        None => {
            err.append("error: template path '");
            err.append(ps.as_str());
            err.append("' not found\nHint: paths are resolved from workspace root (");
            err.append(workspace_root);
            err.append(")");
            err.append("\n");
            return 2;
        },
        Some(p) => p,
    };
    let loader = TemplateLoader::from_workspace_root(workspace_root, user_dir);
    match loader.load_by_path(path.as_str(), tree) {
        Err(TemplateError::Malformed { source, error }) => {
            err.append("invalid: ");
            err.append(source.as_str());
            err.append(" — ");
            err.append(error.as_str());
            err.append("\n");
            1
        },
        Err(e) => {
            err.append("error: ");
            let m = e.message();
            err.append(m.as_str());
            err.append("\n");
            2
        },
        Ok(t) => report_validation(&t, path.as_str(), tree, out, err),
    }
}

// ---------------------------------------------------------------------------
// canon template install
// ---------------------------------------------------------------------------

/// Where an installed template comes from.
#[derive(Debug)]
pub enum InstallSource {
    /// A git URL to clone.
    Git(String),
    /// A local template directory to copy.
    Local(String),
}

/// An install that the checks allow: the template's name, the directory it
/// goes to under the user templates directory, and its source.
#[derive(Debug)]
pub struct InstallPlan {
    pub name: String,
    pub dest: String,
    pub source: InstallSource,
}

/// An install source as plain values.
pub enum SourceView {
    Git(Seq<char>),
    Local(Seq<char>),
}

/// An install plan as plain values.
pub struct PlanView {
    pub name: Seq<char>,
    pub dest: Seq<char>,
    pub source: SourceView,
}

impl View for InstallPlan {
    type V = PlanView;

    open spec fn view(&self) -> PlanView {
        PlanView {
            name: self.name@,
            dest: self.dest@,
            source: match self.source {
                InstallSource::Git(u) => SourceView::Git(u@),
                InstallSource::Local(d) => SourceView::Local(d@),
            },
        }
    }
}

/// What a `canon template` command comes to: an exit with the texts written
/// to standard output and standard error, or an install to carry out.
pub enum TemplateOutcome {
    Exit(i32, Seq<char>, Seq<char>),
    Install(PlanView),
}

/// Whether an install source is a git URL.
pub open spec fn is_git_url(s: Seq<char>) -> bool {
    starts_with(s, "https://"@) || starts_with(s, "http://"@) || starts_with(s, "git@"@)
}

/// The text after the last `/`.
pub open spec fn last_segment(s: Seq<char>) -> Seq<char> {
    match last_index(s, '/') {
        Some(k) => s.skip(k + 1),
        None => s,
    }
}

/// The text with every trailing `.git` removed.
pub open spec fn trim_git(s: Seq<char>) -> Seq<char>
    decreases s.len(),
{
    if s.len() >= 4 && ends_with(s, ".git"@) {
        trim_git(s.take(s.len() - 4))
    } else {
        s
    }
}

/// The template name a git URL gives: its last segment without `.git`.
pub open spec fn git_name(url: Seq<char>) -> Seq<char> {
    trim_git(last_segment(url))
}

/// A template name: not empty, lowercase ASCII letters, digits and `-`.
pub open spec fn valid_name(n: Seq<char>) -> bool {
    n.len() > 0 && forall|i: int| 0 <= i < n.len() ==> ('a' <= #[trigger] n[i] <= 'z' || '0' <= n[i] <= '9' || n[i] == '-')
}

/// A local install source: absolute as given, else relative to the current
/// directory if it exists.
pub open spec fn local_src(t: Seq<NodeView>, p: Seq<char>, cwd: Seq<char>) -> Option<Seq<char>> {
    if is_absolute(p) {
        Some(p)
    } else if exists_at(t, path_join(cwd, p)) {
        Some(path_join(cwd, p))
    } else {
        None
    }
}

/// How reading a file that does not read as text fails.
pub open spec fn read_error_text(t: Seq<NodeView>, p: Seq<char>) -> Seq<char> {
    match node_at(t, p) {
        None => "No such file or directory (os error 2)"@,
        Some(n) => read_failure_text(n),
    }
}

/// The valid `name` member of a manifest document.
pub open spec fn document_name(doc: TomlModel) -> Option<Seq<char>> {
    match toml_get(doc, "name"@) {
        Some(TomlModel::Text(n)) => if valid_name(n) {
            Some(n)
        } else {
            None
        },
        _ => None,
    }
}

/// The template name in a manifest text, or why there is none.
pub open spec fn manifest_name(text: Seq<char>) -> Result<Seq<char>, Seq<char>> {
    match toml_document(text) {
        Err(e) => Err("invalid manifest.toml: "@ + e),
        Ok(doc) => match document_name(doc) {
            Some(n) => Ok(n),
            None => Err("manifest.toml missing or invalid 'name' field"@),
        },
    }
}

/// The install of `name` from `source`, unless its destination exists.
pub open spec fn planned(t: Seq<NodeView>, user_dir: Seq<char>, name: Seq<char>, source: SourceView) -> TemplateOutcome {
    let dest = path_join(user_dir, name);
    if exists_at(t, dest) {
        TemplateOutcome::Exit(2, Seq::empty(), line("error: '"@ + dest + "' already exists; remove it first to reinstall"@))
    } else {
        TemplateOutcome::Install(PlanView { name, dest, source })
    }
}

/// What `canon template install` decides: a git URL names the template by
/// its last segment; a local directory by its manifest; either way the
/// destination under the user templates directory must not exist yet.
pub open spec fn install_command(rest: Seq<Seq<char>>, cwd: Seq<char>, user_dir: Seq<char>, t: Seq<NodeView>) -> TemplateOutcome {
    match single_scan(rest, 0, None, INSTALL_HELP@, Seq::empty()) {
        SingleScan::Stop(c, o, e) => TemplateOutcome::Exit(c, o, e),
        SingleScan::Got(None) => TemplateOutcome::Exit(2, Seq::empty(), line("error: <source> is required"@)),
        SingleScan::Got(Some(src)) => if is_git_url(src) {
            if !valid_name(git_name(src)) {
                TemplateOutcome::Exit(2, Seq::empty(), line("error: could not derive a valid template name from URL '"@ + src + "'"@))
            } else {
                planned(t, user_dir, git_name(src), SourceView::Git(src))
            }
        } else {
            match local_src(t, src, cwd) {
                None => TemplateOutcome::Exit(2, Seq::empty(), line("error: local path '"@ + src + "' not found"@)),
                Some(dir) => if !is_dir_at(t, dir) {
                    TemplateOutcome::Exit(2, Seq::empty(), line("error: '"@ + dir + "' is not a directory"@))
                } else {
                    let mp = path_join(dir, "manifest.toml"@);
                    match text_at(t, mp) {
                        None => TemplateOutcome::Exit(2, Seq::empty(), line("error: could not read manifest.toml: "@ + read_error_text(t, mp))),
                        Some(c) => match manifest_name(c) {
                            Err(e) => TemplateOutcome::Exit(2, Seq::empty(), line("error: "@ + e)),
                            Ok(name) => planned(t, user_dir, name, SourceView::Local(dir)),
                        },
                    }
                },
            }
        },
    }
}

/// Whether an install source is a git URL.
pub fn is_git_url_exec(s: &str) -> (r: bool)
    ensures
        r == is_git_url(s@),
{
    let c = crate::text::to_chars(s);
    let a = crate::text::to_chars("https://");
    let b = crate::text::to_chars("http://");
    let d = crate::text::to_chars("git@");
    crate::text::starts_with_chars(c.as_slice(), a.as_slice()) || crate::text::starts_with_chars(c.as_slice(), b.as_slice())
        || crate::text::starts_with_chars(c.as_slice(), d.as_slice())
}

/// Whether a text is a valid template name.
pub fn is_valid_template_name(name: &str) -> (r: bool)
    ensures
        r == valid_name(name@),
{
    let c = crate::text::to_chars(name);
    if c.len() == 0 {
        return false;
    }
    for i in 0..c.len()
        invariant
            c@ == name@,
            forall|k: int| 0 <= k < i ==> ('a' <= #[trigger] c@[k] <= 'z' || '0' <= c@[k] <= '9' || c@[k] == '-'),
    {
        let x = c[i];
        if !(('a' <= x && x <= 'z') || ('0' <= x && x <= '9') || x == '-') {
            return false;
        }
    }
    true
}

proof fn lemma_ends_with_git(s: Seq<char>)
    ensures
        (s.len() >= 4 && ends_with(s, ".git"@)) <==> (s.len() >= 4 && s[s.len() - 4] == '.' && s[s.len() - 3] == 'g'
            && s[s.len() - 2] == 'i' && s[s.len() - 1] == 't'),
{
    reveal_strlit(".git");
    if s.len() >= 4 {
        let t = s.skip(s.len() - 4);
        assert(t.len() == 4);
        assert(t[0] == s[s.len() - 4]);
        assert(t[1] == s[s.len() - 3]);
        assert(t[2] == s[s.len() - 2]);
        assert(t[3] == s[s.len() - 1]);
        if s[s.len() - 4] == '.' && s[s.len() - 3] == 'g' && s[s.len() - 2] == 'i' && s[s.len() - 1] == 't' {
            assert(t =~= ".git"@);
        }
    }
}

/// The last segment of a text, after its last `/`.
fn last_segment_of(url: &str) -> (r: Vec<char>)
    ensures
        r@ == last_segment(url@),
{
    let c = crate::text::to_chars(url);
    proof {
        assert(c@.take(c@.len() as int) =~= c@);
        crate::files::lemma_last_index(url@, '/');
    }
    let start = match crate::files::last_index_in(&c, c.len(), '/') {
        Some(k) => k + 1,
        None => 0,
    };
    let r = crate::text::slice_chars(c.as_slice(), start, c.len());
    proof {
        match last_index(url@, '/') {
            Some(k) => assert(r@ =~= url@.skip(k + 1)),
            None => assert(r@ =~= url@),
        }
    }
    r
}

/// The template name a git URL gives.
pub fn git_template_name(url: &str) -> (r: String)
    ensures
        r@ == git_name(url@),
{
    let seg = last_segment_of(url);
    let mut end = seg.len();
    proof {
        assert(seg@.take(end as int) =~= seg@);
    }
    while end >= 4 && seg[end - 4] == '.' && seg[end - 3] == 'g' && seg[end - 2] == 'i' && seg[end - 1] == 't'
        invariant
            end <= seg@.len(),
            git_name(url@) == trim_git(seg@.take(end as int)),
        decreases end,
    {
        proof {
            let sub = seg@.take(end as int);
            lemma_ends_with_git(sub);
            assert(sub.take(sub.len() - 4) =~= seg@.take(end - 4));
        }
        end = end - 4;
    }
    proof {
        lemma_ends_with_git(seg@.take(end as int));
    }
    let part = crate::text::slice_chars(seg.as_slice(), 0, end);
    proof {
        assert(part@ =~= seg@.take(end as int));
    }
    crate::text::from_chars(part.as_slice())
}

/// The valid name of a manifest document.
pub fn name_from_document(doc: &TomlValue) -> (r: Option<String>)
    ensures
        match document_name(doc@) {
            Some(n) => r matches Some(x) && x@ == n,
            None => r is None,
        },
{
    match doc.get("name") {
        Some(TomlValue::Text(n)) => {
            if is_valid_template_name(n.as_str()) {
                Some(n.clone())
            } else {
                None
            }
        },
        _ => None,
    }
}

/// The template name in a manifest text.
pub fn get_name_from_manifest(content: &str) -> (r: Result<String, String>)
    ensures
        match manifest_name(content@) {
            Ok(n) => r matches Ok(x) && x@ == n,
            Err(e) => r matches Err(x) && x@ == e,
        },
{
    match parse_toml(content) {
        Err(e) => {
            let mut m = String::from_str("invalid manifest.toml: ");
            m.append(e.as_str());
            Err(m)
        },
        Ok(doc) => match name_from_document(&doc) {
            Some(n) => Ok(n),
            None => Err(String::from_str("manifest.toml missing or invalid 'name' field")),
        },
    }
}

/// Whether a run agrees with the outcome `o`, the texts having been
/// appended to `out` and `err`.
pub open spec fn run_as(r: TemplateRun, o: TemplateOutcome, out0: Seq<char>, err0: Seq<char>, out1: Seq<char>, err1: Seq<char>) -> bool {
    match o {
        TemplateOutcome::Exit(code, x, e) => r == TemplateRun::Exit(code) && out1 =~= out0 + x && err1 =~= err0 + e,
        TemplateOutcome::Install(p) => r matches TemplateRun::Install(q) && q@ == p && out1 == out0 && err1 == err0,
    }
}

/// What running a `canon template` command gives: an exit code, or an
/// install for the caller to carry out.
#[derive(Debug)]
pub enum TemplateRun {
    Exit(i32),
    Install(InstallPlan),
}

fn plan_install(name: String, source: InstallSource, user_dir: &str, tree: &FileTree, err: &mut String) -> (r: TemplateRun)
    ensures
        run_as(
            r,
            planned(
                tree@,
                user_dir@,
                name@,
                match source {
                    InstallSource::Git(u) => SourceView::Git(u@),
                    InstallSource::Local(d) => SourceView::Local(d@),
                },
            ),
            Seq::empty(),
            old(err)@,
            Seq::empty(),
            final(err)@,
        ),
{
    let dest = join_path(user_dir, name.as_str());
    if tree.path_exists(dest.as_str()) {
        err.append("error: '");
        err.append(dest.as_str());
        err.append("' already exists; remove it first to reinstall");
        err.append("\n");
        return TemplateRun::Exit(2);
    }
    TemplateRun::Install(InstallPlan { name, dest, source })
}

/// `canon template install` (`args[0]` is the subcommand).
#[verifier::rlimit(30)]
fn cmd_install(args: &[String], out: &mut String, err: &mut String, cwd: &str, user_dir: &str, tree: &FileTree) -> (r: TemplateRun)
    requires
        args@.len() >= 1,
    ensures
        run_as(r, install_command(texts(args@).skip(1), cwd@, user_dir@, tree@), old(out)@, old(err)@, final(out)@, final(err)@),
{
    proof {
        reveal_strlit("");
        assert(""@ =~= Seq::<char>::empty());
    }
    let src = match scan_single(args, INSTALL_HELP, "", out, err) {
        Err(code) => {
            return TemplateRun::Exit(code);
        },
        Ok(None) => {
            err.append("error: <source> is required");
            err.append("\n");
            return TemplateRun::Exit(2);
        },
        Ok(Some(p)) => p,
    };
    if is_git_url_exec(src.as_str()) {
        let name = git_template_name(src.as_str());
        if !is_valid_template_name(name.as_str()) {
            err.append("error: could not derive a valid template name from URL '");
            err.append(src.as_str());
            err.append("'");
            err.append("\n");
            return TemplateRun::Exit(2);
        }
        return plan_install(name, InstallSource::Git(src), user_dir, tree, err);
    }
    let c = crate::text::to_chars(src.as_str());
    let dir = if c.len() > 0 && c[0] == '/' {
        src.clone()
    } else {
        let cwd_rel = join_path(cwd, src.as_str());
        if tree.path_exists(cwd_rel.as_str()) {
            cwd_rel
        } else {
            err.append("error: local path '");
            err.append(src.as_str());
            err.append("' not found");
            err.append("\n");
            return TemplateRun::Exit(2);
        }
    };
    if !tree.is_dir(dir.as_str()) {
        err.append("error: '");
        err.append(dir.as_str());
        err.append("' is not a directory");
        err.append("\n");
        return TemplateRun::Exit(2);
    }
    let mp = join_path(dir.as_str(), "manifest.toml");
    let content = match tree.read_text(mp.as_str()) {
        Some(t) => t,
        None => {
            err.append("error: could not read manifest.toml: ");
            match tree.node(mp.as_str()) {
                None => err.append("No such file or directory (os error 2)"),
                Some(n) => {
                    if n.kind == NodeKind::Dir {
                        err.append("Is a directory (os error 21)");
                    } else {
                        err.append("stream did not contain valid UTF-8");
                    }
                },
            }
            err.append("\n");
            return TemplateRun::Exit(2);
        },
    };
    match get_name_from_manifest(content.as_str()) {
        Err(e) => {
            err.append("error: ");
            err.append(e.as_str());
            err.append("\n");
            TemplateRun::Exit(2)
        },
        Ok(name) => plan_install(name, InstallSource::Local(dir), user_dir, tree, err),
    }
}

// ---------------------------------------------------------------------------
// Carrying out an install
// ---------------------------------------------------------------------------

pub open spec fn installed_msg(p: PlanView) -> Seq<char> {
    line("installed: '"@ + p.name + "' → '"@ + p.dest + "'"@)
}

/// How a failed clone or copy is reported.
pub open spec fn install_failure_msg(p: PlanView, e: Seq<char>) -> Seq<char> {
    match p.source {
        SourceView::Git(_) => line("error: "@ + e),
        SourceView::Local(_) => line("error: copy failed: "@ + e),
    }
}

/// Reports how carrying out an install went: 0 and the installed line, or 2
/// and the failure.
pub fn finish_install(plan: &InstallPlan, outcome: &Result<(), String>, out: &mut String, err: &mut String) -> (r: i32)
    ensures
        match outcome {
            Ok(_) => r == 0 && final(out)@ == old(out)@ + installed_msg(plan@) && final(err)@ == old(err)@,
            Err(e) => r == 2 && final(out)@ == old(out)@ && final(err)@ == old(err)@ + install_failure_msg(plan@, e@),
        },
{
    match outcome {
        Ok(_) => {
            out.append("installed: '");
            out.append(plan.name.as_str());
            out.append("' → '");
            out.append(plan.dest.as_str());
            out.append("'");
            out.append("\n");
            0
        },
        Err(e) => {
            match &plan.source {
                InstallSource::Git(_) => err.append("error: "),
                InstallSource::Local(_) => err.append("error: copy failed: "),
            }
            err.append(e.as_str());
            err.append("\n");
            2
        },
    }
}

/// Reports that the user templates directory could not be created.
pub fn user_dir_failed(e: &str, err: &mut String) -> (r: i32)
    ensures
        r == 2,
        final(err)@ == old(err)@ + line("error: could not create user templates directory: "@ + e@),
{
    err.append("error: could not create user templates directory: ");
    err.append(e);
    err.append("\n");
    2
}

/// The URL of a planned git install.
pub open spec fn plan_url(p: PlanView) -> Seq<char> {
    match p.source {
        SourceView::Git(u) => u,
        SourceView::Local(_) => Seq::empty(),
    }
}

/// How an install is reported once the clone or copy gave `res`.
pub open spec fn install_reported(p: PlanView, res: Result<(), Seq<char>>, r: i32, out0: Seq<char>, err0: Seq<char>, out1: Seq<char>, err1: Seq<char>) -> bool {
    match res {
        Ok(_) => r == 0 && out1 == out0 + installed_msg(p) && err1 == err0,
        Err(e) => r == 2 && out1 == out0 && err1 == err0 + install_failure_msg(p, e),
    }
}

/// Clones a planned git install with `git`, once, from the plan's URL into
/// the plan's destination, and reports what the clone returned: 0 and the
/// installed line on success, 2 and the clone's error otherwise.
pub fn install_with_git<G: GitCloner>(plan: &InstallPlan, git: &G, out: &mut String, err: &mut String) -> (r: i32)
    requires
        plan.source is Git,
    ensures
        exists|res: Result<(), Seq<char>>|
            #[trigger] git.clone_outcome(plan_url(plan@), plan@.dest, res)
                && install_reported(plan@, res, r, old(out)@, old(err)@, final(out)@, final(err)@),
{
    let outcome = match &plan.source {
        InstallSource::Git(url) => git.clone_repo(url.as_str(), plan.dest.as_str()),
        InstallSource::Local(_) => Ok(()),
    };
    let r = finish_install(plan, &outcome, out, err);
    proof {
        assert(git.clone_outcome(plan_url(plan@), plan@.dest, clone_view(outcome)));
        assert(install_reported(plan@, clone_view(outcome), r, old(out)@, old(err)@, final(out)@, final(err)@));
    }
    r
}

// ---------------------------------------------------------------------------
// The command
// ---------------------------------------------------------------------------

/// What a `canon template` command line (`args[0]` the subcommand) comes to.
/// `list` and `install` use `user_dir` as the user tier; `show` resolves
/// names with `default_user_dir`.
pub open spec fn template_command(
    args: Seq<Seq<char>>,
    ws: Seq<char>,
    cwd: Seq<char>,
    user_dir: Seq<char>,
    default_user_dir: Seq<char>,
    t: Seq<NodeView>,
) -> TemplateOutcome {
    if args.len() == 0 {
        TemplateOutcome::Exit(2, Seq::empty(), line("canon template: no subcommand. Try 'canon template list'."@) + line(TEMPLATE_HELP@))
    } else {
        let sub = args[0];
        let rest = args.skip(1);
        if sub == "list"@ {
            let (c, o, e) = list_command(rest, ws, user_dir, t);
            TemplateOutcome::Exit(c, o, e)
        } else if sub == "show"@ {
            let (c, o, e) = show_command(rest, ws, default_user_dir, t);
            TemplateOutcome::Exit(c, o, e)
        } else if sub == "validate"@ {
            let (c, o, e) = validate_command(rest, ws, cwd, t);
            TemplateOutcome::Exit(c, o, e)
        } else if sub == "install"@ {
            install_command(rest, cwd, user_dir, t)
        } else if sub == "--help"@ || sub == "-h"@ || sub == "help"@ {
            TemplateOutcome::Exit(0, line(TEMPLATE_HELP@), Seq::empty())
        } else {
            TemplateOutcome::Exit(2, Seq::empty(), line("canon template: unknown subcommand '"@ + sub + "'. Try 'canon template list'."@))
        }
    }
}

/// Runs a `canon template` command on a snapshot. Listing, showing and
/// validating end with their exit code; an install that passes its checks is
/// returned for the caller to carry out.
pub fn run_impl(
    args: &[String],
    out: &mut String,
    err: &mut String,
    workspace_root: &str,
    cwd: &str,
    user_dir: &str,
    default_user_dir: &str,
    tree: &FileTree,
) -> (r: TemplateRun)
    ensures
        run_as(r, template_command(texts(args@), workspace_root@, cwd@, user_dir@, default_user_dir@, tree@), old(out)@, old(err)@, final(out)@, final(err)@),
{
    if args.len() == 0 {
        err.append("canon template: no subcommand. Try 'canon template list'.");
        err.append("\n");
        err.append(TEMPLATE_HELP);
        err.append("\n");
        return TemplateRun::Exit(2);
    }
    let sub = args[0].as_str();
    proof {
        assert(texts(args@)[0] == sub@);
        reveal_strlit("list");
        reveal_strlit("show");
        reveal_strlit("validate");
        reveal_strlit("install");
        reveal_strlit("--help");
        reveal_strlit("-h");
        reveal_strlit("help");
    }
    if str_eq(sub, "list") {
        TemplateRun::Exit(cmd_list(args, out, err, workspace_root, user_dir, tree))
    } else if str_eq(sub, "show") {
        TemplateRun::Exit(cmd_show(args, out, err, workspace_root, default_user_dir, tree))
    } else if str_eq(sub, "validate") {
        TemplateRun::Exit(cmd_validate(args, out, err, workspace_root, cwd, default_user_dir, tree))
    } else if str_eq(sub, "install") {
        cmd_install(args, out, err, cwd, user_dir, tree)
    } else if str_eq(sub, "--help") || str_eq(sub, "-h") || str_eq(sub, "help") {
        out.append(TEMPLATE_HELP);
        out.append("\n");
        TemplateRun::Exit(0)
    } else {
        err.append("canon template: unknown subcommand '");
        err.append(sub);
        err.append("'. Try 'canon template list'.");
        err.append("\n");
        TemplateRun::Exit(2)
    }
}

} // verus!
