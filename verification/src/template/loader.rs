//! Three-tier template resolution: workspace, then user, then built-in.

use vstd::prelude::*;
use vstd::string::StringExecFns;
use crate::files::{FileTree, NodeKind, NodeView, child_name, child_name_of, entry_is_dir, is_dir_at, join_path, node_at, path_join, text_at};
use crate::template::{TemplateError, TemplateErrorView, texts};
use crate::template::manifest::{LoadedTemplate, ManifestModel, TemplateManifest, TemplateTier, TemplateView, TierView, manifest_from_text, manifest_model, manifest_of_text, tier_view};
use crate::text::str_eq;

verus! {

/// The manifest of the built-in `canon-default` template: the output shape
/// of canon's refinery pipeline.
pub const CANON_DEFAULT_MANIFEST: &'static str = "name = \"canon-default\"
version = \"0.1.0\"
description = \"Canon refinery output: atoms, domains, load-packs, archive and gaps folders\"

[folder_rules]
shape = \"custom\"

[frontmatter]
schema = \"frontmatter.schema.json\"

[invariants]
index_required = false
gaps_folder = \"gaps\"
atomic_file_gate = false
";

/// The built-in registry: `(name, manifest text)` pairs.
pub fn production_builtins() -> (r: Vec<(String, String)>)
    ensures
        registry(r@) == production_registry(),
{
    let mut v: Vec<(String, String)> = Vec::new();
    v.push((String::from_str("canon-default"), String::from_str(CANON_DEFAULT_MANIFEST)));
    proof {
        assert(registry(v@) =~= production_registry());
    }
    v
}

/// A template found by `list_all`.
#[derive(Debug, Clone)]
pub struct ListedTemplate {
    pub name: String,
    pub tier: TemplateTier,
    pub description: String,
}

/// A listed template as plain values.
pub struct ListedView {
    pub name: Seq<char>,
    pub tier: TemplateTier,
    pub description: Seq<char>,
}

impl View for ListedTemplate {
    type V = ListedView;

    open spec fn view(&self) -> ListedView {
        ListedView { name: self.name@, tier: self.tier, description: self.description@ }
    }
}

pub open spec fn listed_views(v: Seq<ListedTemplate>) -> Seq<ListedView> {
    v.map_values(|t: ListedTemplate| t@)
}

/// Resolves templates by name across the built-in registry, the workspace
/// templates directory and the user templates directory.
#[derive(Debug)]
pub struct TemplateLoader {
    pub builtins: Vec<(String, String)>,
    pub workspace_templates_dir: String,
    pub user_templates_dir: String,
}

/// A built-in registry as `(name, manifest text)` pairs of texts.
pub open spec fn registry(bs: Seq<(String, String)>) -> Seq<(Seq<char>, Seq<char>)> {
    bs.map_values(|b: (String, String)| (b.0@, b.1@))
}

/// The production registry.
pub open spec fn production_registry() -> Seq<(Seq<char>, Seq<char>)> {
    seq![("canon-default"@, CANON_DEFAULT_MANIFEST@)]
}

/// The manifest text of the first built-in named `name`.
pub open spec fn builtin_text(bs: Seq<(Seq<char>, Seq<char>)>, name: Seq<char>) -> Option<Seq<char>>
    decreases bs.len(),
{
    if bs.len() == 0 {
        None
    } else if bs[0].0 == name {
        Some(bs[0].1)
    } else {
        builtin_text(bs.drop_first(), name)
    }
}

pub open spec fn read_failure_text(n: NodeView) -> Seq<char> {
    if n.kind == NodeKind::Dir {
        "Is a directory (os error 21)"@
    } else {
        "stream did not contain valid UTF-8"@
    }
}

/// The manifest in a template directory: a missing `manifest.toml` is
/// reported as malformed, an unreadable one as an I/O error, and an invalid
/// one as malformed with its parse error.
pub open spec fn dir_manifest(t: Seq<NodeView>, dir: Seq<char>) -> Result<ManifestModel, TemplateErrorView> {
    let mp = path_join(dir, "manifest.toml"@);
    match node_at(t, mp) {
        None => Err(TemplateErrorView::Malformed(dir, "missing manifest.toml"@)),
        Some(n) => match text_at(t, mp) {
            None => Err(TemplateErrorView::Io(read_failure_text(n))),
            Some(c) => match manifest_of_text(c) {
                Err(e) => Err(TemplateErrorView::Malformed(dir, e)),
                Ok(m) => Ok(m),
            },
        },
    }
}

/// The template in a directory, tagged with its tier.
pub open spec fn dir_template(t: Seq<NodeView>, dir: Seq<char>, tier: TierView) -> Result<TemplateView, TemplateErrorView> {
    match dir_manifest(t, dir) {
        Ok(m) => Ok(TemplateView { manifest: m, tier, dir: Some(dir) }),
        Err(e) => Err(e),
    }
}

/// Whether a load returned exactly the outcome `o`.
pub open spec fn load_is(r: Result<LoadedTemplate, TemplateError>, o: Result<TemplateView, TemplateErrorView>) -> bool {
    match r {
        Ok(lt) => o == Ok::<TemplateView, TemplateErrorView>(lt@),
        Err(e) => o == Err::<TemplateView, TemplateErrorView>(e@),
    }
}

/// Loading by name: the workspace directory of that name if it is a
/// directory, else the user one, else the first built-in of that name, else
/// not found with both searched paths listed.
pub open spec fn name_load(
    bs: Seq<(Seq<char>, Seq<char>)>,
    ws_dir: Seq<char>,
    user_dir: Seq<char>,
    t: Seq<NodeView>,
    name: Seq<char>,
) -> Result<TemplateView, TemplateErrorView> {
    let ws = path_join(ws_dir, name);
    let us = path_join(user_dir, name);
    if is_dir_at(t, ws) {
        dir_template(t, ws, TierView::Workspace)
    } else if is_dir_at(t, us) {
        dir_template(t, us, TierView::User)
    } else {
        match builtin_text(bs, name) {
            Some(text) => match manifest_of_text(text) {
                Ok(m) => Ok(TemplateView { manifest: m, tier: TierView::BuiltIn, dir: None }),
                Err(e) => Err(TemplateErrorView::Malformed(name, e)),
            },
            None => Err(TemplateErrorView::NotFound(name, seq![ws, us])),
        }
    }
}

/// The listing entry one snapshot node yields for `dir`: a subdirectory
/// whose `manifest.toml` reads and parses.
pub open spec fn listed_node(t: Seq<NodeView>, dir: Seq<char>, tier: TemplateTier, n: NodeView) -> Seq<ListedView> {
    match child_name(dir, n.path) {
        Some(name) => if entry_is_dir(n) {
            match text_at(t, path_join(n.path, "manifest.toml"@)) {
                Some(c) => match manifest_of_text(c) {
                    Ok(m) => seq![ListedView { name, tier, description: m.description }],
                    Err(_) => Seq::empty(),
                },
                None => Seq::empty(),
            }
        } else {
            Seq::empty()
        },
        None => Seq::empty(),
    }
}

pub open spec fn listed_nodes(t: Seq<NodeView>, ns: Seq<NodeView>, dir: Seq<char>, tier: TemplateTier) -> Seq<ListedView>
    decreases ns.len(),
{
    if ns.len() == 0 {
        Seq::empty()
    } else {
        listed_nodes(t, ns.drop_last(), dir, tier) + listed_node(t, dir, tier, ns.last())
    }
}

/// The templates of one tier's directory, in listing order.
pub open spec fn dir_listing(t: Seq<NodeView>, dir: Seq<char>, tier: TemplateTier) -> Seq<ListedView> {
    if is_dir_at(t, dir) {
        listed_nodes(t, t, dir, tier)
    } else {
        Seq::empty()
    }
}

/// Whether a listing holds a template of that name.
pub open spec fn listing_has(l: Seq<ListedView>, name: Seq<char>) -> bool {
    exists|i: int| 0 <= i < l.len() && #[trigger] l[i].name == name
}

/// The built-ins that parse and are not shadowed by a name in `higher`.
pub open spec fn builtin_listing(bs: Seq<(Seq<char>, Seq<char>)>, higher: Seq<ListedView>) -> Seq<ListedView>
    decreases bs.len(),
{
    if bs.len() == 0 {
        Seq::empty()
    } else {
        let rest = builtin_listing(bs.drop_last(), higher);
        let b = bs.last();
        if !listing_has(higher, b.0) && manifest_of_text(b.1) is Ok {
            rest.push(ListedView { name: b.0, tier: TemplateTier::BuiltIn, description: manifest_of_text(b.1)->Ok_0.description })
        } else {
            rest
        }
    }
}

/// Every template of every tier: workspace, then user, then the built-ins
/// that no workspace or user template shadows.
pub open spec fn all_listing(bs: Seq<(Seq<char>, Seq<char>)>, ws_dir: Seq<char>, user_dir: Seq<char>, t: Seq<NodeView>) -> Seq<ListedView> {
    let higher = dir_listing(t, ws_dir, TemplateTier::Workspace) + dir_listing(t, user_dir, TemplateTier::User);
    higher + builtin_listing(bs, higher)
}

/// Parses manifest text; a failure is a malformed template named `source`.
pub fn parse_manifest(content: &str, source: &str) -> (r: Result<TemplateManifest, TemplateError>)
    ensures
        match manifest_of_text(content@) {
            Ok(m) => r matches Ok(x) && manifest_model(x) == m,
            Err(e) => r matches Err(TemplateError::Malformed { source: s, error }) && s@ == source@ && error@ == e,
        },
{
    match manifest_from_text(content) {
        Ok(m) => Ok(m),
        Err(e) => Err(TemplateError::Malformed { source: source.to_string(), error: e }),
    }
}

/// Loads the template in directory `dir`.
fn load_from_dir(dir: &str, tier: TemplateTier, tree: &FileTree) -> (r: Result<LoadedTemplate, TemplateError>)
    ensures
        load_is(r, dir_template(tree@, dir@, tier_view(tier))),
{
    let manifest_path = join_path(dir, "manifest.toml");
    let node = match tree.node(manifest_path.as_str()) {
        None => {
            return Err(TemplateError::Malformed { source: dir.to_string(), error: String::from_str("missing manifest.toml") });
        },
        Some(n) => n,
    };
    let content = match tree.read_text(manifest_path.as_str()) {
        Some(c) => c,
        None => {
            let msg = if node.kind == NodeKind::Dir {
                String::from_str("Is a directory (os error 21)")
            } else {
                String::from_str("stream did not contain valid UTF-8")
            };
            return Err(TemplateError::Io(msg));
        },
    };
    match parse_manifest(content.as_str(), dir) {
        Ok(manifest) => Ok(LoadedTemplate { manifest, tier, dir: Some(dir.to_string()) }),
        Err(e) => Err(e),
    }
}

proof fn lemma_builtin_skip(bs: Seq<(Seq<char>, Seq<char>)>, name: Seq<char>, i: int)
    requires
        0 <= i <= bs.len(),
        forall|k: int| 0 <= k < i ==> bs[k].0 != name,
    ensures
        builtin_text(bs, name) == builtin_text(bs.skip(i), name),
    decreases i,
{
    if i > 0 {
        lemma_builtin_skip(bs.drop_first(), name, i - 1);
        assert(bs.drop_first().skip(i - 1) =~= bs.skip(i));
    } else {
        assert(bs.skip(0) =~= bs);
    }
}

/// The index of the first built-in named `name`.
fn find_builtin(bs: &Vec<(String, String)>, name: &str) -> (r: Option<usize>)
    ensures
        match r {
            Some(i) => i < bs@.len() && builtin_text(registry(bs@), name@) == Some(bs@[i as int].1@),
            None => builtin_text(registry(bs@), name@) is None,
        },
{
    let ghost rg = registry(bs@);
    for i in 0..bs.len()
        invariant
            rg == registry(bs@),
            forall|k: int| 0 <= k < i ==> rg[k].0 != name@,
    {
        proof {
            assert(rg[i as int] == (bs@[i as int].0@, bs@[i as int].1@));
        }
        if str_eq(bs[i].0.as_str(), name) {
            proof {
                lemma_builtin_skip(rg, name@, i as int);
                assert(rg.skip(i as int)[0] == rg[i as int]);
            }
            return Some(i);
        }
    }
    proof {
        lemma_builtin_skip(rg, name@, rg.len() as int);
    }
    None
}

/// Appends the templates found in one tier's directory.
fn collect_dir_templates(dir: &str, tier: TemplateTier, tree: &FileTree, out: &mut Vec<ListedTemplate>)
    requires
        tier == TemplateTier::Workspace || tier == TemplateTier::User,
    ensures
        listed_views(final(out)@) == listed_views(old(out)@) + dir_listing(tree@, dir@, tier),
{
    let ghost start = listed_views(out@);
    if !tree.is_dir(dir) {
        proof {
            assert(listed_views(out@) =~= start + dir_listing(tree@, dir@, tier));
        }
        return;
    }
    let ghost t = tree@;
    for i in 0..tree.nodes.len()
        invariant
            t == tree@,
            t.len() == tree.nodes@.len(),
            tier == TemplateTier::Workspace || tier == TemplateTier::User,
            listed_views(out@) == start + listed_nodes(t, t.take(i as int), dir@, tier),
    {
        let n = &tree.nodes[i];
        proof {
            assert(t[i as int] == n@);
            assert(t.take(i + 1).drop_last() =~= t.take(i as int));
            assert(t.take(i + 1).last() == t[i as int]);
        }
        let ghost before = listed_views(out@);
        match child_name_of(dir, n.path.as_str()) {
            Some(name) => {
                if n.kind == NodeKind::Dir && !n.link {
                    let mp = join_path(n.path.as_str(), "manifest.toml");
                    match tree.read_text(mp.as_str()) {
                        Some(content) => match manifest_from_text(content.as_str()) {
                            Ok(m) => {
                                let t2 = match tier {
                                    TemplateTier::Workspace => TemplateTier::Workspace,
                                    _ => TemplateTier::User,
                                };
                                out.push(ListedTemplate { name, tier: t2, description: m.description });
                                proof {
                                    assert(listed_views(out@) =~= before + listed_node(t, dir@, tier, n@));
                                }
                            },
                            Err(_) => {},
                        },
                        None => {},
                    }
                }
            },
            None => {},
        }
        proof {
            assert(listed_views(out@) =~= before + listed_node(t, dir@, tier, n@));
            assert(listed_views(out@) =~= start + listed_nodes(t, t.take(i + 1), dir@, tier));
        }
    }
    proof {
        assert(t.take(t.len() as int) =~= t);
    }
}

impl TemplateLoader {
    /// The loader of a workspace: production built-ins, the workspace's
    /// `.accelmars/canon/templates` directory, and the given user directory.
    pub fn from_workspace_root(workspace_root: &str, user_templates_dir: &str) -> (r: TemplateLoader)
        ensures
            registry(r.builtins@) == production_registry(),
            r.workspace_templates_dir@ == path_join(workspace_root@, ".accelmars/canon/templates"@),
            r.user_templates_dir@ == user_templates_dir@,
    {
        TemplateLoader {
            builtins: production_builtins(),
            workspace_templates_dir: join_path(workspace_root, ".accelmars/canon/templates"),
            user_templates_dir: user_templates_dir.to_string(),
        }
    }

    /// A loader with an explicit registry and directories.
    pub fn with_builtins(builtins: Vec<(String, String)>, workspace_templates_dir: String, user_templates_dir: String) -> (r: TemplateLoader)
        ensures
            r.builtins == builtins,
            r.workspace_templates_dir == workspace_templates_dir,
            r.user_templates_dir == user_templates_dir,
    {
        TemplateLoader { builtins, workspace_templates_dir, user_templates_dir }
    }

    /// Loads a template by name; the first tier that has it wins: workspace,
    /// then user, then built-in.
    pub fn load_by_name(&self, name: &str, tree: &FileTree) -> (r: Result<LoadedTemplate, TemplateError>)
        ensures
            load_is(r, name_load(registry(self.builtins@), self.workspace_templates_dir@, self.user_templates_dir@, tree@, name@)),
    {
        let mut searched: Vec<String> = Vec::new();
        let ws_dir = join_path(self.workspace_templates_dir.as_str(), name);
        if tree.is_dir(ws_dir.as_str()) {
            return load_from_dir(ws_dir.as_str(), TemplateTier::Workspace, tree);
        }
        let user_dir = join_path(self.user_templates_dir.as_str(), name);
        if tree.is_dir(user_dir.as_str()) {
            return load_from_dir(user_dir.as_str(), TemplateTier::User, tree);
        }
        let ghost ws = ws_dir@;
        let ghost us = user_dir@;
        searched.push(ws_dir);
        searched.push(user_dir);
        proof {
            assert(texts(searched@) =~= seq![ws, us]);
        }
        match find_builtin(&self.builtins, name) {
            Some(i) => {
                match parse_manifest(self.builtins[i].1.as_str(), name) {
                    Ok(manifest) => Ok(LoadedTemplate { manifest, tier: TemplateTier::BuiltIn, dir: None }),
                    Err(e) => Err(e),
                }
            },
            None => Err(TemplateError::NotFound { name: name.to_string(), searched }),
        }
    }

    /// Loads the template in an explicit directory, bypassing name resolution.
    pub fn load_by_path(&self, path: &str, tree: &FileTree) -> (r: Result<LoadedTemplate, TemplateError>)
        ensures
            load_is(r, dir_template(tree@, path@, TierView::ExplicitPath(path@))),
    {
        load_from_dir(path, TemplateTier::ExplicitPath(path.to_string()), tree)
    }

    /// Lists the templates of every tier, each tagged with its tier; a
    /// built-in that shares its name with a workspace or user template is
    /// left out.
    pub fn list_all(&self, tree: &FileTree) -> (r: Vec<ListedTemplate>)
        ensures
            listed_views(r@) == all_listing(registry(self.builtins@), self.workspace_templates_dir@, self.user_templates_dir@, tree@),
    {
        let mut out: Vec<ListedTemplate> = Vec::new();
        collect_dir_templates(self.workspace_templates_dir.as_str(), TemplateTier::Workspace, tree, &mut out);
        collect_dir_templates(self.user_templates_dir.as_str(), TemplateTier::User, tree, &mut out);
        let ghost higher = listed_views(out@);
        proof {
            assert(higher =~= dir_listing(tree@, self.workspace_templates_dir@, TemplateTier::Workspace) + dir_listing(
                tree@,
                self.user_templates_dir@,
                TemplateTier::User,
            ));
        }
        let n_higher = out.len();
        let bs = &self.builtins;
        for i in 0..bs.len()
            invariant
                n_higher == higher.len(),
                n_higher <= out@.len(),
                listed_views(out@) == higher + builtin_listing(registry(bs@).take(i as int), higher),
        {
            proof {
                assert(registry(bs@).take(i + 1).drop_last() =~= registry(bs@).take(i as int));
                assert(registry(bs@).take(i + 1).last() == (bs@[i as int].0@, bs@[i as int].1@));
                assert(listed_views(out@).take(n_higher as int) =~= higher);
            }
            let ghost before = listed_views(out@);
            let shadowed = listing_contains_prefix(&out, n_higher, bs[i].0.as_str());
            if !shadowed {
                match manifest_from_text(bs[i].1.as_str()) {
                    Ok(m) => {
                        out.push(ListedTemplate { name: bs[i].0.clone(), tier: TemplateTier::BuiltIn, description: m.description });
                        proof {
                            assert(listed_views(out@) =~= before.push(
                                ListedView { name: bs@[i as int].0@, tier: TemplateTier::BuiltIn, description: manifest_of_text(bs@[i as int].1@)->Ok_0.description },
                            ));
                        }
                    },
                    Err(_) => {},
                }
            }
            proof {
                assert(listed_views(out@) =~= higher + builtin_listing(registry(bs@).take(i + 1), higher));
            }
        }
        proof {
            assert(registry(bs@).take(bs@.len() as int) =~= registry(bs@));
        }
        out
    }
}

/// Whether the first `n` entries of a listing hold a template named `name`.
fn listing_contains_prefix(l: &Vec<ListedTemplate>, n: usize, name: &str) -> (r: bool)
    requires
        n <= l@.len(),
    ensures
        r == listing_has(listed_views(l@).take(n as int), name@),
{
    for i in 0..n
        invariant
            n <= l@.len(),
            forall|k: int| 0 <= k < i ==> listed_views(l@).take(n as int)[k].name != name@,
    {
        if str_eq(l[i].name.as_str(), name) {
            proof {
                assert(listed_views(l@).take(n as int)[i as int].name == name@);
            }
            return true;
        }
    }
    false
}

} // verus!
