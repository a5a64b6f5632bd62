//! Folder-shape conformance of a corpus's top-level directories.

use vstd::prelude::*;
use vstd::string::StringExecFns;
use crate::audit::drift::{DriftCategory, DriftEntry, DriftView, drift, drift_views, push_entry};
use crate::files::{FileTree, NodeView, NodeKind, child_name, child_name_of, entry_is_dir, is_dir_at, is_file_at, join_path, path_join};
use crate::template::{FolderShape, LoadedTemplate};
use crate::text::to_chars;

verus! {

pub open spec fn is_ascii_digit(c: char) -> bool {
    '0' <= c && c <= '9'
}

/// The numbered-tier naming convention: two digits and a dash (`NN-`).
pub open spec fn numbered_tier(name: Seq<char>) -> bool {
    name.len() >= 3 && is_ascii_digit(name[0]) && is_ascii_digit(name[1]) && name[2] == '-'
}

pub open spec fn not_numbered_msg(name: Seq<char>) -> Seq<char> {
    "directory '"@ + name + "' does not follow numbered-tier naming (expected NN-name)"@
}

pub open spec fn missing_index_msg(name: Seq<char>) -> Seq<char> {
    "numbered folder '"@ + name + "' is missing _INDEX.md"@
}

pub open spec fn flat_subdir_msg(name: Seq<char>) -> Seq<char> {
    "flat template: subdirectory '"@ + name + "' should not exist"@
}

/// The entries one node of the snapshot yields when `root` is listed.
pub open spec fn folder_node_drift(t: Seq<NodeView>, root: Seq<char>, shape: FolderShape, n: NodeView) -> Seq<DriftView> {
    match child_name(root, n.path) {
        None => Seq::empty(),
        Some(name) => if !entry_is_dir(n) {
            Seq::empty()
        } else {
            match shape {
                FolderShape::NumberedTiers => if !numbered_tier(name) {
                    seq![drift(n.path, DriftCategory::FolderShape, not_numbered_msg(name))]
                } else if !is_file_at(t, path_join(n.path, "_INDEX.md"@)) {
                    seq![drift(n.path, DriftCategory::MissingIndex, missing_index_msg(name))]
                } else {
                    Seq::empty()
                },
                FolderShape::Flat => seq![drift(n.path, DriftCategory::FolderShape, flat_subdir_msg(name))],
                _ => Seq::empty(),
            }
        },
    }
}

/// The entries of the nodes `ns`, in order.
pub open spec fn folder_nodes_drift(t: Seq<NodeView>, ns: Seq<NodeView>, root: Seq<char>, shape: FolderShape) -> Seq<DriftView>
    decreases ns.len(),
{
    if ns.len() == 0 {
        Seq::empty()
    } else {
        folder_nodes_drift(t, ns.drop_last(), root, shape) + folder_node_drift(t, root, shape, ns.last())
    }
}

/// Folder-shape drift: for `numbered-tiers`, each top-level directory must be
/// named `NN-*` and hold an `_INDEX.md` file; for `flat`, no top-level
/// directory may exist; `by-domain` and `custom` enforce nothing. A root that
/// cannot be listed yields nothing.
pub open spec fn folder_shape_drift(t: Seq<NodeView>, root: Seq<char>, shape: FolderShape) -> Seq<DriftView> {
    if (shape == FolderShape::NumberedTiers || shape == FolderShape::Flat) && is_dir_at(t, root) {
        folder_nodes_drift(t, t, root, shape)
    } else {
        Seq::empty()
    }
}

/// Whether a directory name follows the numbered-tier convention `NN-`.
pub fn is_numbered_tier(name: &str) -> (r: bool)
    ensures
        r == numbered_tier(name@),
{
    let c = to_chars(name);
    c.len() >= 3 && '0' <= c[0] && c[0] <= '9' && '0' <= c[1] && c[1] <= '9' && c[2] == '-'
}

fn not_numbered_message(name: &str) -> (r: String)
    ensures
        r@ == not_numbered_msg(name@),
{
    let mut s = String::from_str("directory '");
    s.append(name);
    s.append("' does not follow numbered-tier naming (expected NN-name)");
    s
}

fn missing_index_message(name: &str) -> (r: String)
    ensures
        r@ == missing_index_msg(name@),
{
    let mut s = String::from_str("numbered folder '");
    s.append(name);
    s.append("' is missing _INDEX.md");
    s
}

fn flat_subdir_message(name: &str) -> (r: String)
    ensures
        r@ == flat_subdir_msg(name@),
{
    let mut s = String::from_str("flat template: subdirectory '");
    s.append(name);
    s.append("' should not exist");
    s
}

/// Checks the folder shape of the corpus's top-level directories against the
/// template, in listing order.
pub fn check_folder_shape(corpus_root: &str, template: &LoadedTemplate, tree: &FileTree) -> (r: Vec<DriftEntry>)
    ensures
        drift_views(r@) == folder_shape_drift(tree@, corpus_root@, template@.manifest.shape),
{
    let shape = template.manifest.folder_rules.shape;
    let mut out: Vec<DriftEntry> = Vec::new();
    let enforced = match shape {
        FolderShape::NumberedTiers => true,
        FolderShape::Flat => true,
        _ => false,
    };
    if !enforced || !tree.is_dir(corpus_root) {
        proof {
            assert(drift_views(out@) =~= Seq::<DriftView>::empty());
        }
        return out;
    }
    let ghost t = tree@;
    for i in 0..tree.nodes.len()
        invariant
            t == tree@,
            t.len() == tree.nodes@.len(),
            drift_views(out@) == folder_nodes_drift(t, t.take(i as int), corpus_root@, shape),
    {
        let n = &tree.nodes[i];
        proof {
            assert(t[i as int] == n@);
            assert(t.take(i + 1).drop_last() =~= t.take(i as int));
            assert(t.take(i + 1).last() == t[i as int]);
        }
        match child_name_of(corpus_root, n.path.as_str()) {
            None => {},
            Some(name) => {
                if n.kind == NodeKind::Dir && !n.link {
                    match shape {
                        FolderShape::NumberedTiers => {
                            if !is_numbered_tier(name.as_str()) {
                                let msg = not_numbered_message(name.as_str());
                                push_entry(&mut out, DriftEntry::new(n.path.clone(), DriftCategory::FolderShape, msg));
                            } else {
                                let index = join_path(n.path.as_str(), "_INDEX.md");
                                if !tree.is_file(index.as_str()) {
                                    let msg = missing_index_message(name.as_str());
                                    push_entry(&mut out, DriftEntry::new(n.path.clone(), DriftCategory::MissingIndex, msg));
                                }
                            }
                        },
                        FolderShape::Flat => {
                            let msg = flat_subdir_message(name.as_str());
                            push_entry(&mut out, DriftEntry::new(n.path.clone(), DriftCategory::FolderShape, msg));
                        },
                        _ => {},
                    }
                }
            },
        }
        proof {
            assert(drift_views(out@) =~= folder_nodes_drift(t, t.take(i + 1), corpus_root@, shape));
        }
    }
    proof {
        assert(t.take(t.len() as int) =~= t);
    }
    out
}

} // verus!
