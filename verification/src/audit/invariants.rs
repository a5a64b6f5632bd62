//! Per-file heuristics and cross-file invariants declared by a template.

use vstd::prelude::*;
use vstd::string::StringExecFns;
use crate::audit::drift::{DriftCategory, DriftEntry, DriftView, drift, drift_views, push_entry};
use crate::files::{FileTree, NodeView, is_file_at, join_path, path_join, text_at};
use crate::template::LoadedTemplate;
use crate::template::manifest::ManifestModel;
use crate::template::manifest::{atomic_gate, gaps_folder_of};
use crate::text::{decimal, occurs_at, occurs_at_exec, to_chars, usize_text};

verus! {

/// Files with more lines than this are graduation candidates.
pub const GRADUATION_LINE_THRESHOLD: usize = 500;

/// With the atomic-file gate on, files with at least this many H2 sections
/// are flagged for splitting.
pub const H2_SPLIT_THRESHOLD: usize = 4;

/// The number of line feeds in `s`.
pub open spec fn newline_count(s: Seq<char>) -> nat
    decreases s.len(),
{
    if s.len() == 0 {
        0
    } else {
        newline_count(s.drop_last()) + if s.last() == '\n' { 1nat } else { 0nat }
    }
}

/// The number of lines `str::lines` yields: one per line feed, plus an
/// unterminated last line.
pub open spec fn line_count(s: Seq<char>) -> nat {
    newline_count(s) + if s.len() > 0 && s.last() != '\n' { 1nat } else { 0nat }
}

/// Whether a line starts at index `i`.
pub open spec fn line_start(s: Seq<char>, i: int) -> bool {
    i == 0 || s[i - 1] == '\n'
}

/// The number of lines starting before index `n` that begin with `## `.
pub open spec fn h2_upto(s: Seq<char>, n: int) -> nat
    decreases n,
{
    if n <= 0 {
        0
    } else {
        h2_upto(s, n - 1) + if line_start(s, n - 1) && occurs_at(s, "## "@, n - 1) { 1nat } else { 0nat }
    }
}

/// The number of lines that begin with `## `.
pub open spec fn h2_count(s: Seq<char>) -> nat {
    h2_upto(s, s.len() as int)
}

pub open spec fn graduation_msg(n: nat) -> Seq<char> {
    "file has "@ + decimal(n) + " lines (threshold 500); consider graduating to a sub-folder"@
}

pub open spec fn split_msg(n: nat) -> Seq<char> {
    "file has "@ + decimal(n) + " H2 sections (threshold 4); atomic-file-gate suggests splitting"@
}

pub open spec fn gaps_file_msg(gf: Seq<char>) -> Seq<char> {
    "gaps_folder '"@ + gf + "' exists as a file, not a directory; canon cannot write gap reports into it"@
}

/// The heuristic entries of one file: a graduation candidate above 500
/// lines, and, with the atomic-file gate, a split suggestion at 4 or more H2
/// sections. An unreadable file yields nothing.
pub open spec fn file_invariant_drift(t: Seq<NodeView>, gate: bool, f: Seq<char>) -> Seq<DriftView> {
    match text_at(t, f) {
        None => Seq::empty(),
        Some(c) => (if line_count(c) > 500 {
            seq![drift(f, DriftCategory::GraduationCandidate, graduation_msg(line_count(c)))]
        } else {
            Seq::empty()
        }) + (if gate && h2_count(c) >= 4 {
            seq![drift(f, DriftCategory::ContentSplitSuggested, split_msg(h2_count(c)))]
        } else {
            Seq::empty()
        }),
    }
}

/// The heuristic entries of the files `fs`, in order.
pub open spec fn files_invariant_drift(t: Seq<NodeView>, gate: bool, fs: Seq<Seq<char>>) -> Seq<DriftView>
    decreases fs.len(),
{
    if fs.len() == 0 {
        Seq::empty()
    } else {
        files_invariant_drift(t, gate, fs.drop_last()) + file_invariant_drift(t, gate, fs.last())
    }
}

/// The heuristic entries of the files, then an invariant violation when the
/// template's gaps folder exists under the root as a file.
pub open spec fn invariants_drift(t: Seq<NodeView>, root: Seq<char>, m: ManifestModel, fs: Seq<Seq<char>>) -> Seq<DriftView> {
    files_invariant_drift(t, atomic_gate(m), fs) + match gaps_folder_of(m) {
        Some(gf) => if is_file_at(t, path_join(root, gf)) {
            seq![drift(path_join(root, gf), DriftCategory::InvariantViolation, gaps_file_msg(gf))]
        } else {
            Seq::empty()
        },
        None => Seq::empty(),
    }
}

proof fn lemma_newline_count_le(s: Seq<char>)
    ensures
        newline_count(s) <= s.len(),
    decreases s.len(),
{
    if s.len() > 0 {
        lemma_newline_count_le(s.drop_last());
    }
}

/// The number of lines of a text, as `str::lines` counts them.
pub fn count_lines(s: &str) -> (r: usize)
    ensures
        r == line_count(s@),
{
    let c = to_chars(s);
    let mut n: usize = 0;
    for i in 0..c.len()
        invariant
            c@ == s@,
            n == newline_count(c@.take(i as int)),
            n <= i,
    {
        proof {
            assert(c@.take(i + 1).drop_last() =~= c@.take(i as int));
        }
        if c[i] == '\n' {
            n += 1;
        }
    }
    proof {
        assert(c@.take(c@.len() as int) =~= c@);
    }
    if c.len() > 0 && c[c.len() - 1] != '\n' {
        proof {
            lemma_newline_count_le(c@.drop_last());
        }
        n + 1
    } else {
        n
    }
}

/// The number of lines of a text that begin with `## `.
pub fn count_h2(s: &str) -> (r: usize)
    ensures
        r == h2_count(s@),
{
    let c = to_chars(s);
    let marker = to_chars("## ");
    let mut n: usize = 0;
    for i in 0..c.len()
        invariant
            c@ == s@,
            marker@ == "## "@,
            n == h2_upto(c@, i as int),
            n <= i,
    {
        if (i == 0 || c[i - 1] == '\n') && occurs_at_exec(c.as_slice(), marker.as_slice(), i) {
            n += 1;
        }
    }
    n
}

fn graduation_message(n: usize) -> (r: String)
    ensures
        r@ == graduation_msg(n as nat),
{
    let mut s = String::from_str("file has ");
    let d = usize_text(n);
    s.append(d.as_str());
    s.append(" lines (threshold 500); consider graduating to a sub-folder");
    s
}

fn split_message(n: usize) -> (r: String)
    ensures
        r@ == split_msg(n as nat),
{
    let mut s = String::from_str("file has ");
    let d = usize_text(n);
    s.append(d.as_str());
    s.append(" H2 sections (threshold 4); atomic-file-gate suggests splitting");
    s
}

fn gaps_file_message(gf: &str) -> (r: String)
    ensures
        r@ == gaps_file_msg(gf@),
{
    let mut s = String::from_str("gaps_folder '");
    s.append(gf);
    s.append("' exists as a file, not a directory; canon cannot write gap reports into it");
    s
}

/// Runs the per-file heuristics over `all_md_files` and the template's
/// cross-file invariants.
pub fn check_invariants(corpus_root: &str, template: &LoadedTemplate, all_md_files: &Vec<String>, tree: &FileTree) -> (r: Vec<DriftEntry>)
    ensures
        drift_views(r@) == invariants_drift(tree@, corpus_root@, template@.manifest, all_md_files@.map_values(|f: String| f@)),
{
    let mut out: Vec<DriftEntry> = Vec::new();
    let gate = match &template.manifest.invariants {
        Some(inv) => inv.atomic_file_gate,
        None => false,
    };
    let ghost fs = all_md_files@.map_values(|f: String| f@);
    for i in 0..all_md_files.len()
        invariant
            fs == all_md_files@.map_values(|f: String| f@),
            gate == atomic_gate(template@.manifest),
            drift_views(out@) == files_invariant_drift(tree@, gate, fs.take(i as int)),
    {
        let f = &all_md_files[i];
        proof {
            assert(fs.take(i + 1).drop_last() =~= fs.take(i as int));
            assert(fs.take(i + 1).last() == f@);
        }
        match tree.read_text(f.as_str()) {
            None => {},
            Some(content) => {
                let lines = count_lines(content.as_str());
                if lines > GRADUATION_LINE_THRESHOLD {
                    let msg = graduation_message(lines);
                    push_entry(&mut out, DriftEntry::new(f.clone(), DriftCategory::GraduationCandidate, msg));
                }
                if gate {
                    let h2 = count_h2(content.as_str());
                    if h2 >= H2_SPLIT_THRESHOLD {
                        let msg = split_message(h2);
                        push_entry(&mut out, DriftEntry::new(f.clone(), DriftCategory::ContentSplitSuggested, msg));
                    }
                }
            },
        }
        proof {
            assert(drift_views(out@) =~= files_invariant_drift(tree@, gate, fs.take(i + 1)));
        }
    }
    proof {
        assert(fs.take(fs.len() as int) =~= fs);
    }
    let gf = match &template.manifest.invariants {
        Some(inv) => match &inv.gaps_folder {
            Some(g) => Some(g),
            None => None,
        },
        None => None,
    };
    match gf {
        Some(g) => {
            let gaps_path = join_path(corpus_root, g.as_str());
            if tree.is_file(gaps_path.as_str()) {
                let msg = gaps_file_message(g.as_str());
                push_entry(&mut out, DriftEntry::new(gaps_path, DriftCategory::InvariantViolation, msg));
            }
        },
        None => {},
    }
    proof {
        assert(drift_views(out@) =~= invariants_drift(tree@, corpus_root@, template@.manifest, fs));
    }
    out
}

} // verus!
