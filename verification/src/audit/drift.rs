//! Drift categories and entries.

use vstd::prelude::*;

verus! {

/// Classification of a structural or metadata deviation from a template.
///
/// Categories marked informational are reported but do not count as drift
/// for the exit code; all others are blocking.
#[derive(Debug, Clone, Copy, PartialEq, Eq, Structural)]
pub enum DriftCategory {
    /// A top-level directory does not conform to the template's folder shape.
    FolderShape,
    /// A numbered folder is missing its required `_INDEX.md`.
    MissingIndex,
    /// A required frontmatter field is absent.
    FrontmatterRequiredMissing,
    /// A frontmatter field has the wrong JSON type.
    FrontmatterTypeWrong,
    /// A frontmatter field's value is not in the allowed enum.
    FrontmatterValueInvalid,
    /// File exceeds the line threshold (heuristic).
    GraduationCandidate,
    /// File has many H2 sections (heuristic).
    ContentSplitSuggested,
    /// Frontmatter field is present but not defined in the schema.
    UnknownFieldInfo,
    /// A cross-file invariant declared in the template is violated.
    InvariantViolation,
}

/// The name of a category, as reports print it.
pub open spec fn category_name(c: DriftCategory) -> Seq<char> {
    match c {
        DriftCategory::FolderShape => "FolderShape"@,
        DriftCategory::MissingIndex => "MissingIndex"@,
        DriftCategory::FrontmatterRequiredMissing => "FrontmatterRequiredMissing"@,
        DriftCategory::FrontmatterTypeWrong => "FrontmatterTypeWrong"@,
        DriftCategory::FrontmatterValueInvalid => "FrontmatterValueInvalid"@,
        DriftCategory::GraduationCandidate => "GraduationCandidate"@,
        DriftCategory::ContentSplitSuggested => "ContentSplitSuggested"@,
        DriftCategory::UnknownFieldInfo => "UnknownFieldInfo"@,
        DriftCategory::InvariantViolation => "InvariantViolation"@,
    }
}

/// Informational categories: the unknown-field notice and the two heuristics.
pub open spec fn informational(c: DriftCategory) -> bool {
    c == DriftCategory::UnknownFieldInfo || c == DriftCategory::GraduationCandidate
        || c == DriftCategory::ContentSplitSuggested
}

impl DriftCategory {
    /// The category's name.
    pub fn as_str(&self) -> (r: &'static str)
        ensures
            r@ == category_name(*self),
    {
        match self {
            DriftCategory::FolderShape => "FolderShape",
            DriftCategory::MissingIndex => "MissingIndex",
            DriftCategory::FrontmatterRequiredMissing => "FrontmatterRequiredMissing",
            DriftCategory::FrontmatterTypeWrong => "FrontmatterTypeWrong",
            DriftCategory::FrontmatterValueInvalid => "FrontmatterValueInvalid",
            DriftCategory::GraduationCandidate => "GraduationCandidate",
            DriftCategory::ContentSplitSuggested => "ContentSplitSuggested",
            DriftCategory::UnknownFieldInfo => "UnknownFieldInfo",
            DriftCategory::InvariantViolation => "InvariantViolation",
        }
    }

    /// True if this category is informational only (does not affect the exit code).
    pub fn is_informational(&self) -> (r: bool)
        ensures
            r == informational(*self),
    {
        match self {
            DriftCategory::UnknownFieldInfo
            | DriftCategory::GraduationCandidate
            | DriftCategory::ContentSplitSuggested => true,
            _ => false,
        }
    }
}

/// A single deviation found during a corpus audit.
#[derive(Debug)]
pub struct DriftEntry {
    pub path: String,
    pub category: DriftCategory,
    pub message: String,
}

/// A drift entry with its texts as character sequences.
pub struct DriftView {
    pub path: Seq<char>,
    pub category: DriftCategory,
    pub message: Seq<char>,
}

pub open spec fn drift(path: Seq<char>, category: DriftCategory, message: Seq<char>) -> DriftView {
    DriftView { path, category, message }
}

impl View for DriftEntry {
    type V = DriftView;

    open spec fn view(&self) -> DriftView {
        drift(self.path@, self.category, self.message@)
    }
}

/// The views of a sequence of entries.
pub open spec fn drift_views(v: Seq<DriftEntry>) -> Seq<DriftView> {
    v.map_values(|e: DriftEntry| e@)
}

/// Whether some entry is blocking.
pub open spec fn any_blocking(v: Seq<DriftView>) -> bool {
    exists|i: int| 0 <= i < v.len() && !informational(#[trigger] v[i].category)
}

/// The number of blocking entries.
pub open spec fn blocking_count(v: Seq<DriftView>) -> nat
    decreases v.len(),
{
    if v.len() == 0 {
        0
    } else {
        blocking_count(v.drop_last()) + if informational(v.last().category) { 0nat } else { 1nat }
    }
}

impl DriftEntry {
    /// A new entry.
    pub fn new(path: String, category: DriftCategory, message: String) -> (r: DriftEntry)
        ensures
            r@ == drift(path@, category, message@),
    {
        DriftEntry { path, category, message }
    }

    /// A copy of this entry.
    pub fn copy(&self) -> (r: DriftEntry)
        ensures
            r@ == self@,
    {
        DriftEntry { path: self.path.clone(), category: self.category, message: self.message.clone() }
    }
}

/// Appends `e` to `out`, keeping the views in step.
pub fn push_entry(out: &mut Vec<DriftEntry>, e: DriftEntry)
    ensures
        drift_views(final(out)@) == drift_views(old(out)@).push(e@),
{
    out.push(e);
    proof {
        assert(drift_views(out@) =~= drift_views(old(out)@).push(e@));
    }
}

/// Appends all of `more` to `out`.
pub fn append_entries(out: &mut Vec<DriftEntry>, more: Vec<DriftEntry>)
    ensures
        drift_views(final(out)@) == drift_views(old(out)@) + drift_views(more@),
{
    let mut more = more;
    let ghost m = more@;
    out.append(&mut more);
    proof {
        assert(drift_views(out@) =~= drift_views(old(out)@) + drift_views(m));
    }
}

/// True when the list holds at least one blocking (non-informational) entry.
pub fn has_blocking_drift(entries: &[DriftEntry]) -> (r: bool)
    ensures
        r == any_blocking(drift_views(entries@)),
{
    for i in 0..entries.len()
        invariant
            forall|k: int| 0 <= k < i ==> informational(#[trigger] entries@[k].category),
    {
        if !entries[i].category.is_informational() {
            proof {
                assert(drift_views(entries@)[i as int].category == entries@[i as int].category);
            }
            return true;
        }
    }
    proof {
        assert forall|k: int| 0 <= k < drift_views(entries@).len() implies informational(
            #[trigger] drift_views(entries@)[k].category,
        ) by {
            assert(drift_views(entries@)[k].category == entries@[k].category);
        }
    }
    false
}

} // verus!
