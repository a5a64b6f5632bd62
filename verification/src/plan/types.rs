//! Plan types: the structural plan for anchor, the frontmatter migration
//! plan, and judgment cases with the gap-report rows made from them.

use vstd::prelude::*;
use vstd::string::StringExecFns;

verus! {

// ---------------------------------------------------------------------------
// TOML rendering
// ---------------------------------------------------------------------------

/// One character escaped for a TOML basic string: backslash and quote get a
/// backslash before them.
pub open spec fn escape_char(c: char) -> Seq<char> {
    if c == '\\' {
        seq!['\\', '\\']
    } else if c == '"' {
        seq!['\\', '"']
    } else {
        seq![c]
    }
}

/// The text escaped for a TOML basic string.
pub open spec fn escape(s: Seq<char>) -> Seq<char>
    decreases s.len(),
{
    if s.len() == 0 {
        Seq::empty()
    } else {
        escape(s.drop_last()) + escape_char(s.last())
    }
}

/// A TOML basic string literal holding `s`.
pub open spec fn toml_str(s: Seq<char>) -> Seq<char> {
    seq!['"'] + escape(s) + seq!['"']
}

/// A TOML basic string literal holding `s`.
pub fn toml_string(s: &str) -> (r: String)
    ensures
        r@ == toml_str(s@),
{
    let c = crate::text::to_chars(s);
    let mut e = String::new();
    crate::text::push_char(&mut e, '"');
    for i in 0..c.len()
        invariant
            c@ == s@,
            e@ == seq!['"'] + escape(c@.take(i as int)),
    {
        proof {
            assert(c@.take(i + 1).drop_last() =~= c@.take(i as int));
        }
        let ch = c[i];
        if ch == '\\' {
            crate::text::push_char(&mut e, '\\');
            crate::text::push_char(&mut e, '\\');
        } else if ch == '"' {
            crate::text::push_char(&mut e, '\\');
            crate::text::push_char(&mut e, '"');
        } else {
            crate::text::push_char(&mut e, ch);
        }
        proof {
            assert(e@ =~= seq!['"'] + escape(c@.take(i + 1)));
        }
    }
    proof {
        assert(c@.take(c@.len() as int) =~= c@);
    }
    crate::text::push_char(&mut e, '"');
    e
}

/// `key = "value"` and a line feed.
pub open spec fn toml_line(key: Seq<char>, value: Seq<char>) -> Seq<char> {
    key + " = "@ + toml_str(value) + "\n"@
}

fn push_toml_line(out: &mut String, key: &str, value: &str)
    ensures
        final(out)@ == old(out)@ + toml_line(key@, value@),
{
    out.append(key);
    out.append(" = ");
    let v = toml_string(value);
    out.append(v.as_str());
    out.append("\n");
}

/// The plan header: the version line, then the description line if any.
pub open spec fn plan_header(description: Option<Seq<char>>) -> Seq<char> {
    "version = \"1\"\n"@ + match description {
        Some(d) => toml_line("description"@, d),
        None => Seq::empty(),
    }
}

pub open spec fn opt_text(o: Option<String>) -> Option<Seq<char>> {
    match o {
        Some(s) => Some(s@),
        None => None,
    }
}

fn render_header(description: &Option<String>) -> (r: String)
    ensures
        r@ == plan_header(opt_text(*description)),
{
    let mut out = String::from_str("version = \"1\"\n");
    match description {
        Some(d) => push_toml_line(&mut out, "description", d.as_str()),
        None => {},
    }
    out
}

// ---------------------------------------------------------------------------
// Operation views
// ---------------------------------------------------------------------------

/// A structural operation as plain values.
pub enum MainOpView {
    CreateDir(Seq<char>),
    Move(Seq<char>, Seq<char>),
}

/// A migration as plain values: the kind (add or set), path, field and value.
pub enum FmOpView {
    Add(Seq<char>, Seq<char>, Seq<char>),
    Overwrite(Seq<char>, Seq<char>, Seq<char>),
}

impl View for MainPlanOp {
    type V = MainOpView;

    open spec fn view(&self) -> MainOpView {
        match self {
            MainPlanOp::CreateDir { path } => MainOpView::CreateDir(path@),
            MainPlanOp::Move { src, dst } => MainOpView::Move(src@, dst@),
        }
    }
}

impl View for FmPlanOp {
    type V = FmOpView;

    open spec fn view(&self) -> FmOpView {
        match self {
            FmPlanOp::AddField { path, field, value } => FmOpView::Add(path@, field@, value@),
            FmPlanOp::SetField { path, field, value } => FmOpView::Overwrite(path@, field@, value@),
        }
    }
}

pub open spec fn main_op_views(v: Seq<MainPlanOp>) -> Seq<MainOpView> {
    v.map_values(|o: MainPlanOp| o@)
}

pub open spec fn fm_op_views(v: Seq<FmPlanOp>) -> Seq<FmOpView> {
    v.map_values(|o: FmPlanOp| o@)
}

// ---------------------------------------------------------------------------
// Main plan (anchor structural ops: create_dir / move)
// ---------------------------------------------------------------------------

/// A structural operation in the main anchor plan.
#[derive(Debug, Clone, PartialEq, Eq)]
pub enum MainPlanOp {
    CreateDir { path: String },
    Move { src: String, dst: String },
}

/// Structural anchor plan, rendered as anchor-compatible TOML (version "1").
#[derive(Debug, Clone, PartialEq)]
pub struct MainPlan {
    pub description: Option<String>,
    pub ops: Vec<MainPlanOp>,
}

/// The `[[ops]]` block of one structural operation.
pub open spec fn main_op_block(op: MainOpView) -> Seq<char> {
    "\n[[ops]]\n"@ + match op {
        MainOpView::CreateDir(path) => "type = \"create_dir\"\n"@ + toml_line("path"@, path),
        MainOpView::Move(src, dst) => "type = \"move\"\n"@ + toml_line("src"@, src) + toml_line("dst"@, dst),
    }
}

/// The blocks of the operations, in order.
pub open spec fn main_op_blocks(ops: Seq<MainOpView>) -> Seq<char>
    decreases ops.len(),
{
    if ops.len() == 0 {
        Seq::empty()
    } else {
        main_op_blocks(ops.drop_last()) + main_op_block(ops.last())
    }
}

/// The TOML text of a structural plan: header, then `ops = []` when there are
/// no operations, else one block per operation in order.
pub open spec fn main_plan_toml(description: Option<Seq<char>>, ops: Seq<MainOpView>) -> Seq<char> {
    plan_header(description) + if ops.len() == 0 {
        "ops = []\n"@
    } else {
        main_op_blocks(ops)
    }
}

impl MainPlan {
    /// An empty plan with the given description.
    pub fn new(description: Option<String>) -> (r: MainPlan)
        ensures
            r.description == description,
            r.ops@.len() == 0,
    {
        MainPlan { description, ops: Vec::new() }
    }

    /// Whether the plan has no operations.
    pub fn is_empty(&self) -> (r: bool)
        ensures
            r == (self.ops@.len() == 0),
    {
        self.ops.len() == 0
    }

    /// Renders the plan as anchor-compatible TOML. The text depends on the
    /// plan alone: identical plans give identical text.
    pub fn render_toml(&self) -> (r: String)
        ensures
            r@ == main_plan_toml(opt_text(self.description), main_op_views(self.ops@)),
    {
        let mut out = render_header(&self.description);
        if self.ops.len() == 0 {
            out.append("ops = []\n");
            return out;
        }
        let ghost head = out@;
        for i in 0..self.ops.len()
            invariant
                out@ == head + main_op_blocks(main_op_views(self.ops@.take(i as int))),
        {
            proof {
                assert(main_op_views(self.ops@.take(i + 1)).drop_last() =~= main_op_views(self.ops@.take(i as int)));
            }
            out.append("\n[[ops]]\n");
            match &self.ops[i] {
                MainPlanOp::CreateDir { path } => {
                    out.append("type = \"create_dir\"\n");
                    push_toml_line(&mut out, "path", path.as_str());
                },
                MainPlanOp::Move { src, dst } => {
                    out.append("type = \"move\"\n");
                    push_toml_line(&mut out, "src", src.as_str());
                    push_toml_line(&mut out, "dst", dst.as_str());
                },
            }
            proof {
                assert(out@ =~= head + main_op_blocks(main_op_views(self.ops@.take(i + 1))));
            }
        }
        proof {
            assert(self.ops@.take(self.ops@.len() as int) =~= self.ops@);
        }
        out
    }
}

// ---------------------------------------------------------------------------
// Frontmatter migration plan
// ---------------------------------------------------------------------------

/// A frontmatter migration operation.
#[derive(Debug, Clone, PartialEq, Eq)]
pub enum FmPlanOp {
    /// Add a frontmatter field that does not yet exist.
    AddField { path: String, field: String, value: String },
    /// Overwrite an existing frontmatter field with a corrected value.
    SetField { path: String, field: String, value: String },
}

/// Frontmatter migration plan, rendered as TOML for `anchor frontmatter migrate`.
#[derive(Debug, Clone, PartialEq)]
pub struct FmPlan {
    pub description: Option<String>,
    pub ops: Vec<FmPlanOp>,
}

/// The `[[ops]]` block of one migration.
pub open spec fn fm_op_block(op: FmOpView) -> Seq<char> {
    "\n[[ops]]\n"@ + match op {
        FmOpView::Add(path, field, value) => "type = \"add_field\"\n"@ + toml_line("path"@, path) + toml_line("field"@, field)
            + toml_line("value"@, value),
        FmOpView::Overwrite(path, field, value) => "type = \"set_field\"\n"@ + toml_line("path"@, path) + toml_line(
            "field"@,
            field,
        ) + toml_line("value"@, value),
    }
}

/// The blocks of the migrations, in order.
pub open spec fn fm_op_blocks(ops: Seq<FmOpView>) -> Seq<char>
    decreases ops.len(),
{
    if ops.len() == 0 {
        Seq::empty()
    } else {
        fm_op_blocks(ops.drop_last()) + fm_op_block(ops.last())
    }
}

/// The TOML text of a migration plan: header, then one block per operation.
pub open spec fn fm_plan_toml(description: Option<Seq<char>>, ops: Seq<FmOpView>) -> Seq<char> {
    plan_header(description) + fm_op_blocks(ops)
}

fn fm_op_text(op: &FmPlanOp) -> (r: String)
    ensures
        r@ == fm_op_block(op@),
{
    let mut out = String::from_str("\n[[ops]]\n");
    match op {
        FmPlanOp::AddField { path, field, value } => {
            out.append("type = \"add_field\"\n");
            push_toml_line(&mut out, "path", path.as_str());
            push_toml_line(&mut out, "field", field.as_str());
            push_toml_line(&mut out, "value", value.as_str());
        },
        FmPlanOp::SetField { path, field, value } => {
            out.append("type = \"set_field\"\n");
            push_toml_line(&mut out, "path", path.as_str());
            push_toml_line(&mut out, "field", field.as_str());
            push_toml_line(&mut out, "value", value.as_str());
        },
    }
    out
}

impl FmPlan {
    /// An empty plan with the given description.
    pub fn new(description: Option<String>) -> (r: FmPlan)
        ensures
            r.description == description,
            r.ops@.len() == 0,
    {
        FmPlan { description, ops: Vec::new() }
    }

    /// Whether the plan has no operations.
    pub fn is_empty(&self) -> (r: bool)
        ensures
            r == (self.ops@.len() == 0),
    {
        self.ops.len() == 0
    }

    /// Renders the plan as TOML.
    pub fn render_toml(&self) -> (r: String)
        ensures
            r@ == fm_plan_toml(opt_text(self.description), fm_op_views(self.ops@)),
    {
        let mut out = render_header(&self.description);
        let ghost head = out@;
        for i in 0..self.ops.len()
            invariant
                out@ == head + fm_op_blocks(fm_op_views(self.ops@.take(i as int))),
        {
            proof {
                assert(fm_op_views(self.ops@.take(i + 1)).drop_last() =~= fm_op_views(self.ops@.take(i as int)));
            }
            let block = fm_op_text(&self.ops[i]);
            out.append(block.as_str());
            proof {
                assert(out@ =~= head + fm_op_blocks(fm_op_views(self.ops@.take(i + 1))));
            }
        }
        proof {
            assert(self.ops@.take(self.ops@.len() as int) =~= self.ops@);
        }
        out
    }
}

// ---------------------------------------------------------------------------
// Judgment types
// ---------------------------------------------------------------------------

/// Cases that need human (closed-layer) reasoning to resolve.
#[derive(Debug, Clone, Copy, PartialEq, Eq, Structural)]
pub enum JudgmentCategory {
    /// Where a file should split into a folder.
    GraduationBoundary,
    /// The file type cannot be determined from location alone.
    TypeAmbiguous,
    /// An engine-class field is not deterministic.
    EngineClassInference,
    /// A numbered folder ID cannot be assigned without context.
    IdAssignment,
}

pub open spec fn judgment_name(c: JudgmentCategory) -> Seq<char> {
    match c {
        JudgmentCategory::GraduationBoundary => "GraduationBoundary"@,
        JudgmentCategory::TypeAmbiguous => "TypeAmbiguous"@,
        JudgmentCategory::EngineClassInference => "EngineClassInference"@,
        JudgmentCategory::IdAssignment => "IdAssignment"@,
    }
}

impl JudgmentCategory {
    /// The category's name.
    pub fn as_str(&self) -> (r: &'static str)
        ensures
            r@ == judgment_name(*self),
    {
        match self {
            JudgmentCategory::GraduationBoundary => "GraduationBoundary",
            JudgmentCategory::TypeAmbiguous => "TypeAmbiguous",
            JudgmentCategory::EngineClassInference => "EngineClassInference",
            JudgmentCategory::IdAssignment => "IdAssignment",
        }
    }
}

/// A case that requires judgment to resolve.
#[derive(Debug, Clone)]
pub struct JudgmentCase {
    pub path: String,
    pub category: JudgmentCategory,
    pub description: String,
}

/// A row of the gap report.
#[derive(Debug, Clone)]
pub struct GapReportRow {
    pub path: String,
    pub category: JudgmentCategory,
    pub description: String,
}

/// A case or row as its texts and category.
pub struct CaseView {
    pub path: Seq<char>,
    pub category: JudgmentCategory,
    pub description: Seq<char>,
}

pub open spec fn case_view(path: Seq<char>, category: JudgmentCategory, description: Seq<char>) -> CaseView {
    CaseView { path, category, description }
}

impl View for JudgmentCase {
    type V = CaseView;

    open spec fn view(&self) -> CaseView {
        case_view(self.path@, self.category, self.description@)
    }
}

impl View for GapReportRow {
    type V = CaseView;

    open spec fn view(&self) -> CaseView {
        case_view(self.path@, self.category, self.description@)
    }
}

pub open spec fn case_views(v: Seq<JudgmentCase>) -> Seq<CaseView> {
    v.map_values(|c: JudgmentCase| c@)
}

pub open spec fn row_views(v: Seq<GapReportRow>) -> Seq<CaseView> {
    v.map_values(|c: GapReportRow| c@)
}

} // verus!
