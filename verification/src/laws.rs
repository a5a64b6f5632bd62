//! Properties that span several functions of the library.

use vstd::prelude::*;
use crate::audit::drift::{DriftCategory, DriftView, any_blocking, informational};
use crate::audit::frontmatter::{enum_msg, required_msg, type_msg, typed_required_msg};
use crate::gap_report::formatter::{entry_names, next_number, all_digits, byte_len, canon_number, chars_within, digit_value, digits_value, gap_file_name, max_canon_number, pad3, parse_u32, slug, slug_body, slug_cut_ok, trim_dashes, utf8_len};
use crate::plan::emitter::{entry_case, entry_fm_op, entry_main_op, extracted_field, planned_cases, planned_fm_ops, planned_main_ops};
use crate::plan::types::{CaseView, MainOpView, main_plan_toml, plan_header};
use crate::files::NodeView;
use crate::orchestrator::anchor_runner::RunnerError;
use crate::orchestrator::pipeline::{OrchestratorConfig, Pipeline, PipelineEvent, PipelineStep, Stage, StepView, audit_views, outcome_exit_code, outcome_steps, start_result, step_result};
use crate::text::{decimal, digit_char, find, find_from, occurs_at, seq_lt, starts_with};
use crate::files::{child_name, entry_is_dir, exists_at, is_dir_at, path_join, text_at};
use crate::template::TemplateErrorView;
use crate::template::manifest::{TemplateTier, TierView};
use crate::template::loader::{ListedView, all_listing, builtin_listing, builtin_text, dir_listing, dir_template, listed_node, listed_nodes, listing_has, name_load};
use crate::cli::audit::{OutputFormat, audit_command, is_path_spec, spec_template};
use crate::cli::align::{AlignPlanView, align_command};
use crate::cli::template::{INSTALL_HELP, VALIDATE_HELP, ShowScan, SingleScan, TemplateOutcome, install_command, is_git_url, list_command, local_src, show_scan, single_scan, template_command, valid_name};
use crate::stub::{insert_sorted, is_numbered, node_stub, nodes_stubs, sort_names, stub_plan, stub_text, toc};
use crate::toml_value::{toml_document, toml_get};

use crate::audit::drift::drift;
use crate::audit::frontmatter::condition_drift;
use crate::audit::drift::blocking_count;
use crate::files::FileTree;
use crate::audit::invariants::{h2_count, h2_upto, line_start};
use crate::json::JsonModel;
use crate::plan::emitter::plan_path;
use crate::plan::types::FmOpView;
use crate::template::manifest::{FolderShape, shape_named, shape_text};

verus! {

// ---------------------------------------------------------------------------
// Drift and exit codes
// ---------------------------------------------------------------------------

/// Informational entries (unknown fields and the two heuristics) never make
/// a drift report blocking: a report blocks exactly when one of its entries
/// has a blocking category.
pub proof fn law_only_blocking_categories_block(entries: Seq<DriftView>)
    ensures
        any_blocking(entries) <==> exists|i: int| 0 <= i < entries.len() && !informational(#[trigger] entries[i].category),
        (forall|i: int| 0 <= i < entries.len() ==> informational(#[trigger] entries[i].category)) ==> !any_blocking(entries),
{
}

/// A report whose entries are all unknown-field notices gives no plan
/// operation and no judgment case: a conformant corpus needs no work.
pub proof fn law_conformant_corpus_needs_no_work(m: Seq<(Seq<char>, Seq<char>)>, root: Seq<char>, entries: Seq<DriftView>)
    requires
        forall|i: int| 0 <= i < entries.len() ==> #[trigger] entries[i].category == DriftCategory::UnknownFieldInfo,
    ensures
        planned_main_ops(m, root, entries).len() == 0,
        planned_fm_ops(root, entries).len() == 0,
        planned_cases(m, entries).len() == 0,
    decreases entries.len(),
{
    if entries.len() > 0 {
        let d = entries.drop_last();
        assert forall|i: int| 0 <= i < d.len() implies #[trigger] d[i].category == DriftCategory::UnknownFieldInfo by {
            assert(d[i] == entries[i]);
        }
        law_conformant_corpus_needs_no_work(m, root, d);
        assert(entries.last() == entries[entries.len() - 1]);
        let e = entries.last();
        assert(entry_main_op(m, root, e) is None);
        assert(entry_fm_op(root, e) is None) by {
            match extracted_field(e.message) {
                Some(_) => {},
                None => {},
            }
        }
        assert(entry_case(m, e) is None);
    }
}

/// Each drift entry goes to at most one place: a structural move, a
/// frontmatter migration or a judgment case. A folder-shape entry becomes a
/// move exactly when the folder rules know its numbered name, and a case
/// otherwise; a missing index, a heuristic finding or an invariant violation
/// always becomes a case, never an operation.
pub proof fn law_each_entry_has_one_destination(m: Seq<(Seq<char>, Seq<char>)>, root: Seq<char>, e: DriftView)
    ensures
        !(entry_main_op(m, root, e) is Some && entry_fm_op(root, e) is Some),
        !(entry_main_op(m, root, e) is Some && entry_case(m, e) is Some),
        !(entry_fm_op(root, e) is Some && entry_case(m, e) is Some),
        e.category == DriftCategory::FolderShape ==> (entry_main_op(m, root, e) is Some <==> entry_case(m, e) is None),
        (e.category == DriftCategory::MissingIndex || e.category == DriftCategory::GraduationCandidate
            || e.category == DriftCategory::ContentSplitSuggested || e.category == DriftCategory::InvariantViolation)
            ==> (entry_case(m, e) is Some && entry_main_op(m, root, e) is None && entry_fm_op(root, e) is None),
{
    match extracted_field(e.message) {
        Some(_) => {},
        None => {},
    }
}

// ---------------------------------------------------------------------------
// Plans
// ---------------------------------------------------------------------------

/// A structural plan without operations still lists `ops = []`, so anchor
/// accepts it; its text is the version line, the description line, and that.
pub proof fn law_empty_main_plan_lists_no_ops(description: Option<Seq<char>>)
    ensures
        main_plan_toml(description, Seq::<MainOpView>::empty()) == plan_header(description) + "ops = []\n"@,
{
}

proof fn lemma_find_first_char(s: Seq<char>, c: char, i: int, k: int)
    requires
        0 <= i <= k < s.len(),
        s[k] == c,
        forall|j: int| i <= j < k ==> s[j] != c,
    ensures
        find_from(s, seq![c], i) == Some(k),
    decreases k - i,
{
    if i < k {
        assert(!occurs_at(s, seq![c], i)) by {
            assert(s.subrange(i, i + 1)[0] == s[i]);
        }
        lemma_find_first_char(s, c, i + 1, k);
    } else {
        assert(s.subrange(k, k + 1) =~= seq![c]);
    }
}

/// The field after `field '`, when the marker occurs at `i`, is the text up
/// to the next quote.
proof fn lemma_field_after_marker(s: Seq<char>, i: int, f: Seq<char>)
    requires
        0 <= i,
        find(s, "field '"@) == Some(i),
        i + 7 + f.len() < s.len(),
        s.subrange(i + 7, i + 7 + f.len()) == f,
        s[i + 7 + f.len()] == '\'',
        !f.contains('\''),
    ensures
        extracted_field(s) == Some(f),
{
    reveal_strlit("field '");
    reveal_strlit("'");
    let start = i + 7;
    let rest = s.skip(start);
    assert forall|j: int| 0 <= j < f.len() implies rest[j] != '\'' by {
        assert(rest[j] == s[start + j]);
        assert(f[j] == s.subrange(start, start + f.len() as int)[j]);
        if rest[j] == '\'' {
            assert(f.contains('\''));
        }
    }
    assert("'"@ =~= seq!['\'']);
    lemma_find_first_char(rest, '\'', 0, f.len() as int);
}

/// The plan emitter recovers the field name from every frontmatter message
/// the audit writes, as long as the name holds no single quote.
pub proof fn law_messages_name_their_field(f: Seq<char>, t: Seq<char>, got: Seq<char>, value: Seq<char>, allowed: Seq<char>)
    requires
        !f.contains('\''),
    ensures
        extracted_field(required_msg(f)) == Some(f),
        extracted_field(type_msg(f, t, got)) == Some(f),
        extracted_field(enum_msg(f, value, allowed)) == Some(f),
        extracted_field(typed_required_msg(f, t)) == Some(f),
{
    reveal_strlit("field '");
    reveal_strlit("required field '");
    reveal_strlit("' is absent");
    reveal_strlit("' expected type '");
    reveal_strlit("' value '");
    reveal_strlit("' is required for type '");
    let p = "field '"@;
    // required field 'f' is absent
    let s1 = required_msg(f);
    assert forall|j: int| 0 <= j < 9 implies !occurs_at(s1, p, j) by {
        assert(s1.subrange(j, j + 7)[0] == s1[j]);
    }
    assert(occurs_at(s1, p, 9)) by {
        assert(s1.subrange(9, 16) =~= p);
    }
    reveal_with_fuel(find_from, 11);
    assert(find(s1, p) == Some(9int));
    assert(s1.subrange(16, 16 + f.len() as int) =~= f);
    lemma_field_after_marker(s1, 9, f);
    // field 'f' ...
    let s2 = type_msg(f, t, got);
    assert(occurs_at(s2, p, 0)) by {
        assert(s2.subrange(0, 7) =~= p);
    }
    assert(s2.subrange(7, 7 + f.len() as int) =~= f);
    lemma_field_after_marker(s2, 0, f);
    let s3 = enum_msg(f, value, allowed);
    assert(occurs_at(s3, p, 0)) by {
        assert(s3.subrange(0, 7) =~= p);
    }
    assert(s3.subrange(7, 7 + f.len() as int) =~= f);
    lemma_field_after_marker(s3, 0, f);
    let s4 = typed_required_msg(f, t);
    assert(occurs_at(s4, p, 0)) by {
        assert(s4.subrange(0, 7) =~= p);
    }
    assert(s4.subrange(7, 7 + f.len() as int) =~= f);
    lemma_field_after_marker(s4, 0, f);
}

// ---------------------------------------------------------------------------
// The align pipeline
// ---------------------------------------------------------------------------

/// A dry run asks for no outside work: it ends right after Audit and Plan,
/// having written nothing, with exit code 1 exactly when the audit found
/// blocking drift.
pub proof fn law_dry_run_writes_nothing(t: Seq<NodeView>, config: OrchestratorConfig, main_path: Seq<char>, fm_path: Seq<char>, r: PipelineStep)
    requires
        !config.apply,
        start_result(t, config, main_path, fm_path, r),
    ensures
        r is Done,
        audit_views(t, config) matches Some(d) ==> (r matches PipelineStep::Done(o) && outcome_exit_code(o@) == (if any_blocking(d) {
            1i32
        } else {
            0i32
        }) && outcome_steps(o@).last() == StepView::ApplySkipped),
{
}

/// A failed `anchor apply` ends the run: nothing more is asked for, the
/// last step records anchor's exit code and diagnostic, and the run exits 2.
pub proof fn law_failed_apply_stops_the_run(config: OrchestratorConfig, p: Pipeline, e: RunnerError, r: PipelineStep)
    requires
        p.stage == Stage::Apply,
        step_result(config, p, PipelineEvent::Applied(Err(e)), r),
    ensures
        r matches PipelineStep::Done(o) && outcome_exit_code(o@) == 2 && outcome_steps(o@).last() == StepView::AnchorApplyFailed(
            e.exit_code,
            e.diagnostic@,
        ),
{
}

/// A failed frontmatter migration ends the run the same way.
pub proof fn law_failed_migration_stops_the_run(config: OrchestratorConfig, p: Pipeline, e: RunnerError, r: PipelineStep)
    requires
        p.stage == Stage::Migrate,
        step_result(config, p, PipelineEvent::Migrated(Err(e)), r),
    ensures
        r matches PipelineStep::Done(o) && outcome_exit_code(o@) == 2 && outcome_steps(o@).last()
            == StepView::AnchorFmMigrateFailed(e.exit_code, e.diagnostic@),
{
}

/// Exit codes: every run that ends exits 0 (conformant), 1 (drift found or
/// left after apply) or 2 (an error).
pub proof fn law_exit_codes(t: Seq<NodeView>, config: OrchestratorConfig, main_path: Seq<char>, fm_path: Seq<char>, p: Pipeline, ev: PipelineEvent, r1: PipelineStep, r2: PipelineStep)
    requires
        start_result(t, config, main_path, fm_path, r1),
        step_result(config, p, ev, r2),
    ensures
        r1 matches PipelineStep::Done(o) ==> 0 <= outcome_exit_code(o@) <= 2,
        r2 matches PipelineStep::Done(o) ==> 0 <= outcome_exit_code(o@) <= 2,
{
}

// ---------------------------------------------------------------------------
// Gap report numbering
// ---------------------------------------------------------------------------

proof fn lemma_decimal_digits(n: nat)
    ensures
        all_digits(decimal(n)),
        digits_value(decimal(n)) == n,
        decimal(n).len() >= 1,
    decreases n,
{
    assert(n == (n / 10) * 10 + n % 10);
    assert(digit_value(digit_char(n % 10)) == n % 10);
    if n < 10 {
        assert(decimal(n).drop_last() =~= Seq::<char>::empty());
        assert(digit_value(digit_char(n)) == n);
        assert(digits_value(decimal(n)) == digits_value(decimal(n).drop_last()) * 10 + digit_value(decimal(n).last()));
    }
    if n >= 10 {
        lemma_decimal_digits(n / 10);
        let d = decimal(n);
        assert(d.drop_last() == decimal(n / 10));
        assert forall|i: int| 0 <= i < d.len() implies '0' <= #[trigger] d[i] && d[i] <= '9' by {
            if i < d.len() - 1 {
                assert(d[i] == decimal(n / 10)[i]);
            }
        }
    }
}

proof fn lemma_leading_zero(d: Seq<char>)
    ensures
        digits_value(seq!['0'] + d) == digits_value(d),
    decreases d.len(),
{
    assert(digit_value('0') == 0);
    if d.len() > 0 {
        lemma_leading_zero(d.drop_last());
        let z = seq!['0'] + d;
        assert(z.drop_last() =~= seq!['0'] + d.drop_last());
        assert(z.last() == d.last());
        assert(digits_value(z) == digits_value(z.drop_last()) * 10 + digit_value(z.last()));
        assert(digits_value(d) == digits_value(d.drop_last()) * 10 + digit_value(d.last()));
    } else {
        let z = seq!['0'] + d;
        assert(z =~= seq!['0']);
        assert(z.drop_last() =~= Seq::<char>::empty());
        assert(digits_value(z) == digits_value(z.drop_last()) * 10 + digit_value(z.last()));
        assert(digits_value(d) == 0);
    }
}

proof fn lemma_pad3(n: nat)
    ensures
        all_digits(pad3(n)),
        digits_value(pad3(n)) == n,
        pad3(n).len() >= 3,
{
    lemma_decimal_digits(n);
    let d = decimal(n);
    if d.len() == 2 {
        lemma_leading_zero(d);
    } else if d.len() == 1 {
        lemma_leading_zero(d);
        lemma_leading_zero(seq!['0'] + d);
        assert(seq!['0', '0'] + d =~= seq!['0'] + (seq!['0'] + d));
    }
}

/// A gap file's name carries the number it was written under.
pub proof fn law_gap_file_name_carries_number(row: CaseView, n: nat)
    requires
        n <= u32::MAX,
    ensures
        canon_number(gap_file_name(row, n)) == Some(n as u32),
{
    reveal_strlit("CANON-");
    reveal_strlit("-");
    reveal_strlit(".md");
    lemma_pad3(n);
    let name = gap_file_name(row, n);
    let pd = pad3(n);
    assert(starts_with(name, "CANON-"@)) by {
        assert(name.take(6) =~= "CANON-"@);
    }
    let rest = name.skip(6);
    assert(rest =~= pd + "-"@ + slug(row.description) + ".md"@);
    assert("-"@ =~= seq!['-']);
    assert forall|j: int| 0 <= j < pd.len() implies rest[j] != '-' by {
        assert(rest[j] == pd[j]);
        assert('0' <= pd[j] && pd[j] <= '9');
    }
    lemma_find_first_char(rest, '-', 0, pd.len() as int);
    assert(rest.take(pd.len() as int) =~= pd);
    assert(pd[0] != '+') by {
        assert('0' <= pd[0] && pd[0] <= '9');
    }
    assert(parse_u32(pd) == Some(n as u32));
}

proof fn lemma_max_at_least(names: Seq<Seq<char>>, i: int)
    requires
        0 <= i < names.len(),
    ensures
        canon_number(names[i]) matches Some(k) ==> max_canon_number(names) >= k,
    decreases names.len(),
{
    if i < names.len() - 1 {
        lemma_max_at_least(names.drop_last(), i);
        assert(names.drop_last()[i] == names[i]);
    }
}

/// The names of gap files written for `rows`, numbered from `first`.
pub open spec fn gap_names(first: nat, rows: Seq<CaseView>) -> Seq<Seq<char>> {
    Seq::new(rows.len(), |i: int| gap_file_name(rows[i], first + i as nat))
}

/// Writing gap files never loses the count: once files numbered from `first`
/// sit beside the earlier ones, the next scan starts past all of them, so a
/// second run continues the sequence and overwrites nothing.
pub proof fn law_gap_numbering_continues(existing: Seq<Seq<char>>, first: nat, rows: Seq<CaseView>)
    requires
        rows.len() >= 1,
        first + rows.len() - 1 <= u32::MAX,
    ensures
        max_canon_number(existing + gap_names(first, rows)) + 1 >= first + rows.len(),
        forall|i: int| 0 <= i < rows.len() ==> canon_number(#[trigger] gap_names(first, rows)[i]) == Some((first + i) as u32),
{
    let all = existing + gap_names(first, rows);
    let last = all.len() - 1;
    let k = (first + rows.len() - 1) as nat;
    law_gap_file_name_carries_number(rows[rows.len() - 1], k);
    assert(all[last] == gap_file_name(rows[rows.len() - 1], k));
    lemma_max_at_least(all, last);
    assert forall|i: int| 0 <= i < rows.len() implies canon_number(#[trigger] gap_names(first, rows)[i]) == Some((first + i) as u32) by {
        law_gap_file_name_carries_number(rows[i], (first + i) as nat);
    }
}

/// Gap numbering continues across runs: when a first run wrote its gap
/// files (numbered from the first free number of its scan) and a later scan
/// of the gap directory lists them, the later run's first free number is
/// past all of them, so every file the later run writes has a higher number
/// and a different name than every file of the first run.
pub proof fn law_gap_numbering_across_runs(t1: Seq<NodeView>, t2: Seq<NodeView>, g: Seq<char>, rows1: Seq<CaseView>, rows2: Seq<CaseView>)
    requires
        rows1.len() >= 1,
        next_number(t1, g) + rows1.len() - 1 <= u32::MAX,
        next_number(t2, g) + rows2.len() - 1 <= u32::MAX,
        is_dir_at(t2, g),
        forall|i: int| 0 <= i < rows1.len() ==> entry_names(t2, g).contains(#[trigger] gap_names(next_number(t1, g), rows1)[i]),
    ensures
        next_number(t2, g) >= next_number(t1, g) + rows1.len(),
        forall|i: int, j: int| 0 <= i < rows1.len() && 0 <= j < rows2.len() ==>
            #[trigger] gap_names(next_number(t1, g), rows1)[i] != #[trigger] gap_names(next_number(t2, g), rows2)[j],
{
    let n1 = next_number(t1, g);
    let n2 = next_number(t2, g);
    let names = entry_names(t2, g);
    let k = rows1.len() - 1;
    let last = gap_names(n1, rows1)[k];
    assert(names.contains(last));
    let idx = choose|x: int| 0 <= x < names.len() && names[x] == last;
    law_gap_file_name_carries_number(rows1[k], (n1 + k) as nat);
    lemma_max_at_least(names, idx);
    assert forall|i: int, j: int| 0 <= i < rows1.len() && 0 <= j < rows2.len() implies
        #[trigger] gap_names(n1, rows1)[i] != #[trigger] gap_names(n2, rows2)[j] by {
        law_gap_file_name_carries_number(rows1[i], (n1 + i) as nat);
        law_gap_file_name_carries_number(rows2[j], (n2 + j) as nat);
    }
}

// ---------------------------------------------------------------------------
// Slugs
// ---------------------------------------------------------------------------

proof fn lemma_byte_len_first(s: Seq<char>)
    requires
        s.len() > 0,
    ensures
        byte_len(s) == utf8_len(s[0]) + byte_len(s.drop_first()),
    decreases s.len(),
{
    if s.len() > 1 {
        lemma_byte_len_first(s.drop_last());
        assert(s.drop_last().drop_first() =~= s.drop_first().drop_last());
    } else {
        assert(s.drop_first() =~= Seq::<char>::empty());
        assert(s.drop_last() =~= Seq::<char>::empty());
    }
}

proof fn lemma_trim_dashes_shorter(s: Seq<char>)
    ensures
        byte_len(trim_dashes(s)) <= byte_len(s),
    decreases s.len(),
{
    if s.len() > 0 && s.last() == '-' {
        lemma_trim_dashes_shorter(s.drop_last());
    } else if s.len() > 0 && s[0] == '-' {
        lemma_trim_dashes_shorter(s.drop_first());
        lemma_byte_len_first(s);
    }
}

proof fn lemma_chars_within_fits(s: Seq<char>, n: nat)
    ensures
        0 <= chars_within(s, n) <= s.len(),
        byte_len(s.take(chars_within(s, n))) <= n,
    decreases s.len(),
{
    if s.len() == 0 {
        assert(s.take(0) =~= Seq::<char>::empty());
    } else if byte_len(s) <= n {
        assert(s.take(s.len() as int) =~= s);
    } else {
        lemma_chars_within_fits(s.drop_last(), n);
        let k = chars_within(s.drop_last(), n);
        assert(s.drop_last().take(k) =~= s.take(k));
    }
}

/// Slugs are at most 40 bytes long.
pub proof fn law_slug_at_most_40_bytes(description: Seq<char>)
    requires
        slug_cut_ok(description),
    ensures
        byte_len(slug(description)) <= 40,
{
    let b = slug_body(description);
    if byte_len(b) > 40 {
        lemma_chars_within_fits(b, 40);
        lemma_trim_dashes_shorter(b.take(chars_within(b, 40)));
    } else {
        lemma_trim_dashes_shorter(b);
    }
}

// ---------------------------------------------------------------------------
// Template resolution
// ---------------------------------------------------------------------------

/// Resolution by name takes the first tier that has the template: a
/// workspace directory of that name wins over a user one, which wins over a
/// built-in; with none of them the error lists both searched paths.
pub proof fn law_first_tier_wins(
    bs: Seq<(Seq<char>, Seq<char>)>,
    ws_dir: Seq<char>,
    user_dir: Seq<char>,
    t: Seq<NodeView>,
    name: Seq<char>,
)
    ensures
        is_dir_at(t, path_join(ws_dir, name)) ==> name_load(bs, ws_dir, user_dir, t, name) == dir_template(
            t,
            path_join(ws_dir, name),
            TierView::Workspace,
        ),
        !is_dir_at(t, path_join(ws_dir, name)) && is_dir_at(t, path_join(user_dir, name)) ==> name_load(bs, ws_dir, user_dir, t, name)
            == dir_template(t, path_join(user_dir, name), TierView::User),
        name_load(bs, ws_dir, user_dir, t, name) matches Ok(tv) && tv.tier == TierView::BuiltIn ==> !is_dir_at(
            t,
            path_join(ws_dir, name),
        ) && !is_dir_at(t, path_join(user_dir, name)) && builtin_text(bs, name) is Some,
        name_load(bs, ws_dir, user_dir, t, name) matches Err(TemplateErrorView::NotFound(n, searched)) ==> n == name && searched
            == seq![path_join(ws_dir, name), path_join(user_dir, name)],
{
}

/// A template argument that is a path is loaded from that directory, with
/// no name resolution.
pub proof fn law_explicit_path_wins(t: Seq<NodeView>, ws: Seq<char>, user_dir: Seq<char>, spec: Seq<char>)
    requires
        is_path_spec(spec),
    ensures
        spec_template(t, ws, user_dir, spec) == dir_template(t, spec, TierView::ExplicitPath(spec)),
{
}

proof fn lemma_listed_nodes_tier(t: Seq<NodeView>, ns: Seq<NodeView>, dir: Seq<char>, tier: TemplateTier)
    ensures
        forall|i: int| 0 <= i < listed_nodes(t, ns, dir, tier).len() ==> (#[trigger] listed_nodes(t, ns, dir, tier)[i]).tier == tier,
    decreases ns.len(),
{
    if ns.len() > 0 {
        lemma_listed_nodes_tier(t, ns.drop_last(), dir, tier);
        let a = listed_nodes(t, ns.drop_last(), dir, tier);
        let b = listed_node(t, dir, tier, ns.last());
        assert forall|i: int| 0 <= i < (a + b).len() implies (#[trigger] (a + b)[i]).tier == tier by {
            if i >= a.len() {
                assert((a + b)[i] == b[i - a.len()]);
            }
        }
    }
}

proof fn lemma_builtin_listing(bs: Seq<(Seq<char>, Seq<char>)>, higher: Seq<ListedView>)
    ensures
        forall|i: int| 0 <= i < builtin_listing(bs, higher).len() ==> (#[trigger] builtin_listing(bs, higher)[i]).tier
            == TemplateTier::BuiltIn && !listing_has(higher, builtin_listing(bs, higher)[i].name),
    decreases bs.len(),
{
    if bs.len() > 0 {
        lemma_builtin_listing(bs.drop_last(), higher);
    }
}

/// A workspace or user template overrides the built-in of the same name, and
/// the listing shows it: no built-in entry of the listing shares its name
/// with a workspace or user entry, and the workspace and user entries come
/// first, each tagged with its tier.
pub proof fn law_override_visible_in_listing(
    bs: Seq<(Seq<char>, Seq<char>)>,
    ws_dir: Seq<char>,
    user_dir: Seq<char>,
    t: Seq<NodeView>,
    i: int,
    j: int,
)
    requires
        0 <= i < all_listing(bs, ws_dir, user_dir, t).len(),
        0 <= j < all_listing(bs, ws_dir, user_dir, t).len(),
        all_listing(bs, ws_dir, user_dir, t)[i].tier == TemplateTier::BuiltIn,
        all_listing(bs, ws_dir, user_dir, t)[j].tier != TemplateTier::BuiltIn,
    ensures
        all_listing(bs, ws_dir, user_dir, t)[i].name != all_listing(bs, ws_dir, user_dir, t)[j].name,
        j < i,
        all_listing(bs, ws_dir, user_dir, t)[j].tier == TemplateTier::Workspace || all_listing(bs, ws_dir, user_dir, t)[j].tier
            == TemplateTier::User,
{
    let w = dir_listing(t, ws_dir, TemplateTier::Workspace);
    let u = dir_listing(t, user_dir, TemplateTier::User);
    let higher = w + u;
    let b = builtin_listing(bs, higher);
    let l = all_listing(bs, ws_dir, user_dir, t);
    assert(l == higher + b);
    lemma_listed_nodes_tier(t, t, ws_dir, TemplateTier::Workspace);
    lemma_listed_nodes_tier(t, t, user_dir, TemplateTier::User);
    lemma_builtin_listing(bs, higher);
    assert forall|k: int| 0 <= k < higher.len() implies #[trigger] higher[k].tier == TemplateTier::Workspace || higher[k].tier
        == TemplateTier::User by {
        if k < w.len() {
            assert(higher[k] == w[k]);
        } else {
            assert(higher[k] == u[k - w.len()]);
        }
    }
    if i < higher.len() {
        assert(l[i] == higher[i]);
        assert(false);
    }
    assert(l[i] == b[i - higher.len()]);
    if j >= higher.len() {
        assert(l[j] == b[j - higher.len()]);
        assert(false);
    }
    assert(l[j] == higher[j]);
    assert(!listing_has(higher, l[i].name));
}

// ---------------------------------------------------------------------------
// Template install
// ---------------------------------------------------------------------------

/// An install is only ever planned into a destination that does not exist
/// yet: `<user templates dir>/<name>`, with a valid template name.
pub proof fn law_install_never_overwrites(rest: Seq<Seq<char>>, cwd: Seq<char>, user_dir: Seq<char>, t: Seq<NodeView>)
    ensures
        install_command(rest, cwd, user_dir, t) matches TemplateOutcome::Install(p) ==> !exists_at(t, p.dest) && p.dest == path_join(
            user_dir,
            p.name,
        ) && valid_name(p.name),
{
    match single_scan(rest, 0, None, INSTALL_HELP@, Seq::empty()) {
        SingleScan::Got(Some(src)) => {
            if !is_git_url(src) {
                match local_src(t, src, cwd) {
                    Some(dir) => {
                        let mp = path_join(dir, "manifest.toml"@);
                        match text_at(t, mp) {
                            Some(c) => match toml_document(c) {
                                Ok(doc) => match toml_get(doc, "name"@) {
                                    _ => {},
                                },
                                Err(_) => {},
                            },
                            None => {},
                        }
                    },
                    None => {},
                }
            }
        },
        _ => {},
    }
}

// ---------------------------------------------------------------------------
// Index stubs
// ---------------------------------------------------------------------------

proof fn lemma_nodes_stubs(t: Seq<NodeView>, ns: Seq<NodeView>, root: Seq<char>, engine: Seq<char>, today: Seq<char>)
    ensures
        forall|k: int| 0 <= k < nodes_stubs(t, ns, root, engine, today).len() ==> {
            let s = #[trigger] nodes_stubs(t, ns, root, engine, today)[k];
            &&& !exists_at(t, s.0)
            &&& exists|n: NodeView, name: Seq<char>| #![trigger child_name(root, n.path), stub_text(name, engine, today, toc(t, n.path))]
                child_name(root, n.path) == Some(name) && is_numbered(name) && entry_is_dir(n) && s.0 == path_join(n.path, "_INDEX.md"@)
                && s.1 == stub_text(name, engine, today, toc(t, n.path))
        },
    decreases ns.len(),
{
    if ns.len() > 0 {
        lemma_nodes_stubs(t, ns.drop_last(), root, engine, today);
        let a = nodes_stubs(t, ns.drop_last(), root, engine, today);
        let b = node_stub(t, root, engine, today, ns.last());
        assert forall|k: int| 0 <= k < (a + b).len() implies {
            let s = #[trigger] (a + b)[k];
            &&& !exists_at(t, s.0)
            &&& exists|n: NodeView, name: Seq<char>| #![trigger child_name(root, n.path), stub_text(name, engine, today, toc(t, n.path))]
                child_name(root, n.path) == Some(name) && is_numbered(name) && entry_is_dir(n) && s.0 == path_join(n.path, "_INDEX.md"@)
                && s.1 == stub_text(name, engine, today, toc(t, n.path))
        } by {
            if k < a.len() {
                assert((a + b)[k] == a[k]);
            } else {
                assert((a + b)[k] == b[k - a.len()]);
                let n = ns.last();
                let name = child_name(root, n.path)->Some_0;
                assert(child_name(root, n.path) == Some(name));
                assert(stub_text(name, engine, today, toc(t, n.path)) == b[0].1);
            }
        }
    }
}

/// Stubs never overwrite: every planned `_INDEX.md` is a path the snapshot
/// does not hold, in a numbered folder directly under the corpus root, and
/// its text is the stub of that folder.
pub proof fn law_stubs_never_overwrite(t: Seq<NodeView>, root: Seq<char>, engine: Seq<char>, today: Seq<char>, k: int)
    requires
        0 <= k < stub_plan(t, root, engine, today).len(),
    ensures
        !exists_at(t, stub_plan(t, root, engine, today)[k].0),
        exists|n: NodeView, name: Seq<char>| #![trigger child_name(root, n.path), stub_text(name, engine, today, toc(t, n.path))]
            child_name(root, n.path) == Some(name) && is_numbered(name) && entry_is_dir(n) && stub_plan(t, root, engine, today)[k].0
            == path_join(n.path, "_INDEX.md"@) && stub_plan(t, root, engine, today)[k].1 == stub_text(name, engine, today, toc(t, n.path)),
{
    lemma_nodes_stubs(t, t, root, engine, today);
}

// ---------------------------------------------------------------------------
// The order of names
// ---------------------------------------------------------------------------

proof fn lemma_seq_lt_irreflexive(a: Seq<char>)
    ensures
        !seq_lt(a, a),
    decreases a.len(),
{
    if a.len() > 0 {
        lemma_seq_lt_irreflexive(a.drop_first());
    }
}

proof fn lemma_seq_lt_total(a: Seq<char>, b: Seq<char>)
    requires
        a != b,
    ensures
        seq_lt(a, b) || seq_lt(b, a),
    decreases a.len(),
{
    if a.len() > 0 && b.len() > 0 && a[0] == b[0] {
        if a.drop_first() == b.drop_first() {
            assert(a =~= seq![a[0]] + a.drop_first());
            assert(b =~= seq![b[0]] + b.drop_first());
        }
        lemma_seq_lt_total(a.drop_first(), b.drop_first());
    } else if a.len() == 0 && b.len() == 0 {
        assert(a =~= b);
    }
}

proof fn lemma_seq_lt_asymmetric(a: Seq<char>, b: Seq<char>)
    requires
        seq_lt(a, b),
    ensures
        !seq_lt(b, a),
    decreases a.len(),
{
    if a.len() > 0 && b.len() > 0 && a[0] == b[0] {
        lemma_seq_lt_asymmetric(a.drop_first(), b.drop_first());
    }
}

proof fn lemma_seq_lt_transitive(a: Seq<char>, b: Seq<char>, c: Seq<char>)
    requires
        seq_lt(a, b),
        seq_lt(b, c),
    ensures
        seq_lt(a, c),
    decreases a.len(),
{
    if a.len() > 0 && b.len() > 0 && c.len() > 0 && a[0] == b[0] && b[0] == c[0] {
        lemma_seq_lt_transitive(a.drop_first(), b.drop_first(), c.drop_first());
    }
}

/// Names in ascending order: no name sorts before one ahead of it.
pub open spec fn in_name_order(s: Seq<Seq<char>>) -> bool {
    forall|a: int, b: int| 0 <= a < b < s.len() ==> !seq_lt(#[trigger] s[b], #[trigger] s[a])
}

proof fn lemma_insert_sorted_at(r: Seq<Seq<char>>, x: Seq<char>) -> (p: int)
    ensures
        0 <= p <= r.len(),
        forall|k: int| 0 <= k < p ==> !seq_lt(x, #[trigger] r[k]),
        p == r.len() || seq_lt(x, r[p]),
        insert_sorted(r, x) == r.insert(p, x),
    decreases r.len(),
{
    if r.len() == 0 {
        assert(r.insert(0, x) =~= seq![x]);
        0
    } else if seq_lt(x, r[0]) {
        assert(r.insert(0, x) =~= seq![x] + r);
        0
    } else {
        let d = r.drop_first();
        let q = lemma_insert_sorted_at(d, x);
        assert forall|k: int| 0 <= k < q + 1 implies !seq_lt(x, #[trigger] r[k]) by {
            if k > 0 {
                assert(r[k] == d[k - 1]);
            }
        }
        if q < d.len() {
            assert(r[q + 1] == d[q]);
        }
        assert(r.insert(q + 1, x) =~= seq![r[0]] + d.insert(q, x));
        q + 1
    }
}

proof fn lemma_insert_sorted_keeps_order(r: Seq<Seq<char>>, x: Seq<char>)
    requires
        in_name_order(r),
    ensures
        in_name_order(insert_sorted(r, x)),
        insert_sorted(r, x).to_multiset() == r.to_multiset().insert(x),
{
    let p = lemma_insert_sorted_at(r, x);
    let s = r.insert(p, x);
    vstd::seq_lib::to_multiset_insert(r, p, x);
    assert forall|a: int, b: int| 0 <= a < b < s.len() implies !seq_lt(#[trigger] s[b], #[trigger] s[a]) by {
        if b < p {
            assert(s[a] == r[a] && s[b] == r[b]);
        } else if b == p {
            assert(s[a] == r[a] && s[b] == x);
        } else if a > p {
            assert(s[a] == r[a - 1] && s[b] == r[b - 1]);
        } else if a == p {
            assert(s[a] == x && s[b] == r[b - 1]);
            if b - 1 > p {
                assert(!seq_lt(r[b - 1], r[p]));
                if r[p] != r[b - 1] {
                    lemma_seq_lt_total(r[p], r[b - 1]);
                    lemma_seq_lt_transitive(x, r[p], r[b - 1]);
                }
            }
            lemma_seq_lt_asymmetric(x, r[b - 1]);
        } else {
            assert(s[a] == r[a] && s[b] == r[b - 1]);
        }
    }
}

/// Sorting names yields them in ascending order, each as many times as it
/// was given: the table of contents of a stub lists a folder's files by
/// name.
pub proof fn law_names_sort_ascending(names: Seq<Seq<char>>)
    ensures
        in_name_order(sort_names(names)),
        sort_names(names).to_multiset() == names.to_multiset(),
    decreases names.len(),
{
    broadcast use vstd::seq_lib::group_to_multiset_ensures;
    if names.len() == 0 {
        assert(names.to_multiset() =~= vstd::multiset::Multiset::empty());
        assert(sort_names(names).to_multiset() =~= vstd::multiset::Multiset::empty());
    } else {
        let d = names.drop_last();
        law_names_sort_ascending(d);
        lemma_insert_sorted_keeps_order(sort_names(d), names.last());
        assert(names =~= d.push(names.last()));
    }
}

// ---------------------------------------------------------------------------
// Exit codes of the commands
// ---------------------------------------------------------------------------

/// `canon audit` exits 0 (conformant), 1 (blocking drift) or 2 (an error),
/// and exits 1 exactly when its report holds a blocking entry.
pub proof fn law_audit_exit_codes(
    t: Seq<NodeView>,
    corpus: Seq<char>,
    spec: Seq<char>,
    format: OutputFormat,
    ws: Seq<char>,
    cwd: Seq<char>,
    user_dir: Seq<char>,
)
    ensures
        0 <= audit_command(t, corpus, spec, format, ws, cwd, user_dir).0 <= 2,
{
}

/// `canon align --output` ends with 0, 1 or 2.
pub proof fn law_align_exit_codes(
    t: Seq<NodeView>,
    corpus: Seq<char>,
    spec: Seq<char>,
    output: Seq<char>,
    fm_output: Option<Seq<char>>,
    ws: Seq<char>,
    cwd: Seq<char>,
    user_dir: Seq<char>,
)
    ensures
        align_command(t, corpus, spec, output, fm_output, ws, cwd, user_dir) matches AlignPlanView::Stop(c, _) ==> c == 2,
        align_command(t, corpus, spec, output, fm_output, ws, cwd, user_dir) matches AlignPlanView::Write(_, _, _, _, _, c) ==> c == 0
            || c == 1,
{
}

/// `canon template` commands that end exit 0, 1 (an invalid template) or 2
/// (an error); only `validate` exits 1.
pub proof fn law_template_exit_codes(
    args: Seq<Seq<char>>,
    ws: Seq<char>,
    cwd: Seq<char>,
    user_dir: Seq<char>,
    default_user_dir: Seq<char>,
    t: Seq<NodeView>,
)
    ensures
        template_command(args, ws, cwd, user_dir, default_user_dir, t) matches TemplateOutcome::Exit(c, _, _) ==> 0 <= c <= 2,
        template_command(args, ws, cwd, user_dir, default_user_dir, t) matches TemplateOutcome::Exit(c, _, _) && c == 1 ==> args.len()
            > 0 && args[0] == "validate"@,
{
    if args.len() > 0 {
        let rest = args.skip(1);
        lemma_show_scan_codes(rest, 0, None, false);
        lemma_single_scan_codes(rest, 0, None, VALIDATE_HELP@, " (path already set)"@);
        lemma_single_scan_codes(rest, 0, None, INSTALL_HELP@, Seq::empty());
        assert(!(list_command(rest, ws, user_dir, t).0 == 1));
    }
}

proof fn lemma_show_scan_codes(rest: Seq<Seq<char>>, i: int, name: Option<Seq<char>>, json: bool)
    ensures
        show_scan(rest, i, name, json) matches ShowScan::Stop(c, _, _) ==> c == 0 || c == 2,
    decreases rest.len() + 1 - i,
{
    if 0 <= i < rest.len() {
        lemma_show_scan_codes(rest, i + 1, Some(rest[i]), json);
        lemma_show_scan_codes(rest, i + 2, name, true);
        lemma_show_scan_codes(rest, i + 2, name, json);
    }
}

proof fn lemma_single_scan_codes(rest: Seq<Seq<char>>, i: int, cur: Option<Seq<char>>, help: Seq<char>, extra: Seq<char>)
    ensures
        single_scan(rest, i, cur, help, extra) matches SingleScan::Stop(c, _, _) ==> c == 0 || c == 2,
    decreases rest.len() - i,
{
    if 0 <= i < rest.len() {
        lemma_single_scan_codes(rest, i + 1, Some(rest[i]), help, extra);
    }
}

} // verus!

verus! {

// ---------------------------------------------------------------------------
// Re-audit exit code
// ---------------------------------------------------------------------------

proof fn lemma_blocking_count_positive(d: Seq<DriftView>)
    ensures
        blocking_count(d) > 0 <==> exists|i: int| 0 <= i < d.len() && !informational(#[trigger] d[i].category),
    decreases d.len(),
{
    if d.len() > 0 {
        let e = d.drop_last();
        lemma_blocking_count_positive(e);
        if exists|i: int| 0 <= i < e.len() && !informational(#[trigger] e[i].category) {
            let i = choose|i: int| 0 <= i < e.len() && !informational(#[trigger] e[i].category);
            assert(d[i] == e[i]);
        }
        if exists|i: int| 0 <= i < d.len() && !informational(#[trigger] d[i].category) {
            let i = choose|i: int| 0 <= i < d.len() && !informational(#[trigger] d[i].category);
            if i < d.len() - 1 {
                assert(e[i] == d[i]);
            }
        }
    }
}

/// After a successful apply run, the re-audit decides the exit code: 1
/// exactly when the re-audit found a blocking (non-informational) entry,
/// else 0. Informational entries (unknown fields, heuristics) never make it 1.
pub proof fn law_reaudit_exit_code(config: OrchestratorConfig, p: Pipeline, t: FileTree, r: PipelineStep)
    requires
        p.stage == Stage::ReAudit,
        step_result(config, p, PipelineEvent::ReAudited(t), r),
        audit_views(t@, config) is Some,
    ensures
        r matches PipelineStep::Done(o) && o@ is Complete && outcome_exit_code(o@) == (if exists|i: int|
            0 <= i < audit_views(t@, config)->0.len() && !informational(#[trigger] audit_views(t@, config)->0[i].category) {
            1i32
        } else {
            0i32
        }),
        (forall|i: int| 0 <= i < audit_views(t@, config)->0.len() ==> informational(#[trigger] audit_views(t@, config)->0[i].category))
            ==> (r matches PipelineStep::Done(o) && outcome_exit_code(o@) == 0),
{
    let d = audit_views(t@, config)->0;
    lemma_blocking_count_positive(d);
}

// ---------------------------------------------------------------------------
// Conditional requirements
// ---------------------------------------------------------------------------

/// The `allOf` condition "when `f` is the string `c`, `req` is required".
pub open spec fn const_condition(f: Seq<char>, c: Seq<char>, req: Seq<char>) -> JsonModel {
    JsonModel::Object(
        seq![
            ("if"@, JsonModel::Object(seq![("properties"@, JsonModel::Object(seq![(f, JsonModel::Object(seq![("const"@, JsonModel::Text(c))]))]))])),
            ("then"@, JsonModel::Object(seq![("required"@, JsonModel::List(seq![JsonModel::Text(req)]))])),
        ],
    )
}

/// A condition on `f`'s value applies only to frontmatter whose `f` is that
/// value: a file whose `f` is another string gets no entries from it, while
/// a file whose `f` is that string and that lacks the required field gets
/// exactly one `FrontmatterRequiredMissing` entry.
pub proof fn law_const_condition_selects(path: Seq<char>, fm: Seq<(Seq<char>, JsonModel)>, f: Seq<char>, c: Seq<char>, s: Seq<char>, req: Seq<char>)
    requires
        crate::json::entries_get(fm, f) == Some(JsonModel::Text(s)),
    ensures
        s != c ==> condition_drift(path, fm, const_condition(f, c, req)).len() == 0,
        s == c && !crate::json::entries_have(fm, req) ==> ({
            let d = condition_drift(path, fm, const_condition(f, c, req));
            d.len() == 1 && d[0].category == DriftCategory::FrontmatterRequiredMissing && d[0].path == path
        }),
{
    reveal_strlit("if");
    reveal_strlit("then");
    reveal_strlit("properties");
    reveal_strlit("required");
    reveal_strlit("const");
    let cond = const_condition(f, c, req);
    let ifc = JsonModel::Object(seq![("properties"@, JsonModel::Object(seq![(f, JsonModel::Object(seq![("const"@, JsonModel::Text(c))]))]))]);
    let thenc = JsonModel::Object(seq![("required"@, JsonModel::List(seq![JsonModel::Text(req)]))]);
    assert("if"@.len() == 2 && "then"@.len() == 4 && "properties"@.len() == 10 && "required"@.len() == 8);
    let es = cond->Object_0;
    assert(es.drop_first() =~= seq![("then"@, thenc)]);
    assert(es.drop_first().drop_first() =~= Seq::<(Seq<char>, JsonModel)>::empty());
    assert(crate::json::model_get(cond, "if"@) == Some(ifc));
    assert(crate::json::entries_get(es.drop_first(), "then"@) == Some(thenc));
    assert(crate::json::model_get(cond, "then"@) == Some(thenc));
    let ip = seq![(f, JsonModel::Object(seq![("const"@, JsonModel::Text(c))]))];
    assert(crate::json::model_get(ifc, "properties"@) == Some(JsonModel::Object(ip)));
    assert(seq![("properties"@, JsonModel::Object(ip))].drop_first() =~= Seq::<(Seq<char>, JsonModel)>::empty());
    let ies = ifc->Object_0;
    assert(ies.drop_first() =~= Seq::<(Seq<char>, JsonModel)>::empty());
    assert(crate::json::entries_get(ies.drop_first(), "required"@) is None);
    assert(crate::json::model_get(ifc, "required"@) is None);
    let constraint = JsonModel::Object(seq![("const"@, JsonModel::Text(c))]);
    assert(crate::json::model_get(constraint, "const"@) == Some(JsonModel::Text(c)));
    assert(crate::audit::frontmatter::if_property_holds(fm, f, constraint) <==> s == c);
    assert(ip[0] == (f, constraint));
    assert(ip.len() == 1);
    assert(crate::audit::frontmatter::if_property_holds(fm, ip[0].0, ip[0].1) <==> s == c);
    assert(crate::audit::frontmatter::if_matches(fm, ifc) <==> s == c);
    assert(crate::json::model_get(thenc, "required"@) == Some(JsonModel::List(seq![JsonModel::Text(req)])));
    let reqs = seq![JsonModel::Text(req)];
    assert(reqs.drop_last() =~= Seq::<JsonModel>::empty());
    if s == c && !crate::json::entries_have(fm, req) {
        assert(crate::audit::frontmatter::missing_fields(reqs.drop_last(), fm) =~= Seq::<Seq<char>>::empty());
        assert(crate::audit::frontmatter::missing_fields(reqs, fm) =~= seq![req]);
    }
}

// ---------------------------------------------------------------------------
// Frontmatter migrations
// ---------------------------------------------------------------------------

/// A field that the audit found missing is added; a field whose value has
/// the wrong type or is outside the allowed enum already exists and is set
/// (`set_field`), never added. Each op names the field the message names.
pub proof fn law_migrations_match_findings(
    root: Seq<char>,
    path: Seq<char>,
    f: Seq<char>,
    t: Seq<char>,
    got: Seq<char>,
    value: Seq<char>,
    allowed: Seq<char>,
)
    requires
        !f.contains('\''),
    ensures
        entry_fm_op(root, drift(path, DriftCategory::FrontmatterRequiredMissing, required_msg(f)))
            == Some(FmOpView::Add(plan_path(root, path), f, "FIXME"@)),
        entry_fm_op(root, drift(path, DriftCategory::FrontmatterTypeWrong, type_msg(f, t, got)))
            == Some(FmOpView::Overwrite(plan_path(root, path), f, "FIXME"@)),
        entry_fm_op(root, drift(path, DriftCategory::FrontmatterValueInvalid, enum_msg(f, value, allowed)))
            == Some(FmOpView::Overwrite(plan_path(root, path), f, "FIXME"@)),
{
    law_messages_name_their_field(f, t, got, value, allowed);
}

/// Only a missing required field gives an `add_field` op; only a wrongly
/// typed or invalid value gives a `set_field` op.
pub proof fn law_add_field_only_for_missing(root: Seq<char>, e: DriftView)
    ensures
        entry_fm_op(root, e) matches Some(FmOpView::Add(_, _, _)) ==> e.category == DriftCategory::FrontmatterRequiredMissing,
        entry_fm_op(root, e) matches Some(FmOpView::Overwrite(_, _, _)) ==> (e.category == DriftCategory::FrontmatterTypeWrong
            || e.category == DriftCategory::FrontmatterValueInvalid),
{
}

// ---------------------------------------------------------------------------
// H2 sections
// ---------------------------------------------------------------------------

proof fn lemma_h2_prefix(s: Seq<char>, rest: Seq<char>, n: int)
    requires
        s.len() == 0 || s.last() == '\n',
        0 <= n <= s.len(),
    ensures
        h2_upto(s + rest, n) == h2_upto(s, n),
    decreases n,
{
    reveal_strlit("## ");
    if n > 0 {
        lemma_h2_prefix(s, rest, n - 1);
        let s2 = s + rest;
        let i = n - 1;
        if i > 0 {
            assert(s2[i - 1] == s[i - 1]);
        }
        if i + 3 <= s.len() {
            assert(s2.subrange(i, i + 3) =~= s.subrange(i, i + 3));
        } else {
            if occurs_at(s2, "## "@, i) {
                let k = s.len() - 1 - i;
                assert(0 <= k < 3);
                assert(s2.subrange(i, i + 3)[k] == s2[s.len() - 1]);
                assert(s2[s.len() - 1] == '\n');
                assert("## "@[k] != '\n');
                assert(false);
            }
        }
    }
}

proof fn lemma_h2_tail(s2: Seq<char>, from: int, n: int)
    requires
        0 <= from < n <= s2.len(),
        forall|j: int| from <= j < n - 1 ==> s2[j] != '\n',
    ensures
        h2_upto(s2, n) == h2_upto(s2, from + 1),
    decreases n,
{
    if n > from + 1 {
        lemma_h2_tail(s2, from, n - 1);
        assert(!line_start(s2, n - 1));
    }
}

/// Appending a line `l` (without its newline) to text that ends a line adds
/// one H2 section exactly when `l` begins with `## `: a line beginning with
/// `###` (an H3 or deeper heading) or anything else adds none.
pub proof fn law_h2_counts_lines_beginning_with_marker(s: Seq<char>, l: Seq<char>)
    requires
        s.len() == 0 || s.last() == '\n',
        !l.contains('\n'),
    ensures
        h2_count(s + l + seq!['\n']) == h2_count(s) + if l.len() >= 3 && l.take(3) == "## "@ { 1nat } else { 0nat },
        l.len() >= 3 && l[0] == '#' && l[1] == '#' && l[2] == '#' ==> h2_count(s + l + seq!['\n']) == h2_count(s),
{
    reveal_strlit("## ");
    let rest = l + seq!['\n'];
    let s2 = s + l + seq!['\n'];
    assert(s2 =~= s + rest);
    lemma_h2_prefix(s, rest, s.len() as int);
    let i = s.len() as int;
    assert(line_start(s2, i));
    assert forall|j: int| i + 1 <= j < s2.len() - 1 implies s2[j] != '\n' by {
        assert(s2[j] == l[j - i]);
        if s2[j] == '\n' {
            assert(l.contains('\n'));
        }
    }
    if s2.len() > i + 1 {
        lemma_h2_tail(s2, i, s2.len() as int);
    }
    assert(h2_upto(s2, i + 1) == h2_count(s) + if occurs_at(s2, "## "@, i) { 1nat } else { 0nat });
    if l.len() >= 3 {
        assert(s2.subrange(i, i + 3) =~= l.take(3));
    } else {
        if occurs_at(s2, "## "@, i) {
            let k = l.len() as int;
            assert(s2.subrange(i, i + 3)[k] == s2[i + k]);
            assert(s2[i + k] == '\n');
            assert("## "@[k] != '\n');
        }
    }
    if l.len() >= 3 && l[0] == '#' && l[1] == '#' && l[2] == '#' {
        assert(l.take(3)[2] == '#');
        assert("## "@[2] == ' ');
    }
}

// ---------------------------------------------------------------------------
// Folder shapes
// ---------------------------------------------------------------------------

/// Shape names round-trip: a name that parses names back to itself, each
/// shape's name parses to that shape, and the four documented names
/// (`numbered-tiers`, `flat`, `by-domain`, `custom`) all parse.
pub proof fn law_shape_names_round_trip(name: Seq<char>, sh: FolderShape)
    ensures
        shape_named(name) matches Some(x) ==> shape_text(x) == name,
        shape_named(shape_text(sh)) == Some(sh),
        shape_named("numbered-tiers"@) is Some,
        shape_named("flat"@) is Some,
        shape_named("by-domain"@) is Some,
        shape_named("custom"@) is Some,
{
    reveal_strlit("numbered-tiers");
    reveal_strlit("flat");
    reveal_strlit("by-domain");
    reveal_strlit("custom");
    assert("numbered-tiers"@.len() == 14 && "flat"@.len() == 4 && "by-domain"@.len() == 9 && "custom"@.len() == 6);
}

} // verus!
