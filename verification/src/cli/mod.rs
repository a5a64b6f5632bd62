//! Command-line parsing and the subcommands' logic.
//!
//! Exit codes: 0 = success or conformant, 1 = drift found, 2 = error.

pub mod audit;
pub mod align;
pub mod align_apply;
pub mod template;

use vstd::prelude::*;
use vstd::string::StringExecFns;
use crate::cli::audit::{OutputFormat, format_named, parse_format};
use crate::template::texts;
use crate::text::{starts_with, str_eq};

verus! {

/// The help text of `canon audit`.
pub const AUDIT_HELP: &'static str = "USAGE:\n  canon audit <corpus-path> --template <name|path> [--format table|json|markdown]\n\nARGS:\n  <corpus-path>   Directory to audit\n\nOPTIONS:\n  --template, -t  Template name or explicit path (required)\n  --format, -f    Output format: table (default), json, markdown\n\nEXIT CODES:\n  0  No drift (conformant)\n  1  Drift found\n  2  Error";

/// The help text of `canon` itself, printed for `--help`, `-h` or no
/// subcommand at all.
pub const ROOT_HELP: &'static str = "canon — structure-template audit and alignment\n\nUSAGE:\n  canon <subcommand> [options]\n\nSUBCOMMANDS:\n  audit      Report drift of a corpus against a structure template\n  align      Plan the alignment of a corpus (--apply to execute it)\n  template   List, show, validate and install structure templates\n\nOPTIONS:\n  -h, --help       Print this help\n  -V, --version    Print the version\n\nRun 'canon <subcommand> --help' for the options of a subcommand.";

/// The version line printed for `--version` or `-V`.
pub const VERSION_LINE: &'static str = "canon 0.2.0";

/// A parsed command line that needs the filesystem to run.
#[derive(Debug)]
pub enum Command {
    Audit { corpus: String, template: String, format: OutputFormat },
    AlignPlan { corpus: String, template: String, output: String, fm_output: Option<String> },
    AlignApply { corpus: String, template: String, apply: bool, gap_report_dir: Option<String> },
    Template { args: Vec<String> },
}

/// A command as plain values.
pub enum CommandView {
    Audit(Seq<char>, Seq<char>, OutputFormat),
    AlignPlan(Seq<char>, Seq<char>, Seq<char>, Option<Seq<char>>),
    AlignApply(Seq<char>, Seq<char>, bool, Option<Seq<char>>),
    Template(Seq<Seq<char>>),
}

pub open spec fn opt_view(o: Option<String>) -> Option<Seq<char>> {
    match o {
        Some(s) => Some(s@),
        None => None,
    }
}

impl View for Command {
    type V = CommandView;

    open spec fn view(&self) -> CommandView {
        match self {
            Command::Audit { corpus, template, format } => CommandView::Audit(corpus@, template@, *format),
            Command::AlignPlan { corpus, template, output, fm_output } => CommandView::AlignPlan(
                corpus@,
                template@,
                output@,
                opt_view(*fm_output),
            ),
            Command::AlignApply { corpus, template, apply, gap_report_dir } => CommandView::AlignApply(
                corpus@,
                template@,
                *apply,
                opt_view(*gap_report_dir),
            ),
            Command::Template { args } => CommandView::Template(texts(args@)),
        }
    }
}

/// What parsing a command line gives: a command to run, or an exit code with
/// the text written to standard output and to standard error.
pub enum Parsed {
    Run(CommandView),
    Stop(i32, Seq<char>, Seq<char>),
}

/// Whether an argument is a flag (starts with `-`).
pub open spec fn is_flag(a: Seq<char>) -> bool {
    starts_with(a, "-"@)
}

pub open spec fn line(s: Seq<char>) -> Seq<char> {
    s + "\n"@
}

pub open spec fn needs_value_msg(flag: Seq<char>) -> Seq<char> {
    line("error: "@ + flag + " requires a value"@)
}

pub open spec fn unknown_flag_msg(a: Seq<char>) -> Seq<char> {
    line("error: unknown flag '"@ + a + "'"@)
}

pub open spec fn extra_positional_msg(a: Seq<char>) -> Seq<char> {
    line("error: unexpected positional argument '"@ + a + "' (corpus-path already set)"@)
}

pub open spec fn unknown_format_msg(v: Seq<char>) -> Seq<char> {
    line("error: "@ + ("unknown format '"@ + v + "'; valid values: table, json, markdown"@))
}

/// The state of `canon audit` argument scanning.
pub struct AuditScan {
    pub corpus: Option<Seq<char>>,
    pub template: Option<Seq<char>>,
    pub format: OutputFormat,
}

/// `canon audit` arguments from index `i` on.
pub open spec fn audit_scan(args: Seq<Seq<char>>, i: int, st: AuditScan) -> Parsed
    decreases args.len() - i,
{
    if i < 0 || i >= args.len() {
        match (st.corpus, st.template) {
            (None, _) => Parsed::Stop(2, Seq::empty(), line("error: <corpus-path> is required"@) + line(AUDIT_HELP@)),
            (Some(_), None) => Parsed::Stop(2, Seq::empty(), line("error: --template is required"@) + line(AUDIT_HELP@)),
            (Some(c), Some(t)) => Parsed::Run(CommandView::Audit(c, t, st.format)),
        }
    } else {
        let a = args[i];
        if a == "--template"@ || a == "-t"@ {
            if i + 1 >= args.len() {
                Parsed::Stop(2, Seq::empty(), needs_value_msg("--template"@))
            } else {
                audit_scan(args, i + 2, AuditScan { template: Some(args[i + 1]), ..st })
            }
        } else if a == "--format"@ || a == "-f"@ {
            if i + 1 >= args.len() {
                Parsed::Stop(2, Seq::empty(), needs_value_msg("--format"@))
            } else {
                match format_named(args[i + 1]) {
                    Some(f) => audit_scan(args, i + 2, AuditScan { format: f, ..st }),
                    None => Parsed::Stop(2, Seq::empty(), unknown_format_msg(args[i + 1])),
                }
            }
        } else if a == "--help"@ || a == "-h"@ {
            Parsed::Stop(0, line(AUDIT_HELP@), Seq::empty())
        } else if !is_flag(a) {
            if st.corpus is Some {
                Parsed::Stop(2, Seq::empty(), extra_positional_msg(a))
            } else {
                audit_scan(args, i + 1, AuditScan { corpus: Some(a), ..st })
            }
        } else {
            Parsed::Stop(2, Seq::empty(), unknown_flag_msg(a))
        }
    }
}

/// The state of `canon align` argument scanning.
pub struct AlignScan {
    pub corpus: Option<Seq<char>>,
    pub template: Option<Seq<char>>,
    pub output: Option<Seq<char>>,
    pub fm_output: Option<Seq<char>>,
    pub apply: bool,
    pub gap_report_dir: Option<Seq<char>>,
}

/// `canon align` arguments from index `i` on. `--apply`, or no `--output`,
/// routes to the pipeline; `--output` alone to plan emission.
pub open spec fn align_scan(args: Seq<Seq<char>>, i: int, st: AlignScan) -> Parsed
    decreases args.len() - i,
{
    if i < 0 || i >= args.len() {
        match (st.corpus, st.template) {
            (None, _) => Parsed::Stop(
                2,
                Seq::empty(),
                line("error: <corpus-path> is required"@) + line(crate::cli::align_apply::ALIGN_APPLY_HELP@),
            ),
            (Some(_), None) => Parsed::Stop(
                2,
                Seq::empty(),
                line("error: --template is required"@) + line(crate::cli::align_apply::ALIGN_APPLY_HELP@),
            ),
            (Some(c), Some(t)) => if st.apply || st.output is None {
                Parsed::Run(CommandView::AlignApply(c, t, st.apply, st.gap_report_dir))
            } else {
                Parsed::Run(CommandView::AlignPlan(c, t, st.output->0, st.fm_output))
            },
        }
    } else {
        let a = args[i];
        if a == "--template"@ || a == "-t"@ {
            if i + 1 >= args.len() {
                Parsed::Stop(2, Seq::empty(), needs_value_msg("--template"@))
            } else {
                align_scan(args, i + 2, AlignScan { template: Some(args[i + 1]), ..st })
            }
        } else if a == "--output"@ || a == "-o"@ {
            if i + 1 >= args.len() {
                Parsed::Stop(2, Seq::empty(), needs_value_msg("--output"@))
            } else {
                align_scan(args, i + 2, AlignScan { output: Some(args[i + 1]), ..st })
            }
        } else if a == "--frontmatter-output"@ {
            if i + 1 >= args.len() {
                Parsed::Stop(2, Seq::empty(), needs_value_msg("--frontmatter-output"@))
            } else {
                align_scan(args, i + 2, AlignScan { fm_output: Some(args[i + 1]), ..st })
            }
        } else if a == "--apply"@ {
            align_scan(args, i + 1, AlignScan { apply: true, ..st })
        } else if a == "--gap-report-dir"@ {
            if i + 1 >= args.len() {
                Parsed::Stop(2, Seq::empty(), needs_value_msg("--gap-report-dir"@))
            } else {
                align_scan(args, i + 2, AlignScan { gap_report_dir: Some(args[i + 1]), ..st })
            }
        } else if a == "--help"@ || a == "-h"@ {
            if st.apply || st.output is None {
                Parsed::Stop(0, line(crate::cli::align_apply::ALIGN_APPLY_HELP@), Seq::empty())
            } else {
                Parsed::Stop(0, line(crate::cli::align::ALIGN_HELP@), Seq::empty())
            }
        } else if !is_flag(a) {
            if st.corpus is Some {
                Parsed::Stop(2, Seq::empty(), extra_positional_msg(a))
            } else {
                align_scan(args, i + 1, AlignScan { corpus: Some(a), ..st })
            }
        } else {
            Parsed::Stop(2, Seq::empty(), unknown_flag_msg(a))
        }
    }
}

pub open spec fn unknown_subcommand_msg(s: Seq<char>) -> Seq<char> {
    line(
        "canon: unknown subcommand '"@ + s
            + "'. Try 'canon audit --help', 'canon align --help', or 'canon template --help'."@,
    )
}

/// A whole command line: the subcommand, then its arguments. No subcommand,
/// `--help` or `-h` prints the help of `canon`; `--version` or `-V` prints
/// the version; both exit 0.
pub open spec fn command_line(args: Seq<Seq<char>>) -> Parsed {
    if args.len() == 0 || args[0] == "--help"@ || args[0] == "-h"@ {
        Parsed::Stop(0, line(ROOT_HELP@), Seq::empty())
    } else if args[0] == "--version"@ || args[0] == "-V"@ {
        Parsed::Stop(0, line(VERSION_LINE@), Seq::empty())
    } else if args[0] == "audit"@ {
        audit_scan(args, 1, AuditScan { corpus: None, template: None, format: OutputFormat::Table })
    } else if args[0] == "align"@ {
        align_scan(args, 1, AlignScan { corpus: None, template: None, output: None, fm_output: None, apply: false, gap_report_dir: None })
    } else if args[0] == "template"@ {
        Parsed::Run(CommandView::Template(args.skip(1)))
    } else {
        Parsed::Stop(2, Seq::empty(), unknown_subcommand_msg(args[0]))
    }
}

/// Whether a parse result agrees with `p`, the texts having been appended to
/// `out` and `err`.
pub open spec fn parsed_as(
    r: Result<Command, i32>,
    p: Parsed,
    out0: Seq<char>,
    err0: Seq<char>,
    out1: Seq<char>,
    err1: Seq<char>,
) -> bool {
    match p {
        Parsed::Run(c) => r matches Ok(cmd) && cmd@ == c && out1 == out0 && err1 == err0,
        Parsed::Stop(code, o, e) => r == Err::<Command, i32>(code) && out1 =~= out0 + o && err1 =~= err0 + e,
    }
}

fn push_line(s: &mut String, t: &str)
    ensures
        final(s)@ == old(s)@ + line(t@),
{
    s.append(t);
    s.append("\n");
}

fn needs_value(err: &mut String, flag: &str)
    ensures
        final(err)@ == old(err)@ + needs_value_msg(flag@),
{
    err.append("error: ");
    err.append(flag);
    err.append(" requires a value");
    err.append("\n");
}

fn unknown_flag(err: &mut String, a: &str)
    ensures
        final(err)@ == old(err)@ + unknown_flag_msg(a@),
{
    err.append("error: unknown flag '");
    err.append(a);
    err.append("'");
    err.append("\n");
}

fn extra_positional(err: &mut String, a: &str)
    ensures
        final(err)@ == old(err)@ + extra_positional_msg(a@),
{
    err.append("error: unexpected positional argument '");
    err.append(a);
    err.append("' (corpus-path already set)");
    err.append("\n");
}

pub(crate) fn is_flag_exec(a: &str) -> (r: bool)
    ensures
        r == is_flag(a@),
{
    let c = crate::text::to_chars(a);
    let dash = crate::text::to_chars("-");
    crate::text::starts_with_chars(c.as_slice(), dash.as_slice())
}

/// Writes the help of `canon audit`.
pub fn print_audit_help(out: &mut String)
    ensures
        final(out)@ == old(out)@ + line(AUDIT_HELP@),
{
    push_line(out, AUDIT_HELP);
}

/// Parses the arguments of `canon audit` (`args[start..]`).
#[verifier::spinoff_prover]
#[verifier::rlimit(40)]
fn parse_audit(args: &[String], start: usize, out: &mut String, err: &mut String) -> (r: Result<Command, i32>)
    requires
        start <= args@.len(),
    ensures
        parsed_as(
            r,
            audit_scan(texts(args@), start as int, AuditScan { corpus: None, template: None, format: OutputFormat::Table }),
            old(out)@,
            old(err)@,
            final(out)@,
            final(err)@,
        ),
{
    let ghost av = texts(args@);
    let ghost goal = audit_scan(av, start as int, AuditScan { corpus: None, template: None, format: OutputFormat::Table });
    let mut corpus: Option<String> = None;
    let mut template: Option<String> = None;
    let mut format = OutputFormat::Table;
    let mut i = start;
    while i < args.len()
        invariant
            av == texts(args@),
            i <= args@.len(),
            goal == audit_scan(av, start as int, AuditScan { corpus: None, template: None, format: OutputFormat::Table }),
            goal == audit_scan(av, i as int, AuditScan { corpus: opt_view(corpus), template: opt_view(template), format }),
            out@ == old(out)@,
            err@ == old(err)@,
        decreases args.len() - i,
    {
        let a = args[i].as_str();
        proof {
            assert(av[i as int] == a@);
            reveal_strlit("--template");
            reveal_strlit("-t");
            reveal_strlit("--format");
            reveal_strlit("-f");
            reveal_strlit("--help");
            reveal_strlit("-h");
        }
        if str_eq(a, "--template") || str_eq(a, "-t") {
            if i + 1 >= args.len() {
                needs_value(err, "--template");
                return Err(2);
            }
            proof {
                assert(av[i + 1] == args@[i + 1]@);
            }
            template = Some(args[i + 1].clone());
            i = i + 2;
        } else if str_eq(a, "--format") || str_eq(a, "-f") {
            if i + 1 >= args.len() {
                needs_value(err, "--format");
                return Err(2);
            }
            proof {
                assert(av[i + 1] == args@[i + 1]@);
            }
            match parse_format(args[i + 1].as_str()) {
                Ok(f) => {
                    format = f;
                },
                Err(e) => {
                    err.append("error: ");
                    err.append(e.as_str());
                    err.append("\n");
                    return Err(2);
                },
            }
            i = i + 2;
        } else if str_eq(a, "--help") || str_eq(a, "-h") {
            print_audit_help(out);
            return Err(0);
        } else if !is_flag_exec(a) {
            if corpus.is_some() {
                extra_positional(err, a);
                return Err(2);
            }
            corpus = Some(args[i].clone());
            i = i + 1;
        } else {
            unknown_flag(err, a);
            return Err(2);
        }
    }
    match (corpus, template) {
        (None, _) => {
            push_line(err, "error: <corpus-path> is required");
            print_audit_help(err);
            Err(2)
        },
        (Some(_), None) => {
            push_line(err, "error: --template is required");
            print_audit_help(err);
            Err(2)
        },
        (Some(c), Some(t)) => Ok(Command::Audit { corpus: c, template: t, format }),
    }
}

/// Parses the arguments of `canon align` (`args[start..]`).
#[verifier::spinoff_prover]
#[verifier::rlimit(40)]
fn parse_align(args: &[String], start: usize, out: &mut String, err: &mut String) -> (r: Result<Command, i32>)
    requires
        start <= args@.len(),
    ensures
        parsed_as(
            r,
            align_scan(
                texts(args@),
                start as int,
                AlignScan { corpus: None, template: None, output: None, fm_output: None, apply: false, gap_report_dir: None },
            ),
            old(out)@,
            old(err)@,
            final(out)@,
            final(err)@,
        ),
{
    let ghost av = texts(args@);
    let ghost goal = align_scan(
        av,
        start as int,
        AlignScan { corpus: None, template: None, output: None, fm_output: None, apply: false, gap_report_dir: None },
    );
    let mut corpus: Option<String> = None;
    let mut template: Option<String> = None;
    let mut output: Option<String> = None;
    let mut fm_output: Option<String> = None;
    let mut apply = false;
    let mut gap_report_dir: Option<String> = None;
    let mut i = start;
    while i < args.len()
        invariant
            av == texts(args@),
            i <= args@.len(),
            goal == align_scan(
                av,
                start as int,
                AlignScan { corpus: None, template: None, output: None, fm_output: None, apply: false, gap_report_dir: None },
            ),
            goal == align_scan(
                av,
                i as int,
                AlignScan {
                    corpus: opt_view(corpus),
                    template: opt_view(template),
                    output: opt_view(output),
                    fm_output: opt_view(fm_output),
                    apply,
                    gap_report_dir: opt_view(gap_report_dir),
                },
            ),
            out@ == old(out)@,
            err@ == old(err)@,
        decreases args.len() - i,
    {
        let a = args[i].as_str();
        proof {
            assert(av[i as int] == a@);
            reveal_strlit("--template");
            reveal_strlit("-t");
            reveal_strlit("--output");
            reveal_strlit("-o");
            reveal_strlit("--frontmatter-output");
            reveal_strlit("--apply");
            reveal_strlit("--gap-report-dir");
            reveal_strlit("--help");
            reveal_strlit("-h");
        }
        if str_eq(a, "--template") || str_eq(a, "-t") {
            if i + 1 >= args.len() {
                needs_value(err, "--template");
                return Err(2);
            }
            proof {
                assert(av[i + 1] == args@[i + 1]@);
            }
            template = Some(args[i + 1].clone());
            i = i + 2;
        } else if str_eq(a, "--output") || str_eq(a, "-o") {
            if i + 1 >= args.len() {
                needs_value(err, "--output");
                return Err(2);
            }
            proof {
                assert(av[i + 1] == args@[i + 1]@);
            }
            output = Some(args[i + 1].clone());
            i = i + 2;
        } else if str_eq(a, "--frontmatter-output") {
            if i + 1 >= args.len() {
                needs_value(err, "--frontmatter-output");
                return Err(2);
            }
            proof {
                assert(av[i + 1] == args@[i + 1]@);
            }
            fm_output = Some(args[i + 1].clone());
            i = i + 2;
        } else if str_eq(a, "--apply") {
            apply = true;
            i = i + 1;
        } else if str_eq(a, "--gap-report-dir") {
            if i + 1 >= args.len() {
                needs_value(err, "--gap-report-dir");
                return Err(2);
            }
            proof {
                assert(av[i + 1] == args@[i + 1]@);
            }
            gap_report_dir = Some(args[i + 1].clone());
            i = i + 2;
        } else if str_eq(a, "--help") || str_eq(a, "-h") {
            if apply || output.is_none() {
                crate::cli::align_apply::print_help(out);
            } else {
                crate::cli::align::print_help(out);
            }
            return Err(0);
        } else if !is_flag_exec(a) {
            if corpus.is_some() {
                extra_positional(err, a);
                return Err(2);
            }
            corpus = Some(args[i].clone());
            i = i + 1;
        } else {
            unknown_flag(err, a);
            return Err(2);
        }
    }
    match (corpus, template) {
        (None, _) => {
            push_line(err, "error: <corpus-path> is required");
            crate::cli::align_apply::print_help(err);
            Err(2)
        },
        (Some(_), None) => {
            push_line(err, "error: --template is required");
            crate::cli::align_apply::print_help(err);
            Err(2)
        },
        (Some(c), Some(t)) => {
            if apply || output.is_none() {
                Ok(Command::AlignApply { corpus: c, template: t, apply, gap_report_dir })
            } else {
                match output {
                    Some(o) => Ok(Command::AlignPlan { corpus: c, template: t, output: o, fm_output }),
                    None => Ok(Command::AlignApply { corpus: c, template: t, apply, gap_report_dir }),
                }
            }
        },
    }
}

/// Parses a command line: the subcommand and its arguments. Help and usage
/// errors are written here and end with their exit code; a command that needs
/// the filesystem is returned to be run.
pub fn run_with_io(args: &[String], out: &mut String, err: &mut String) -> (r: Result<Command, i32>)
    ensures
        parsed_as(r, command_line(texts(args@)), old(out)@, old(err)@, final(out)@, final(err)@),
{
    if args.len() == 0 {
        push_line(out, ROOT_HELP);
        return Err(0);
    }
    let sub = args[0].as_str();
    proof {
        assert(texts(args@)[0] == sub@);
        reveal_strlit("audit");
        reveal_strlit("align");
        reveal_strlit("template");
        reveal_strlit("--help");
        reveal_strlit("-h");
        reveal_strlit("--version");
        reveal_strlit("-V");
    }
    if str_eq(sub, "--help") || str_eq(sub, "-h") {
        push_line(out, ROOT_HELP);
        Err(0)
    } else if str_eq(sub, "--version") || str_eq(sub, "-V") {
        push_line(out, VERSION_LINE);
        Err(0)
    } else if str_eq(sub, "audit") {
        parse_audit(args, 1, out, err)
    } else if str_eq(sub, "align") {
        parse_align(args, 1, out, err)
    } else if str_eq(sub, "template") {
        let mut rest: Vec<String> = Vec::new();
        for i in 1..args.len()
            invariant
                texts(rest@) == texts(args@).subrange(1, i as int),
        {
            let ghost before = rest@;
            rest.push(args[i].clone());
            proof {
                assert(texts(rest@) =~= texts(before).push(args@[i as int]@));
                assert(texts(args@).subrange(1, i + 1) =~= texts(args@).subrange(1, i as int).push(args@[i as int]@));
            }
        }
        proof {
            assert(texts(args@).subrange(1, args@.len() as int) =~= texts(args@).skip(1));
        }
        Ok(Command::Template { args: rest })
    } else {
        err.append("canon: unknown subcommand '");
        err.append(sub);
        err.append("'. Try 'canon audit --help', 'canon align --help', or 'canon template --help'.");
        err.append("\n");
        Err(2)
    }
}

} // verus!
