//! The anchor executor seam, and a deterministic test double.

use vstd::prelude::*;
use vstd::string::StringExecFns;
use crate::text::{decimal, u64_text};

verus! {

/// The capability check failed: anchor is missing or too old.
#[derive(Debug, Clone)]
pub struct AnchorMissingError {
    pub message: String,
}

/// anchor ran and failed.
#[derive(Debug, Clone)]
pub struct RunnerError {
    pub exit_code: i32,
    pub diagnostic: String,
}

/// Signed decimal notation.
pub open spec fn int_text(i: int) -> Seq<char> {
    if i < 0 {
        seq!['-'] + decimal((-i) as nat)
    } else {
        decimal(i as nat)
    }
}

/// Decimal notation of an `i32`.
pub fn i32_text(i: i32) -> (r: String)
    ensures
        r@ == int_text(i as int),
{
    if i < 0 {
        let mut s = String::new();
        crate::text::push_char(&mut s, '-');
        let m = (0i64 - (i as i64)) as u64;
        let d = u64_text(m);
        s.append(d.as_str());
        proof {
            assert(s@ =~= int_text(i as int));
        }
        s
    } else {
        u64_text(i as u64)
    }
}

pub open spec fn runner_error_text(e: RunnerError) -> Seq<char> {
    "anchor exited "@ + int_text(e.exit_code as int) + " — "@ + e.diagnostic@
}

impl RunnerError {
    /// The description of this error.
    pub fn message(&self) -> (r: String)
        ensures
            r@ == runner_error_text(*self),
    {
        let mut s = String::from_str("anchor exited ");
        let c = i32_text(self.exit_code);
        s.append(c.as_str());
        s.append(" — ");
        s.append(self.diagnostic.as_str());
        s
    }
}

/// The message given when `anchor frontmatter` is not available.
pub open spec fn anchor_missing_text() -> Seq<char> {
    "anchor frontmatter not found; ensure accelmars/anchor v0.6.0+ is installed (delivered by AENG-006)"@
}

/// The message given when `anchor frontmatter` is not available.
pub fn anchor_missing_message() -> (r: String)
    ensures
        r@ == anchor_missing_text(),
{
    String::from_str("anchor frontmatter not found; ensure accelmars/anchor v0.6.0+ is installed (delivered by AENG-006)")
}

/// Runs anchor: the capability gate, `anchor apply <plan>` and
/// `anchor frontmatter migrate <plan>`. What a run returns depends on the
/// world outside, so the trait promises nothing of it; an implementation may
/// state more on its own methods, and says which capability answers it may
/// give by defining `capability_outcome`.
pub trait AnchorRunner {
    /// Whether `r` is an answer this runner may give to the capability
    /// check. By default any answer may come; an implementation may say more
    /// by defining it.
    open spec fn capability_outcome(&self, r: Result<(), AnchorMissingError>) -> bool {
        true
    }

    /// Checks that `anchor frontmatter --help` succeeds.
    fn check_frontmatter_capability(&self) -> (r: Result<(), AnchorMissingError>)
        ensures
            self.capability_outcome(r),
    ;

    /// Runs `anchor apply <plan_path>`: structural moves, atomically.
    fn run_apply(&self, plan_path: &str) -> Result<(), RunnerError>;

    /// Runs `anchor frontmatter migrate <plan_path>`.
    fn run_frontmatter_migrate(&self, plan_path: &str) -> Result<(), RunnerError>;
}

/// A deterministic runner: each step succeeds or fails as configured, a
/// failure exiting 1 with the configured diagnostic.
#[derive(Debug)]
pub struct MockAnchorRunner {
    pub capability_ok: bool,
    pub apply_ok: bool,
    pub apply_diagnostic: String,
    pub fm_migrate_ok: bool,
    pub fm_migrate_diagnostic: String,
}

impl MockAnchorRunner {
    /// Every step succeeds.
    pub fn succeeds() -> (r: MockAnchorRunner)
        ensures
            r.capability_ok && r.apply_ok && r.fm_migrate_ok,
            r.apply_diagnostic@.len() == 0,
            r.fm_migrate_diagnostic@.len() == 0,
    {
        MockAnchorRunner {
            capability_ok: true,
            apply_ok: true,
            apply_diagnostic: String::new(),
            fm_migrate_ok: true,
            fm_migrate_diagnostic: String::new(),
        }
    }

    /// anchor is missing: every step fails.
    pub fn anchor_missing() -> (r: MockAnchorRunner)
        ensures
            !r.capability_ok && !r.apply_ok && !r.fm_migrate_ok,
            r.apply_diagnostic@.len() == 0,
            r.fm_migrate_diagnostic@.len() == 0,
    {
        MockAnchorRunner {
            capability_ok: false,
            apply_ok: false,
            apply_diagnostic: String::new(),
            fm_migrate_ok: false,
            fm_migrate_diagnostic: String::new(),
        }
    }

    /// `anchor apply` fails with `diagnostic`; the other steps succeed.
    pub fn apply_fails(diagnostic: &str) -> (r: MockAnchorRunner)
        ensures
            r.capability_ok && !r.apply_ok && r.fm_migrate_ok,
            r.apply_diagnostic@ == diagnostic@,
            r.fm_migrate_diagnostic@.len() == 0,
    {
        MockAnchorRunner {
            capability_ok: true,
            apply_ok: false,
            apply_diagnostic: diagnostic.to_string(),
            fm_migrate_ok: true,
            fm_migrate_diagnostic: String::new(),
        }
    }
}

impl AnchorRunner for MockAnchorRunner {
    open spec fn capability_outcome(&self, r: Result<(), AnchorMissingError>) -> bool {
        &&& self.capability_ok ==> r is Ok
        &&& !self.capability_ok ==> (r matches Err(e) && e.message@ == anchor_missing_text())
    }

    fn check_frontmatter_capability(&self) -> (r: Result<(), AnchorMissingError>)
        ensures
            self.capability_ok ==> r is Ok,
            !self.capability_ok ==> (r matches Err(e) && e.message@ == anchor_missing_text()),
    {
        if self.capability_ok {
            Ok(())
        } else {
            Err(AnchorMissingError { message: anchor_missing_message() })
        }
    }

    fn run_apply(&self, plan_path: &str) -> (r: Result<(), RunnerError>)
        ensures
            self.apply_ok ==> r is Ok,
            !self.apply_ok ==> (r matches Err(e) && e.exit_code == 1 && e.diagnostic@ == self.apply_diagnostic@),
    {
        if self.apply_ok {
            Ok(())
        } else {
            Err(RunnerError { exit_code: 1, diagnostic: self.apply_diagnostic.clone() })
        }
    }

    fn run_frontmatter_migrate(&self, plan_path: &str) -> (r: Result<(), RunnerError>)
        ensures
            self.fm_migrate_ok ==> r is Ok,
            !self.fm_migrate_ok ==> (r matches Err(e) && e.exit_code == 1 && e.diagnostic@ == self.fm_migrate_diagnostic@),
    {
        if self.fm_migrate_ok {
            Ok(())
        } else {
            Err(RunnerError { exit_code: 1, diagnostic: self.fm_migrate_diagnostic.clone() })
        }
    }
}

} // verus!
