//! Gap-report files: one Markdown file per gap row, named `CANON-NNN-<slug>.md`.

use vstd::prelude::*;
use vstd::string::StringExecFns;
use crate::files::{FileTree, NodeView, child_name, child_name_of, is_dir_at, join_path, path_join};
use crate::plan::types::{CaseView, GapReportRow, JudgmentCategory, row_views};
use crate::text::{decimal, find, find_chars, from_chars, push_char, slice_chars, starts_with, starts_with_chars, to_chars};

verus! {

// ---------------------------------------------------------------------------
// File numbers
// ---------------------------------------------------------------------------

pub open spec fn digit_value(c: char) -> nat {
    (c as u32 - '0' as u32) as nat
}

/// The value of a run of decimal digits.
pub open spec fn digits_value(d: Seq<char>) -> nat
    decreases d.len(),
{
    if d.len() == 0 {
        0
    } else {
        digits_value(d.drop_last()) * 10 + digit_value(d.last())
    }
}

pub open spec fn all_digits(d: Seq<char>) -> bool {
    forall|i: int| 0 <= i < d.len() ==> '0' <= #[trigger] d[i] && d[i] <= '9'
}

/// `u32::from_str`: an optional `+`, then one or more decimal digits whose
/// value fits in a `u32`.
pub open spec fn parse_u32(s: Seq<char>) -> Option<u32> {
    let d = if s.len() > 0 && s[0] == '+' { s.skip(1) } else { s };
    if d.len() > 0 && all_digits(d) && digits_value(d) <= u32::MAX {
        Some(digits_value(d) as u32)
    } else {
        None
    }
}

/// The number in a file name like `CANON-042-some-slug.md`: the text after
/// `CANON-` up to the next `-` (or the end), parsed as a `u32`.
pub open spec fn canon_number(name: Seq<char>) -> Option<u32> {
    if starts_with(name, "CANON-"@) {
        let rest = name.skip(6);
        let end = match find(rest, "-"@) {
            Some(e) => e,
            None => rest.len() as int,
        };
        parse_u32(rest.take(end))
    } else {
        None
    }
}

proof fn lemma_find_in(s: Seq<char>, p: Seq<char>, i: int)
    ensures
        crate::text::find_from(s, p, i) matches Some(k) ==> i <= k && k + p.len() <= s.len(),
    decreases s.len() + 1 - i,
{
    if i >= 0 && i + p.len() <= s.len() && !crate::text::occurs_at(s, p, i) {
        lemma_find_in(s, p, i + 1);
    }
}

proof fn lemma_digits_value_push(d: Seq<char>, i: int)
    requires
        0 <= i < d.len(),
    ensures
        digits_value(d.take(i + 1)) == digits_value(d.take(i)) * 10 + digit_value(d[i]),
{
    assert(d.take(i + 1).drop_last() =~= d.take(i));
}

proof fn lemma_digits_value_mono(d: Seq<char>, i: int)
    requires
        0 <= i <= d.len(),
        all_digits(d),
    ensures
        digits_value(d.take(i)) <= digits_value(d),
    decreases d.len() - i,
{
    if i < d.len() {
        lemma_digits_value_mono(d, i + 1);
        lemma_digits_value_push(d, i);
        assert(d.take(d.len() as int) =~= d);
    } else {
        assert(d.take(i) =~= d);
    }
}

/// `u32::from_str` on a run of characters.
fn parse_u32_chars(s: &Vec<char>) -> (r: Option<u32>)
    ensures
        r == parse_u32(s@),
{
    let start: usize = if s.len() > 0 && s[0] == '+' { 1 } else { 0 };
    let d = slice_chars(s.as_slice(), start, s.len());
    proof {
        if s@.len() > 0 && s@[0] == '+' {
            assert(d@ =~= s@.skip(1));
        } else {
            assert(d@ =~= s@);
        }
    }
    if d.len() == 0 {
        return None;
    }
    let mut v: u64 = 0;
    for i in 0..d.len()
        invariant
            d@.len() > 0,
            parse_u32(s@) == (if all_digits(d@) && digits_value(d@) <= u32::MAX {
                Some(digits_value(d@) as u32)
            } else {
                None::<u32>
            }),
            v == digits_value(d@.take(i as int)),
            v <= u32::MAX,
            forall|k: int| 0 <= k < i ==> '0' <= #[trigger] d@[k] && d@[k] <= '9',
    {
        let c = d[i];
        if !('0' <= c && c <= '9') {
            proof {
                assert(!all_digits(d@));
            }
            return None;
        }
        proof {
            lemma_digits_value_push(d@, i as int);
        }
        let dv = (c as u32 - '0' as u32) as u64;
        let nv = v * 10 + dv;
        if nv > 0xffff_ffff {
            proof {
                if all_digits(d@) {
                    lemma_digits_value_mono(d@, i + 1);
                }
            }
            return None;
        }
        v = nv;
    }
    proof {
        assert(d@.take(d@.len() as int) =~= d@);
    }
    Some(v as u32)
}

/// The number NNN in a file name `CANON-NNN-...`.
pub fn parse_canon_number(name: &str) -> (r: Option<u32>)
    ensures
        r == canon_number(name@),
{
    let c = to_chars(name);
    let prefix = to_chars("CANON-");
    proof {
        reveal_strlit("CANON-");
        reveal_strlit("-");
    }
    if !starts_with_chars(c.as_slice(), prefix.as_slice()) {
        return None;
    }
    let rest = slice_chars(c.as_slice(), 6, c.len());
    proof {
        assert(rest@ =~= name@.skip(6));
    }
    let dash = to_chars("-");
    let end = match find_chars(rest.as_slice(), dash.as_slice()) {
        Some(e) => {
            proof {
                lemma_find_in(rest@, "-"@, 0);
            }
            e
        },
        None => rest.len(),
    };
    let num = slice_chars(rest.as_slice(), 0, end);
    proof {
        assert(num@ =~= rest@.take(end as int));
    }
    parse_u32_chars(&num)
}

/// The largest number among the names, 0 when none parses.
pub open spec fn max_canon_number(names: Seq<Seq<char>>) -> nat
    decreases names.len(),
{
    if names.len() == 0 {
        0
    } else {
        let m = max_canon_number(names.drop_last());
        match canon_number(names.last()) {
            Some(n) => if n > m { n as nat } else { m },
            None => m,
        }
    }
}

/// The names of the entries of `dir`, in listing order.
pub open spec fn entry_names(t: Seq<NodeView>, dir: Seq<char>) -> Seq<Seq<char>>
    decreases t.len(),
{
    if t.len() == 0 {
        Seq::empty()
    } else {
        let rest = entry_names(t.drop_last(), dir);
        match child_name(dir, t.last().path) {
            Some(n) => rest.push(n),
            None => rest,
        }
    }
}

/// The first free number in a gap directory: one past the largest existing
/// `CANON-NNN-*` number, or 1 when the directory cannot be listed.
pub open spec fn next_number(t: Seq<NodeView>, gap_dir: Seq<char>) -> nat {
    if is_dir_at(t, gap_dir) {
        max_canon_number(entry_names(t, gap_dir)) + 1
    } else {
        1
    }
}

fn scan_next_number(gap_dir: &str, tree: &FileTree) -> (r: u64)
    ensures
        r == next_number(tree@, gap_dir@),
{
    if !tree.is_dir(gap_dir) {
        return 1;
    }
    let ghost t = tree@;
    let ghost mut names: Seq<Seq<char>> = Seq::empty();
    let mut max_n: u32 = 0;
    for i in 0..tree.nodes.len()
        invariant
            t == tree@,
            t.len() == tree.nodes@.len(),
            names == entry_names(t.take(i as int), gap_dir@),
            max_n == max_canon_number(names),
    {
        let n = &tree.nodes[i];
        proof {
            assert(t[i as int] == n@);
            assert(t.take(i + 1).drop_last() =~= t.take(i as int));
            assert(t.take(i + 1).last() == t[i as int]);
        }
        match child_name_of(gap_dir, n.path.as_str()) {
            Some(name) => {
                proof {
                    names = names.push(name@);
                    assert(names.drop_last() =~= entry_names(t.take(i as int), gap_dir@));
                }
                match parse_canon_number(name.as_str()) {
                    Some(k) => {
                        if k > max_n {
                            max_n = k;
                        }
                    },
                    None => {},
                }
            },
            None => {},
        }
    }
    proof {
        assert(t.take(t.len() as int) =~= t);
    }
    max_n as u64 + 1
}

// ---------------------------------------------------------------------------
// Slugs
// ---------------------------------------------------------------------------

/// `char::is_alphanumeric` (Unicode's Alphabetic or Numeric property).
pub uninterp spec fn unicode_alphanumeric(c: char) -> bool;

/// Whether an ASCII character is a letter or a digit.
pub open spec fn ascii_alphanumeric(c: char) -> bool {
    ('a' <= c && c <= 'z') || ('A' <= c && c <= 'Z') || ('0' <= c && c <= '9')
}

/// Whether the named Unicode property agrees with the ASCII letters and
/// digits on every ASCII character of `s`.
pub open spec fn ascii_agrees(s: Seq<char>) -> bool {
    forall|i: int|
        #![trigger s[i]]
        0 <= i < s.len() && (s[i] as u32) < 128 ==> (unicode_alphanumeric(s[i]) <==> ascii_alphanumeric(s[i]))
}

/// `char::is_alphanumeric`. The contract names the result
/// (`unicode_alphanumeric`), a fixed property of the character; for an
/// ASCII character it is true exactly of the letters and digits, as the
/// Alphabetic and Numeric properties hold of no other ASCII character.
#[verifier::external_body]
fn is_alphanumeric(c: char) -> (r: bool)
    ensures
        r == unicode_alphanumeric(c),
        (c as u32) < 128 ==> (r <==> ascii_alphanumeric(c)),
{
    c.is_alphanumeric()
}

/// `char::to_ascii_lowercase`.
pub open spec fn ascii_lower(c: char) -> char {
    if 'A' <= c && c <= 'Z' {
        ((c as u32) + 32) as char
    } else {
        c
    }
}

/// Every character kept when alphanumeric (ASCII letters lowered), else a dash.
pub open spec fn slug_char(c: char) -> char {
    if unicode_alphanumeric(c) {
        ascii_lower(c)
    } else {
        '-'
    }
}

/// Dash-separated pieces with empty pieces dropped: leading and trailing
/// dashes removed, runs of dashes made one.
pub open spec fn squash(s: Seq<char>) -> Seq<char>
    decreases s.len(),
{
    if s.len() == 0 {
        Seq::empty()
    } else if s.last() == '-' {
        squash(s.drop_last())
    } else {
        let q = squash(s.drop_last());
        if q.len() > 0 && s.drop_last().last() == '-' {
            q + seq!['-', s.last()]
        } else {
            q.push(s.last())
        }
    }
}

/// The bytes `char::len_utf8` gives.
pub open spec fn utf8_len(c: char) -> nat {
    if (c as u32) < 0x80 {
        1
    } else if (c as u32) < 0x800 {
        2
    } else if (c as u32) < 0x10000 {
        3
    } else {
        4
    }
}

/// The UTF-8 length of a text in bytes.
pub open spec fn byte_len(s: Seq<char>) -> nat
    decreases s.len(),
{
    if s.len() == 0 {
        0
    } else {
        byte_len(s.drop_last()) + utf8_len(s.last())
    }
}

/// The number of leading characters that fit in `n` bytes.
pub open spec fn chars_within(s: Seq<char>, n: nat) -> int
    decreases s.len(),
{
    if s.len() == 0 {
        0
    } else if byte_len(s) <= n {
        s.len() as int
    } else {
        chars_within(s.drop_last(), n)
    }
}

/// The slug of already mapped characters (see `slug_char`) before it is cut
/// to length.
pub open spec fn squashed(mapped: Seq<char>) -> Seq<char> {
    squash(mapped)
}

/// The slug before it is cut to length.
pub open spec fn slug_body(description: Seq<char>) -> Seq<char> {
    squashed(description.map_values(|c: char| slug_char(c)))
}

/// Whether cutting the squashed text at 40 bytes falls on a character
/// boundary (it must, or the cut would panic).
pub open spec fn mapped_cut_ok(mapped: Seq<char>) -> bool {
    let b = squashed(mapped);
    byte_len(b) <= 40 || byte_len(b.take(chars_within(b, 40))) == 40
}

/// Whether cutting the slug at 40 bytes falls on a character boundary.
pub open spec fn slug_cut_ok(description: Seq<char>) -> bool {
    mapped_cut_ok(description.map_values(|c: char| slug_char(c)))
}

/// The text without leading and trailing dashes.
pub open spec fn trim_dashes(s: Seq<char>) -> Seq<char>
    decreases s.len(),
{
    if s.len() > 0 && s.last() == '-' {
        trim_dashes(s.drop_last())
    } else if s.len() > 0 && s[0] == '-' {
        trim_dashes(s.drop_first())
    } else {
        s
    }
}

/// The slug of already mapped characters: dash-joined pieces cut to 40
/// bytes, without dashes at either end.
pub open spec fn slug_of_mapped(mapped: Seq<char>) -> Seq<char> {
    let b = squashed(mapped);
    trim_dashes(if byte_len(b) > 40 { b.take(chars_within(b, 40)) } else { b })
}

/// A filesystem-safe slug of a description: alphanumerics (ASCII letters
/// lowered) joined by single dashes, cut to 40 bytes, without dashes at
/// either end.
pub open spec fn slug(description: Seq<char>) -> Seq<char> {
    slug_of_mapped(description.map_values(|c: char| slug_char(c)))
}

proof fn lemma_byte_len_take(s: Seq<char>, i: int)
    requires
        0 <= i < s.len(),
    ensures
        byte_len(s.take(i + 1)) == byte_len(s.take(i)) + utf8_len(s[i]),
{
    assert(s.take(i + 1).drop_last() =~= s.take(i));
}

proof fn lemma_byte_len_mono(s: Seq<char>, i: int)
    requires
        0 <= i <= s.len(),
    ensures
        byte_len(s.take(i)) <= byte_len(s),
    decreases s.len() - i,
{
    if i < s.len() {
        lemma_byte_len_mono(s, i + 1);
        lemma_byte_len_take(s, i);
        assert(s.take(s.len() as int) =~= s);
    } else {
        assert(s.take(i) =~= s);
    }
}

/// `chars_within` is the first prefix length whose next character would not fit.
proof fn lemma_chars_within(s: Seq<char>, n: nat, k: int)
    requires
        0 <= k <= s.len(),
        byte_len(s.take(k)) <= n,
        k == s.len() || byte_len(s.take(k + 1)) > n,
    ensures
        chars_within(s, n) == k,
    decreases s.len(),
{
    if s.len() > 0 {
        if byte_len(s) <= n {
            if k < s.len() {
                lemma_byte_len_mono(s, k + 1);
            }
        } else {
            if k == s.len() {
                assert(s.take(k) =~= s);
            }
            let d = s.drop_last();
            assert(d.take(k) =~= s.take(k));
            if k < d.len() {
                assert(d.take(k + 1) =~= s.take(k + 1));
            }
            lemma_chars_within(d, n, k);
        }
    } else {
        assert(s.take(k) =~= s);
    }
}

fn utf8_len_exec(c: char) -> (r: usize)
    ensures
        r == utf8_len(c),
{
    let u = c as u32;
    if u < 0x80 {
        1
    } else if u < 0x800 {
        2
    } else if u < 0x10000 {
        3
    } else {
        4
    }
}

fn lower_ascii(c: char) -> (r: char)
    ensures
        r == ascii_lower(c),
{
    if 'A' <= c && c <= 'Z' {
        let u = c as u8 + 32;
        proof {
            assert(u == (c as u32) + 32);
        }
        u as char
    } else {
        c
    }
}

/// Each character of a description kept when alphanumeric (ASCII letters
/// lowered), else a dash.
fn mapped_chars(description: &str) -> (r: Vec<char>)
    ensures
        r@ == description@.map_values(|c: char| slug_char(c)),
        ascii_agrees(description@),
{
    let c = to_chars(description);
    let mut mapped: Vec<char> = Vec::new();
    for i in 0..c.len()
        invariant
            c@ == description@,
            mapped@ == c@.take(i as int).map_values(|x: char| slug_char(x)),
            forall|k: int|
                #![trigger c@[k]]
                0 <= k < i && (c@[k] as u32) < 128 ==> (unicode_alphanumeric(c@[k]) <==> ascii_alphanumeric(c@[k])),
    {
        let ch = if is_alphanumeric(c[i]) { lower_ascii(c[i]) } else { '-' };
        mapped.push(ch);
        proof {
            assert(mapped@ =~= c@.take(i + 1).map_values(|x: char| slug_char(x)));
        }
    }
    proof {
        assert(c@.take(c@.len() as int) =~= c@);
    }
    mapped
}

/// Whether the slug of `description` can be cut to 40 bytes.
pub fn slug_cut_is_ok(description: &str) -> (r: bool)
    ensures
        r == slug_cut_ok(description@),
{
    let m = mapped_chars(description);
    let b = squash_chars(&m);
    let (_k, bytes, over) = cut_point(&b);
    !over || bytes == 40
}

/// The dash-separated pieces of mapped characters, empty pieces dropped.
fn squash_chars(mapped: &Vec<char>) -> (r: Vec<char>)
    ensures
        r@ == squashed(mapped@),
{
    let mut out: Vec<char> = Vec::new();
    for i in 0..mapped.len()
        invariant
            out@ == squash(mapped@.take(i as int)),
    {
        let ch = mapped[i];
        proof {
            assert(mapped@.take(i + 1).drop_last() =~= mapped@.take(i as int));
            assert(mapped@.take(i + 1).last() == ch);
            if i > 0 {
                assert(mapped@.take(i as int).last() == mapped@[i - 1]);
            }
        }
        if ch != '-' {
            if out.len() > 0 && i > 0 && mapped[i - 1] == '-' {
                out.push('-');
            }
            out.push(ch);
        }
        proof {
            assert(out@ =~= squash(mapped@.take(i + 1)));
        }
    }
    proof {
        assert(mapped@.take(mapped@.len() as int) =~= mapped@);
    }
    out
}

/// How many characters fit in 40 bytes, their byte length, and whether the
/// whole text is longer than 40 bytes.
fn cut_point(b: &Vec<char>) -> (r: (usize, usize, bool))
    ensures
        r.0 <= b@.len(),
        r.2 == (byte_len(b@) > 40),
        r.2 ==> r.0 == chars_within(b@, 40) && r.1 == byte_len(b@.take(r.0 as int)),
{
    let mut k: usize = 0;
    let mut bytes: usize = 0;
    while k < b.len()
        invariant
            k <= b@.len(),
            bytes == byte_len(b@.take(k as int)),
            bytes <= 40,
        decreases b.len() - k,
    {
        let l = utf8_len_exec(b[k]);
        proof {
            lemma_byte_len_take(b@, k as int);
        }
        if bytes + l > 40 {
            proof {
                lemma_chars_within(b@, 40, k as int);
                lemma_byte_len_mono(b@, k + 1);
            }
            return (k, bytes, true);
        }
        bytes = bytes + l;
        k = k + 1;
    }
    proof {
        assert(b@.take(k as int) =~= b@);
    }
    (k, bytes, false)
}

/// Builds a slug from already mapped characters: the dash-separated pieces,
/// cut to 40 bytes, without dashes at either end.
pub fn slug_from_mapped(mapped: &Vec<char>) -> (r: String)
    requires
        mapped_cut_ok(mapped@),
    ensures
        r@ == slug_of_mapped(mapped@),
{
    let b = squash_chars(mapped);
    let (k, _bytes, over) = cut_point(&b);
    let cut = if over { slice_chars(b.as_slice(), 0, k) } else { slice_chars(b.as_slice(), 0, b.len()) };
    proof {
        if over {
            assert(cut@ =~= b@.take(k as int));
        } else {
            assert(cut@ =~= b@);
        }
    }
    let mut lo: usize = 0;
    let mut hi: usize = cut.len();
    proof {
        assert(cut@.subrange(0, cut@.len() as int) =~= cut@);
    }
    while hi > lo && cut[hi - 1] == '-'
        invariant
            lo <= hi <= cut@.len(),
            lo == 0,
            trim_dashes(cut@) == trim_dashes(cut@.subrange(lo as int, hi as int)),
        decreases hi,
    {
        proof {
            assert(cut@.subrange(lo as int, hi as int).drop_last() =~= cut@.subrange(lo as int, hi - 1));
        }
        hi -= 1;
    }
    while lo < hi && cut[lo] == '-'
        invariant
            lo <= hi <= cut@.len(),
            hi == lo || cut@[hi - 1] != '-',
            trim_dashes(cut@) == trim_dashes(cut@.subrange(lo as int, hi as int)),
        decreases hi - lo,
    {
        proof {
            let s = cut@.subrange(lo as int, hi as int);
            assert(s.drop_first() =~= cut@.subrange(lo + 1, hi as int));
        }
        lo += 1;
    }
    let t = slice_chars(cut.as_slice(), lo, hi);
    proof {
        let s = cut@.subrange(lo as int, hi as int);
        assert(t@ =~= s);
    }
    from_chars(t.as_slice())
}

/// Builds a filesystem-safe slug from a description.
pub fn make_slug(description: &str) -> (r: String)
    requires
        slug_cut_ok(description@),
    ensures
        r@ == slug(description@),
        ascii_agrees(description@),
{
    let m = mapped_chars(description);
    slug_from_mapped(&m)
}

// ---------------------------------------------------------------------------
// Gap files
// ---------------------------------------------------------------------------

pub open spec fn category_tag_text(c: JudgmentCategory) -> Seq<char> {
    match c {
        JudgmentCategory::GraduationBoundary => "graduation"@,
        JudgmentCategory::TypeAmbiguous => "type-ambiguous"@,
        JudgmentCategory::EngineClassInference => "engine-class"@,
        JudgmentCategory::IdAssignment => "id-assignment"@,
    }
}

pub open spec fn category_human_text(c: JudgmentCategory) -> Seq<char> {
    match c {
        JudgmentCategory::GraduationBoundary => "graduation boundary — where a file should split into a sub-folder"@,
        JudgmentCategory::TypeAmbiguous => "type-ambiguous — file type cannot be determined from location alone"@,
        JudgmentCategory::EngineClassInference => "engine-class inference — engine-class field not deterministic from location"@,
        JudgmentCategory::IdAssignment => "ID assignment — numbered folder ID requires a known-IDs context"@,
    }
}

pub open spec fn recommended_action_text(c: JudgmentCategory) -> Seq<char> {
    match c {
        JudgmentCategory::GraduationBoundary => "Review the file and decide whether its content warrants splitting into a sub-folder. If yes, create the folder and distribute content; update any inbound references."@,
        JudgmentCategory::TypeAmbiguous => "Review the file's content and assign the correct `type` frontmatter value. Consult the template's schema for allowed values."@,
        JudgmentCategory::EngineClassInference => "Determine whether this file belongs to the closed layer (set `boundary: closed`) or should inherit the open default. Update frontmatter accordingly."@,
        JudgmentCategory::IdAssignment => "Assign the next available numbered prefix for this folder or file. Check existing siblings to avoid ID collisions."@,
    }
}

fn category_tag(c: JudgmentCategory) -> (r: &'static str)
    ensures
        r@ == category_tag_text(c),
{
    match c {
        JudgmentCategory::GraduationBoundary => "graduation",
        JudgmentCategory::TypeAmbiguous => "type-ambiguous",
        JudgmentCategory::EngineClassInference => "engine-class",
        JudgmentCategory::IdAssignment => "id-assignment",
    }
}

fn category_human(c: JudgmentCategory) -> (r: &'static str)
    ensures
        r@ == category_human_text(c),
{
    match c {
        JudgmentCategory::GraduationBoundary => "graduation boundary — where a file should split into a sub-folder",
        JudgmentCategory::TypeAmbiguous => "type-ambiguous — file type cannot be determined from location alone",
        JudgmentCategory::EngineClassInference => "engine-class inference — engine-class field not deterministic from location",
        JudgmentCategory::IdAssignment => "ID assignment — numbered folder ID requires a known-IDs context",
    }
}

fn recommended_action(c: JudgmentCategory) -> (r: &'static str)
    ensures
        r@ == recommended_action_text(c),
{
    match c {
        JudgmentCategory::GraduationBoundary => "Review the file and decide whether its content warrants splitting into a sub-folder. If yes, create the folder and distribute content; update any inbound references.",
        JudgmentCategory::TypeAmbiguous => "Review the file's content and assign the correct `type` frontmatter value. Consult the template's schema for allowed values.",
        JudgmentCategory::EngineClassInference => "Determine whether this file belongs to the closed layer (set `boundary: closed`) or should inherit the open default. Update frontmatter accordingly.",
        JudgmentCategory::IdAssignment => "Assign the next available numbered prefix for this folder or file. Check existing siblings to avoid ID collisions.",
    }
}

/// A number written with at least three digits (`{:03}`).
pub open spec fn pad3(n: nat) -> Seq<char> {
    let d = decimal(n);
    if d.len() >= 3 {
        d
    } else if d.len() == 2 {
        seq!['0'] + d
    } else {
        seq!['0', '0'] + d
    }
}

proof fn lemma_decimal_nonempty(n: nat)
    ensures
        decimal(n).len() >= 1,
    decreases n,
{
    if n >= 10 {
        lemma_decimal_nonempty(n / 10);
    }
}

fn pad3_text(n: u64) -> (r: String)
    ensures
        r@ == pad3(n as nat),
{
    let d = crate::text::u64_text(n);
    let dl = d.as_str().unicode_len();
    let mut s = String::new();
    if dl == 1 {
        push_char(&mut s, '0');
        push_char(&mut s, '0');
    } else if dl == 2 {
        push_char(&mut s, '0');
    }
    proof {
        lemma_decimal_nonempty(n as nat);
    }
    s.append(d.as_str());
    proof {
        assert(s@ =~= pad3(n as nat));
    }
    s
}

/// The text of the gap file for a row numbered `n`.
pub open spec fn gap_file_text(row: CaseView, n: nat) -> Seq<char> {
    let tag = category_tag_text(row.category);
    "---\ntitle: \"gap: "@ + tag + " in "@ + row.path + "\"\ntype: gap\nengine: canon\npriority: medium\ncategory: "@ + tag
        + "\ncreated: 2026-04-29\nsource: canon-template-architecture-CFC-301\n---\n\n## Case "@ + pad3(n) + " — "@
        + category_human_text(row.category) + "\n\n**File:** `"@ + row.path + "`\n\n**Description:** "@ + row.description
        + "\n\n**Why canon could not auto-resolve:** This case requires closed-layer reasoning. Canon's open layer applies only deterministic rules; "@
        + tag + " falls in the judgment-bearing category where auto-resolution would risk silent data loss.\n\n**Recommended action:** "@
        + recommended_action_text(row.category) + "\n"@
}

/// Renders the gap file for a row numbered `n`.
pub fn render_gap_file(row: &GapReportRow, n: u64) -> (r: String)
    ensures
        r@ == gap_file_text(row@, n as nat),
{
    let tag = category_tag(row.category);
    let mut s = String::from_str("---\ntitle: \"gap: ");
    s.append(tag);
    s.append(" in ");
    s.append(row.path.as_str());
    s.append("\"\ntype: gap\nengine: canon\npriority: medium\ncategory: ");
    s.append(tag);
    s.append("\ncreated: 2026-04-29\nsource: canon-template-architecture-CFC-301\n---\n\n## Case ");
    let num = pad3_text(n);
    s.append(num.as_str());
    s.append(" — ");
    s.append(category_human(row.category));
    s.append("\n\n**File:** `");
    s.append(row.path.as_str());
    s.append("`\n\n**Description:** ");
    s.append(row.description.as_str());
    s.append("\n\n**Why canon could not auto-resolve:** This case requires closed-layer reasoning. Canon's open layer applies only deterministic rules; ");
    s.append(tag);
    s.append(" falls in the judgment-bearing category where auto-resolution would risk silent data loss.\n\n**Recommended action:** ");
    s.append(recommended_action(row.category));
    s.append("\n");
    s
}

/// The file name of the gap file for a row numbered `n`.
pub open spec fn gap_file_name(row: CaseView, n: nat) -> Seq<char> {
    "CANON-"@ + pad3(n) + "-"@ + slug(row.description) + ".md"@
}

/// Whether every row's description can be cut into a slug.
pub open spec fn rows_sluggable(rows: Seq<CaseView>) -> bool {
    forall|i: int| 0 <= i < rows.len() ==> slug_cut_ok(#[trigger] rows[i].description)
}

/// The files written for the rows, numbered from `first`: their paths in
/// `gap_dir` and their texts.
pub open spec fn gap_files(gap_dir: Seq<char>, first: nat, rows: Seq<CaseView>) -> Seq<(Seq<char>, Seq<char>)> {
    Seq::new(
        rows.len(),
        |i: int| (path_join(gap_dir, gap_file_name(rows[i], first + i as nat)), gap_file_text(rows[i], first + i as nat)),
    )
}

/// What can go wrong while writing gap files.
#[derive(Debug)]
pub enum GapReportError {
    Io(String),
}

impl GapReportError {
    /// The description of this error.
    pub fn message(&self) -> (r: String)
        ensures
            r@ == "I/O error: "@ + match self { GapReportError::Io(e) => e@ },
    {
        match self {
            GapReportError::Io(e) => {
                let mut s = String::from_str("I/O error: ");
                s.append(e.as_str());
                s
            },
        }
    }
}

/// Writes one Markdown file per gap row into `gap_dir`, numbered from the
/// first free `CANON-NNN` number found when the formatter was made, so a
/// second run continues the sequence instead of overwriting.
#[derive(Debug)]
pub struct GapReportFormatter {
    pub gap_dir: String,
    pub next_n: u64,
}

impl GapReportFormatter {
    /// A formatter for `gap_dir`, numbering from one past the largest
    /// existing `CANON-NNN-*` name there.
    pub fn new(gap_dir: &str, tree: &FileTree) -> (r: GapReportFormatter)
        ensures
            r.gap_dir@ == gap_dir@,
            r.next_n == next_number(tree@, gap_dir@),
    {
        let next_n = scan_next_number(gap_dir, tree);
        GapReportFormatter { gap_dir: gap_dir.to_string(), next_n }
    }

    /// The files to write for the rows: `CANON-NNN-<slug>.md` in the gap
    /// directory, numbered consecutively from `next_n`, in row order.
    pub fn planned_files(&self, rows: &[GapReportRow]) -> (r: Vec<(String, String)>)
        requires
            rows_sluggable(row_views(rows@)),
            self.next_n + rows@.len() <= u64::MAX,
        ensures
            r@.map_values(|f: (String, String)| (f.0@, f.1@)) == gap_files(self.gap_dir@, self.next_n as nat, row_views(rows@)),
    {
        let ghost rv = row_views(rows@);
        let mut out: Vec<(String, String)> = Vec::new();
        for i in 0..rows.len()
            invariant
                rv == row_views(rows@),
                rows_sluggable(rv),
                self.next_n + rows@.len() <= u64::MAX,
                out@.len() == i,
                forall|k: int| 0 <= k < i ==> (#[trigger] out@[k]).0@ == gap_files(self.gap_dir@, self.next_n as nat, rv)[k].0
                    && out@[k].1@ == gap_files(self.gap_dir@, self.next_n as nat, rv)[k].1,
        {
            let row = &rows[i];
            proof {
                assert(rv[i as int] == row@);
                assert(slug_cut_ok(rv[i as int].description));
            }
            let n = self.next_n + i as u64;
            let s = make_slug(row.description.as_str());
            let mut name = String::from_str("CANON-");
            let num = pad3_text(n);
            name.append(num.as_str());
            name.append("-");
            name.append(s.as_str());
            name.append(".md");
            let path = join_path(self.gap_dir.as_str(), name.as_str());
            let content = render_gap_file(row, n);
            out.push((path, content));
        }
        proof {
            assert(out@.map_values(|f: (String, String)| (f.0@, f.1@)) =~= gap_files(self.gap_dir@, self.next_n as nat, rv));
        }
        out
    }
}

} // verus!
