//! `_INDEX.md` stubs for the numbered folders of a corpus.

use vstd::prelude::*;
use vstd::string::StringExecFns;
use crate::files::{FileTree, NodeView, child_name, child_name_of, entry_is_dir, entry_is_file, exists_at, is_dir_at, join_path, path_join};
use crate::template::texts;
use crate::text::{chars_lt, decimal, ends_with, ends_with_chars, join, seq_lt, str_eq, to_chars};

verus! {

/// A folder name that starts with two digits and a dash (`01-identity`).
pub open spec fn is_numbered(n: Seq<char>) -> bool {
    n.len() >= 3 && '0' <= n[0] <= '9' && '0' <= n[1] <= '9' && n[2] == '-'
}

/// Whether a folder name starts with two digits and a dash.
pub fn is_numbered_dir(name: &str) -> (r: bool)
    ensures
        r == is_numbered(name@),
{
    let c = to_chars(name);
    c.len() >= 3 && '0' <= c[0] && c[0] <= '9' && '0' <= c[1] && c[1] <= '9' && c[2] == '-'
}

/// `s` with `x` inserted before the first item that sorts after it.
pub open spec fn insert_sorted(s: Seq<Seq<char>>, x: Seq<char>) -> Seq<Seq<char>>
    decreases s.len(),
{
    if s.len() == 0 {
        seq![x]
    } else if seq_lt(x, s[0]) {
        seq![x] + s
    } else {
        seq![s[0]] + insert_sorted(s.drop_first(), x)
    }
}

/// The names in ascending order.
pub open spec fn sort_names(s: Seq<Seq<char>>) -> Seq<Seq<char>>
    decreases s.len(),
{
    if s.len() == 0 {
        Seq::empty()
    } else {
        insert_sorted(sort_names(s.drop_last()), s.last())
    }
}

/// The name a node gives to the table of contents of `dir`: a Markdown
/// file directly in it, other than `_INDEX.md`.
pub open spec fn md_name(dir: Seq<char>, n: NodeView) -> Seq<Seq<char>> {
    match child_name(dir, n.path) {
        Some(name) => if entry_is_file(n) && ends_with(name, ".md"@) && name != "_INDEX.md"@ {
            seq![name]
        } else {
            Seq::empty()
        },
        None => Seq::empty(),
    }
}

/// The Markdown files of `dir`, in snapshot order.
pub open spec fn md_names(ns: Seq<NodeView>, dir: Seq<char>) -> Seq<Seq<char>>
    decreases ns.len(),
{
    if ns.len() == 0 {
        Seq::empty()
    } else {
        md_names(ns.drop_last(), dir) + md_name(dir, ns.last())
    }
}

pub open spec fn toc_row(n: Seq<char>) -> Seq<char> {
    "| ["@ + n + "](./"@ + n + ") | |"@
}

/// The table-of-contents rows of `dir`: one per Markdown file, by name.
pub open spec fn toc(t: Seq<NodeView>, dir: Seq<char>) -> Seq<Seq<char>> {
    if is_dir_at(t, dir) {
        sort_names(md_names(t, dir)).map_values(|n: Seq<char>| toc_row(n))
    } else {
        Seq::empty()
    }
}

/// The text of the stub of a numbered folder: frontmatter naming the folder,
/// its engine and category (the name without its number), a summary
/// placeholder, and the table of contents.
pub open spec fn stub_text(name: Seq<char>, engine: Seq<char>, today: Seq<char>, rows: Seq<Seq<char>>) -> Seq<char> {
    "---\ntitle: \""@ + name + "\"\ntype: index\nengine: \""@ + engine + "\"\ncategory: \""@ + name.skip(3)
        + "\"\nstatus: active\nschema_version: 1\ncreated: "@ + today + "\nupdated: "@ + today
        + "\n---\n\n<!-- TODO: write 1-3 sentence summary of this folder -->\n\n## Contents\n\n| File | Description |\n|------|-------------|\n"@
        + join(rows, "\n"@) + "\n"@
}

/// An `_INDEX.md` to write: its path and its text.
#[derive(Debug)]
pub struct IndexStub {
    pub path: String,
    pub content: String,
}

/// The stub a snapshot node yields under `root`: a numbered folder directly
/// in it that has no `_INDEX.md`.
pub open spec fn node_stub(t: Seq<NodeView>, root: Seq<char>, engine: Seq<char>, today: Seq<char>, n: NodeView) -> Seq<(Seq<char>, Seq<char>)> {
    match child_name(root, n.path) {
        Some(name) => if entry_is_dir(n) && is_numbered(name) && !exists_at(t, path_join(n.path, "_INDEX.md"@)) {
            seq![(path_join(n.path, "_INDEX.md"@), stub_text(name, engine, today, toc(t, n.path)))]
        } else {
            Seq::empty()
        },
        None => Seq::empty(),
    }
}

pub open spec fn nodes_stubs(t: Seq<NodeView>, ns: Seq<NodeView>, root: Seq<char>, engine: Seq<char>, today: Seq<char>) -> Seq<(Seq<char>, Seq<char>)>
    decreases ns.len(),
{
    if ns.len() == 0 {
        Seq::empty()
    } else {
        nodes_stubs(t, ns.drop_last(), root, engine, today) + node_stub(t, root, engine, today, ns.last())
    }
}

/// The stubs of a corpus, in snapshot order; none when the root is not a
/// directory.
pub open spec fn stub_plan(t: Seq<NodeView>, root: Seq<char>, engine: Seq<char>, today: Seq<char>) -> Seq<(Seq<char>, Seq<char>)> {
    if is_dir_at(t, root) {
        nodes_stubs(t, t, root, engine, today)
    } else {
        Seq::empty()
    }
}

pub open spec fn stub_views(v: Seq<IndexStub>) -> Seq<(Seq<char>, Seq<char>)> {
    v.map_values(|s: IndexStub| (s.path@, s.content@))
}

proof fn lemma_insert_at(s: Seq<Seq<char>>, x: Seq<char>, p: int)
    requires
        0 <= p <= s.len(),
        forall|k: int| 0 <= k < p ==> !seq_lt(x, #[trigger] s[k]),
        p == s.len() || seq_lt(x, s[p]),
    ensures
        insert_sorted(s, x) == s.insert(p, x),
    decreases p,
{
    if p == 0 {
        if s.len() == 0 {
            assert(s.insert(0, x) =~= seq![x]);
        } else {
            assert(s.insert(0, x) =~= seq![x] + s);
        }
    } else {
        assert(!seq_lt(x, s[0]));
        let d = s.drop_first();
        assert forall|k: int| 0 <= k < p - 1 implies !seq_lt(x, #[trigger] d[k]) by {
            assert(d[k] == s[k + 1]);
        }
        if p < s.len() {
            assert(d[p - 1] == s[p]);
        }
        lemma_insert_at(d, x, p - 1);
        assert(s.insert(p, x) =~= seq![s[0]] + d.insert(p - 1, x));
    }
}

fn name_lt(a: &String, b: &String) -> (r: bool)
    ensures
        r == seq_lt(a@, b@),
{
    let x = to_chars(a.as_str());
    let y = to_chars(b.as_str());
    chars_lt(x.as_slice(), y.as_slice())
}

/// Inserts `x` before the first name that sorts after it.
fn insert_name(v: &mut Vec<String>, x: String)
    ensures
        texts(final(v)@) == insert_sorted(texts(old(v)@), x@),
{
    let ghost s = texts(v@);
    let mut i: usize = 0;
    while i < v.len() && !name_lt(&x, &v[i])
        invariant
            s == texts(v@),
            i <= v@.len(),
            forall|k: int| 0 <= k < i ==> !seq_lt(x@, #[trigger] s[k]),
        decreases v.len() - i,
    {
        proof {
            assert(s[i as int] == v@[i as int]@);
        }
        i += 1;
    }
    proof {
        if i < v@.len() {
            assert(s[i as int] == v@[i as int]@);
        }
        lemma_insert_at(s, x@, i as int);
    }
    let ghost xv = x@;
    v.insert(i, x);
    proof {
        assert(texts(v@) =~= s.insert(i as int, xv));
    }
}

/// The names of the Markdown files directly in `dir`, other than
/// `_INDEX.md`, sorted.
fn sorted_md_names(dir: &str, tree: &FileTree) -> (r: Vec<String>)
    ensures
        texts(r@) == sort_names(md_names(tree@, dir@)),
{
    let ghost t = tree@;
    let md = to_chars(".md");
    let mut names: Vec<String> = Vec::new();
    proof {
        reveal_strlit("_INDEX.md");
    }
    for i in 0..tree.nodes.len()
        invariant
            t == tree@,
            t.len() == tree.nodes@.len(),
            md@ == ".md"@,
            texts(names@) == sort_names(md_names(t.take(i as int), dir@)),
    {
        let n = &tree.nodes[i];
        proof {
            assert(t[i as int] == n@);
            assert(t.take(i + 1).drop_last() =~= t.take(i as int));
            assert(t.take(i + 1).last() == t[i as int]);
        }
        match child_name_of(dir, n.path.as_str()) {
            Some(name) => {
                let nc = to_chars(name.as_str());
                if n.kind == crate::files::NodeKind::File && !n.link && ends_with_chars(nc.as_slice(), md.as_slice())
                    && !str_eq(name.as_str(), "_INDEX.md") {
                    proof {
                        assert(md_names(t.take(i + 1), dir@) =~= md_names(t.take(i as int), dir@).push(name@));
                        assert(md_names(t.take(i + 1), dir@).drop_last() =~= md_names(t.take(i as int), dir@));
                    }
                    insert_name(&mut names, name);
                } else {
                    proof {
                        assert(md_names(t.take(i + 1), dir@) =~= md_names(t.take(i as int), dir@));
                    }
                }
            },
            None => {
                proof {
                    assert(md_names(t.take(i + 1), dir@) =~= md_names(t.take(i as int), dir@));
                }
            },
        }
    }
    proof {
        assert(t.take(t.len() as int) =~= t);
    }
    names
}

/// The table-of-contents rows of `dir`, one per Markdown file, sorted.
pub fn toc_rows(dir: &str, tree: &FileTree) -> (r: Vec<String>)
    ensures
        texts(r@) == toc(tree@, dir@),
{
    if !tree.is_dir(dir) {
        let r: Vec<String> = Vec::new();
        proof {
            assert(texts(r@) =~= toc(tree@, dir@));
        }
        return r;
    }
    let names = sorted_md_names(dir, tree);
    let mut rows: Vec<String> = Vec::new();
    for i in 0..names.len()
        invariant
            rows@.len() == i,
            forall|k: int| 0 <= k < i ==> (#[trigger] rows@[k])@ == toc_row(names@[k]@),
    {
        let n = names[i].as_str();
        let mut row = String::from_str("| [");
        row.append(n);
        row.append("](./");
        row.append(n);
        row.append(") | |");
        rows.push(row);
    }
    proof {
        let s = sort_names(md_names(tree@, dir@));
        assert(texts(names@) == s);
        assert forall|k: int| 0 <= k < rows@.len() implies texts(rows@)[k] == s.map_values(|n: Seq<char>| toc_row(n))[k] by {
            assert(texts(names@)[k] == names@[k]@);
        }
        assert(texts(rows@) =~= toc(tree@, dir@));
    }
    rows
}

/// The stub of a numbered folder `dir` named `name`.
fn generate_stub(dir: &str, name: &str, engine: &str, today: &str, tree: &FileTree) -> (r: String)
    requires
        is_numbered(name@),
    ensures
        r@ == stub_text(name@, engine@, today@, toc(tree@, dir@)),
{
    let c = to_chars(name);
    let category = crate::text::slice_chars(c.as_slice(), 3, c.len());
    let rows = toc_rows(dir, tree);
    let toc_text = crate::template::join_strings(&rows, "\n");
    let mut s = String::from_str("---\ntitle: \"");
    s.append(name);
    s.append("\"\ntype: index\nengine: \"");
    s.append(engine);
    s.append("\"\ncategory: \"");
    let cat = crate::text::from_chars(category.as_slice());
    s.append(cat.as_str());
    s.append("\"\nstatus: active\nschema_version: 1\ncreated: ");
    s.append(today);
    s.append("\nupdated: ");
    s.append(today);
    s.append("\n---\n\n<!-- TODO: write 1-3 sentence summary of this folder -->\n\n## Contents\n\n| File | Description |\n|------|-------------|\n");
    s.append(toc_text.as_str());
    s.append("\n");
    proof {
        assert(cat@ =~= name@.skip(3));
        assert(s@ =~= stub_text(name@, engine@, today@, toc(tree@, dir@)));
    }
    s
}

/// The `_INDEX.md` stubs of a corpus: one for every numbered folder directly
/// under `corpus_root` that has none yet, in snapshot order. The caller
/// writes them; how many it wrote is the count of stubs emitted.
pub fn emit_index_stubs(corpus_root: &str, engine: &str, today: &str, tree: &FileTree) -> (r: Vec<IndexStub>)
    ensures
        stub_views(r@) == stub_plan(tree@, corpus_root@, engine@, today@),
{
    let mut out: Vec<IndexStub> = Vec::new();
    if !tree.is_dir(corpus_root) {
        proof {
            assert(stub_views(out@) =~= stub_plan(tree@, corpus_root@, engine@, today@));
        }
        return out;
    }
    let ghost t = tree@;
    for i in 0..tree.nodes.len()
        invariant
            t == tree@,
            t.len() == tree.nodes@.len(),
            is_dir_at(t, corpus_root@),
            stub_views(out@) == nodes_stubs(t, t.take(i as int), corpus_root@, engine@, today@),
    {
        let n = &tree.nodes[i];
        proof {
            assert(t[i as int] == n@);
            assert(t.take(i + 1).drop_last() =~= t.take(i as int));
            assert(t.take(i + 1).last() == t[i as int]);
        }
        let ghost before = stub_views(out@);
        match child_name_of(corpus_root, n.path.as_str()) {
            Some(name) => {
                if n.kind == crate::files::NodeKind::Dir && !n.link && is_numbered_dir(name.as_str()) {
                    let index_path = join_path(n.path.as_str(), "_INDEX.md");
                    if !tree.path_exists(index_path.as_str()) {
                        let content = generate_stub(n.path.as_str(), name.as_str(), engine, today, tree);
                        out.push(IndexStub { path: index_path, content });
                    }
                }
            },
            None => {},
        }
        proof {
            assert(stub_views(out@) =~= before + node_stub(t, corpus_root@, engine@, today@, n@));
        }
    }
    proof {
        assert(t.take(t.len() as int) =~= t);
    }
    out
}

} // verus!

verus! {

// ---------------------------------------------------------------------------
// Dates
// ---------------------------------------------------------------------------

/// `k` zeros (none when `k` is not positive).
pub open spec fn zeros(k: int) -> Seq<char>
    decreases k,
{
    if k <= 0 {
        Seq::empty()
    } else {
        zeros(k - 1).push('0')
    }
}

/// `n` in decimal, left-padded with zeros to `w` digits; a negative `n` is
/// written with its sign and no padding.
pub open spec fn padded(n: int, w: int) -> Seq<char> {
    if n < 0 {
        seq!['-'] + decimal((-n) as nat)
    } else {
        zeros(w - decimal(n as nat).len()) + decimal(n as nat)
    }
}

/// The proleptic Gregorian `(year, month, day)` of the day `days` days
/// after 1970-01-01, by the era computation (eras of 400 years counted from
/// March of year 0).
pub open spec fn civil_from_days(days: int) -> (int, int, int) {
    let z = days + 719468;
    let era = z / 146097;
    let doe = z % 146097;
    let yoe = (doe - doe / 1460 + doe / 36524 - doe / 146096) / 365;
    let doy = doe - (365 * yoe + yoe / 4 - yoe / 100);
    let mp = (5 * doy + 2) / 153;
    let d = doy - (153 * mp + 2) / 5 + 1;
    let m = if mp < 10 { mp + 3 } else { mp - 9 };
    let y = yoe + era * 400 + if m <= 2 { 1int } else { 0int };
    (y, m, d)
}

/// The `YYYY-MM-DD` text of the day `days` days after 1970-01-01.
pub open spec fn date_text(days: int) -> Seq<char> {
    let (y, m, d) = civil_from_days(days);
    padded(y, 4) + "-"@ + padded(m, 2) + "-"@ + padded(d, 2)
}

fn padded_text(n: i64, w: u64) -> (r: String)
    requires
        -1_000_000_000 < n < 1_000_000_000,
        w <= 8,
    ensures
        r@ == padded(n as int, w as int),
{
    if n < 0 {
        let mut s = String::new();
        crate::text::push_char(&mut s, '-');
        let digits = crate::text::u64_text((0 - n) as u64);
        s.append(digits.as_str());
        proof {
            assert(s@ =~= padded(n as int, w as int));
        }
        s
    } else {
        let digits = crate::text::u64_text(n as u64);
        let len = digits.as_str().unicode_len();
        let pad: u64 = if (len as u64) < w { w - len as u64 } else { 0 };
        let mut s = String::new();
        let mut k: u64 = 0;
        while k < pad
            invariant
                k <= pad,
                s@ == zeros(k as int),
            decreases pad - k,
        {
            proof {
                assert(zeros(k + 1) == zeros(k as int).push('0'));
            }
            crate::text::push_char(&mut s, '0');
            k = k + 1;
        }
        proof {
            assert(len as int == digits@.len());
            if (w as int) - digits@.len() <= 0 {
                assert(zeros(w - digits@.len()) =~= zeros(0));
            }
            assert(s@ == zeros(w - digits@.len()));
        }
        s.append(digits.as_str());
        s
    }
}

/// The civil date of a day, computed in machine integers.
#[verifier::spinoff_prover]
fn civil_of_days(days: u32) -> (r: (i64, i64, i64))
    ensures
        (r.0 as int, r.1 as int, r.2 as int) == civil_from_days(days as int),
        -1_000_000_000 < r.0 < 1_000_000_000,
        -1_000_000_000 < r.1 < 1_000_000_000,
        -1_000_000_000 < r.2 < 1_000_000_000,
{
    let z: i64 = days as i64 + 719468;
    assert(0 <= z <= 0x1_0000_0000 + 719468);
    let era: i64 = z / 146097;
    assert(0 <= era <= 40000);
    let doe: i64 = z % 146097;
    assert(0 <= doe < 146097);
    let a: i64 = doe / 1460;
    let b: i64 = doe / 36524;
    let c: i64 = doe / 146096;
    assert(0 <= a <= 101 && 0 <= b <= 4 && 0 <= c <= 1);
    let yoe: i64 = (doe - a + b - c) / 365;
    assert(-1 <= yoe <= 401);
    let doy: i64 = doe - (365 * yoe + yoe / 4 - yoe / 100);
    assert(-200000 <= doy <= 200000);
    let mp: i64 = (5 * doy + 2) / 153;
    assert(-10000 <= mp <= 10000);
    let d: i64 = doy - (153 * mp + 2) / 5 + 1;
    assert(-1000000 <= d <= 1000000);
    let m: i64 = if mp < 10 { mp + 3 } else { mp - 9 };
    let y: i64 = yoe + era * 400 + if m <= 2 { 1 } else { 0 };
    assert(-1000000 <= y <= 20000000);
    (y, m, d)
}

/// The `YYYY-MM-DD` text of the day `days` days after 1970-01-01.
pub fn date_of_days(days: u32) -> (r: String)
    ensures
        r@ == date_text(days as int),
{
    let (y, m, d) = civil_of_days(days);
    let ys = padded_text(y, 4);
    let ms = padded_text(m, 2);
    let ds = padded_text(d, 2);
    let mut s = ys;
    s.append("-");
    s.append(ms.as_str());
    s.append("-");
    s.append(ds.as_str());
    proof {
        reveal_strlit("-");
        assert(s@ =~= date_text(days as int));
    }
    s
}

} // verus!
