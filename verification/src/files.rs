//! Paths as `/`-separated text, and a snapshot of the part of a filesystem
//! that a command reads.
//!
//! The snapshot lists nodes in the order in which the directory walk met them;
//! every listing below keeps that order.

use vstd::prelude::*;
use vstd::string::StringExecFns;
use crate::text::{starts_with, occurs_at, to_chars, from_chars, slice_chars, occurs_at_exec, chars_eq, str_eq};

verus! {

// ---------------------------------------------------------------------------
// Paths
// ---------------------------------------------------------------------------

/// `Path::join`: an absolute `b` replaces `a`; otherwise `b` follows `a`,
/// with one separator between them unless `a` is empty or ends with one.
pub open spec fn path_join(a: Seq<char>, b: Seq<char>) -> Seq<char> {
    if b.len() > 0 && b[0] == '/' {
        b
    } else if a.len() == 0 {
        b
    } else if a.last() == '/' {
        a + b
    } else {
        a + seq!['/'] + b
    }
}

/// The text that every child path of `dir` starts with.
pub open spec fn dir_prefix(dir: Seq<char>) -> Seq<char> {
    path_join(dir, Seq::empty())
}

/// The name of `p` when `p` names a direct child of `dir`.
pub open spec fn child_name(dir: Seq<char>, p: Seq<char>) -> Option<Seq<char>> {
    let pre = dir_prefix(dir);
    if starts_with(p, pre) && p.len() > pre.len() && !p.skip(pre.len() as int).contains('/') {
        Some(p.skip(pre.len() as int))
    } else {
        None
    }
}

/// Whether `p` is `root` or lies below it.
pub open spec fn under(root: Seq<char>, p: Seq<char>) -> bool {
    p == root || (starts_with(p, dir_prefix(root)) && p.len() > dir_prefix(root).len())
}

/// `Path::strip_prefix`, as text: the part of `p` below `root`.
pub open spec fn strip_root(root: Seq<char>, p: Seq<char>) -> Option<Seq<char>> {
    if p == root {
        Some(Seq::empty())
    } else if starts_with(p, dir_prefix(root)) {
        Some(p.skip(dir_prefix(root).len() as int))
    } else {
        None
    }
}

/// Whether `p` starts with `/`.
pub open spec fn is_absolute(p: Seq<char>) -> bool {
    p.len() > 0 && p[0] == '/'
}

/// The text without its trailing separators.
pub open spec fn trim_slashes(s: Seq<char>) -> Seq<char>
    decreases s.len(),
{
    if s.len() > 0 && s.last() == '/' {
        trim_slashes(s.drop_last())
    } else {
        s
    }
}

/// The last index of `c` in `s`.
pub open spec fn last_index(s: Seq<char>, c: char) -> Option<int>
    decreases s.len(),
{
    if s.len() == 0 {
        None
    } else if s.last() == c {
        Some(s.len() - 1)
    } else {
        last_index(s.drop_last(), c)
    }
}

/// `Path::file_name`: the last component, unless it is empty, `.` or `..`.
pub open spec fn file_name(p: Seq<char>) -> Option<Seq<char>> {
    let t = trim_slashes(p);
    let n = match last_index(t, '/') {
        Some(k) => t.skip(k + 1),
        None => t,
    };
    if n.len() == 0 || n == "."@ || n == ".."@ {
        None
    } else {
        Some(n)
    }
}

/// `Path::parent`: the path without its last component.
pub open spec fn parent(p: Seq<char>) -> Option<Seq<char>> {
    let t = trim_slashes(p);
    if t.len() == 0 {
        None
    } else {
        match last_index(t, '/') {
            None => Some(Seq::empty()),
            Some(k) => {
                let q = trim_slashes(t.take(k));
                if q.len() == 0 {
                    Some(seq!['/'])
                } else {
                    Some(q)
                }
            },
        }
    }
}

/// `Path::extension` of a file name: the text after its last dot, unless the
/// only dot leads the name.
pub open spec fn extension(n: Seq<char>) -> Option<Seq<char>> {
    match last_index(n, '.') {
        Some(k) => if k == 0 || n == ".."@ {
            None
        } else {
            Some(n.skip(k + 1))
        },
        None => None,
    }
}

/// Whether `c` is a whole component of `p`, starting at index `i`.
pub open spec fn component_at(p: Seq<char>, c: Seq<char>, i: int) -> bool {
    occurs_at(p, c, i) && (i == 0 || p[i - 1] == '/') && (i + c.len() == p.len() || p[i + c.len()] == '/')
}

/// Whether one of the components of `p` is `c`.
pub open spec fn has_component(p: Seq<char>, c: Seq<char>) -> bool {
    exists|i: int| #[trigger] component_at(p, c, i)
}

proof fn lemma_trim_slashes(s: Seq<char>)
    ensures
        trim_slashes(s).len() <= s.len(),
        trim_slashes(s) == s.take(trim_slashes(s).len() as int),
        trim_slashes(s).len() == 0 || trim_slashes(s).last() != '/',
    decreases s.len(),
{
    if s.len() > 0 && s.last() == '/' {
        lemma_trim_slashes(s.drop_last());
        assert(s.drop_last().take(trim_slashes(s).len() as int) =~= s.take(trim_slashes(s).len() as int));
    } else {
        assert(s.take(s.len() as int) =~= s);
    }
}

pub(crate) proof fn lemma_last_index(s: Seq<char>, c: char)
    ensures
        match last_index(s, c) {
            Some(k) => 0 <= k < s.len() && s[k] == c && forall|j: int| k < j < s.len() ==> s[j] != c,
            None => forall|j: int| 0 <= j < s.len() ==> s[j] != c,
        },
    decreases s.len(),
{
    if s.len() > 0 && s.last() != c {
        let d = s.drop_last();
        lemma_last_index(d, c);
        assert forall|j: int| 0 <= j < d.len() implies d[j] == s[j] by {}
        match last_index(d, c) {
            Some(k) => {
                assert forall|j: int| k < j < s.len() implies s[j] != c by {
                    if j < d.len() {
                        assert(d[j] != c);
                    }
                }
            },
            None => {
                assert forall|j: int| 0 <= j < s.len() implies s[j] != c by {
                    if j < d.len() {
                        assert(d[j] != c);
                    }
                }
            },
        }
    }
}

/// The length of `s` without its trailing separators.
fn trimmed_len(s: &Vec<char>) -> (r: usize)
    ensures
        r <= s@.len(),
        s@.take(r as int) == trim_slashes(s@),
{
    let mut n = s.len();
    proof {
        assert(s@.take(n as int) =~= s@);
    }
    while n > 0 && s[n - 1] == '/'
        invariant
            n <= s@.len(),
            trim_slashes(s@) == trim_slashes(s@.take(n as int)),
        decreases n,
    {
        proof {
            assert(s@.take(n as int).drop_last() =~= s@.take(n - 1));
        }
        n -= 1;
    }
    proof {
        assert(s@.take(n as int).len() == 0 || s@.take(n as int).last() != '/');
    }
    n
}

/// The last index of `c` among the first `len` characters of `s`.
pub(crate) fn last_index_in(s: &Vec<char>, len: usize, c: char) -> (r: Option<usize>)
    requires
        len <= s@.len(),
    ensures
        match r {
            Some(k) => last_index(s@.take(len as int), c) == Some(k as int),
            None => last_index(s@.take(len as int), c) is None,
        },
{
    let mut n = len;
    while n > 0 && s[n - 1] != c
        invariant
            n <= len <= s@.len(),
            last_index(s@.take(len as int), c) == last_index(s@.take(n as int), c),
        decreases n,
    {
        proof {
            assert(s@.take(n as int).drop_last() =~= s@.take(n - 1));
        }
        n -= 1;
    }
    if n == 0 {
        None
    } else {
        Some(n - 1)
    }
}

/// `Path::join` of two paths.
pub fn join_path(a: &str, b: &str) -> (r: String)
    ensures
        r@ == path_join(a@, b@),
{
    let bc = to_chars(b);
    let ac = to_chars(a);
    if bc.len() > 0 && bc[0] == '/' {
        return b.to_string();
    }
    if ac.len() == 0 {
        return b.to_string();
    }
    let mut r = a.to_string();
    if ac[ac.len() - 1] != '/' {
        r.append("/");
        proof {
            reveal_strlit("/");
            assert("/"@ =~= seq!['/']);
        }
    }
    r.append(b);
    r
}

/// The name of `p` when it names a direct child of `dir`.
pub fn child_name_of(dir: &str, p: &str) -> (r: Option<String>)
    ensures
        match r {
            Some(n) => child_name(dir@, p@) == Some(n@),
            None => child_name(dir@, p@) is None,
        },
{
    let pre = to_chars(join_path(dir, "").as_str());
    proof {
        reveal_strlit("");
        assert(""@ =~= Seq::<char>::empty());
    }
    let pc = to_chars(p);
    if pc.len() <= pre.len() {
        return None;
    }
    if !occurs_at_exec(pc.as_slice(), pre.as_slice(), 0) {
        proof {
            assert(!starts_with(p@, pre@)) by {
                if starts_with(p@, pre@) {
                    assert(p@.subrange(0, pre@.len() as int) =~= p@.take(pre@.len() as int));
                }
            }
        }
        return None;
    }
    let mut i = pre.len();
    while i < pc.len()
        invariant
            pre.len() <= i <= pc.len(),
            pc@ == p@,
            pre@ == dir_prefix(dir@),
            forall|k: int| pre.len() <= k < i ==> pc@[k] != '/',
        decreases pc.len() - i,
    {
        if pc[i] == '/' {
            proof {
                assert(p@.skip(pre@.len() as int)[i - pre.len()] == '/');
                assert(p@.skip(pre@.len() as int).contains('/'));
            }
            return None;
        }
        i += 1;
    }
    let rest = slice_chars(pc.as_slice(), pre.len(), pc.len());
    proof {
        assert(p@.subrange(0, pre@.len() as int) =~= p@.take(pre@.len() as int));
        assert(rest@ =~= p@.skip(pre@.len() as int));
        assert(!rest@.contains('/')) by {
            if rest@.contains('/') {
                let k = choose|k: int| 0 <= k < rest@.len() && rest@[k] == '/';
                assert(pc@[k + pre.len()] == '/');
            }
        }
    }
    Some(from_chars(rest.as_slice()))
}

/// Whether `p` is `root` or lies below it.
pub fn is_under(root: &str, p: &str) -> (r: bool)
    ensures
        r == under(root@, p@),
{
    if str_eq(root, p) {
        return true;
    }
    let pre = to_chars(join_path(root, "").as_str());
    proof {
        reveal_strlit("");
        assert(""@ =~= Seq::<char>::empty());
    }
    let pc = to_chars(p);
    if pc.len() <= pre.len() {
        return false;
    }
    let r = occurs_at_exec(pc.as_slice(), pre.as_slice(), 0);
    proof {
        assert(p@.subrange(0, pre@.len() as int) =~= p@.take(pre@.len() as int));
    }
    r
}

/// `Path::strip_prefix`, as text.
pub fn strip_root_of(root: &str, p: &str) -> (r: Option<String>)
    ensures
        match r {
            Some(s) => strip_root(root@, p@) == Some(s@),
            None => strip_root(root@, p@) is None,
        },
{
    if str_eq(root, p) {
        return Some(String::new());
    }
    let pre = to_chars(join_path(root, "").as_str());
    proof {
        reveal_strlit("");
        assert(""@ =~= Seq::<char>::empty());
    }
    let pc = to_chars(p);
    if pc.len() < pre.len() || !occurs_at_exec(pc.as_slice(), pre.as_slice(), 0) {
        proof {
            if pc.len() >= pre.len() {
                assert(p@.subrange(0, pre@.len() as int) =~= p@.take(pre@.len() as int));
            }
        }
        return None;
    }
    proof {
        assert(p@.subrange(0, pre@.len() as int) =~= p@.take(pre@.len() as int));
    }
    let rest = slice_chars(pc.as_slice(), pre.len(), pc.len());
    proof {
        assert(rest@ =~= p@.skip(pre@.len() as int));
    }
    Some(from_chars(rest.as_slice()))
}

/// `Path::file_name` of a path.
pub fn file_name_of(p: &str) -> (r: Option<String>)
    ensures
        match r {
            Some(n) => file_name(p@) == Some(n@),
            None => file_name(p@) is None,
        },
{
    let pc = to_chars(p);
    let t = trimmed_len(&pc);
    proof {
        let tt = trim_slashes(p@);
        assert(tt == pc@.take(t as int));
        lemma_last_index(tt, '/');
    }
    let start = match last_index_in(&pc, t, '/') {
        Some(k) => k + 1,
        None => 0,
    };
    let n = slice_chars(pc.as_slice(), start, t);
    proof {
        let tt = trim_slashes(p@);
        match last_index(tt, '/') {
            Some(k) => assert(n@ =~= tt.skip(k + 1)),
            None => assert(n@ =~= tt),
        }
    }
    let dot = to_chars(".");
    let dotdot = to_chars("..");
    if n.len() == 0 || chars_eq(n.as_slice(), dot.as_slice()) || chars_eq(n.as_slice(), dotdot.as_slice()) {
        return None;
    }
    Some(from_chars(n.as_slice()))
}

/// `Path::parent` of a path.
pub fn parent_of(p: &str) -> (r: Option<String>)
    ensures
        match r {
            Some(q) => parent(p@) == Some(q@),
            None => parent(p@) is None,
        },
{
    let pc = to_chars(p);
    let t = trimmed_len(&pc);
    if t == 0 {
        return None;
    }
    proof {
        let tt = trim_slashes(p@);
        assert(tt == pc@.take(t as int));
        lemma_last_index(tt, '/');
    }
    match last_index_in(&pc, t, '/') {
        None => Some(String::new()),
        Some(k) => {
            let head = slice_chars(pc.as_slice(), 0, k);
            let q = trimmed_len(&head);
            proof {
                assert(head@ =~= trim_slashes(p@).take(k as int));
            }
            if q == 0 {
                let mut s = String::new();
                crate::text::push_char(&mut s, '/');
                proof {
                    assert(s@ =~= seq!['/']);
                }
                Some(s)
            } else {
                let qq = slice_chars(head.as_slice(), 0, q);
                proof {
                    assert(qq@ =~= head@.take(q as int));
                }
                Some(from_chars(qq.as_slice()))
            }
        },
    }
}

/// Whether the file name of `p` has the extension `ext`.
pub fn has_extension(p: &str, ext: &str) -> (r: bool)
    ensures
        r == (match file_name(p@) {
            Some(n) => extension(n) == Some(ext@),
            None => false,
        }),
{
    let n = match file_name_of(p) {
        Some(n) => n,
        None => return false,
    };
    let nc = to_chars(n.as_str());
    let dotdot = to_chars("..");
    match last_index_in(&nc, nc.len(), '.') {
        Some(k) => {
            proof {
                assert(nc@.take(nc@.len() as int) =~= nc@);
                lemma_last_index(nc@, '.');
            }
            if k == 0 || chars_eq(nc.as_slice(), dotdot.as_slice()) {
                return false;
            }
            let e = slice_chars(nc.as_slice(), k + 1, nc.len());
            let ec = to_chars(ext);
            proof {
                assert(e@ =~= nc@.skip(k + 1));
            }
            chars_eq(e.as_slice(), ec.as_slice())
        },
        None => {
            proof {
                assert(nc@.take(nc@.len() as int) =~= nc@);
            }
            false
        },
    }
}

/// Whether one of the components of `p` is `c`.
pub fn has_component_exec(p: &str, c: &str) -> (r: bool)
    ensures
        r == has_component(p@, c@),
{
    let pc = to_chars(p);
    let cc = to_chars(c);
    for i in 0..pc.len()
        invariant
            pc@ == p@,
            cc@ == c@,
            forall|k: int| 0 <= k < i ==> !component_at(p@, c@, k),
    {
        if occurs_at_exec(pc.as_slice(), cc.as_slice(), i) {
            let left_ok = i == 0 || pc[i - 1] == '/';
            let right_ok = i + cc.len() == pc.len() || pc[i + cc.len()] == '/';
            if left_ok && right_ok {
                proof {
                    assert(component_at(p@, c@, i as int));
                }
                return true;
            }
        }
    }
    let n = pc.len();
    if occurs_at_exec(pc.as_slice(), cc.as_slice(), n) && (n == 0 || pc[n - 1] == '/') {
        proof {
            assert(component_at(p@, c@, n as int));
        }
        return true;
    }
    proof {
        assert forall|k: int| !component_at(p@, c@, k) by {
            if 0 <= k < n {
            } else if k == n {
            }
        }
    }
    false
}

// ---------------------------------------------------------------------------
// Filesystem snapshot
// ---------------------------------------------------------------------------

/// What a path is, following symbolic links.
#[derive(Debug, Clone, Copy, PartialEq, Eq, Structural)]
pub enum NodeKind {
    Dir,
    File,
    Other,
}

/// One path of the snapshot: what it is, whether the entry itself is a
/// symbolic link, and, for a file that reads as UTF-8 text, its text.
#[derive(Debug)]
pub struct FileNode {
    pub path: String,
    pub kind: NodeKind,
    pub link: bool,
    pub text: Option<String>,
}

/// The model of a node.
pub struct NodeView {
    pub path: Seq<char>,
    pub kind: NodeKind,
    pub link: bool,
    pub text: Option<Seq<char>>,
}

/// A snapshot of part of a filesystem.
#[derive(Debug)]
pub struct FileTree {
    pub nodes: Vec<FileNode>,
}

impl View for FileNode {
    type V = NodeView;

    open spec fn view(&self) -> NodeView {
        NodeView {
            path: self.path@,
            kind: self.kind,
            link: self.link,
            text: match self.text {
                Some(t) => Some(t@),
                None => None,
            },
        }
    }
}

impl View for FileTree {
    type V = Seq<NodeView>;

    open spec fn view(&self) -> Seq<NodeView> {
        self.nodes@.map_values(|n: FileNode| n@)
    }
}

/// The first node at path `p`.
pub open spec fn node_at(t: Seq<NodeView>, p: Seq<char>) -> Option<NodeView>
    decreases t.len(),
{
    if t.len() == 0 {
        None
    } else if t[0].path == p {
        Some(t[0])
    } else {
        node_at(t.drop_first(), p)
    }
}

/// `Path::exists`.
pub open spec fn exists_at(t: Seq<NodeView>, p: Seq<char>) -> bool {
    node_at(t, p) is Some
}

/// `Path::is_dir`.
pub open spec fn is_dir_at(t: Seq<NodeView>, p: Seq<char>) -> bool {
    node_at(t, p) matches Some(n) && n.kind == NodeKind::Dir
}

/// `Path::is_file`.
pub open spec fn is_file_at(t: Seq<NodeView>, p: Seq<char>) -> bool {
    node_at(t, p) matches Some(n) && n.kind == NodeKind::File
}

/// `fs::read_to_string`, when it succeeds.
pub open spec fn text_at(t: Seq<NodeView>, p: Seq<char>) -> Option<Seq<char>> {
    match node_at(t, p) {
        Some(n) => if n.kind == NodeKind::File {
            n.text
        } else {
            None
        },
        None => None,
    }
}

/// A directory entry that is itself a directory (`DirEntry::file_type().is_dir()`).
pub open spec fn entry_is_dir(n: NodeView) -> bool {
    n.kind == NodeKind::Dir && !n.link
}

/// A directory entry that is itself a regular file.
pub open spec fn entry_is_file(n: NodeView) -> bool {
    n.kind == NodeKind::File && !n.link
}

proof fn lemma_node_at_skip(t: Seq<NodeView>, p: Seq<char>, i: int)
    requires
        0 <= i <= t.len(),
        forall|k: int| 0 <= k < i ==> t[k].path != p,
    ensures
        node_at(t, p) == node_at(t.skip(i), p),
    decreases i,
{
    if i > 0 {
        lemma_node_at_skip(t.drop_first(), p, i - 1);
        assert(t.drop_first().skip(i - 1) =~= t.skip(i));
    } else {
        assert(t.skip(0) =~= t);
    }
}

impl FileTree {
    /// The first node at path `p`.
    pub fn node(&self, p: &str) -> (r: Option<&FileNode>)
        ensures
            match r {
                Some(n) => node_at(self@, p@) == Some(n@),
                None => node_at(self@, p@) is None,
            },
    {
        let ghost m = self@;
        for i in 0..self.nodes.len()
            invariant
                m == self@,
                m.len() == self.nodes@.len(),
                forall|k: int| 0 <= k < i ==> m[k].path != p@,
        {
            proof {
                assert(m[i as int] == self.nodes@[i as int]@);
            }
            if str_eq(self.nodes[i].path.as_str(), p) {
                proof {
                    lemma_node_at_skip(m, p@, i as int);
                    assert(m.skip(i as int)[0] == m[i as int]);
                }
                return Some(&self.nodes[i]);
            }
        }
        proof {
            lemma_node_at_skip(m, p@, m.len() as int);
        }
        None
    }

    /// `Path::exists`.
    pub fn path_exists(&self, p: &str) -> (r: bool)
        ensures
            r == exists_at(self@, p@),
    {
        self.node(p).is_some()
    }

    /// `Path::is_dir`.
    pub fn is_dir(&self, p: &str) -> (r: bool)
        ensures
            r == is_dir_at(self@, p@),
    {
        match self.node(p) {
            Some(n) => n.kind == NodeKind::Dir,
            None => false,
        }
    }

    /// `Path::is_file`.
    pub fn is_file(&self, p: &str) -> (r: bool)
        ensures
            r == is_file_at(self@, p@),
    {
        match self.node(p) {
            Some(n) => n.kind == NodeKind::File,
            None => false,
        }
    }

    /// The text of the file at `p`, when it reads as text.
    pub fn read_text(&self, p: &str) -> (r: Option<&String>)
        ensures
            match r {
                Some(s) => text_at(self@, p@) == Some(s@),
                None => text_at(self@, p@) is None,
            },
    {
        match self.node(p) {
            Some(n) => if n.kind == NodeKind::File {
                match &n.text {
                    Some(s) => Some(s),
                    None => None,
                }
            } else {
                None
            },
            None => None,
        }
    }
}

} // verus!
