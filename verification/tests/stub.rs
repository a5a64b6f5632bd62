use canon_core::stub::date_of_days;
use canon_core::files::{FileNode, FileTree, NodeKind};
use canon_core::stub::{emit_index_stubs, is_numbered_dir, toc_rows};

fn d(p: &str) -> FileNode {
    FileNode { path: p.to_string(), kind: NodeKind::Dir, link: false, text: None }
}

fn f(p: &str, t: &str) -> FileNode {
    FileNode { path: p.to_string(), kind: NodeKind::File, link: false, text: Some(t.to_string()) }
}

#[test]
fn numbered_dir_without_index_gets_stub() {
    let tree = FileTree { nodes: vec![d("/c"), d("/c/01-identity"), f("/c/01-identity/overview.md", "")] };
    let stubs = emit_index_stubs("/c", "my-engine", "2026-05-02", &tree);
    assert_eq!(stubs.len(), 1);
    assert_eq!(stubs[0].path, "/c/01-identity/_INDEX.md");
    let content = &stubs[0].content;
    assert!(content.contains("title: \"01-identity\""));
    assert!(content.contains("engine: \"my-engine\""));
    assert!(content.contains("category: \"identity\""));
    assert!(content.contains("status: active"));
    assert!(content.contains("created: 2026-05-02"));
    assert!(content.contains("<!-- TODO: write 1-3 sentence summary"));
    assert!(content.contains("| [overview.md](./overview.md) | |"));
}

#[test]
fn numbered_dir_with_existing_index_is_not_overwritten() {
    let tree = FileTree { nodes: vec![d("/c"), d("/c/02-design"), f("/c/02-design/_INDEX.md", "# existing")] };
    let stubs = emit_index_stubs("/c", "eng", "2026-05-02", &tree);
    assert_eq!(stubs.len(), 0);
    assert_eq!(tree.nodes[2].text.as_deref(), Some("# existing"), "_INDEX.md must not be overwritten");
}

#[test]
fn non_numbered_dir_is_ignored() {
    let tree = FileTree { nodes: vec![d("/c"), d("/c/archive"), d("/c/src")] };
    let stubs = emit_index_stubs("/c", "eng", "2026-05-02", &tree);
    assert_eq!(stubs.len(), 0);
    assert!(!stubs.iter().any(|s| s.path == "/c/archive/_INDEX.md"));
    assert!(!stubs.iter().any(|s| s.path == "/c/src/_INDEX.md"));
}

#[test]
fn multiple_dirs_returns_correct_count() {
    let tree = FileTree {
        nodes: vec![
            d("/c"),
            d("/c/01-identity"),
            d("/c/11-architecture"),
            d("/c/31-evals"),
            d("/c/41-gaps"),
            f("/c/41-gaps/_INDEX.md", ""),
        ],
    };
    let stubs = emit_index_stubs("/c", "eng", "2026-05-02", &tree);
    assert_eq!(stubs.len(), 3);
}

#[test]
fn stub_text_is_exact_and_toc_sorted() {
    let tree = FileTree {
        nodes: vec![
            d("/c"),
            d("/c/05-notes"),
            f("/c/05-notes/zeta.md", ""),
            f("/c/05-notes/alpha.md", ""),
            f("/c/05-notes/readme.txt", ""),
            d("/c/05-notes/sub"),
            f("/c/05-notes/sub/deep.md", ""),
        ],
    };
    let stubs = emit_index_stubs("/c", "eng", "2026-01-01", &tree);
    assert_eq!(stubs.len(), 1);
    assert_eq!(
        stubs[0].content,
        "---\ntitle: \"05-notes\"\ntype: index\nengine: \"eng\"\ncategory: \"notes\"\nstatus: active\nschema_version: 1\ncreated: 2026-01-01\nupdated: 2026-01-01\n---\n\n<!-- TODO: write 1-3 sentence summary of this folder -->\n\n## Contents\n\n| File | Description |\n|------|-------------|\n| [alpha.md](./alpha.md) | |\n| [zeta.md](./zeta.md) | |\n"
    );
    let rows = toc_rows("/c/05-notes", &tree);
    assert_eq!(rows, vec!["| [alpha.md](./alpha.md) | |".to_string(), "| [zeta.md](./zeta.md) | |".to_string()]);
}

#[test]
fn missing_root_gives_no_stubs() {
    let tree = FileTree { nodes: vec![] };
    assert!(emit_index_stubs("/nowhere", "eng", "2026-05-02", &tree).is_empty());
}

#[test]
fn numbered_names() {
    assert!(is_numbered_dir("01-identity"));
    assert!(is_numbered_dir("99-"));
    assert!(!is_numbered_dir("1-x"));
    assert!(!is_numbered_dir("ab-x"));
    assert!(!is_numbered_dir("01_x"));
}

#[test]
fn date_of_days_gives_calendar_dates() {
    assert_eq!(date_of_days(0), "1970-01-01");
    assert_eq!(date_of_days(59), "1970-03-01");
    assert_eq!(date_of_days(11016), "2000-02-29");
    assert_eq!(date_of_days(20575), "2026-05-02");
}
