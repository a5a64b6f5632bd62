use canon_core::files::{FileNode, FileTree, NodeKind};
use canon_core::gap_report::formatter::{make_slug, parse_canon_number, slug_from_mapped, GapReportFormatter};
use canon_core::plan::types::{GapReportRow, JudgmentCategory};

fn graduation_row() -> GapReportRow {
    GapReportRow {
        path: "big-file.md".to_string(),
        category: JudgmentCategory::GraduationBoundary,
        description: "file exceeds line threshold".to_string(),
    }
}

fn gap_tree(dir: &str, names: &[&str]) -> FileTree {
    let mut nodes = vec![FileNode { path: dir.to_string(), kind: NodeKind::Dir, link: false, text: None }];
    for n in names {
        nodes.push(FileNode { path: format!("{dir}/{n}"), kind: NodeKind::File, link: false, text: Some(String::new()) });
    }
    FileTree { nodes }
}

#[test]
fn write_produces_file_in_gap_dir() {
    let tree = gap_tree("/gaps", &[]);
    let formatter = GapReportFormatter::new("/gaps", &tree);
    let files = formatter.planned_files(&[graduation_row()]);
    assert_eq!(files.len(), 1);
    let name = files[0].0.strip_prefix("/gaps/").unwrap();
    assert!(name.starts_with("CANON-"));
    let content = &files[0].1;
    assert!(content.contains("type: gap"));
    assert!(content.contains("category: graduation"));
    assert!(content.contains("engine: canon"));
    assert!(content.contains("source: canon-template-architecture-CFC-301"));
}

#[test]
fn write_continues_numbering_across_runs() {
    let tree = gap_tree("/gaps", &[]);
    let first = GapReportFormatter::new("/gaps", &tree).planned_files(&[graduation_row()]);
    let written: Vec<String> = first.iter().map(|(p, _)| p.strip_prefix("/gaps/").unwrap().to_string()).collect();
    let names: Vec<&str> = written.iter().map(|s| s.as_str()).collect();
    let tree2 = gap_tree("/gaps", &names);
    let second = GapReportFormatter::new("/gaps", &tree2).planned_files(&[graduation_row()]);
    let mut all: Vec<String> = first.iter().chain(second.iter()).map(|(p, _)| p.strip_prefix("/gaps/").unwrap().to_string()).collect();
    assert_eq!(all.len(), 2);
    all.sort();
    assert!(all[0].starts_with("CANON-001"), "names={all:?}");
    assert!(all[1].starts_with("CANON-002"), "names={all:?}");
}

#[test]
fn slug_truncates_long_descriptions() {
    let long = "a".repeat(80);
    let slug = make_slug(&long);
    assert!(slug.len() <= 40, "slug too long: {}", slug.len());
}

#[test]
fn parse_canon_number_extracts_nnn() {
    assert_eq!(parse_canon_number("CANON-042-some-slug.md"), Some(42));
    assert_eq!(parse_canon_number("CANON-001-x.md"), Some(1));
    assert_eq!(parse_canon_number("unrelated.md"), None);
}

#[test]
fn numbering_starts_after_the_largest_existing_number() {
    let tree = gap_tree("/gaps", &["CANON-007-a.md", "CANON-003-b.md", "notes.md"]);
    let f = GapReportFormatter::new("/gaps", &tree);
    assert_eq!(f.next_n, 8);
    let files = f.planned_files(&[graduation_row(), graduation_row()]);
    assert_eq!(files[0].0, "/gaps/CANON-008-file-exceeds-line-threshold.md");
    assert_eq!(files[1].0, "/gaps/CANON-009-file-exceeds-line-threshold.md");
}

#[test]
fn slug_is_lowercase_dashed() {
    assert_eq!(make_slug("Folder 'Analysis' needs  a prefix!"), "folder-analysis-needs-a-prefix");
    assert_eq!(make_slug(""), "");
}

#[test]
fn slug_from_mapped_characters() {
    let mapped: Vec<char> = "--ab---c-".chars().collect();
    assert_eq!(slug_from_mapped(&mapped), "ab-c");
    assert_eq!(make_slug("Ünïcode Ω"), "Ünïcode-Ω");
}
