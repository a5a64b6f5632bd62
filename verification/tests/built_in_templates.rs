use canon_core::files::FileTree;
use canon_core::template::loader::production_builtins;
use canon_core::template::{FolderShape, TemplateLoader, TemplateTier};

fn nonexistent_loader() -> TemplateLoader {
    TemplateLoader::with_builtins(production_builtins(), "/nonexistent-workspace".to_string(), "/nonexistent-user".to_string())
}

fn no_files() -> FileTree {
    FileTree { nodes: vec![] }
}

#[test]
fn canon_default_parses_without_error() {
    let loader = nonexistent_loader();
    loader.load_by_name("canon-default", &no_files()).expect("canon-default built-in should parse without error");
}

#[test]
fn canon_default_manifest_matches_format_spec() {
    let loader = nonexistent_loader();
    let t = loader.load_by_name("canon-default", &no_files()).expect("canon-default should load");
    assert_eq!(t.manifest.name, "canon-default");
    assert!(!t.manifest.version.is_empty(), "version must be present");
    assert!(!t.manifest.description.is_empty(), "description must be present");
    assert_eq!(
        t.manifest.folder_rules.shape,
        FolderShape::Custom,
        "canon-default uses custom shape (mixed named top-level folders)"
    );
    if let Some(ref inv) = t.manifest.invariants {
        if let Some(ref gf) = inv.gaps_folder {
            assert!(!gf.is_empty(), "gaps_folder must not be empty");
        }
    }
    assert!(t.dir.is_none(), "built-in template should have no disk dir");
    assert_eq!(t.tier, TemplateTier::BuiltIn);
}

#[test]
fn canon_default_appears_in_template_list_as_builtin() {
    let loader = nonexistent_loader();
    let list = loader.list_all(&no_files());
    let entry = list.iter().find(|t| t.name == "canon-default").expect("canon-default should appear in template list");
    assert_eq!(entry.tier, TemplateTier::BuiltIn);
    assert!(!entry.description.is_empty(), "listed template should have a description");
}

#[test]
fn canon_default_frontmatter_schema_is_referenced() {
    let loader = nonexistent_loader();
    let t = loader.load_by_name("canon-default", &no_files()).expect("canon-default should load");
    let fm = t.manifest.frontmatter.expect("canon-default should reference a frontmatter schema");
    assert_eq!(fm.schema, "frontmatter.schema.json");
}

#[test]
fn builtin_templates_contain_no_accelmars_string() {
    let loader = nonexistent_loader();
    let list = loader.list_all(&no_files());
    for entry in &list {
        if entry.tier == TemplateTier::BuiltIn {
            let t = loader.load_by_name(&entry.name, &no_files()).expect("should load");
            assert!(!t.manifest.name.contains("accelmars"), "built-in '{}' must not contain 'accelmars' in name", entry.name);
            assert!(
                !t.manifest.description.contains("accelmars"),
                "built-in '{}' must not contain 'accelmars' in description",
                entry.name
            );
        }
    }
}

#[test]
fn canon_default_invariants_match_docs() {
    let t = nonexistent_loader().load_by_name("canon-default", &no_files()).unwrap();
    let inv = t.manifest.invariants.expect("canon-default declares invariants");
    assert_eq!(inv.gaps_folder.as_deref(), Some("gaps"));
    assert!(!inv.atomic_file_gate);
    assert!(!inv.index_required);
}
