use canon_core::files::{FileNode, FileTree, NodeKind};
use canon_core::template::{TemplateError, TemplateLoader, TemplateTier};

const TEST_BUILTIN_MANIFEST_TOML: &str =
    "name = \"test-builtin\"\nversion = \"0.1.0\"\ndescription = \"built-in fixture\"\n\n[folder_rules]\nshape = \"flat\"\n";

const FIXTURES: &str = "/repo/tests/fixtures/templates";

fn fixture_tree() -> FileTree {
    let dir = |p: String| FileNode { path: p, kind: NodeKind::Dir, link: false, text: None };
    let file = |p: String, t: &str| FileNode { path: p, kind: NodeKind::File, link: false, text: Some(t.to_string()) };
    FileTree {
        nodes: vec![
            dir(FIXTURES.to_string()),
            dir(format!("{FIXTURES}/test-workspace")),
            file(
                format!("{FIXTURES}/test-workspace/manifest.toml"),
                "name = \"test-workspace\"\nversion = \"0.1.0\"\ndescription = \"workspace fixture\"\n\n[folder_rules]\nshape = \"numbered-tiers\"\n",
            ),
            dir(format!("{FIXTURES}/test-user")),
            file(
                format!("{FIXTURES}/test-user/manifest.toml"),
                "name = \"test-user\"\nversion = \"0.1.0\"\ndescription = \"user fixture\"\n\n[folder_rules]\nshape = \"by-domain\"\n",
            ),
        ],
    }
}

fn test_loader() -> TemplateLoader {
    TemplateLoader::with_builtins(
        vec![("test-builtin".to_string(), TEST_BUILTIN_MANIFEST_TOML.to_string())],
        FIXTURES.to_string(),
        FIXTURES.to_string(),
    )
}

#[test]
fn builtin_load() {
    let loader = TemplateLoader::with_builtins(
        vec![("test-builtin".to_string(), TEST_BUILTIN_MANIFEST_TOML.to_string())],
        "/nonexistent-workspace-dir".to_string(),
        "/nonexistent-user-dir".to_string(),
    );
    let t = loader.load_by_name("test-builtin", &fixture_tree()).expect("built-in template should load");
    assert_eq!(t.manifest.name, "test-builtin");
    assert_eq!(t.tier, TemplateTier::BuiltIn);
    assert!(t.dir.is_none(), "built-in should have no dir");
}

#[test]
fn workspace_load() {
    let loader = test_loader();
    let t = loader.load_by_name("test-workspace", &fixture_tree()).expect("workspace template should load");
    assert_eq!(t.manifest.name, "test-workspace");
    assert_eq!(t.tier, TemplateTier::Workspace);
    assert!(t.dir.is_some(), "workspace template should have a dir");
}

#[test]
fn user_load() {
    let loader = TemplateLoader::with_builtins(vec![], "/nonexistent-workspace-dir".to_string(), FIXTURES.to_string());
    let t = loader.load_by_name("test-user", &fixture_tree()).expect("user template should load");
    assert_eq!(t.manifest.name, "test-user");
    assert_eq!(t.tier, TemplateTier::User);
    assert!(t.dir.is_some());
}

#[test]
fn explicit_path_override() {
    let loader = test_loader();
    let path = format!("{FIXTURES}/test-workspace");
    let t = loader.load_by_path(&path, &fixture_tree()).expect("explicit-path load should succeed");
    assert_eq!(t.manifest.name, "test-workspace");
    assert!(matches!(t.tier, TemplateTier::ExplicitPath(_)), "tier should be ExplicitPath");
}

#[test]
fn missing_template_error_names_search_paths() {
    let loader = test_loader();
    let err = loader.load_by_name("does-not-exist", &fixture_tree()).unwrap_err();
    match err {
        TemplateError::NotFound { name, searched } => {
            assert_eq!(name, "does-not-exist");
            assert!(!searched.is_empty(), "error should name at least one searched path");
            assert_eq!(
                searched,
                vec![format!("{FIXTURES}/does-not-exist"), format!("{FIXTURES}/does-not-exist")]
            );
        }
        other => panic!("expected NotFound, got: {}", other.message()),
    }
}

#[test]
fn malformed_manifest_rejected_with_line_info() {
    let loader = TemplateLoader::with_builtins(
        vec![("bad".to_string(), "not valid toml %%$#@!\n[broken".to_string())],
        "/nonexistent".to_string(),
        "/nonexistent".to_string(),
    );
    let err = loader.load_by_name("bad", &fixture_tree()).unwrap_err();
    let msg = err.message();
    assert!(matches!(err, TemplateError::Malformed { .. }), "should be Malformed, got: {msg}");
    assert!(msg.contains("malformed template"), "error message should describe malformed template");
}

#[test]
fn tier_precedence_workspace_wins_over_builtin() {
    let loader = TemplateLoader::with_builtins(
        vec![("test-workspace".to_string(), TEST_BUILTIN_MANIFEST_TOML.to_string())],
        FIXTURES.to_string(),
        FIXTURES.to_string(),
    );
    let t = loader.load_by_name("test-workspace", &fixture_tree()).expect("should load");
    assert_eq!(t.tier, TemplateTier::Workspace, "workspace should win over a built-in with the same name");
    assert_eq!(t.manifest.name, "test-workspace");
}

#[test]
fn missing_manifest_in_template_dir_is_malformed() {
    let tree = FileTree {
        nodes: vec![FileNode { path: "/t/empty".to_string(), kind: NodeKind::Dir, link: false, text: None }],
    };
    let loader = TemplateLoader::with_builtins(vec![], "/t".to_string(), "/u".to_string());
    match loader.load_by_name("empty", &tree) {
        Err(TemplateError::Malformed { source, error }) => {
            assert_eq!(source, "/t/empty");
            assert_eq!(error, "missing manifest.toml");
        }
        other => panic!("expected Malformed, got {:?}", other.map(|t| t.manifest.name)),
    }
}

#[test]
fn manifest_field_errors_are_described() {
    let tree = FileTree {
        nodes: vec![
            FileNode { path: "/t/x".to_string(), kind: NodeKind::Dir, link: false, text: None },
            FileNode {
                path: "/t/x/manifest.toml".to_string(),
                kind: NodeKind::File,
                link: false,
                text: Some("name = \"x\"\nversion = \"1\"\n[folder_rules]\nshape = \"flat\"\n".to_string()),
            },
        ],
    };
    let loader = TemplateLoader::with_builtins(vec![], "/t".to_string(), "/u".to_string());
    let err = loader.load_by_name("x", &tree).unwrap_err();
    assert_eq!(err.message(), "malformed template '/t/x': missing field `description`");
}

#[test]
fn list_all_shadows_builtin_with_workspace_template() {
    let loader = TemplateLoader::with_builtins(
        vec![
            ("test-workspace".to_string(), TEST_BUILTIN_MANIFEST_TOML.to_string()),
            ("test-builtin".to_string(), TEST_BUILTIN_MANIFEST_TOML.to_string()),
        ],
        FIXTURES.to_string(),
        "/nonexistent-user".to_string(),
    );
    let list = loader.list_all(&fixture_tree());
    let names: Vec<(String, TemplateTier)> = list.iter().map(|t| (t.name.clone(), t.tier.clone())).collect();
    assert_eq!(
        names,
        vec![
            ("test-workspace".to_string(), TemplateTier::Workspace),
            ("test-user".to_string(), TemplateTier::Workspace),
            ("test-builtin".to_string(), TemplateTier::BuiltIn),
        ]
    );
}
