use canon_core::cli::template::{
    finish_install, install_with_git, run_impl, GitCloner, InstallSource, TemplateRun,
};
use canon_core::files::{FileNode, FileTree, NodeKind};
use std::cell::RefCell;

const FIXTURES: &str = "/repo/tests/fixtures/templates";

fn to_args(parts: &[&str]) -> Vec<String> {
    parts.iter().map(|s| s.to_string()).collect()
}

fn dir(p: &str) -> FileNode {
    FileNode { path: p.to_string(), kind: NodeKind::Dir, link: false, text: None }
}

fn file(p: &str, t: &str) -> FileNode {
    FileNode { path: p.to_string(), kind: NodeKind::File, link: false, text: Some(t.to_string()) }
}

fn fixture_tree() -> FileTree {
    FileTree {
        nodes: vec![
            dir("/repo"),
            dir("/repo/tests"),
            dir("/repo/tests/fixtures"),
            dir(FIXTURES),
            dir(&format!("{FIXTURES}/test-workspace")),
            file(
                &format!("{FIXTURES}/test-workspace/manifest.toml"),
                "name = \"test-workspace\"\nversion = \"0.1.0\"\ndescription = \"workspace fixture\"\n\n[folder_rules]\nshape = \"numbered-tiers\"\n",
            ),
        ],
    }
}

struct NoopGitCloner;

impl GitCloner for NoopGitCloner {
    fn clone_repo(&self, _url: &str, _dest: &str) -> Result<(), String> {
        panic!("GitCloner::clone_repo called unexpectedly")
    }
}

struct MockGitCloner {
    calls: RefCell<Vec<(String, String)>>,
}

impl GitCloner for MockGitCloner {
    fn clone_repo(&self, url: &str, dest: &str) -> Result<(), String> {
        self.calls.borrow_mut().push((url.to_string(), dest.to_string()));
        Ok(())
    }
}

struct FailingGitCloner;

impl GitCloner for FailingGitCloner {
    fn clone_repo(&self, _url: &str, _dest: &str) -> Result<(), String> {
        Err("git clone failed (exit: exit status: 128)".to_string())
    }
}

fn exit_code(r: &TemplateRun) -> i32 {
    match r {
        TemplateRun::Exit(c) => *c,
        TemplateRun::Install(p) => panic!("unexpected install plan {:?}", p),
    }
}

fn run(args: &[&str], ws: &str, cwd: &str, user: &str, tree: &FileTree) -> (TemplateRun, String, String) {
    let mut out = String::new();
    let mut err = String::new();
    let r = run_impl(&to_args(args), &mut out, &mut err, ws, cwd, user, user, tree);
    (r, out, err)
}

#[test]
fn list_shows_builtin_templates() {
    let (r, output, err) = run(
        &["list"],
        "/nonexistent-workspace-list-test",
        "/nonexistent-workspace-list-test",
        "/nonexistent-user-templates-list-test",
        &FileTree { nodes: vec![] },
    );
    assert_eq!(exit_code(&r), 0, "list should exit 0; stderr: {}", err);
    let _ = NoopGitCloner;
    assert!(output.contains("BUILT-IN TEMPLATES"), "should show built-in section");
    assert!(output.contains("canon-default"), "should list canon-default built-in");
    assert!(output.contains("WORKSPACE TEMPLATES"), "should show workspace section");
    assert!(output.contains("USER TEMPLATES"), "should show user section");
}

#[test]
fn list_shows_workspace_templates_when_present() {
    let (r, output, _err) = run(&["list"], "/repo/tests", "/repo/tests", "/nonexistent-user-templates-ws-test", &fixture_tree());
    assert_eq!(exit_code(&r), 0);
    assert!(output.contains("WORKSPACE TEMPLATES (.accelmars/canon/templates/)"));
}

#[test]
fn list_output_is_exact() {
    let mut nodes = fixture_tree().nodes;
    nodes.push(dir("/w/.accelmars/canon/templates"));
    nodes.push(dir("/w/.accelmars/canon/templates/mine"));
    nodes.push(file(
        "/w/.accelmars/canon/templates/mine/manifest.toml",
        "name = \"mine\"\nversion = \"1\"\ndescription = \"my template\"\n[folder_rules]\nshape = \"flat\"\n",
    ));
    let tree = FileTree { nodes };
    let (r, output, _) = run(&["list"], "/w", "/w", "/home/u/.config/canon/templates", &tree);
    assert_eq!(exit_code(&r), 0);
    assert_eq!(
        output,
        "BUILT-IN TEMPLATES\n  canon-default           Canon refinery output: atoms, domains, load-packs, archive and gaps folders\n\nWORKSPACE TEMPLATES (.accelmars/canon/templates/)\n  mine                    my template\n\nUSER TEMPLATES (/home/u/.config/canon/templates/)\n  (none)\n"
    );
}

#[test]
fn list_rejects_unknown_flag_and_shows_help() {
    let (r, _, err) = run(&["list", "--bogus"], "/w", "/w", "/u", &FileTree { nodes: vec![] });
    assert_eq!(exit_code(&r), 2);
    assert_eq!(err, "error: unknown flag '--bogus'\n");
    let (r, out, _) = run(&["list", "--bogus", "-h"], "/w", "/w", "/u", &FileTree { nodes: vec![] });
    assert_eq!(exit_code(&r), 0);
    assert!(out.starts_with("USAGE:\n  canon template list"));
}

#[test]
fn show_canon_default_prints_coherent_manifest() {
    let (r, output, err) = run(&["show", "canon-default"], "/nonexistent-workspace", "/nonexistent-cwd", "/nonexistent-user", &FileTree { nodes: vec![] });
    assert_eq!(exit_code(&r), 0, "show canon-default should succeed; stderr: {}", err);
    assert!(output.contains("name:"), "should show name field");
    assert!(output.contains("canon-default"), "should show template name");
    assert!(output.contains("version:"), "should show version field");
    assert!(output.contains("description:"), "should show description field");
    assert!(output.contains("shape:"), "should show shape field");
    assert!(output.contains("tier:"), "should show tier field");
    assert!(output.contains("built-in"), "should identify as built-in tier");
}

#[test]
fn show_canon_default_json_format() {
    let (r, output, _) = run(&["show", "canon-default", "--format", "json"], "/nonexistent-workspace", "/nonexistent-cwd", "/nonexistent-user", &FileTree { nodes: vec![] });
    assert_eq!(exit_code(&r), 0, "show --format json should succeed");
    let parsed: serde_json::Value = serde_json::from_str(&output).expect("show --format json should emit valid JSON");
    assert_eq!(parsed["name"], "canon-default");
    assert_eq!(parsed["tier"], "built-in");
    assert!(parsed["folder_rules"]["shape"].is_string());
}

#[test]
fn show_table_is_exact() {
    let (r, output, _) = run(&["show", "canon-default"], "/w", "/w", "/u", &FileTree { nodes: vec![] });
    assert_eq!(exit_code(&r), 0);
    assert_eq!(
        output,
        "name:             canon-default\nversion:          0.1.0\ndescription:      Canon refinery output: atoms, domains, load-packs, archive and gaps folders\ntier:             built-in\nshape:            custom\nschema:           frontmatter.schema.json\nindex_required:   false\natomic_file_gate: false\ngaps_folder:      gaps\n"
    );
}

#[test]
fn show_json_is_pretty_with_sorted_keys() {
    let (r, output, _) = run(&["show", "-f", "json", "canon-default"], "/w", "/w", "/u", &FileTree { nodes: vec![] });
    assert_eq!(exit_code(&r), 0);
    assert_eq!(
        output,
        "{\n  \"description\": \"Canon refinery output: atoms, domains, load-packs, archive and gaps folders\",\n  \"folder_rules\": {\n    \"shape\": \"custom\"\n  },\n  \"frontmatter\": {\n    \"schema\": \"frontmatter.schema.json\"\n  },\n  \"invariants\": {\n    \"atomic_file_gate\": false,\n    \"gaps_folder\": \"gaps\",\n    \"index_required\": false\n  },\n  \"name\": \"canon-default\",\n  \"tier\": \"built-in\",\n  \"version\": \"0.1.0\"\n}\n"
    );
}

#[test]
fn show_errors() {
    let empty = FileTree { nodes: vec![] };
    let (r, _, err) = run(&["show"], "/w", "/w", "/u", &empty);
    assert_eq!(exit_code(&r), 2);
    assert_eq!(err, "error: <name> is required\n");
    let (r, _, err) = run(&["show", "a", "b"], "/w", "/w", "/u", &empty);
    assert_eq!(exit_code(&r), 2);
    assert_eq!(err, "error: unexpected argument 'b' (name already set)\n");
    let (r, _, err) = run(&["show", "a", "--format", "yaml"], "/w", "/w", "/u", &empty);
    assert_eq!(exit_code(&r), 2);
    assert_eq!(err, "error: unknown format 'yaml'; valid values: table, json\n");
    let (r, _, err) = run(&["show", "a", "--format"], "/w", "/w", "/u", &empty);
    assert_eq!(exit_code(&r), 2);
    assert_eq!(err, "error: --format requires a value\n");
    let (r, _, err) = run(&["show", "nope"], "/w", "/w", "/u", &empty);
    assert_eq!(exit_code(&r), 2);
    assert_eq!(
        err,
        "error: template 'nope' not found; searched: /w/.accelmars/canon/templates/nope, /u/nope\n"
    );
}

#[test]
fn validate_accepts_valid_template() {
    let fixture_path = format!("{FIXTURES}/test-workspace");
    let (r, output, err) = run(&["validate", &fixture_path], "/nonexistent", "/", "/nonexistent-user", &fixture_tree());
    assert_eq!(exit_code(&r), 0, "valid template should exit 0; stderr: {}", err);
    assert!(output.contains("valid:"), "should print valid confirmation");
    assert!(output.contains("test-workspace"), "should name the template");
}

#[test]
fn validate_rejects_malformed_template_with_line_field_info() {
    let tree = FileTree { nodes: vec![dir("/tmp/t1"), file("/tmp/t1/manifest.toml", "not valid toml %%$#@!\n[broken")] };
    let (r, _, stderr) = run(&["validate", "/tmp/t1"], "/nonexistent", "/", "/nonexistent-user", &tree);
    assert_eq!(exit_code(&r), 1, "malformed template should exit 1");
    assert!(stderr.contains("invalid:"), "should describe invalid template; got: {stderr}");
}

#[test]
fn validate_missing_schema_file_exits_1() {
    let tree = FileTree {
        nodes: vec![
            dir("/tmp/t2"),
            file(
                "/tmp/t2/manifest.toml",
                "name = \"test\"\nversion = \"0.1.0\"\ndescription = \"test\"\n\n[folder_rules]\nshape = \"flat\"\n\n[frontmatter]\nschema = \"missing.schema.json\"\n",
            ),
        ],
    };
    let (r, _, stderr) = run(&["validate", "/tmp/t2"], "/nonexistent", "/", "/nonexistent-user", &tree);
    assert_eq!(exit_code(&r), 1, "missing schema should exit 1");
    assert!(stderr.contains("invalid:"), "should describe invalid template; got: {stderr}");
    assert_eq!(stderr, "invalid: template 'test' — schema '/tmp/t2/missing.schema.json' not found\n");
}

#[test]
fn validate_relative_path_not_found() {
    let (r, _, err) = run(&["validate", "nowhere"], "/ws", "/cwd", "/u", &FileTree { nodes: vec![] });
    assert_eq!(exit_code(&r), 2);
    assert_eq!(err, "error: template path 'nowhere' not found\nHint: paths are resolved from workspace root (/ws)\n");
}

#[test]
fn install_from_local_path_copies_to_user_dir() {
    let src = format!("{FIXTURES}/test-workspace");
    let (r, _, err) = run(&["install", &src], "/nonexistent", "/", "/home/u/templates", &fixture_tree());
    let plan = match r {
        TemplateRun::Install(p) => p,
        TemplateRun::Exit(c) => panic!("install from local path should succeed; exit {c}; stderr: {err}"),
    };
    assert_eq!(plan.name, "test-workspace");
    assert_eq!(plan.dest, "/home/u/templates/test-workspace", "template dir should go to user_dir/test-workspace");
    assert!(matches!(&plan.source, InstallSource::Local(s) if *s == src), "manifest.toml should be copied from the source");
    let mut out = String::new();
    let mut err = String::new();
    let code = finish_install(&plan, &Ok(()), &mut out, &mut err);
    assert_eq!(code, 0);
    assert!(out.contains("installed:"), "should confirm installation");
    assert!(out.contains("test-workspace"), "should name the template");
    assert_eq!(out, "installed: 'test-workspace' → '/home/u/templates/test-workspace'\n");
}

#[test]
fn install_local_rejects_already_installed() {
    let src = format!("{FIXTURES}/test-workspace");
    let mut nodes = fixture_tree().nodes;
    nodes.push(dir("/home/u/templates"));
    nodes.push(dir("/home/u/templates/test-workspace"));
    let tree = FileTree { nodes };
    let (r, _, stderr) = run(&["install", &src], "/nonexistent", "/", "/home/u/templates", &tree);
    assert_eq!(exit_code(&r), 2, "should fail when destination already exists");
    assert!(stderr.contains("already exists"), "should describe conflict; got: {stderr}");
}

#[test]
fn install_from_git_url_attempts_clone_and_writes_to_user_dir() {
    let url = "https://github.com/example/my-template.git";
    let (r, _, err) = run(&["install", url], "/nonexistent", "/nonexistent-cwd", "/home/u/templates", &FileTree { nodes: vec![] });
    let plan = match r {
        TemplateRun::Install(p) => p,
        TemplateRun::Exit(c) => panic!("git install should succeed with mock cloner; exit {c}; stderr: {err}"),
    };
    let mock = MockGitCloner { calls: RefCell::new(vec![]) };
    let mut out = String::new();
    let mut err = String::new();
    let code = install_with_git(&plan, &mock, &mut out, &mut err);
    assert_eq!(code, 0, "git install should succeed with mock cloner; stderr: {}", err);
    let calls = mock.calls.borrow().clone();
    assert_eq!(calls.len(), 1, "should call clone_repo exactly once");
    assert_eq!(calls[0].0, url, "should clone the provided URL");
    assert!(calls[0].1.starts_with("/home/u/templates"), "clone dest should be inside user_dir");
    assert_eq!(calls[0].1, "/home/u/templates/my-template");
}

#[test]
fn install_git_failure_is_reported() {
    let (r, _, _) = run(&["install", "git@host:x/repo.git"], "/w", "/w", "/u", &FileTree { nodes: vec![] });
    let plan = match r {
        TemplateRun::Install(p) => p,
        TemplateRun::Exit(c) => panic!("unexpected exit {c}"),
    };
    assert_eq!(plan.name, "repo");
    let mut out = String::new();
    let mut err = String::new();
    let code = install_with_git(&plan, &FailingGitCloner, &mut out, &mut err);
    assert_eq!(code, 2);
    assert_eq!(err, "error: git clone failed (exit: exit status: 128)\n");
}

#[test]
fn install_rejects_bad_names_and_sources() {
    let empty = FileTree { nodes: vec![] };
    let (r, _, err) = run(&["install", "https://example.com/Bad_Name.git"], "/w", "/w", "/u", &empty);
    assert_eq!(exit_code(&r), 2);
    assert_eq!(err, "error: could not derive a valid template name from URL 'https://example.com/Bad_Name.git'\n");
    let (r, _, err) = run(&["install", "rel/path"], "/w", "/cwd", "/u", &empty);
    assert_eq!(exit_code(&r), 2);
    assert_eq!(err, "error: local path 'rel/path' not found\n");
    let tree = FileTree { nodes: vec![dir("/src"), file("/src/manifest.toml", "version = \"1\"\n")] };
    let (r, _, err) = run(&["install", "/src"], "/w", "/cwd", "/u", &tree);
    assert_eq!(exit_code(&r), 2);
    assert_eq!(err, "error: manifest.toml missing or invalid 'name' field\n");
    let tree = FileTree { nodes: vec![dir("/src")] };
    let (r, _, err) = run(&["install", "/src"], "/w", "/cwd", "/u", &tree);
    assert_eq!(exit_code(&r), 2);
    assert_eq!(err, "error: could not read manifest.toml: No such file or directory (os error 2)\n");
    let (r, _, err) = run(&["install"], "/w", "/cwd", "/u", &empty);
    assert_eq!(exit_code(&r), 2);
    assert_eq!(err, "error: <source> is required\n");
}

#[test]
fn local_copy_failure_is_reported() {
    let tree = FileTree { nodes: vec![dir("/src"), file("/src/manifest.toml", "name = \"ok-name\"\n")] };
    let (r, _, _) = run(&["install", "/src"], "/w", "/cwd", "/u", &tree);
    let plan = match r {
        TemplateRun::Install(p) => p,
        TemplateRun::Exit(c) => panic!("unexpected exit {c}"),
    };
    let mut out = String::new();
    let mut err = String::new();
    assert_eq!(finish_install(&plan, &Err("disk full".to_string()), &mut out, &mut err), 2);
    assert_eq!(err, "error: copy failed: disk full\n");
}

#[test]
fn template_subcommand_dispatch() {
    let empty = FileTree { nodes: vec![] };
    let (r, _, err) = run(&[], "/w", "/w", "/u", &empty);
    assert_eq!(exit_code(&r), 2);
    assert!(err.starts_with("canon template: no subcommand. Try 'canon template list'.\nUSAGE:"));
    let (r, _, err) = run(&["frob"], "/w", "/w", "/u", &empty);
    assert_eq!(exit_code(&r), 2);
    assert_eq!(err, "canon template: unknown subcommand 'frob'. Try 'canon template list'.\n");
    let (r, out, _) = run(&["help"], "/w", "/w", "/u", &empty);
    assert_eq!(exit_code(&r), 0);
    assert!(out.contains("  install <source>   Install a template (local path or git URL)\n"));
}

#[test]
fn validate_rejects_absolute_and_url_schema_paths() {
    for schema in ["/etc/hostname", "https://example.com/frontmatter.schema.json"] {
        let tree = FileTree {
            nodes: vec![
                dir("/etc"),
                file("/etc/hostname", "host\n"),
                dir("/tmp/t3"),
                file(
                    "/tmp/t3/manifest.toml",
                    &format!("name = \"test\"\nversion = \"0.1.0\"\ndescription = \"test\"\n\n[folder_rules]\nshape = \"flat\"\n\n[frontmatter]\nschema = \"{schema}\"\n"),
                ),
            ],
        };
        let (r, _, stderr) = run(&["validate", "/tmp/t3"], "/nonexistent", "/", "/nonexistent-user", &tree);
        assert_eq!(exit_code(&r), 1);
        assert_eq!(
            stderr,
            format!("invalid: test — frontmatter.schema '{schema}' must be a path relative to the template directory; absolute paths and URLs are rejected\n")
        );
    }
}
