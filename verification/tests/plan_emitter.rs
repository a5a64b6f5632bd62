use canon_core::audit::drift::{DriftCategory, DriftEntry};
use canon_core::files::{FileNode, FileTree, NodeKind};
use canon_core::plan::emitter::{extract_field_from_message, folder_map_from_rules, load_folder_number_map, MechanicalPlanEmitter};
use canon_core::toml_value::TomlValue;
use canon_core::plan::judgment_iface::DefaultJudgmentEmitter;
use canon_core::plan::types::{FmPlanOp, JudgmentCategory, MainPlanOp};
use canon_core::template::manifest::{FolderRules, FolderShape, LoadedTemplate, TemplateManifest, TemplateTier};

fn make_entry(path: &str, category: DriftCategory, msg: &str) -> DriftEntry {
    DriftEntry { path: path.to_string(), category, message: msg.to_string() }
}

fn minimal_manifest() -> TemplateManifest {
    TemplateManifest {
        name: "test".to_string(),
        version: "1.0.0".to_string(),
        description: "test template".to_string(),
        folder_rules: FolderRules { shape: FolderShape::NumberedTiers },
        frontmatter: None,
        invariants: None,
        naming_conventions: None,
    }
}

fn builtin_template() -> LoadedTemplate {
    LoadedTemplate { manifest: minimal_manifest(), tier: TemplateTier::BuiltIn, dir: None }
}

fn empty_tree() -> FileTree {
    FileTree { nodes: vec![] }
}

fn rules_tree(dir: &str, rules: &str) -> FileTree {
    FileTree {
        nodes: vec![
            FileNode { path: dir.to_string(), kind: NodeKind::Dir, link: false, text: None },
            FileNode {
                path: format!("{dir}/folder-rules.toml"),
                kind: NodeKind::File,
                link: false,
                text: Some(rules.to_string()),
            },
        ],
    }
}

#[test]
fn empty_drift_produces_empty_plans() {
    let judge = DefaultJudgmentEmitter;
    let emitter = MechanicalPlanEmitter::new(&judge);
    let emission = emitter.emit("/corpus", &[], &builtin_template(), &empty_tree()).unwrap();
    assert!(emission.main_plan.is_empty());
    assert!(emission.fm_plan.is_empty());
    assert!(emission.gap_rows.is_empty());
}

#[test]
fn graduation_candidate_produces_gap_row() {
    let judge = DefaultJudgmentEmitter;
    let emitter = MechanicalPlanEmitter::new(&judge);
    let drift = vec![make_entry("/corpus/big-file.md", DriftCategory::GraduationCandidate, "file exceeds line threshold")];
    let emission = emitter.emit("/corpus", &drift, &builtin_template(), &empty_tree()).unwrap();
    assert!(emission.main_plan.is_empty());
    assert_eq!(emission.gap_rows.len(), 1);
    assert_eq!(emission.gap_rows[0].category, JudgmentCategory::GraduationBoundary);
}

#[test]
fn frontmatter_required_missing_produces_fm_op() {
    let judge = DefaultJudgmentEmitter;
    let emitter = MechanicalPlanEmitter::new(&judge);
    let drift = vec![make_entry(
        "/corpus/01-identity/_INDEX.md",
        DriftCategory::FrontmatterRequiredMissing,
        "required field 'schema_version' is absent",
    )];
    let emission = emitter.emit("/corpus", &drift, &builtin_template(), &empty_tree()).unwrap();
    assert_eq!(emission.fm_plan.ops.len(), 1);
    match &emission.fm_plan.ops[0] {
        FmPlanOp::AddField { field, .. } => assert_eq!(field, "schema_version"),
        other => panic!("expected AddField, got {:?}", other),
    }
}

#[test]
fn unknown_field_info_is_silent() {
    let judge = DefaultJudgmentEmitter;
    let emitter = MechanicalPlanEmitter::new(&judge);
    let drift = vec![make_entry(
        "/corpus/foo.md",
        DriftCategory::UnknownFieldInfo,
        "field 'custom_field' is not defined in the frontmatter schema",
    )];
    let emission = emitter.emit("/corpus", &drift, &builtin_template(), &empty_tree()).unwrap();
    assert!(emission.main_plan.is_empty());
    assert!(emission.fm_plan.is_empty());
    assert!(emission.gap_rows.is_empty());
}

#[test]
fn extract_field_from_message_required() {
    assert_eq!(extract_field_from_message("required field 'schema_version' is absent"), Some("schema_version".to_string()));
}

#[test]
fn extract_field_from_message_type_wrong() {
    assert_eq!(
        extract_field_from_message("field 'status' expected type 'string' but got 'integer'"),
        Some("status".to_string())
    );
}

#[test]
fn extract_field_from_message_value_invalid() {
    assert_eq!(
        extract_field_from_message("field 'type' value 'UNKNOWN' is not in allowed enum [...]"),
        Some("type".to_string())
    );
}

#[test]
fn extract_field_from_message_without_marker_is_none() {
    assert_eq!(extract_field_from_message("file has no frontmatter"), None);
    assert_eq!(extract_field_from_message("field 'unterminated"), None);
}

#[test]
fn folder_number_map_parses_correctly() {
    let rules = r#"
[[categories]]
number = "32"
folder = "32-analysis"
what = "Research briefs"
layer = "universal"

[[categories]]
number = "01"
folder = "01-identity"
what = "Identity"
layer = "universal"
"#;
    let tree = rules_tree("/tmpl", rules);
    let map = load_folder_number_map(&Some("/tmpl".to_string()), &tree);
    let get = |k: &str| map.iter().find(|(a, _)| a == k).map(|(_, b)| b.clone());
    assert_eq!(get("analysis"), Some("32-analysis".to_string()));
    assert_eq!(get("identity"), Some("01-identity".to_string()));
}

#[test]
fn folder_number_map_missing_file_is_empty() {
    let map = load_folder_number_map(&Some("/nowhere".to_string()), &empty_tree());
    assert!(map.is_empty());
    let map = load_folder_number_map(&None, &empty_tree());
    assert!(map.is_empty());
}

#[test]
fn folder_shape_drift_with_map_produces_move_op() {
    let tree = rules_tree(
        "/tmpl",
        "[[categories]]\nnumber = \"32\"\nfolder = \"32-analysis\"\nwhat = \"\"\nlayer = \"universal\"\n",
    );
    let judge = DefaultJudgmentEmitter;
    let emitter = MechanicalPlanEmitter::new(&judge);
    let template = LoadedTemplate { manifest: minimal_manifest(), tier: TemplateTier::Workspace, dir: Some("/tmpl".to_string()) };
    let drift = vec![make_entry(
        "/workspace/corpus/analysis",
        DriftCategory::FolderShape,
        "directory 'analysis' does not follow numbered-tier naming",
    )];
    let emission = emitter.emit("/workspace/corpus", &drift, &template, &tree).unwrap();
    assert_eq!(emission.main_plan.ops.len(), 1);
    match &emission.main_plan.ops[0] {
        MainPlanOp::Move { src, dst } => {
            assert!(src.ends_with("analysis"), "src={src}");
            assert!(dst.ends_with("32-analysis"), "dst={dst}");
            assert_eq!(src, "corpus/analysis");
            assert_eq!(dst, "corpus/32-analysis");
        }
        other => panic!("expected Move, got {:?}", other),
    }
}

#[test]
fn folder_shape_drift_without_map_produces_gap_row() {
    let judge = DefaultJudgmentEmitter;
    let emitter = MechanicalPlanEmitter::new(&judge);
    let drift = vec![make_entry(
        "/corpus/unknown-folder",
        DriftCategory::FolderShape,
        "directory 'unknown-folder' does not follow numbered-tier naming",
    )];
    let emission = emitter.emit("/corpus", &drift, &builtin_template(), &empty_tree()).unwrap();
    assert!(emission.main_plan.is_empty());
    assert_eq!(emission.gap_rows.len(), 1);
    assert_eq!(emission.gap_rows[0].category, JudgmentCategory::IdAssignment);
}

#[test]
fn type_wrong_and_invariant_violation_are_classified() {
    let judge = DefaultJudgmentEmitter;
    let emitter = MechanicalPlanEmitter::new(&judge);
    let drift = vec![
        make_entry("/ws/corpus/a.md", DriftCategory::FrontmatterTypeWrong, "field 'status' expected type 'string' but got 'integer'"),
        make_entry("/ws/corpus/gaps", DriftCategory::InvariantViolation, "gaps_folder 'gaps' exists as a file"),
        make_entry("/ws/corpus/01-x", DriftCategory::MissingIndex, "numbered folder '01-x' is missing _INDEX.md"),
    ];
    let emission = emitter.emit_with_root("/ws/corpus", &drift, &builtin_template(), Some("/ws"), &empty_tree()).unwrap();
    assert_eq!(
        emission.fm_plan.ops,
        vec![FmPlanOp::SetField { path: "corpus/a.md".to_string(), field: "status".to_string(), value: "FIXME".to_string() }]
    );
    assert_eq!(emission.gap_rows.len(), 2);
    assert_eq!(emission.gap_rows[0].category, JudgmentCategory::TypeAmbiguous);
    assert_eq!(emission.gap_rows[1].category, JudgmentCategory::IdAssignment);
    assert_eq!(
        emission.gap_rows[1].description,
        "_INDEX.md must be authored in '/ws/corpus/01-x'; content authoring not automatable"
    );
    assert_eq!(
        emission.main_plan.description.as_deref(),
        Some("canon align: structural ops for 'corpus'")
    );
}

#[test]
fn folder_map_from_parsed_rules() {
    let category = |f: &str| TomlValue::Table(vec![("folder".to_string(), TomlValue::Text(f.to_string()))]);
    let doc = TomlValue::Table(vec![(
        "categories".to_string(),
        TomlValue::Array(vec![category("07-notes"), category("misc"), category("1-x")]),
    )]);
    assert_eq!(folder_map_from_rules(&doc), vec![("notes".to_string(), "07-notes".to_string())]);
    let bad = TomlValue::Table(vec![("categories".to_string(), TomlValue::Integer(3))]);
    assert!(folder_map_from_rules(&bad).is_empty());
    let no_folder = TomlValue::Table(vec![("categories".to_string(), TomlValue::Array(vec![TomlValue::Table(vec![])]))]);
    assert!(folder_map_from_rules(&no_folder).is_empty());
}

fn engine_class_tree(class: &str) -> FileTree {
    let mut tree = rules_tree(
        "/tmpl",
        "[[categories]]\nfolder = \"32-analysis\"\n\n[[engine_class_extensions]]\nengine_class = \"boundary\"\nfolders = [\"15-providers\", \"16-mock\"]\n\n[[engine_class_extensions]]\nengine_class = \"service\"\nfolders = [\"15-handlers\"]\n",
    );
    for (p, t) in [
        ("/workspace/corpus", None),
        ("/workspace/corpus/01-identity", None),
        ("/workspace/corpus/01-identity/_INDEX.md", Some(format!("---\ntitle: identity\nengine_class: {class}\n---\n\nbody\n"))),
    ] {
        let kind = if t.is_some() { NodeKind::File } else { NodeKind::Dir };
        tree.nodes.push(FileNode { path: p.to_string(), kind, link: false, text: t });
    }
    tree
}

#[test]
fn engine_class_extension_assigns_folder_id() {
    let judge = DefaultJudgmentEmitter;
    let emitter = MechanicalPlanEmitter::new(&judge);
    let template = LoadedTemplate { manifest: minimal_manifest(), tier: TemplateTier::Workspace, dir: Some("/tmpl".to_string()) };
    let drift = vec![
        make_entry("/workspace/corpus/providers", DriftCategory::FolderShape, "directory 'providers' does not follow numbered-tier naming"),
        make_entry("/workspace/corpus/handlers", DriftCategory::FolderShape, "directory 'handlers' does not follow numbered-tier naming"),
    ];
    let emission = emitter.emit("/workspace/corpus", &drift, &template, &engine_class_tree("boundary")).unwrap();
    assert_eq!(
        emission.main_plan.ops,
        vec![MainPlanOp::Move { src: "corpus/providers".to_string(), dst: "corpus/15-providers".to_string() }]
    );
    assert_eq!(emission.gap_rows.len(), 1);
    assert_eq!(emission.gap_rows[0].category, JudgmentCategory::IdAssignment);
    assert_eq!(emission.gap_rows[0].path, "/workspace/corpus/handlers");
}

#[test]
fn unknown_engine_class_leaves_id_assignment_gap() {
    let judge = DefaultJudgmentEmitter;
    let emitter = MechanicalPlanEmitter::new(&judge);
    let template = LoadedTemplate { manifest: minimal_manifest(), tier: TemplateTier::Workspace, dir: Some("/tmpl".to_string()) };
    let drift = vec![make_entry("/workspace/corpus/providers", DriftCategory::FolderShape, "directory 'providers' does not follow numbered-tier naming")];
    let emission = emitter.emit("/workspace/corpus", &drift, &template, &engine_class_tree("other")).unwrap();
    assert!(emission.main_plan.is_empty());
    assert_eq!(emission.gap_rows.len(), 1);
    assert_eq!(emission.gap_rows[0].category, JudgmentCategory::IdAssignment);
}
