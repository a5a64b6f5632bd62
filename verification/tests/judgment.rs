use canon_core::plan::judgment_iface::{DefaultJudgmentEmitter, JudgmentEmitter};
use canon_core::plan::types::{JudgmentCase, JudgmentCategory};

#[test]
fn default_emitter_passthrough() {
    let cases = vec![
        JudgmentCase {
            path: "analysis".to_string(),
            category: JudgmentCategory::IdAssignment,
            description: "folder needs numbered prefix".to_string(),
        },
        JudgmentCase {
            path: "big-file.md".to_string(),
            category: JudgmentCategory::GraduationBoundary,
            description: "file exceeds line threshold".to_string(),
        },
    ];
    let emitter = DefaultJudgmentEmitter;
    let rows = emitter.emit_judgment_cases(&cases);
    assert_eq!(rows.len(), 2);
    assert_eq!(rows[0].path, "analysis".to_string());
    assert_eq!(rows[0].category, JudgmentCategory::IdAssignment);
    assert_eq!(rows[1].category, JudgmentCategory::GraduationBoundary);
}

#[test]
fn default_emitter_empty_input() {
    let emitter = DefaultJudgmentEmitter;
    let rows = emitter.emit_judgment_cases(&[]);
    assert!(rows.is_empty());
}

#[test]
fn judgment_category_names() {
    assert_eq!(JudgmentCategory::GraduationBoundary.as_str(), "GraduationBoundary");
    assert_eq!(JudgmentCategory::TypeAmbiguous.as_str(), "TypeAmbiguous");
    assert_eq!(JudgmentCategory::EngineClassInference.as_str(), "EngineClassInference");
    assert_eq!(JudgmentCategory::IdAssignment.as_str(), "IdAssignment");
}
