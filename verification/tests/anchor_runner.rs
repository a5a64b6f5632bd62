use canon_core::orchestrator::anchor_runner::{AnchorRunner, MockAnchorRunner};

#[test]
fn mock_succeeds_returns_ok() {
    let runner = MockAnchorRunner::succeeds();
    assert!(runner.check_frontmatter_capability().is_ok());
    assert!(runner.run_apply("/tmp/plan.toml").is_ok());
    assert!(runner.run_frontmatter_migrate("/tmp/fm.toml").is_ok());
}

#[test]
fn mock_anchor_missing_returns_error() {
    let runner = MockAnchorRunner::anchor_missing();
    let err = runner.check_frontmatter_capability().unwrap_err();
    assert!(err.message.contains("AENG-006"), "msg={}", err.message);
}

#[test]
fn mock_apply_fails_returns_diagnostic() {
    let runner = MockAnchorRunner::apply_fails("AENG-002: ref integrity violation at line 3");
    let err = runner.run_apply("/tmp/plan.toml").unwrap_err();
    assert_eq!(err.exit_code, 1);
    assert!(err.diagnostic.contains("AENG-002"));
}

#[test]
fn runner_error_message_names_exit_code_and_diagnostic() {
    let runner = MockAnchorRunner::apply_fails("boom");
    let err = runner.run_apply("/tmp/plan.toml").unwrap_err();
    assert_eq!(err.message(), "anchor exited 1 — boom");
}
