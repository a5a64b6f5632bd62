use canon_core::plan::types::{FmPlan, FmPlanOp, MainPlan, MainPlanOp};

#[test]
fn main_plan_renders_empty() {
    let plan = MainPlan::new(None);
    assert_eq!(plan.render_toml(), "version = \"1\"\nops = []\n");
}

#[test]
fn main_plan_create_dir_roundtrip() {
    let mut plan = MainPlan::new(Some("test plan".to_string()));
    plan.ops.push(MainPlanOp::CreateDir { path: "01-identity".to_string() });
    let toml = plan.render_toml();
    assert!(toml.contains("type = \"create_dir\""));
    assert!(toml.contains("path = \"01-identity\""));
    assert!(toml.contains("description = \"test plan\""));
}

#[test]
fn main_plan_move_roundtrip() {
    let mut plan = MainPlan::new(None);
    plan.ops.push(MainPlanOp::Move { src: "analysis".to_string(), dst: "32-analysis".to_string() });
    let toml = plan.render_toml();
    assert!(toml.contains("type = \"move\""));
    assert!(toml.contains("src = \"analysis\""));
    assert!(toml.contains("dst = \"32-analysis\""));
}

#[test]
fn main_plan_deterministic() {
    let mut plan = MainPlan::new(Some("determinism check".to_string()));
    plan.ops.push(MainPlanOp::Move { src: "analysis".to_string(), dst: "32-analysis".to_string() });
    plan.ops.push(MainPlanOp::CreateDir { path: "41-gaps".to_string() });
    assert_eq!(plan.render_toml(), plan.render_toml());
}

#[test]
fn fm_plan_renders_empty() {
    let plan = FmPlan::new(None);
    assert_eq!(plan.render_toml(), "version = \"1\"\n");
}

#[test]
fn fm_plan_add_field_roundtrip() {
    let mut plan = FmPlan::new(None);
    plan.ops.push(FmPlanOp::AddField {
        path: "01-identity/_INDEX.md".to_string(),
        field: "schema_version".to_string(),
        value: "1".to_string(),
    });
    let toml = plan.render_toml();
    assert!(toml.contains("type = \"add_field\""));
    assert!(toml.contains("field = \"schema_version\""));
    assert!(toml.contains("value = \"1\""));
}

#[test]
fn fm_plan_set_field_roundtrip() {
    let mut plan = FmPlan::new(None);
    plan.ops.push(FmPlanOp::SetField {
        path: "analysis/deep-dive.md".to_string(),
        field: "status".to_string(),
        value: "active".to_string(),
    });
    let toml = plan.render_toml();
    assert!(toml.contains("type = \"set_field\""));
    assert!(toml.contains("field = \"status\""));
}

#[test]
fn rendered_main_plan_parses_back_as_toml() {
    let mut plan = MainPlan::new(Some("quote \" and \\ backslash".to_string()));
    plan.ops.push(MainPlanOp::Move { src: "a b".to_string(), dst: "01-a b".to_string() });
    plan.ops.push(MainPlanOp::CreateDir { path: "41-gaps".to_string() });
    let text = plan.render_toml();
    let v: toml::Value = toml::from_str(&text).expect("plan must be valid TOML");
    assert_eq!(v["version"].as_str(), Some("1"));
    assert_eq!(v["description"].as_str(), Some("quote \" and \\ backslash"));
    let ops = v["ops"].as_array().unwrap();
    assert_eq!(ops.len(), 2);
    assert_eq!(ops[0]["type"].as_str(), Some("move"));
    assert_eq!(ops[0]["src"].as_str(), Some("a b"));
    assert_eq!(ops[0]["dst"].as_str(), Some("01-a b"));
    assert_eq!(ops[1]["type"].as_str(), Some("create_dir"));
    assert_eq!(ops[1]["path"].as_str(), Some("41-gaps"));
}

#[test]
fn rendered_fm_plan_parses_back_as_toml() {
    let mut plan = FmPlan::new(None);
    plan.ops.push(FmPlanOp::AddField { path: "x.md".to_string(), field: "id".to_string(), value: "FIXME".to_string() });
    let text = plan.render_toml();
    let v: toml::Value = toml::from_str(&text).expect("plan must be valid TOML");
    let ops = v["ops"].as_array().unwrap();
    assert_eq!(ops.len(), 1);
    assert_eq!(ops[0]["type"].as_str(), Some("add_field"));
    assert_eq!(ops[0]["path"].as_str(), Some("x.md"));
    assert_eq!(ops[0]["value"].as_str(), Some("FIXME"));
}

#[test]
fn empty_plans_report_empty() {
    assert!(MainPlan::new(None).is_empty());
    assert!(FmPlan::new(None).is_empty());
    let mut p = MainPlan::new(None);
    p.ops.push(MainPlanOp::CreateDir { path: "x".to_string() });
    assert!(!p.is_empty());
}
