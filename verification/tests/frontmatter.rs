use canon_core::json::json_eq;
use canon_core::audit::drift::{DriftCategory, DriftEntry};
use canon_core::audit::frontmatter::{check_frontmatter, check_parsed_frontmatter, frontmatter_text, parse_frontmatter};
use canon_core::cli::audit::report_json_value;
use canon_core::json::{JsonNumber, JsonValue};
use canon_core::yaml::{YamlNumber, YamlValue};

fn text(s: &str) -> JsonValue {
    JsonValue::Text(s.to_string())
}

fn obj(members: Vec<(&str, JsonValue)>) -> JsonValue {
    JsonValue::Object(members.into_iter().map(|(k, v)| (k.to_string(), v)).collect())
}

fn number(n: u64) -> JsonValue {
    JsonValue::Number(JsonNumber::PosInt(n))
}

/// required title and status; typed title, status (an enum), count; level
/// an untyped enum of numbers; an `allOf` condition for atoms.
fn schema() -> JsonValue {
    obj(vec![
        ("type", text("object")),
        ("required", JsonValue::List(vec![text("title"), text("status")])),
        (
            "properties",
            obj(vec![
                ("title", obj(vec![("type", text("string"))])),
                ("status", obj(vec![("type", text("string")), ("enum", JsonValue::List(vec![text("active"), text("stale")]))])),
                ("count", obj(vec![("type", text("integer"))])),
                ("level", obj(vec![("enum", JsonValue::List(vec![number(1), number(2)]))])),
            ]),
        ),
        (
            "allOf",
            JsonValue::List(vec![obj(vec![
                ("if", obj(vec![("properties", obj(vec![("type", obj(vec![("const", text("atom"))]))]))])),
                ("then", obj(vec![("required", JsonValue::List(vec![text("id")]))])),
            ])]),
        ),
    ])
}

fn messages(es: &[DriftEntry]) -> Vec<(DriftCategory, String)> {
    es.iter().map(|e| (e.category, e.message.clone())).collect()
}

#[test]
fn frontmatter_block_between_fences() {
    assert_eq!(frontmatter_text("---\ntitle: A\n---\nbody"), Some("title: A".to_string()));
    assert_eq!(frontmatter_text("\u{feff}---\r\na: 1\n---\n"), Some("a: 1".to_string()));
    assert_eq!(frontmatter_text("# no fence\n"), None);
    assert_eq!(frontmatter_text("---\nunterminated\n"), None);
}

#[test]
fn parsed_frontmatter_is_yaml() {
    match parse_frontmatter("---\ncount: 3\n---\n") {
        Some(YamlValue::Mapping(m)) => {
            assert_eq!(m.len(), 1);
            assert!(matches!(&m[0].0, YamlValue::Text(k) if k == "count"));
            assert!(matches!(&m[0].1, YamlValue::Number(YamlNumber::PosInt(3))));
        }
        other => panic!("expected a mapping, got {:?}", other),
    }
    assert!(parse_frontmatter("---\nkey: [unclosed\n---\n").is_none());
}

#[test]
fn frontmatter_checks_report_each_finding() {
    let s = schema();
    let es = check_frontmatter("/c/a.md", "---\ntitle: 42\nstatus: bogus\nextra: x\n---\n", Some(&s));
    assert_eq!(
        messages(&es),
        vec![
            (DriftCategory::UnknownFieldInfo, "field 'extra' is not defined in the frontmatter schema".to_string()),
            (DriftCategory::FrontmatterValueInvalid, "field 'status' value 'bogus' is not in allowed enum [active, stale]".to_string()),
            (DriftCategory::FrontmatterTypeWrong, "field 'title' expected type 'string' but got 'number'".to_string()),
        ]
    );
    assert!(es.iter().all(|e| e.path == "/c/a.md"));
}

#[test]
fn frontmatter_required_and_conditional_fields() {
    let s = schema();
    let es = check_frontmatter("a.md", "---\ntype: atom\ncount: 2\n---\n", Some(&s));
    assert_eq!(
        messages(&es),
        vec![
            (DriftCategory::FrontmatterRequiredMissing, "required field 'title' is absent".to_string()),
            (DriftCategory::FrontmatterRequiredMissing, "required field 'status' is absent".to_string()),
            (DriftCategory::UnknownFieldInfo, "field 'type' is not defined in the frontmatter schema".to_string()),
            (DriftCategory::FrontmatterRequiredMissing, "field 'id' is required for type 'atom' but is absent".to_string()),
        ]
    );
}

#[test]
fn missing_frontmatter_and_missing_schema() {
    let s = schema();
    let es = check_frontmatter("a.md", "# plain\n", Some(&s));
    assert_eq!(messages(&es), vec![(DriftCategory::FrontmatterRequiredMissing, "file has no frontmatter".to_string())]);
    assert!(check_frontmatter("a.md", "# plain\n", None).is_empty());
}

#[test]
fn parsed_frontmatter_checks_take_the_yaml_value() {
    let s = schema();
    let fm = YamlValue::Mapping(vec![
        (YamlValue::Text("title".to_string()), YamlValue::Text("T".to_string())),
        (YamlValue::Text("status".to_string()), YamlValue::Text("active".to_string())),
        (YamlValue::Text("count".to_string()), YamlValue::Number(YamlNumber::NegInt(-1))),
    ]);
    assert!(check_parsed_frontmatter("a.md", &fm, &s).is_empty());
    let fm = YamlValue::Mapping(vec![(YamlValue::Text("count".to_string()), YamlValue::Text("x".to_string()))]);
    let es = check_parsed_frontmatter("a.md", &fm, &s);
    assert_eq!(es.len(), 3);
    assert_eq!(es[2].message, "field 'count' expected type 'integer' but got 'string'");
    assert!(check_parsed_frontmatter("a.md", &YamlValue::Text("x".to_string()), &s).is_empty());
}

#[test]
fn enum_values_are_shown_as_json() {
    let s = schema();
    let es = check_frontmatter("a.md", "---\ntitle: T\nstatus: active\nlevel: [1, \"x\"]\n---\n", Some(&s));
    assert_eq!(messages(&es), vec![(DriftCategory::FrontmatterValueInvalid, "field 'level' value '[1,\"x\"]' is not in allowed enum []".to_string())]);
    let es = check_frontmatter("a.md", "---\ntitle: T\nstatus: active\nlevel: 2\n---\n", Some(&s));
    assert!(es.is_empty());
}

#[test]
fn report_json_value_counts_and_relativizes() {
    let entries = vec![
        DriftEntry { path: "/c/x".to_string(), category: DriftCategory::FolderShape, message: "m".to_string() },
        DriftEntry { path: "/c/y.md".to_string(), category: DriftCategory::UnknownFieldInfo, message: "n".to_string() },
    ];
    let v = report_json_value(&entries, "/c");
    let top = match v {
        JsonValue::Object(m) => m,
        other => panic!("expected an object, got {:?}", other),
    };
    let keys: Vec<&str> = top.iter().map(|(k, _)| k.as_str()).collect();
    assert_eq!(keys, vec!["blocking_count", "corpus", "entries", "total_count"]);
    assert!(matches!(top[0].1, JsonValue::Number(JsonNumber::PosInt(1))));
    assert!(matches!(&top[1].1, JsonValue::Text(c) if c == "/c"));
    assert!(matches!(top[3].1, JsonValue::Number(JsonNumber::PosInt(2))));
    match &top[2].1 {
        JsonValue::List(items) => {
            assert_eq!(items.len(), 2);
            match &items[1] {
                JsonValue::Object(e) => {
                    assert!(matches!(&e[0].1, JsonValue::Text(c) if c == "UnknownFieldInfo"));
                    assert!(matches!(e[1].1, JsonValue::Bool(true)));
                    assert!(matches!(&e[3].1, JsonValue::Text(p) if p == "y.md"));
                }
                other => panic!("expected an object, got {:?}", other),
            }
        }
        other => panic!("expected a list, got {:?}", other),
    }
}

#[test]
fn json_eq_compares_floats_as_floats() {
    let float = |t: &str| JsonValue::Number(JsonNumber::Float(t.to_string()));
    let zero = float("0.0");
    let neg_zero = float("-0.0");
    let half = float("0.5");
    assert!(json_eq(&zero, &neg_zero));
    assert!(json_eq(&JsonValue::List(vec![float("-0.0")]), &JsonValue::List(vec![float("0.0")])));
    assert!(!json_eq(&zero, &half));
    assert!(!json_eq(&zero, &number(0)));
}

#[test]
fn enum_of_zero_accepts_negative_zero() {
    let schema = obj(vec![(
        "properties",
        obj(vec![("weight", obj(vec![("enum", JsonValue::List(vec![JsonValue::Number(JsonNumber::Float("0.0".to_string()))]))]))]),
    )]);
    let entries = check_frontmatter("x.md", "---\nweight: -0.0\n---\n", Some(&schema));
    assert!(entries.is_empty(), "got {:?}", entries);
}
