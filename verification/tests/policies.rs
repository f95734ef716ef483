use dbt_fleet::manifest::{Column, MetaValue, Node, NodeConfig};
use dbt_fleet::policy::{description_violation, Policy, Tier1ColumnsDescribed, Tier1HasOwner};

fn model_with_owner(name: &str, owner: Option<&str>) -> Node {
    let mut meta = Vec::new();
    if let Some(o) = owner {
        meta.push(("owner".to_string(), MetaValue::Text(o.to_string())));
    }
    Node {
        name: name.into(),
        resource_type: "model".into(),
        package_name: "p".into(),
        path: format!("marts/{}.sql", name),
        original_file_path: format!("models/marts/{}.sql", name),
        meta,
        config: NodeConfig::empty(),
        columns: Vec::new(),
    }
}

fn model_with_columns(name: &str, columns: Vec<(&str, &str)>) -> Node {
    let mut node = model_with_owner(name, Some("alice"));
    for (col_name, desc) in columns {
        node.columns.push((
            col_name.into(),
            Column {
                name: col_name.into(),
                description: desc.into(),
            },
        ));
    }
    node
}

#[test]
fn owner_policy_flags_missing_and_empty() {
    let m1 = model_with_owner("a", Some("data-team"));
    let m2 = model_with_owner("b", None);
    let m3 = model_with_owner("c", Some(""));
    let result = Tier1HasOwner.run(&[&m1, &m2, &m3]);
    assert_eq!(result.violations.len(), 2);
    assert!(result.violations.iter().any(|v| v.model == "b"));
    assert!(result.violations.iter().any(|v| v.model == "c"));
}

#[test]
fn description_policy_flags_short_empty_placeholder() {
    let model = model_with_columns(
        "fct_revenue",
        vec![
            ("invoice_id", "Primary key for the invoice"),
            ("revenue_total", ""),
            ("status", "TBD"),
            ("country", "short"),
        ],
    );
    let result = Tier1ColumnsDescribed.run(&[&model]);
    let names: Vec<String> = result
        .violations
        .iter()
        .filter_map(|v| v.column.clone())
        .collect();
    assert_eq!(result.violations.len(), 3);
    assert!(names.contains(&"revenue_total".to_string()));
    assert!(names.contains(&"status".to_string()));
    assert!(names.contains(&"country".to_string()));
}

#[test]
fn model_with_no_columns_at_all_flags_once() {
    let model = model_with_owner("undocumented", Some("alice"));
    let result = Tier1ColumnsDescribed.run(&[&model]);
    assert_eq!(result.violations.len(), 1);
    assert!(result.violations[0].message.contains("no columns declared"));
}

#[test]
fn description_messages_name_the_problem() {
    assert_eq!(description_violation("   ").as_deref(), Some("description is empty"));
    assert_eq!(
        description_violation("  Todo ").as_deref(),
        Some("description is a placeholder (\"Todo\")")
    );
    assert_eq!(
        description_violation("N/A").as_deref(),
        Some("description is a placeholder (\"N/A\")")
    );
    assert_eq!(
        description_violation(" short ").as_deref(),
        Some("description too short (5 chars, minimum 10)")
    );
    assert_eq!(
        description_violation("\u{e9}\u{e9}\u{e9}\u{e9}\u{e9}").as_deref(),
        Some("description too short (5 chars, minimum 10)")
    );
    assert_eq!(description_violation("\u{e9}\u{e9}\u{e9}\u{e9}\u{e9}\u{e9}\u{e9}\u{e9}\u{e9}\u{e9}"), None);
    assert_eq!(description_violation("exactly10!"), None);
    assert_eq!(description_violation("Primary key for the invoice"), None);
}

#[test]
fn violations_carry_model_file_and_column() {
    let model = model_with_columns("m", vec![("a", "ok but too"), ("b", "?")]);
    let result = Tier1ColumnsDescribed.run(&[&model]);
    assert_eq!(result.name, "tier_1_columns_described");
    assert_eq!(result.violations.len(), 1);
    let v = &result.violations[0];
    assert_eq!(v.model, "m");
    assert_eq!(v.file, "models/marts/m.sql");
    assert_eq!(v.column.as_deref(), Some("b"));
    assert!(!result.passed());
    let owned = Tier1HasOwner.run(&[&model]);
    assert!(owned.passed());
    assert_eq!(owned.name, "tier_1_has_owner");
}

#[test]
fn fully_documented_models_pass_the_description_policy() {
    let a = model_with_columns("a", vec![("id", "Surrogate key of the row")]);
    let b = model_with_columns("b", vec![("x", "Amount in cents, gross"), ("y", "  Currency code (ISO)  ")]);
    assert!(Tier1ColumnsDescribed.run(&[&a, &b]).passed());
    let c = model_with_owner("c", Some("team"));
    assert!(!Tier1ColumnsDescribed.run(&[&a, &c]).passed());
}

#[test]
fn ten_characters_pass_whatever_they_are() {
    assert_eq!(description_violation("\u{c9}\u{c9}\u{c9}\u{c9}\u{c9}\u{c9}\u{c9}\u{c9}\u{c9}\u{c9}"), None);
    assert_eq!(description_violation("  0123456789  "), None);
    assert_eq!(
        description_violation(" 012345678 ").as_deref(),
        Some("description too short (9 chars, minimum 10)")
    );
}
