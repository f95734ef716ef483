use dbt_fleet::manifest::{Manifest, MetaValue, Node, NodeConfig};

fn node(id_name: &str, kind: &str, meta: Vec<(&str, MetaValue)>, config_meta: Vec<(&str, MetaValue)>) -> Node {
    Node {
        name: id_name.into(),
        resource_type: kind.into(),
        package_name: "p".into(),
        path: format!("{}.sql", id_name),
        original_file_path: format!("models/{}.sql", id_name),
        meta: meta.into_iter().map(|(k, v)| (k.to_string(), v)).collect(),
        config: NodeConfig {
            meta: config_meta.into_iter().map(|(k, v)| (k.to_string(), v)).collect(),
        },
        columns: Vec::new(),
    }
}

fn text(s: &str) -> MetaValue {
    MetaValue::Text(s.to_string())
}

fn minimal_manifest() -> Manifest {
    Manifest {
        nodes: vec![
            (
                "model.proj.fct_revenue".to_string(),
                node("fct_revenue", "model", vec![("owner", text("data-team"))], vec![]),
            ),
            (
                "test.proj.unique_fct_revenue_invoice_id".to_string(),
                node("unique_fct_revenue_invoice_id", "test", vec![], vec![]),
            ),
        ],
    }
}

#[test]
fn models_of_minimal_manifest() {
    let m = minimal_manifest();
    assert_eq!(m.nodes.len(), 2);
    let models: Vec<&Node> = m.models();
    assert_eq!(models.len(), 1);
    assert_eq!(models[0].name, "fct_revenue");
}

#[test]
fn owner_resolves_from_top_level_meta() {
    let m = minimal_manifest();
    let model = m.models()[0];
    assert_eq!(model.owner(), Some("data-team"));
}

#[test]
fn owner_falls_back_to_config_meta() {
    let n = node("x", "model", vec![], vec![("owner", text("alice"))]);
    assert_eq!(n.owner(), Some("alice"));
}

#[test]
fn empty_owner_string_is_none() {
    let n = node("x", "model", vec![("owner", text("   "))], vec![]);
    assert_eq!(n.owner(), None);
}

#[test]
fn blank_or_non_string_owner_falls_back_to_config_meta() {
    let n = node(
        "x",
        "model",
        vec![("owner", MetaValue::Number("7".into()))],
        vec![("owner", text("alice"))],
    );
    assert_eq!(n.owner(), Some("alice"));
    let e = node("z", "model", vec![("owner", text(""))], vec![("owner", text("alice"))]);
    assert_eq!(e.owner(), Some("alice"));
    let none = node("w", "model", vec![("owner", text(" "))], vec![("owner", MetaValue::Bool(true))]);
    assert_eq!(none.owner(), None);
    let m = node("y", "model", vec![("owner", text(" bob "))], vec![("owner", text("alice"))]);
    assert_eq!(m.owner(), Some(" bob "));
}

#[test]
fn models_keep_manifest_order() {
    let m = Manifest {
        nodes: vec![
            ("a".into(), node("a", "model", vec![], vec![])),
            ("b".into(), node("b", "seed", vec![], vec![])),
            ("c".into(), node("c", "model", vec![], vec![])),
        ],
    };
    let names: Vec<&str> = m.models().iter().map(|n| n.name.as_str()).collect();
    assert_eq!(names, vec!["a", "c"]);
}
