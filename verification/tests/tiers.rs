use dbt_fleet::manifest::{MetaValue, Node, NodeConfig};
use dbt_fleet::tier::{Tier1Spec, TierConfig, TierError};

fn node(path: &str, meta: Vec<(&str, MetaValue)>) -> Node {
    Node {
        name: "x".into(),
        resource_type: "model".into(),
        package_name: "p".into(),
        path: path.into(),
        original_file_path: path.into(),
        meta: meta.into_iter().map(|(k, v)| (k.to_string(), v)).collect(),
        config: NodeConfig::empty(),
        columns: Vec::new(),
    }
}

fn ok(r: Result<TierConfig, TierError>) -> TierConfig {
    match r {
        Ok(c) => c,
        Err(e) => panic!("{}", e.message()),
    }
}

#[test]
fn default_treats_marts_as_tier_1() {
    let cfg = ok(TierConfig::default_marts());
    assert!(cfg.is_tier_1(&node("models/marts/fct_revenue.sql", vec![])));
    assert!(!cfg.is_tier_1(&node("models/staging/stg_invoices.sql", vec![])));
}

#[test]
fn meta_match_requires_all_keys() {
    let spec = Tier1Spec {
        paths: vec![],
        meta_match: vec![("critical".into(), MetaValue::Bool(true))],
    };
    let cfg = ok(TierConfig::from_spec(spec));
    assert!(cfg.is_tier_1(&node("anywhere.sql", vec![("critical", MetaValue::Bool(true))])));
    assert!(!cfg.is_tier_1(&node("anywhere.sql", vec![])));
}

#[test]
fn path_or_meta_match_either_qualifies() {
    let spec = Tier1Spec {
        paths: vec!["models/marts/**".into()],
        meta_match: vec![("tier".into(), MetaValue::Number("1".into()))],
    };
    let cfg = ok(TierConfig::from_spec(spec));
    assert!(cfg.is_tier_1(&node("models/marts/x.sql", vec![])));
    assert!(cfg.is_tier_1(&node(
        "models/staging/x.sql",
        vec![("tier", MetaValue::Number("1".into()))]
    )));
    assert!(!cfg.is_tier_1(&node("models/staging/x.sql", vec![])));
}

#[test]
fn meta_match_needs_every_pair_and_equal_values() {
    let spec = Tier1Spec {
        paths: vec![],
        meta_match: vec![
            ("critical".into(), MetaValue::Bool(true)),
            ("team".into(), MetaValue::Text("finance".into())),
        ],
    };
    let cfg = ok(TierConfig::from_spec(spec));
    assert!(!cfg.is_tier_1(&node("a.sql", vec![("critical", MetaValue::Bool(true))])));
    assert!(!cfg.is_tier_1(&node(
        "a.sql",
        vec![("critical", MetaValue::Bool(true)), ("team", MetaValue::Text("sales".into()))]
    )));
    assert!(cfg.is_tier_1(&node(
        "a.sql",
        vec![("critical", MetaValue::Bool(true)), ("team", MetaValue::Text("finance".into()))]
    )));
    assert!(!cfg.is_tier_1(&node("a.sql", vec![("critical", MetaValue::Text("true".into()))])));
}

#[test]
fn meta_pair_may_sit_in_either_meta() {
    let spec = Tier1Spec {
        paths: vec![],
        meta_match: vec![("critical".into(), MetaValue::Bool(true))],
    };
    let cfg = ok(TierConfig::from_spec(spec));
    let mut n = node("a.sql", vec![("critical", MetaValue::Bool(true))]);
    n.config.meta.push(("critical".into(), MetaValue::Bool(false)));
    assert!(cfg.is_tier_1(&n));
    let mut f = node("a.sql", vec![("critical", MetaValue::Bool(false))]);
    f.config.meta.push(("critical".into(), MetaValue::Bool(false)));
    assert!(!cfg.is_tier_1(&f));
    let mut m = node("a.sql", vec![]);
    m.config.meta.push(("critical".into(), MetaValue::Bool(true)));
    assert!(cfg.is_tier_1(&m));
}

#[test]
fn empty_spec_selects_nothing() {
    let cfg = ok(TierConfig::from_spec(Tier1Spec { paths: vec![], meta_match: vec![] }));
    assert!(!cfg.is_tier_1(&node("models/marts/x.sql", vec![])));
}

#[test]
fn invalid_glob_is_reported_with_its_pattern() {
    let spec = Tier1Spec {
        paths: vec!["models/**".into(), "models/[oops".into(), "a{b".into()],
        meta_match: vec![],
    };
    match TierConfig::from_spec(spec) {
        Err(e @ TierError::InvalidGlob { .. }) => {
            assert_eq!(e.message(), "Invalid glob pattern: models/[oops");
            match &e {
                TierError::InvalidGlob { reason, .. } => assert!(reason.contains("models/[oops")),
                TierError::Build { .. } => unreachable!(),
            }
        }
        _ => panic!("expected an invalid glob"),
    }
}
