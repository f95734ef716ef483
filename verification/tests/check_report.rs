use dbt_fleet::check::{run, write_human, CheckReport};
use dbt_fleet::manifest::{Column, Manifest, MetaValue, Node, NodeConfig};
use dbt_fleet::policy::{PolicyResult, Violation};
use dbt_fleet::score::{overall_basis, tally, OverallBasis};
use dbt_fleet::tier::{Tier1Spec, TierConfig};

fn model(name: &str, dir: &str, owner: Option<&str>, cols: Vec<(&str, &str)>) -> Node {
    let mut meta = Vec::new();
    if let Some(o) = owner {
        meta.push(("owner".to_string(), MetaValue::Text(o.to_string())));
    }
    Node {
        name: name.into(),
        resource_type: "model".into(),
        package_name: "p".into(),
        path: format!("{}/{}.sql", dir, name),
        original_file_path: format!("models/{}/{}.sql", dir, name),
        meta,
        config: NodeConfig::empty(),
        columns: cols
            .into_iter()
            .map(|(c, d)| (c.to_string(), Column { name: c.into(), description: d.into() }))
            .collect(),
    }
}

fn marts() -> TierConfig {
    match TierConfig::default_marts() {
        Ok(c) => c,
        Err(e) => panic!("{}", e.message()),
    }
}

#[test]
fn run_checks_only_tier_1_models() {
    let manifest = Manifest {
        nodes: vec![
            ("model.p.a".into(), model("a", "marts", None, vec![("id", "the primary key")])),
            ("model.p.b".into(), model("b", "staging", None, vec![])),
            ("model.p.c".into(), model("c", "marts", Some("team"), vec![("x", "TBD")])),
        ],
    };
    let report = run(&manifest, &marts());
    assert_eq!(report.version, dbt_fleet::VERSION);
    assert_eq!(report.tier1_models, 2);
    assert_eq!(report.policies.len(), 2);
    assert_eq!(report.policies[0].name, "tier_1_has_owner");
    assert_eq!(report.policies[0].violations.len(), 1);
    assert_eq!(report.policies[0].violations[0].model, "a");
    assert_eq!(report.policies[1].name, "tier_1_columns_described");
    assert_eq!(report.policies[1].violations.len(), 1);
    assert_eq!(report.policies[1].violations[0].column.as_deref(), Some("x"));
    assert_eq!(report.total_violations, 2);
    assert!(!report.passed());

    let counts = tally(&report, &manifest, &marts());
    assert_eq!(counts.tier1_models, 2);
    assert_eq!(counts.total_columns, 2);
    assert_eq!(counts.owners_passing, 1);
    assert_eq!(counts.columns_passing, 1);
    assert!(matches!(overall_basis(&counts), OverallBasis::Both));
}

#[test]
fn snapshot_with_no_violations_is_full_score() {
    let nodes = (0..5)
        .map(|i| {
            (
                format!("model.p.m{}", i),
                model(
                    &format!("m{}", i),
                    "marts",
                    Some("alice"),
                    vec![("c0", "well-documented column"), ("c1", "well-documented column")],
                ),
            )
        })
        .collect();
    let manifest = Manifest { nodes };
    let tiers = marts();
    let report = run(&manifest, &tiers);
    assert!(report.passed());
    let snap = tally(&report, &manifest, &tiers);
    assert_eq!(snap.tier1_models, 5);
    assert_eq!(snap.total_columns, 10);
    assert_eq!(snap.owners_passing * 100 / snap.tier1_models, 100);
    assert_eq!(snap.columns_passing * 100 / snap.total_columns, 100);
    assert!(matches!(overall_basis(&snap), OverallBasis::Both));
}

#[test]
fn empty_manifest_scores_on_neither_basis() {
    let manifest = Manifest { nodes: vec![] };
    let report = run(&manifest, &marts());
    assert!(report.passed());
    let counts = tally(&report, &manifest, &marts());
    assert!(matches!(overall_basis(&counts), OverallBasis::Neither));
}

fn failing_report() -> CheckReport {
    CheckReport {
        version: "0.1.2",
        tier1_models: 3,
        policies: vec![
            PolicyResult {
                name: "tier_1_has_owner",
                description: "d",
                violations: vec![Violation {
                    model: "a".into(),
                    file: "models/marts/a.sql".into(),
                    column: None,
                    message: "meta.owner is missing or empty".into(),
                }],
            },
            PolicyResult {
                name: "tier_1_columns_described",
                description: "d",
                violations: vec![
                    Violation {
                        model: "c".into(),
                        file: "models/marts/c.sql".into(),
                        column: Some("x".into()),
                        message: "description is empty".into(),
                    },
                    Violation {
                        model: "c".into(),
                        file: "models/marts/c.sql".into(),
                        column: Some("y".into()),
                        message: "description is empty".into(),
                    },
                ],
            },
        ],
        total_violations: 3,
    }
}

#[test]
fn human_report_lists_every_violation() {
    let mut out = String::new();
    assert!(write_human(&failing_report(), &mut out).is_ok());
    let expected = "dbt-fleet 0.1.2\n\nTier-1 models: 3\nPolicies checked: 2\n\n  \u{2717} tier_1_has_owner \u{2014} 1 violation\n      \u{2022} models/marts/a.sql \u{2014} meta.owner is missing or empty\n  \u{2717} tier_1_columns_described \u{2014} 2 violations\n      \u{2022} models/marts/c.sql:x \u{2014} description is empty\n      \u{2022} models/marts/c.sql:y \u{2014} description is empty\n\nFailed: 3 violations across 2 policies.\n";
    assert_eq!(out, expected);
}

#[test]
fn human_report_of_a_passing_check() {
    let mut report = failing_report();
    for p in report.policies.iter_mut() {
        p.violations.clear();
    }
    report.total_violations = 0;
    let mut out = String::from("> ");
    write_human(&report, &mut out).unwrap();
    assert_eq!(
        out,
        "> dbt-fleet 0.1.2\n\nTier-1 models: 3\nPolicies checked: 2\n\n  \u{2713} tier_1_has_owner\n  \u{2713} tier_1_columns_described\n\nPassed: 0 violations.\n"
    );
}

#[test]
fn human_report_singular_forms() {
    let mut report = failing_report();
    report.policies[1].violations.clear();
    report.total_violations = 1;
    let mut out = String::new();
    write_human(&report, &mut out).unwrap();
    assert!(out.ends_with("Failed: 1 violation across 1 policy.\n"));
}

#[test]
fn human_report_has_one_bullet_per_violation() {
    let report = failing_report();
    let mut out = String::new();
    write_human(&report, &mut out).unwrap();
    assert_eq!(out.matches('\u{2022}').count(), report.total_violations);
}

#[test]
fn meta_selected_model_with_backslash_path_is_checked() {
    let mut odd = model("odd", "marts", None, vec![("id", "TBD")]);
    odd.original_file_path = "models\\marts\\odd.sql".into();
    odd.meta.push(("critical".into(), MetaValue::Bool(true)));
    let plain = model("plain", "staging", Some("team"), vec![]);
    let manifest = Manifest {
        nodes: vec![("model.p.odd".into(), odd), ("model.p.plain".into(), plain)],
    };
    let spec = Tier1Spec {
        paths: vec!["models/marts/**".into()],
        meta_match: vec![("critical".into(), MetaValue::Bool(true))],
    };
    let tiers = match TierConfig::from_spec(spec) {
        Ok(c) => c,
        Err(e) => panic!("{}", e.message()),
    };
    let report = run(&manifest, &tiers);
    assert_eq!(report.tier1_models, 1);
    assert_eq!(report.policies[0].violations.len(), 1);
    assert_eq!(report.policies[0].violations[0].model, "odd");
    assert_eq!(report.policies[1].violations.len(), 1);
    assert_eq!(report.total_violations, 2);
    let counts = tally(&report, &manifest, &tiers);
    assert_eq!(counts.total_columns, 1);
}
