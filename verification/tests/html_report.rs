use dbt_fleet::check::CheckReport;
use dbt_fleet::policy::{PolicyResult, Violation};
use dbt_fleet::render::html::{escape, format_unix_utc, render, render_at, render_violation};

fn sample_report() -> CheckReport {
    CheckReport {
        version: "0.0.2",
        tier1_models: 8,
        policies: vec![
            PolicyResult {
                name: "tier_1_has_owner",
                description: "Every tier-1 model must declare an owner.",
                violations: vec![Violation {
                    model: "fct_revenue".into(),
                    file: "models/marts/fct_revenue.sql".into(),
                    column: None,
                    message: "meta.owner is missing or empty".into(),
                }],
            },
            PolicyResult {
                name: "tier_1_columns_described",
                description: "Columns need descriptions.",
                violations: vec![],
            },
        ],
        total_violations: 1,
    }
}

#[test]
fn renders_complete_html_document() {
    let html = render(&sample_report());
    assert!(html.starts_with("<!DOCTYPE html>"));
    assert!(html.contains("<title>"));
    assert!(html.ends_with("</html>\n"));
}

#[test]
fn includes_summary_stats() {
    let html = render(&sample_report());
    assert!(html.contains("Tier-1 models"));
    assert!(html.contains(">8<"));
    assert!(html.contains(">2<"));
    assert!(html.contains(">1<"));
}

#[test]
fn renders_passing_and_failing_policies() {
    let html = render(&sample_report());
    assert!(html.contains("policy fail"));
    assert!(html.contains("policy pass"));
    assert!(html.contains("Passing"));
    assert!(html.contains("1 violation"));
}

#[test]
fn includes_violation_locations() {
    let html = render(&sample_report());
    assert!(html.contains("models/marts/fct_revenue.sql"));
    assert!(html.contains("meta.owner is missing"));
}

#[test]
fn escapes_html_special_chars() {
    let mut report = sample_report();
    report.policies[0].violations[0].file = "models/<weird>.sql".into();
    let html = render(&report);
    assert!(!html.contains("models/<weird>.sql"));
    assert!(html.contains("models/&lt;weird&gt;.sql"));
}

#[test]
fn timestamp_format_is_correct() {
    let ts = format_unix_utc(1_778_058_000);
    assert_eq!(ts, "2026-05-06 09:00 UTC");
}

#[test]
fn timestamp_handles_leap_year() {
    let ts = format_unix_utc(1_709_164_800);
    assert_eq!(ts, "2024-02-29 00:00 UTC");
}

#[test]
fn escape_replaces_every_special_character() {
    assert_eq!(escape("a&b<c>d\"e"), "a&amp;b&lt;c&gt;d&quot;e");
    assert_eq!(escape("plain text"), "plain text");
    assert_eq!(escape("&amp;"), "&amp;amp;");
    assert_eq!(escape(""), "");
}

#[test]
fn violation_item_with_and_without_column() {
    let v = Violation {
        model: "m".into(),
        file: "models/m.sql".into(),
        column: Some("c<1>".into()),
        message: "too \"short\"".into(),
    };
    assert_eq!(
        render_violation(&v),
        "<li><span class=\"violation-location\">models/m.sql<span class=\"col\">:c&lt;1&gt;</span></span><span class=\"violation-message\">too &quot;short&quot;</span></li>"
    );
    let w = Violation { column: None, ..v };
    assert_eq!(
        render_violation(&w),
        "<li><span class=\"violation-location\">models/m.sql</span><span class=\"violation-message\">too &quot;short&quot;</span></li>"
    );
}

#[test]
fn document_is_stamped_with_the_given_time() {
    let html = render_at(&sample_report(), 1_778_058_000);
    assert!(html.contains("<title>dbt-fleet report \u{2014} 2026-05-06 09:00 UTC</title>"));
    assert!(html.contains("<div class=\"meta\">2026-05-06 09:00 UTC</div>"));
    assert!(html.contains("<h2>Policy results (1 failing)</h2>"));
    assert!(html.contains("status-badge fail\">Policy violations"));
    assert!(html.contains("v0.0.2</span>"));
}

#[test]
fn passing_report_has_no_failing_note() {
    let mut report = sample_report();
    report.policies[0].violations.clear();
    report.total_violations = 0;
    let html = render_at(&report, 0);
    assert!(html.contains("<h2>Policy results</h2>"));
    assert!(html.contains("status-badge pass\">All policies passing"));
    assert!(html.contains("1970-01-01 00:00 UTC"));
    assert!(!html.contains("<ul class=\"violations\">"));
}

#[test]
fn timestamp_before_the_epoch_counts_days_back() {
    assert_eq!(format_unix_utc(-1), "1969-12-31 23:59 UTC");
    assert_eq!(format_unix_utc(-86_400 * 20), "1969-12-12 00:00 UTC");
    assert_eq!(format_unix_utc(-86_400 * 365), "1969-01-01 00:00 UTC");
    assert_eq!(format_unix_utc(-86_400 * (365 + 366)), "1968-01-01 00:00 UTC");
    assert_eq!(format_unix_utc(-86_400 * (365 + 366) + 86_400 * 59), "1968-02-29 00:00 UTC");
}

#[test]
fn report_text_opens_no_element() {
    let mut report = sample_report();
    report.policies[1].violations.push(Violation {
        model: "m<script>".into(),
        file: "<img src=x onerror=alert(1)>".into(),
        column: Some("<iframe>".into()),
        message: "<a href=\"evil\">x</a> <section> <li>".into(),
    });
    report.total_violations = 2;
    let html = render_at(&report, 0);
    assert_eq!(html.matches("<section").count(), 2);
    assert_eq!(html.matches("<li>").count(), 2);
    assert_eq!(html.matches("<script").count(), 0);
    assert_eq!(html.matches("<link").count(), 0);
    assert_eq!(html.matches("<img").count(), 0);
    assert_eq!(html.matches("<iframe").count(), 0);
    assert_eq!(html.matches("<a").count(), 1);
    assert_eq!(html.matches("<a href=\"https://github.com/dreynow/dbt-fleet\">").count(), 1);
}
