use dbt_fleet::render::trend::{
    bar, render_chart, render_single, sample, short_date, Direction, Reading, TrendRow,
    TrendSummary, NO_HISTORY,
};

#[test]
fn sample_picks_first_and_last() {
    let items: Vec<i32> = (0..100).collect();
    let sampled = sample(&items, 10);
    assert_eq!(sampled.len(), 10);
    assert_eq!(*sampled[0], 0);
    assert_eq!(*sampled[9], 99);
}

#[test]
fn short_date_extracts_month_day() {
    assert_eq!(short_date("2026-05-06T11:30:00Z"), "May 06");
    assert_eq!(short_date("2024-12-31T23:59:59Z"), "Dec 31");
}

#[test]
fn sample_spreads_indices_evenly() {
    let items: Vec<i32> = (0..100).collect();
    let sampled: Vec<i32> = sample(&items, 10).into_iter().copied().collect();
    assert_eq!(sampled, vec![0, 11, 22, 33, 44, 55, 66, 77, 88, 99]);
    let few: Vec<i32> = vec![5, 6, 7];
    let all: Vec<i32> = sample(&few, 10).into_iter().copied().collect();
    assert_eq!(all, vec![5, 6, 7]);
    let one: Vec<i32> = sample(&few, 1).into_iter().copied().collect();
    assert_eq!(one, vec![5]);
    let empty: Vec<i32> = vec![];
    assert!(sample(&empty, 0).is_empty());
}

#[test]
fn short_date_handles_odd_input() {
    assert_eq!(short_date("2026-05"), "2026-05");
    assert_eq!(short_date("2026-xx-yyT00"), "Jan 01");
    assert_eq!(short_date("2026-00-+7T00"), "Jan 07");
    assert_eq!(short_date("2026-13-00T00"), "Dec 00");
}

#[test]
fn bar_is_always_full_width() {
    assert_eq!(bar(0), "\u{2591}".repeat(24));
    assert_eq!(bar(24), "\u{2588}".repeat(24));
    assert_eq!(bar(10), "\u{2588}".repeat(10) + &"\u{2591}".repeat(14));
}

fn reading(filled: usize, label: &str) -> Reading {
    Reading { filled, label: label.to_string() }
}

#[test]
fn chart_for_empty_and_single_histories() {
    assert!(NO_HISTORY.contains("No history yet"));
    let out = render_single("2026-05-06T00:00:00Z", "75.0");
    assert!(out.contains("Only one snapshot"));
    assert!(out.contains("  2026-05-06T00:00:00Z: overall 75.0%\n"));
}

#[test]
fn chart_lays_out_three_series_and_the_movement() {
    let rows = vec![
        TrendRow {
            timestamp: "2026-01-01T00:00:00Z".into(),
            overall: reading(14, " 60.0"),
            ownership: reading(14, " 60.0"),
            descriptions: reading(14, " 60.0"),
        },
        TrendRow {
            timestamp: "2026-05-01T00:00:00Z".into(),
            overall: reading(19, " 80.0"),
            ownership: reading(19, " 80.0"),
            descriptions: reading(19, " 80.0"),
        },
    ];
    let summary = TrendSummary {
        direction: Direction::Up,
        first: "60.0".into(),
        last: "80.0".into(),
        delta: "+20.0".into(),
    };
    let out = render_chart(5, &rows, &summary);
    assert!(out.starts_with("dbt-fleet trend (5 snapshots, sampled to 2)\n\n  Overall:\n"));
    assert!(out.contains("Ownership"));
    assert!(out.contains("Descriptions"));
    let line = format!("    Jan 01 {}{}  60.0%\n", "\u{2588}".repeat(14), "\u{2591}".repeat(10));
    assert!(out.contains(&line));
    assert!(out.ends_with("Overall: \u{2191} 60.0% \u{2192} 80.0% (+20.0pp)\n"));
    assert_eq!(out.matches("May 01").count(), 3);
}
