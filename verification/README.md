# dbt-fleet

Governance scoring and trends for dbt projects: which production-critical
(tier-1) models lack an owner or column documentation, a self-contained HTML
report of the findings, and the score history over time.

The checks are written in Verus and proved against their specifications.

## Layout

- `src/` — the verified library.
  - `manifest.rs` — nodes, columns and `meta` values of a dbt manifest; model
    selection and owner resolution.
  - `tier.rs` — tier-1 classification by path globs (the `globset` crate) and
    `meta` key/value pairs.
  - `policy.rs` — the ownership and column-description policies.
  - `check.rs` — running the policies and the human-readable report.
  - `score.rs` — the counts behind score percentages; ISO-8601 timestamps.
  - `render/html.rs` — the HTML report; `render/markup.rs` — laws on the
    elements the report opens; `render/trend.rs` — the terminal trend
    chart's sampling, date labels, bars and layout.
  - `calendar.rs`, `text.rs`, `clock.rs` — calendar arithmetic, text
    building, and the system clock.
- `app/` — the command-line program: argument parsing, reading the manifest
  and tiers file, the score history file, floating-point percentages and the
  demo history.
- `tests/` — tests of the library.
