//! Self-contained HTML report: no external assets, no script, no web fonts;
//! a single file to drop into a pull-request comment or host as a page.

use vstd::prelude::*;

use crate::calendar::{self, civil_from_unix};
use crate::check::{self, CheckReport};
use crate::clock::now_unix;
use crate::policy::{PolicyResult, Violation};
use crate::text::{self, chars_of, push_char, push_decimal, push_padded_signed, push_str};

verus! {

/// The style sheet embedded in every report.
pub const STYLES: &'static str = "\n:root {\n  --bg: #fafaf9;\n  --surface: #ffffff;\n  --border: #e7e5e4;\n  --border-strong: #d6d3d1;\n  --text: #1c1917;\n  --text-muted: #57534e;\n  --text-subtle: #78716c;\n  --accent: #0c0a09;\n  --pass: #15803d;\n  --pass-bg: #f0fdf4;\n  --fail: #b91c1c;\n  --fail-bg: #fef2f2;\n  --warn-bg: #fffbeb;\n}\n\n* { box-sizing: border-box; }\n\nhtml, body {\n  margin: 0;\n  padding: 0;\n  background: var(--bg);\n  color: var(--text);\n  font-family: -apple-system, BlinkMacSystemFont, \"Segoe UI\", Roboto, Oxygen,\n    Ubuntu, Cantarell, \"Helvetica Neue\", sans-serif;\n  font-size: 15px;\n  line-height: 1.5;\n  -webkit-font-smoothing: antialiased;\n  -moz-osx-font-smoothing: grayscale;\n}\n\n.page {\n  max-width: 880px;\n  margin: 0 auto;\n  padding: 48px 24px 96px;\n}\n\nheader {\n  display: flex;\n  align-items: baseline;\n  justify-content: space-between;\n  border-bottom: 1px solid var(--border);\n  padding-bottom: 24px;\n  margin-bottom: 32px;\n}\n\n.brand {\n  font-weight: 600;\n  letter-spacing: -0.01em;\n  font-size: 18px;\n}\n\n.brand .version {\n  color: var(--text-subtle);\n  font-weight: 400;\n  font-size: 13px;\n  margin-left: 8px;\n}\n\n.meta {\n  font-size: 13px;\n  color: var(--text-muted);\n}\n\n.summary {\n  background: var(--surface);\n  border: 1px solid var(--border);\n  border-radius: 12px;\n  padding: 28px 32px;\n  margin-bottom: 32px;\n}\n\n.summary-row {\n  display: flex;\n  align-items: center;\n  gap: 16px;\n}\n\n.status-badge {\n  display: inline-flex;\n  align-items: center;\n  gap: 8px;\n  font-weight: 600;\n  font-size: 14px;\n  padding: 6px 12px;\n  border-radius: 999px;\n  letter-spacing: 0.01em;\n}\n\n.status-badge.pass { background: var(--pass-bg); color: var(--pass); }\n.status-badge.fail { background: var(--fail-bg); color: var(--fail); }\n\n.status-badge::before {\n  content: \"\";\n  display: inline-block;\n  width: 8px;\n  height: 8px;\n  border-radius: 50%;\n  background: currentColor;\n}\n\n.summary-stats {\n  margin-top: 20px;\n  display: grid;\n  grid-template-columns: repeat(3, 1fr);\n  gap: 24px;\n}\n\n.stat .label {\n  font-size: 12px;\n  text-transform: uppercase;\n  letter-spacing: 0.05em;\n  color: var(--text-subtle);\n  margin-bottom: 4px;\n}\n\n.stat .value {\n  font-size: 28px;\n  font-weight: 600;\n  letter-spacing: -0.02em;\n  color: var(--text);\n}\n\nh2 {\n  font-size: 14px;\n  text-transform: uppercase;\n  letter-spacing: 0.06em;\n  color: var(--text-subtle);\n  font-weight: 600;\n  margin: 40px 0 16px;\n}\n\n.policy {\n  background: var(--surface);\n  border: 1px solid var(--border);\n  border-radius: 12px;\n  margin-bottom: 16px;\n  overflow: hidden;\n}\n\n.policy-header {\n  display: flex;\n  align-items: flex-start;\n  justify-content: space-between;\n  padding: 20px 24px;\n  gap: 16px;\n}\n\n.policy.fail .policy-header {\n  background: var(--fail-bg);\n  border-bottom: 1px solid var(--border);\n}\n\n.policy.pass .policy-header {\n  background: var(--pass-bg);\n}\n\n.policy-name {\n  font-family: ui-monospace, \"SF Mono\", Menlo, Consolas, monospace;\n  font-size: 14px;\n  font-weight: 600;\n  color: var(--text);\n}\n\n.policy-description {\n  font-size: 13px;\n  color: var(--text-muted);\n  margin-top: 4px;\n}\n\n.policy-status {\n  font-size: 13px;\n  font-weight: 600;\n  white-space: nowrap;\n  flex-shrink: 0;\n}\n\n.policy.pass .policy-status { color: var(--pass); }\n.policy.fail .policy-status { color: var(--fail); }\n\n.violations {\n  list-style: none;\n  margin: 0;\n  padding: 0;\n}\n\n.violations li {\n  padding: 12px 24px;\n  border-top: 1px solid var(--border);\n  font-size: 13px;\n  display: grid;\n  grid-template-columns: 1fr auto;\n  gap: 16px;\n  align-items: baseline;\n}\n\n.violations li:first-child {\n  border-top: none;\n}\n\n.violation-location {\n  font-family: ui-monospace, \"SF Mono\", Menlo, Consolas, monospace;\n  color: var(--text);\n  word-break: break-all;\n}\n\n.violation-location .col {\n  color: var(--text-muted);\n}\n\n.violation-message {\n  color: var(--text-muted);\n  text-align: right;\n  font-style: italic;\n}\n\nfooter {\n  margin-top: 64px;\n  padding-top: 24px;\n  border-top: 1px solid var(--border);\n  font-size: 12px;\n  color: var(--text-subtle);\n  text-align: center;\n}\n\nfooter a {\n  color: var(--text-muted);\n  text-decoration: none;\n}\n\nfooter a:hover {\n  text-decoration: underline;\n}\n";

/// Fixed text of the page template, piece 0.
pub const PAGE_0: &'static str = "<!DOCTYPE html>\n<html lang=\"en\">\n<head>\n  <meta charset=\"UTF-8\">\n  <meta name=\"viewport\" content=\"width=device-width, initial-scale=1.0\">\n  <title>dbt-fleet report \u{2014} ";

/// Fixed text of the page template, piece 1.
pub const PAGE_1: &'static str = "</title>\n  <style>";

/// Fixed text of the page template, piece 2.
pub const PAGE_2: &'static str = "</style>\n</head>\n<body>\n  <div class=\"page\">\n    <header>\n      <div class=\"brand\">dbt-fleet<span class=\"version\">v";

/// Fixed text of the page template, piece 3.
pub const PAGE_3: &'static str = "</span></div>\n      <div class=\"meta\">";

/// Fixed text of the page template, piece 4.
pub const PAGE_4: &'static str = "</div>\n    </header>\n\n    <div class=\"summary\">\n      <div class=\"summary-row\">\n        <span class=\"status-badge ";

/// Fixed text of the page template, piece 5.
pub const PAGE_5: &'static str = "\">";

/// Fixed text of the page template, piece 6.
pub const PAGE_6: &'static str = "</span>\n      </div>\n      <div class=\"summary-stats\">\n        <div class=\"stat\">\n          <div class=\"label\">Tier-1 models</div>\n          <div class=\"value\">";

/// Fixed text of the page template, piece 7.
pub const PAGE_7: &'static str = "</div>\n        </div>\n        <div class=\"stat\">\n          <div class=\"label\">Policies</div>\n          <div class=\"value\">";

/// Fixed text of the page template, piece 8.
pub const PAGE_8: &'static str = "</div>\n        </div>\n        <div class=\"stat\">\n          <div class=\"label\">Violations</div>\n          <div class=\"value\">";

/// Fixed text of the page template, piece 9.
pub const PAGE_9: &'static str = "</div>\n        </div>\n      </div>\n    </div>\n\n    <h2>Policy results";

/// Fixed text of the page template, piece 10.
pub const PAGE_10: &'static str = "</h2>\n    ";

/// Fixed text of the page template, piece 11.
pub const PAGE_11: &'static str = "\n\n    <footer>\n      Generated by <a href=\"https://github.com/dreynow/dbt-fleet\">dbt-fleet</a> v";

/// Fixed text of the page template, piece 12.
pub const PAGE_12: &'static str = ".\n    </footer>\n  </div>\n</body>\n</html>\n";

/// Fixed text of the policy section template, piece 0.
pub const SECTION_0: &'static str = "<section class=\"policy ";

/// Fixed text of the policy section template, piece 1.
pub const SECTION_1: &'static str = "\">\n  <div class=\"policy-header\">\n    <div>\n      <div class=\"policy-name\">";

/// Fixed text of the policy section template, piece 2.
pub const SECTION_2: &'static str = "</div>\n      <div class=\"policy-description\">";

/// Fixed text of the policy section template, piece 3.
pub const SECTION_3: &'static str = "</div>\n    </div>\n    <div class=\"policy-status\">";

/// Fixed text of the policy section template, piece 4.
pub const SECTION_4: &'static str = "</div>\n  </div>";


/// The HTML text of character `c`: `&`, `<`, `>` and `"` become entities.
pub open spec fn escape_char(c: char) -> Seq<char> {
    if c == '&' {
        "&amp;"@
    } else if c == '<' {
        "&lt;"@
    } else if c == '>' {
        "&gt;"@
    } else if c == '"' {
        "&quot;"@
    } else {
        seq![c]
    }
}

/// `s` with every character replaced by its HTML text.
pub open spec fn escaped(s: Seq<char>) -> Seq<char>
    decreases s.len(),
{
    if s.len() == 0 {
        Seq::empty()
    } else {
        escaped(s.drop_last()) + escape_char(s.last())
    }
}

/// The timestamp text `YYYY-MM-DD HH:MM UTC` of Unix time `t`.
pub open spec fn utc_minute_text(t: int) -> Seq<char> {
    let (y, mo, d, h, mi, _s) = calendar::civil_of_unix(t);
    text::padded_signed(y, 4) + "-"@ + text::padded_signed(mo, 2) + "-"@ + text::padded_signed(d, 2)
        + " "@ + text::padded_signed(h, 2) + ":"@ + text::padded_signed(mi, 2) + " UTC"@
}

/// The location markup of a violation.
pub open spec fn location_html(v: Violation) -> Seq<char> {
    match v.column {
        Some(c) => "<span class=\"violation-location\">"@ + escaped(v.file@)
            + "<span class=\"col\">:"@ + escaped(c@) + "</span></span>"@,
        None => "<span class=\"violation-location\">"@ + escaped(v.file@) + "</span>"@,
    }
}

/// The list item of a violation.
pub open spec fn violation_html(v: Violation) -> Seq<char> {
    "<li>"@ + location_html(v) + "<span class=\"violation-message\">"@ + escaped(v.message@)
        + "</span></li>"@
}

/// The list items of violations, in order.
pub open spec fn violations_html(vs: Seq<Violation>) -> Seq<char>
    decreases vs.len(),
{
    if vs.len() == 0 {
        Seq::empty()
    } else {
        violations_html(vs.drop_last()) + violation_html(vs.last())
    }
}

/// `pass` or `fail`.
pub open spec fn pass_class(passed: bool) -> Seq<char> {
    if passed {
        "pass"@
    } else {
        "fail"@
    }
}

/// The status text of a policy: `Passing`, or its violation count.
pub open spec fn policy_status(p: PolicyResult) -> Seq<char> {
    let n = p.violations@.len();
    if n == 0 {
        "Passing"@
    } else {
        text::digits(n) + " violation"@ + check::plural(n as int, "s"@)
    }
}

/// The section of one policy result.
pub open spec fn policy_html(p: PolicyResult) -> Seq<char> {
    let n = p.violations@.len();
    SECTION_0@ + pass_class(n == 0) + SECTION_1@ + escaped(p.name@) + SECTION_2@ + escaped(
        p.description@,
    ) + SECTION_3@ + policy_status(p) + SECTION_4@ + (if n == 0 {
        Seq::empty()
    } else {
        "<ul class=\"violations\">"@ + violations_html(p.violations@) + "</ul>"@
    }) + "</section>"@
}

/// The sections of policy results, in order.
pub open spec fn policies_html(ps: Seq<PolicyResult>) -> Seq<char>
    decreases ps.len(),
{
    if ps.len() == 0 {
        Seq::empty()
    } else {
        policies_html(ps.drop_last()) + policy_html(ps.last())
    }
}

/// The note after the results heading: ` (N failing)` when some policy fails.
pub open spec fn failing_note(ps: Seq<PolicyResult>) -> Seq<char> {
    let n = check::failing_count(ps);
    if n > 0 {
        " ("@ + text::digits(n as nat) + " failing)"@
    } else {
        Seq::empty()
    }
}

/// The whole HTML document for `r`, stamped with `date`.
pub open spec fn html_document(r: CheckReport, date: Seq<char>) -> Seq<char> {
    let passed = r.total_violations == 0;
    PAGE_0@ + date + PAGE_1@ + STYLES@ + PAGE_2@ + r.version@ + PAGE_3@ + date + PAGE_4@
        + pass_class(passed) + PAGE_5@ + (if passed {
        "All policies passing"@
    } else {
        "Policy violations"@
    }) + PAGE_6@ + text::digits(r.tier1_models as nat) + PAGE_7@ + text::digits(r.policies@.len())
        + PAGE_8@ + text::digits(r.total_violations as nat) + PAGE_9@ + failing_note(r.policies@)
        + PAGE_10@ + policies_html(r.policies@) + PAGE_11@ + r.version@ + PAGE_12@
}

/// Append the HTML text of `s` to `out`.
pub fn push_escaped(out: &mut String, s: &str)
    ensures
        final(out)@ == old(out)@ + escaped(s@),
{
    let v = chars_of(s);
    let ghost start = out@;
    let mut i: usize = 0;
    while i < v.len()
        invariant
            i <= v.len(),
            v@ == s@,
            out@ == start + escaped(v@.subrange(0, i as int)),
        decreases v.len() - i,
    {
        assert(v@.subrange(0, i + 1).drop_last() =~= v@.subrange(0, i as int));
        let c = v[i];
        if c == '&' {
            push_str(out, "&amp;");
        } else if c == '<' {
            push_str(out, "&lt;");
        } else if c == '>' {
            push_str(out, "&gt;");
        } else if c == '"' {
            push_str(out, "&quot;");
        } else {
            push_char(out, c);
        }
        i = i + 1;
        assert(out@ =~= start + escaped(v@.subrange(0, i as int)));
    }
    assert(v@.subrange(0, i as int) =~= s@);
}

/// Minimal HTML escaping of `&`, `<`, `>` and `"`.
pub fn escape(s: &str) -> (r: String)
    ensures
        r@ == escaped(s@),
{
    let mut r = String::new();
    push_escaped(&mut r, s);
    assert(r@ =~= escaped(s@));
    r
}

/// Whether `c` is left as it is by HTML escaping.
pub open spec fn plain_char(c: char) -> bool {
    c != '&' && c != '<' && c != '>' && c != '"'
}

/// Escaped text holds no `<`, `>` or `"`, and text without `&`, `<`, `>`
/// or `"` is left as it is.
pub proof fn lemma_escaped(s: Seq<char>)
    ensures
        !escaped(s).contains('<'),
        !escaped(s).contains('>'),
        !escaped(s).contains('"'),
        (forall|i: int| 0 <= i < s.len() ==> plain_char(#[trigger] s[i])) ==> escaped(s) == s,
    decreases s.len(),
{
    reveal_strlit("&amp;");
    reveal_strlit("&lt;");
    reveal_strlit("&gt;");
    reveal_strlit("&quot;");
    if s.len() > 0 {
        lemma_escaped(s.drop_last());
        let pre = escaped(s.drop_last());
        let last = escape_char(s.last());
        assert(escaped(s) == pre + last);
        assert(!last.contains('<'));
        assert(!last.contains('>'));
        assert(!last.contains('"'));
        assert forall|c: char| c == '<' || c == '>' || c == '"' implies !(pre + last).contains(c) by {
            if (pre + last).contains(c) {
                let k = choose|k: int| 0 <= k < (pre + last).len() && (pre + last)[k] == c;
                if k < pre.len() {
                    assert(pre[k] == c);
                } else {
                    assert(last[k - pre.len()] == c);
                }
            }
        }
        if forall|i: int| 0 <= i < s.len() ==> plain_char(#[trigger] s[i]) {
            assert(forall|i: int| 0 <= i < s.drop_last().len() ==> s.drop_last()[i] == s[i]);
            assert(s.last() == s[s.len() - 1]);
            assert(escaped(s) =~= s.drop_last().push(s.last()));
            assert(s.drop_last().push(s.last()) =~= s);
        }
    }
}

fn push_violation(out: &mut String, v: &Violation)
    ensures
        final(out)@ == old(out)@ + violation_html(*v),
{
    push_str(out, "<li>");
    push_str(out, "<span class=\"violation-location\">");
    push_escaped(out, v.file.as_str());
    match &v.column {
        Some(c) => {
            push_str(out, "<span class=\"col\">:");
            push_escaped(out, c.as_str());
            push_str(out, "</span></span>");
        },
        None => {
            push_str(out, "</span>");
        },
    }
    push_str(out, "<span class=\"violation-message\">");
    push_escaped(out, v.message.as_str());
    push_str(out, "</span></li>");
    assert(final(out)@ =~= old(out)@ + violation_html(*v));
}

/// The list item of a violation.
pub fn render_violation(v: &Violation) -> (r: String)
    ensures
        r@ == violation_html(*v),
{
    let mut r = String::new();
    push_violation(&mut r, v);
    assert(r@ =~= violation_html(*v));
    r
}

fn push_policy(out: &mut String, p: &PolicyResult)
    ensures
        final(out)@ == old(out)@ + policy_html(*p),
{
    let n = p.violations.len();
    push_str(out, SECTION_0);
    if n == 0 {
        push_str(out, "pass");
    } else {
        push_str(out, "fail");
    }
    push_str(out, SECTION_1);
    push_escaped(out, p.name);
    push_str(out, SECTION_2);
    push_escaped(out, p.description);
    push_str(out, SECTION_3);
    if n == 0 {
        push_str(out, "Passing");
    } else {
        push_decimal(out, n as u64);
        push_str(out, " violation");
        if n != 1 {
            push_str(out, "s");
        }
    }
    push_str(out, SECTION_4);
    let ghost head = out@;
    assert(head =~= old(out)@ + (SECTION_0@ + pass_class(n == 0) + SECTION_1@ + escaped(p.name@)
        + SECTION_2@ + escaped(p.description@) + SECTION_3@ + policy_status(*p) + SECTION_4@));
    if n > 0 {
        push_str(out, "<ul class=\"violations\">");
        let ghost list_start = out@;
        let mut j: usize = 0;
        while j < p.violations.len()
            invariant
                j <= p.violations@.len(),
                out@ == list_start + violations_html(p.violations@.subrange(0, j as int)),
            decreases p.violations.len() - j,
        {
            assert(p.violations@.subrange(0, j + 1).drop_last() =~= p.violations@.subrange(
                0,
                j as int,
            ));
            push_violation(out, &p.violations[j]);
            j = j + 1;
            assert(out@ =~= list_start + violations_html(p.violations@.subrange(0, j as int)));
        }
        assert(p.violations@.subrange(0, j as int) =~= p.violations@);
        push_str(out, "</ul>");
    }
    push_str(out, "</section>");
    assert(final(out)@ =~= old(out)@ + policy_html(*p));
}

/// The report for `report`, stamped with Unix time `secs`.
pub fn render_at(report: &CheckReport, secs: i64) -> (r: String)
    ensures
        r@ == html_document(*report, utc_minute_text(secs as int)),
{
    let date = format_unix_utc(secs);
    let passed = report.passed();
    let mut failing: usize = 0;
    let mut policy_html = String::new();
    let mut i: usize = 0;
    while i < report.policies.len()
        invariant
            i <= report.policies@.len(),
            policy_html@ == policies_html(report.policies@.subrange(0, i as int)),
            failing == check::failing_count(report.policies@.subrange(0, i as int)),
            failing <= i,
        decreases report.policies.len() - i,
    {
        assert(report.policies@.subrange(0, i + 1).drop_last() =~= report.policies@.subrange(
            0,
            i as int,
        ));
        let p = &report.policies[i];
        push_policy(&mut policy_html, p);
        if !p.passed() {
            failing = failing + 1;
        }
        i = i + 1;
    }
    assert(report.policies@.subrange(0, i as int) =~= report.policies@);
    let mut out = String::new();
    push_str(&mut out, PAGE_0);
    push_str(&mut out, date.as_str());
    push_str(&mut out, PAGE_1);
    push_str(&mut out, STYLES);
    push_str(&mut out, PAGE_2);
    push_str(&mut out, report.version);
    push_str(&mut out, PAGE_3);
    push_str(&mut out, date.as_str());
    push_str(&mut out, PAGE_4);
    if passed {
        push_str(&mut out, "pass");
    } else {
        push_str(&mut out, "fail");
    }
    push_str(&mut out, PAGE_5);
    if passed {
        push_str(&mut out, "All policies passing");
    } else {
        push_str(&mut out, "Policy violations");
    }
    push_str(&mut out, PAGE_6);
    push_decimal(&mut out, report.tier1_models as u64);
    push_str(&mut out, PAGE_7);
    push_decimal(&mut out, report.policies.len() as u64);
    push_str(&mut out, PAGE_8);
    push_decimal(&mut out, report.total_violations as u64);
    push_str(&mut out, PAGE_9);
    let ghost before_note = out@;
    if failing > 0 {
        push_str(&mut out, " (");
        push_decimal(&mut out, failing as u64);
        push_str(&mut out, " failing)");
    }
    assert(out@ =~= before_note + failing_note(report.policies@));
    push_str(&mut out, PAGE_10);
    push_str(&mut out, policy_html.as_str());
    push_str(&mut out, PAGE_11);
    push_str(&mut out, report.version);
    push_str(&mut out, PAGE_12);
    assert(out@ =~= html_document(*report, utc_minute_text(secs as int)));
    out
}

/// Render a report as a self-contained HTML document, stamped with the
/// current time.
pub fn render(report: &CheckReport) -> (r: String)
    ensures
        exists|t: i64| r@ == #[trigger] html_document(*report, utc_minute_text(t as int)),
{
    let now = now_unix();
    render_at(report, now)
}

/// The current UTC time as `YYYY-MM-DD HH:MM UTC`.
pub fn current_timestamp() -> (r: String)
    ensures
        exists|t: i64| r@ == #[trigger] utc_minute_text(t as int),
{
    format_unix_utc(now_unix())
}

/// Unix time `secs` as `YYYY-MM-DD HH:MM UTC`.
pub fn format_unix_utc(secs: i64) -> (r: String)
    ensures
        r@ == utc_minute_text(secs as int),
{
    let t = civil_from_unix(secs);
    let mut s = String::new();
    push_padded_signed(&mut s, t.year, 4);
    push_str(&mut s, "-");
    push_padded_signed(&mut s, t.month, 2);
    push_str(&mut s, "-");
    push_padded_signed(&mut s, t.day, 2);
    push_str(&mut s, " ");
    push_padded_signed(&mut s, t.hour, 2);
    push_str(&mut s, ":");
    push_padded_signed(&mut s, t.minute, 2);
    push_str(&mut s, " UTC");
    assert(s@ =~= utc_minute_text(secs as int));
    s
}

} // verus!

verus! {

/// The entity that HTML escaping writes for `&`.
pub open spec fn amp_entity() -> Seq<char> {
    seq!['&', 'a', 'm', 'p', ';']
}

/// The entity that HTML escaping writes for `<`.
pub open spec fn lt_entity() -> Seq<char> {
    seq!['&', 'l', 't', ';']
}

/// The entity that HTML escaping writes for `>`.
pub open spec fn gt_entity() -> Seq<char> {
    seq!['&', 'g', 't', ';']
}

/// The entity that HTML escaping writes for `"`.
pub open spec fn quot_entity() -> Seq<char> {
    seq!['&', 'q', 'u', 'o', 't', ';']
}

/// Whether `s` holds `p` at position `i`.
pub open spec fn holds_at(s: Seq<char>, i: int, p: Seq<char>) -> bool {
    0 <= i && i + p.len() <= s.len() && s.subrange(i, i + p.len()) == p
}

/// Whether one of the four entities starts at position `i` of `s`.
pub open spec fn entity_at(s: Seq<char>, i: int) -> bool {
    ||| holds_at(s, i, amp_entity())
    ||| holds_at(s, i, lt_entity())
    ||| holds_at(s, i, gt_entity())
    ||| holds_at(s, i, quot_entity())
}

/// Reading escaped text back: each entity becomes its character again,
/// every other character stands for itself.
pub open spec fn unescaped(s: Seq<char>) -> Seq<char>
    decreases s.len(),
{
    if s.len() == 0 {
        Seq::empty()
    } else if holds_at(s, 0, amp_entity()) {
        seq!['&'] + unescaped(s.subrange(5, s.len() as int))
    } else if holds_at(s, 0, lt_entity()) {
        seq!['<'] + unescaped(s.subrange(4, s.len() as int))
    } else if holds_at(s, 0, gt_entity()) {
        seq!['>'] + unescaped(s.subrange(4, s.len() as int))
    } else if holds_at(s, 0, quot_entity()) {
        seq!['"'] + unescaped(s.subrange(6, s.len() as int))
    } else {
        seq![s[0]] + unescaped(s.subrange(1, s.len() as int))
    }
}

proof fn lemma_entities()
    ensures
        "&amp;"@ == amp_entity(),
        "&lt;"@ == lt_entity(),
        "&gt;"@ == gt_entity(),
        "&quot;"@ == quot_entity(),
{
    reveal_strlit("&amp;");
    reveal_strlit("&lt;");
    reveal_strlit("&gt;");
    reveal_strlit("&quot;");
    assert("&amp;"@ =~= amp_entity());
    assert("&lt;"@ =~= lt_entity());
    assert("&gt;"@ =~= gt_entity());
    assert("&quot;"@ =~= quot_entity());
}

/// Escaping works character by character: the escape of a concatenation is
/// the concatenation of the escapes.
pub proof fn lemma_escaped_concat(a: Seq<char>, b: Seq<char>)
    ensures
        escaped(a + b) == escaped(a) + escaped(b),
    decreases b.len(),
{
    if b.len() == 0 {
        assert(a + b =~= a);
        assert(escaped(a) + escaped(b) =~= escaped(a));
    } else {
        lemma_escaped_concat(a, b.drop_last());
        assert((a + b).drop_last() =~= a + b.drop_last());
        assert((a + b).last() == b.last());
        assert(escaped(a + b) =~= escaped(a) + escaped(b));
    }
}

proof fn lemma_unescape_step(c: char, e: Seq<char>)
    ensures
        unescaped(escape_char(c) + e) == seq![c] + unescaped(e),
{
    lemma_entities();
    let x = escape_char(c) + e;
    if c == '&' {
        assert(x.subrange(0, 5) =~= amp_entity());
        assert(x.subrange(5, x.len() as int) =~= e);
    } else if c == '<' {
        assert(x.subrange(0, 4) =~= lt_entity());
        assert(x.subrange(4, x.len() as int) =~= e);
        assert(!holds_at(x, 0, amp_entity())) by {
            if holds_at(x, 0, amp_entity()) {
                assert(x.subrange(0, 5)[1] == amp_entity()[1]);
            }
        }
    } else if c == '>' {
        assert(x.subrange(0, 4) =~= gt_entity());
        assert(x.subrange(4, x.len() as int) =~= e);
        assert(!holds_at(x, 0, amp_entity())) by {
            if holds_at(x, 0, amp_entity()) {
                assert(x.subrange(0, 5)[1] == amp_entity()[1]);
            }
        }
        assert(!holds_at(x, 0, lt_entity())) by {
            if holds_at(x, 0, lt_entity()) {
                assert(x.subrange(0, 4)[1] == lt_entity()[1]);
            }
        }
    } else if c == '"' {
        assert(x.subrange(0, 6) =~= quot_entity());
        assert(x.subrange(6, x.len() as int) =~= e);
        assert(!holds_at(x, 0, amp_entity())) by {
            if holds_at(x, 0, amp_entity()) {
                assert(x.subrange(0, 5)[1] == amp_entity()[1]);
            }
        }
        assert(!holds_at(x, 0, lt_entity())) by {
            if holds_at(x, 0, lt_entity()) {
                assert(x.subrange(0, 4)[1] == lt_entity()[1]);
            }
        }
        assert(!holds_at(x, 0, gt_entity())) by {
            if holds_at(x, 0, gt_entity()) {
                assert(x.subrange(0, 4)[1] == gt_entity()[1]);
            }
        }
    } else {
        assert(x[0] == c);
        assert(!holds_at(x, 0, amp_entity())) by {
            if holds_at(x, 0, amp_entity()) {
                assert(x.subrange(0, 5)[0] == amp_entity()[0]);
            }
        }
        assert(!holds_at(x, 0, lt_entity())) by {
            if holds_at(x, 0, lt_entity()) {
                assert(x.subrange(0, 4)[0] == lt_entity()[0]);
            }
        }
        assert(!holds_at(x, 0, gt_entity())) by {
            if holds_at(x, 0, gt_entity()) {
                assert(x.subrange(0, 4)[0] == gt_entity()[0]);
            }
        }
        assert(!holds_at(x, 0, quot_entity())) by {
            if holds_at(x, 0, quot_entity()) {
                assert(x.subrange(0, 6)[0] == quot_entity()[0]);
            }
        }
        assert(x.subrange(1, x.len() as int) =~= e);
    }
}

/// Reading escaped text back gives the original text, so escaping never
/// maps two different texts to the same escape.
pub proof fn lemma_unescape_escaped(s: Seq<char>)
    ensures
        unescaped(escaped(s)) == s,
    decreases s.len(),
{
    if s.len() > 0 {
        let rest = s.subrange(1, s.len() as int);
        assert(s =~= seq![s[0]] + rest);
        lemma_escaped_concat(seq![s[0]], rest);
        let one = seq![s[0]];
        assert(one.drop_last() =~= Seq::<char>::empty());
        assert(escaped(Seq::<char>::empty()) == Seq::<char>::empty());
        assert(one.last() == s[0]);
        assert(escaped(one) == escaped(one.drop_last()) + escape_char(one.last()));
        assert(escaped(one) =~= escape_char(s[0]));
        lemma_unescape_escaped(rest);
        lemma_unescape_step(s[0], escaped(rest));
    }
}

/// Different texts have different escapes.
pub proof fn lemma_escaped_injective(a: Seq<char>, b: Seq<char>)
    requires
        escaped(a) == escaped(b),
    ensures
        a == b,
{
    lemma_unescape_escaped(a);
    lemma_unescape_escaped(b);
}

/// Every `&` in escaped text starts one of the four entities.
pub proof fn lemma_escaped_ampersands(s: Seq<char>)
    ensures
        forall|i: int| 0 <= i < escaped(s).len() && escaped(s)[i] == '&' ==> #[trigger] entity_at(escaped(s), i),
    decreases s.len(),
{
    if s.len() > 0 {
        lemma_entities();
        lemma_escaped_ampersands(s.drop_last());
        let pre = escaped(s.drop_last());
        let last = escape_char(s.last());
        let e = escaped(s);
        assert(e == pre + last);
        assert forall|i: int| 0 <= i < e.len() && e[i] == '&' implies #[trigger] entity_at(e, i) by {
            if i < pre.len() {
                assert(pre[i] == '&');
                assert(entity_at(pre, i));
                if holds_at(pre, i, amp_entity()) {
                    assert(e.subrange(i, i + 5) =~= pre.subrange(i, i + 5));
                } else if holds_at(pre, i, lt_entity()) {
                    assert(e.subrange(i, i + 4) =~= pre.subrange(i, i + 4));
                } else if holds_at(pre, i, gt_entity()) {
                    assert(e.subrange(i, i + 4) =~= pre.subrange(i, i + 4));
                } else {
                    assert(e.subrange(i, i + 6) =~= pre.subrange(i, i + 6));
                }
            } else {
                let k = i - pre.len();
                assert(last[k] == '&');
                let c = s.last();
                if c == '&' {
                    assert(k == 0);
                    assert(e.subrange(i, i + 5) =~= amp_entity());
                } else if c == '<' {
                    assert(k == 0);
                    assert(e.subrange(i, i + 4) =~= lt_entity());
                } else if c == '>' {
                    assert(k == 0);
                    assert(e.subrange(i, i + 4) =~= gt_entity());
                } else if c == '"' {
                    assert(k == 0);
                    assert(e.subrange(i, i + 6) =~= quot_entity());
                } else {
                    assert(last == seq![c]);
                }
            }
        }
    }
}

/// Escaping never shortens text, and lengthens any text holding `&`, `<`,
/// `>` or `"`; so text is its own escape exactly when it holds none of them.
pub proof fn lemma_escaped_unchanged_iff_plain(s: Seq<char>)
    ensures
        escaped(s).len() >= s.len(),
        (exists|i: int| 0 <= i < s.len() && !plain_char(#[trigger] s[i])) ==> escaped(s).len() > s.len(),
        escaped(s) == s <==> (forall|i: int| 0 <= i < s.len() ==> plain_char(#[trigger] s[i])),
    decreases s.len(),
{
    lemma_entities();
    lemma_escaped(s);
    if s.len() > 0 {
        lemma_escaped_unchanged_iff_plain(s.drop_last());
        if exists|i: int| 0 <= i < s.len() && !plain_char(#[trigger] s[i]) {
            let i = choose|i: int| 0 <= i < s.len() && !plain_char(#[trigger] s[i]);
            if i < s.len() - 1 {
                assert(s.drop_last()[i] == s[i]);
            }
        }
    }
}

} // verus!

verus! {

/// Number of `<` characters in `s`: each opens or closes an element.
pub open spec fn lt_count(s: Seq<char>) -> nat {
    s.filter(|c: char| c == '<').len()
}

proof fn lemma_lt_add(a: Seq<char>, b: Seq<char>)
    ensures
        lt_count(a + b) == lt_count(a) + lt_count(b),
{
    Seq::filter_distributes_over_add(a, b, |c: char| c == '<');
}

proof fn lemma_lt_none(s: Seq<char>)
    requires
        !s.contains('<'),
    ensures
        lt_count(s) == 0,
    decreases s.len(),
{
    reveal(Seq::filter);
    if s.len() > 0 {
        assert(s.last() == s[s.len() - 1]);
        assert(!s.drop_last().contains('<')) by {
            if s.drop_last().contains('<') {
                let k = choose|k: int| 0 <= k < s.drop_last().len() && s.drop_last()[k] == '<';
                assert(s[k] == '<');
            }
        }
        lemma_lt_none(s.drop_last());
    }
}

proof fn lemma_lt_digits(n: nat)
    ensures
        lt_count(text::digits(n)) == 0,
        !text::digits(n).contains('<'),
    decreases n,
{
    if n >= 10 {
        lemma_lt_digits(n / 10);
        text::lemma_digit_char((n % 10) as int);
        let d = text::digits(n);
        assert(d == text::digits(n / 10).push(text::digit_char((n % 10) as int)));
        assert(!d.contains('<')) by {
            if d.contains('<') {
                let k = choose|k: int| 0 <= k < d.len() && d[k] == '<';
                if k < d.len() - 1 {
                    assert(text::digits(n / 10)[k] == '<');
                }
            }
        }
    } else {
        text::lemma_digit_char(n as int);
        assert(!text::digits(n).contains('<')) by {
            if text::digits(n).contains('<') {
                let k = choose|k: int| 0 <= k < text::digits(n).len() && text::digits(n)[k] == '<';
                assert(k == 0);
            }
        }
    }
    lemma_lt_none(text::digits(n));
}

proof fn lemma_lt_escaped(s: Seq<char>)
    ensures
        lt_count(escaped(s)) == 0,
{
    lemma_escaped(s);
    lemma_lt_none(escaped(s));
}

/// The `<` characters that the list item of a violation carries.
pub open spec fn violation_tags(v: Violation) -> nat {
    lt_count("<li>"@) + lt_count("<span class=\"violation-location\">"@) + (match v.column {
        Some(_) => lt_count("<span class=\"col\">:"@) + lt_count("</span></span>"@),
        None => lt_count("</span>"@),
    }) + lt_count("<span class=\"violation-message\">"@) + lt_count("</span></li>"@)
}

/// The `<` characters that the list items of violations carry.
pub open spec fn violations_tags(vs: Seq<Violation>) -> nat
    decreases vs.len(),
{
    if vs.len() == 0 {
        0
    } else {
        violations_tags(vs.drop_last()) + violation_tags(vs.last())
    }
}

/// The `<` characters that the section of a policy result carries.
pub open spec fn policy_tags(p: PolicyResult) -> nat {
    lt_count(SECTION_0@) + lt_count(SECTION_1@) + lt_count(SECTION_2@) + lt_count(SECTION_3@)
        + lt_count(SECTION_4@) + lt_count("</section>"@) + (if p.violations@.len() == 0 {
        0
    } else {
        lt_count("<ul class=\"violations\">"@) + violations_tags(p.violations@) + lt_count(
            "</ul>"@,
        )
    })
}

/// The `<` characters that the sections of policy results carry.
pub open spec fn policies_tags(ps: Seq<PolicyResult>) -> nat
    decreases ps.len(),
{
    if ps.len() == 0 {
        0
    } else {
        policies_tags(ps.drop_last()) + policy_tags(ps.last())
    }
}

/// The `<` characters of the page template around the sections.
pub open spec fn page_tags() -> nat {
    lt_count(PAGE_0@) + lt_count(PAGE_1@) + lt_count(STYLES@) + lt_count(PAGE_2@) + lt_count(
        PAGE_3@,
    ) + lt_count(PAGE_4@) + lt_count(PAGE_5@) + lt_count(PAGE_6@) + lt_count(PAGE_7@) + lt_count(
        PAGE_8@,
    ) + lt_count(PAGE_9@) + lt_count(PAGE_10@) + lt_count(PAGE_11@) + lt_count(PAGE_12@)
}

proof fn lemma_small_words()
    ensures
        lt_count("pass"@) == 0,
        lt_count("fail"@) == 0,
        lt_count("All policies passing"@) == 0,
        lt_count("Policy violations"@) == 0,
        lt_count("Passing"@) == 0,
        lt_count(" violation"@) == 0,
        lt_count("s"@) == 0,
        lt_count(" ("@) == 0,
        lt_count(" failing)"@) == 0,
        lt_count(Seq::<char>::empty()) == 0,
{
    reveal_strlit("pass");
    reveal_strlit("fail");
    reveal_strlit("All policies passing");
    reveal_strlit("Policy violations");
    reveal_strlit("Passing");
    reveal_strlit(" violation");
    reveal_strlit("s");
    reveal_strlit(" (");
    reveal_strlit(" failing)");
    lemma_lt_none("pass"@);
    lemma_lt_none("fail"@);
    lemma_lt_none("All policies passing"@);
    lemma_lt_none("Policy violations"@);
    lemma_lt_none("Passing"@);
    lemma_lt_none(" violation"@);
    lemma_lt_none("s"@);
    lemma_lt_none(" ("@);
    lemma_lt_none(" failing)"@);
    lemma_lt_none(Seq::<char>::empty());
}

proof fn lemma_violation_tags(v: Violation)
    ensures
        lt_count(violation_html(v)) == violation_tags(v),
{
    lemma_lt_escaped(v.file@);
    lemma_lt_escaped(v.message@);
    let loc = location_html(v);
    match v.column {
        Some(c) => {
            lemma_lt_escaped(c@);
            let a = "<span class=\"violation-location\">"@;
            lemma_lt_add(a, escaped(v.file@));
            lemma_lt_add(a + escaped(v.file@), "<span class=\"col\">:"@);
            lemma_lt_add(a + escaped(v.file@) + "<span class=\"col\">:"@, escaped(c@));
            lemma_lt_add(a + escaped(v.file@) + "<span class=\"col\">:"@ + escaped(c@), "</span></span>"@);
        },
        None => {
            let a = "<span class=\"violation-location\">"@;
            lemma_lt_add(a, escaped(v.file@));
            lemma_lt_add(a + escaped(v.file@), "</span>"@);
        },
    }
    lemma_lt_add("<li>"@, loc);
    lemma_lt_add("<li>"@ + loc, "<span class=\"violation-message\">"@);
    lemma_lt_add("<li>"@ + loc + "<span class=\"violation-message\">"@, escaped(v.message@));
    lemma_lt_add(
        "<li>"@ + loc + "<span class=\"violation-message\">"@ + escaped(v.message@),
        "</span></li>"@,
    );
}

proof fn lemma_violations_tags(vs: Seq<Violation>)
    ensures
        lt_count(violations_html(vs)) == violations_tags(vs),
    decreases vs.len(),
{
    if vs.len() == 0 {
        lemma_small_words();
    } else {
        lemma_violations_tags(vs.drop_last());
        lemma_violation_tags(vs.last());
        lemma_lt_add(violations_html(vs.drop_last()), violation_html(vs.last()));
    }
}

proof fn lemma_policy_tags(p: PolicyResult)
    ensures
        lt_count(policy_html(p)) == policy_tags(p),
{
    lemma_small_words();
    lemma_lt_escaped(p.name@);
    lemma_lt_escaped(p.description@);
    let n = p.violations@.len();
    lemma_lt_digits(n);
    let status = policy_status(p);
    assert(lt_count(status) == 0) by {
        if n != 0 {
            lemma_lt_add(text::digits(n), " violation"@);
            lemma_lt_add(text::digits(n) + " violation"@, check::plural(n as int, "s"@));
        }
    }
    let list = if n == 0 {
        Seq::empty()
    } else {
        "<ul class=\"violations\">"@ + violations_html(p.violations@) + "</ul>"@
    };
    assert(lt_count(list) == (if n == 0 {
        0
    } else {
        lt_count("<ul class=\"violations\">"@) + violations_tags(p.violations@) + lt_count("</ul>"@)
    })) by {
        if n != 0 {
            lemma_violations_tags(p.violations@);
            lemma_lt_add("<ul class=\"violations\">"@, violations_html(p.violations@));
            lemma_lt_add("<ul class=\"violations\">"@ + violations_html(p.violations@), "</ul>"@);
        }
    }
    let cls = pass_class(n == 0);
    let s1 = SECTION_0@ + cls;
    let s2 = s1 + SECTION_1@;
    let s3 = s2 + escaped(p.name@);
    let s4 = s3 + SECTION_2@;
    let s5 = s4 + escaped(p.description@);
    let s6 = s5 + SECTION_3@;
    let s7 = s6 + status;
    let s8 = s7 + SECTION_4@;
    let s9 = s8 + list;
    lemma_lt_add(SECTION_0@, cls);
    lemma_lt_add(s1, SECTION_1@);
    lemma_lt_add(s2, escaped(p.name@));
    lemma_lt_add(s3, SECTION_2@);
    lemma_lt_add(s4, escaped(p.description@));
    lemma_lt_add(s5, SECTION_3@);
    lemma_lt_add(s6, status);
    lemma_lt_add(s7, SECTION_4@);
    lemma_lt_add(s8, list);
    lemma_lt_add(s9, "</section>"@);
    assert(policy_html(p) == s9 + "</section>"@);
}

proof fn lemma_policies_tags(ps: Seq<PolicyResult>)
    ensures
        lt_count(policies_html(ps)) == policies_tags(ps),
    decreases ps.len(),
{
    if ps.len() == 0 {
        lemma_small_words();
    } else {
        lemma_policies_tags(ps.drop_last());
        lemma_policy_tags(ps.last());
        lemma_lt_add(policies_html(ps.drop_last()), policy_html(ps.last()));
    }
}

/// The text of a report opens no element: every `<` of the HTML document
/// belongs to the page template, so their number is fixed by the template
/// and the shape of the report (how many policies, which of them fail, how
/// many violations and which of those name a column), whatever the policy
/// names and descriptions, files, columns and messages hold. The stamp and
/// the version, written as they are, must hold no `<`.
pub proof fn lemma_report_text_opens_no_element(r: CheckReport, date: Seq<char>)
    requires
        !date.contains('<'),
        !r.version@.contains('<'),
    ensures
        lt_count(html_document(r, date)) == page_tags() + policies_tags(r.policies@),
{
    lemma_small_words();
    lemma_lt_none(date);
    lemma_lt_none(r.version@);
    lemma_policies_tags(r.policies@);
    let passed = r.total_violations == 0;
    let label = if passed {
        "All policies passing"@
    } else {
        "Policy violations"@
    };
    let ps = r.policies@;
    let note = failing_note(ps);
    assert(lt_count(note) == 0) by {
        let k = check::failing_count(ps);
        if k > 0 {
            lemma_lt_digits(k as nat);
            lemma_lt_add(" ("@, text::digits(k as nat));
            lemma_lt_add(" ("@ + text::digits(k as nat), " failing)"@);
        }
    }
    lemma_lt_digits(r.tier1_models as nat);
    lemma_lt_digits(ps.len());
    lemma_lt_digits(r.total_violations as nat);
    let t1 = text::digits(r.tier1_models as nat);
    let t2 = text::digits(ps.len());
    let t3 = text::digits(r.total_violations as nat);
    let cls = pass_class(passed);
    let a1 = PAGE_0@ + date;
    let a2 = a1 + PAGE_1@;
    let a3 = a2 + STYLES@;
    let a4 = a3 + PAGE_2@;
    let a5 = a4 + r.version@;
    let a6 = a5 + PAGE_3@;
    let a7 = a6 + date;
    let a8 = a7 + PAGE_4@;
    let a9 = a8 + cls;
    let a10 = a9 + PAGE_5@;
    let a11 = a10 + label;
    let a12 = a11 + PAGE_6@;
    let a13 = a12 + t1;
    let a14 = a13 + PAGE_7@;
    let a15 = a14 + t2;
    let a16 = a15 + PAGE_8@;
    let a17 = a16 + t3;
    let a18 = a17 + PAGE_9@;
    let a19 = a18 + note;
    let a20 = a19 + PAGE_10@;
    let a21 = a20 + policies_html(ps);
    let a22 = a21 + PAGE_11@;
    let a23 = a22 + r.version@;
    let a24 = a23 + PAGE_12@;
    assert(html_document(r, date) == a24);
    lemma_lt_add(PAGE_0@, date);
    lemma_lt_add(a1, PAGE_1@);
    lemma_lt_add(a2, STYLES@);
    lemma_lt_add(a3, PAGE_2@);
    lemma_lt_add(a4, r.version@);
    lemma_lt_add(a5, PAGE_3@);
    lemma_lt_add(a6, date);
    lemma_lt_add(a7, PAGE_4@);
    lemma_lt_add(a8, cls);
    lemma_lt_add(a9, PAGE_5@);
    lemma_lt_add(a10, label);
    lemma_lt_add(a11, PAGE_6@);
    lemma_lt_add(a12, t1);
    lemma_lt_add(a13, PAGE_7@);
    lemma_lt_add(a14, t2);
    lemma_lt_add(a15, PAGE_8@);
    lemma_lt_add(a16, t3);
    lemma_lt_add(a17, PAGE_9@);
    lemma_lt_add(a18, note);
    lemma_lt_add(a19, PAGE_10@);
    lemma_lt_add(a20, policies_html(ps));
    lemma_lt_add(a21, PAGE_11@);
    lemma_lt_add(a22, r.version@);
    lemma_lt_add(a23, PAGE_12@);
}

} // verus!

verus! {

/// The status badge of the report: class `pass` and "All policies passing"
/// when it passes, class `fail` and "Policy violations" otherwise.
pub open spec fn badge(passed: bool) -> Seq<char> {
    pass_class(passed) + PAGE_5@ + (if passed {
        "All policies passing"@
    } else {
        "Policy violations"@
    })
}

proof fn lemma_sections_split(ps: Seq<PolicyResult>, i: int)
    requires
        0 <= i < ps.len(),
    ensures
        policies_html(ps) == policies_html(ps.take(i)) + policy_html(ps[i]) + policies_html(
            ps.skip(i + 1),
        ),
    decreases ps.len(),
{
    if i == ps.len() - 1 {
        assert(ps.take(i) =~= ps.drop_last());
        assert(ps.skip(i + 1) =~= Seq::<PolicyResult>::empty());
        assert(policies_html(ps) =~= policies_html(ps.take(i)) + policy_html(ps[i]) + policies_html(
            ps.skip(i + 1),
        ));
    } else {
        lemma_sections_split(ps.drop_last(), i);
        assert(ps.drop_last().take(i) =~= ps.take(i));
        assert(ps.drop_last()[i] == ps[i]);
        assert(ps.skip(i + 1).drop_last() =~= ps.drop_last().skip(i + 1));
        assert(ps.skip(i + 1).last() == ps.last());
        assert(policies_html(ps) =~= policies_html(ps.take(i)) + policy_html(ps[i]) + policies_html(
            ps.skip(i + 1),
        ));
    }
}

proof fn lemma_items_split(vs: Seq<Violation>, j: int)
    requires
        0 <= j < vs.len(),
    ensures
        violations_html(vs) == violations_html(vs.take(j)) + violation_html(vs[j]) + violations_html(
            vs.skip(j + 1),
        ),
    decreases vs.len(),
{
    if j == vs.len() - 1 {
        assert(vs.take(j) =~= vs.drop_last());
        assert(vs.skip(j + 1) =~= Seq::<Violation>::empty());
        assert(violations_html(vs) =~= violations_html(vs.take(j)) + violation_html(vs[j])
            + violations_html(vs.skip(j + 1)));
    } else {
        lemma_items_split(vs.drop_last(), j);
        assert(vs.drop_last().take(j) =~= vs.take(j));
        assert(vs.drop_last()[j] == vs[j]);
        assert(vs.skip(j + 1).drop_last() =~= vs.drop_last().skip(j + 1));
        assert(vs.skip(j + 1).last() == vs.last());
        assert(violations_html(vs) =~= violations_html(vs.take(j)) + violation_html(vs[j])
            + violations_html(vs.skip(j + 1)));
    }
}

/// The layout of the HTML report: the header with the status badge (class
/// `pass` and "All policies passing" exactly when the report holds no
/// violation), the figures, the results heading followed by ` (k failing)`
/// exactly when `k > 0` policies fail, then one section per policy result
/// in order, each of class `fail` exactly when it has violations and then
/// holding one list item per violation in order, and the footer.
pub proof fn lemma_document_structure(r: CheckReport, date: Seq<char>, i: int, j: int)
    ensures
        html_document(r, date) == PAGE_0@ + date + PAGE_1@ + STYLES@ + PAGE_2@ + r.version@ + PAGE_3@
            + date + PAGE_4@ + badge(r.total_violations == 0) + PAGE_6@ + text::digits(
            r.tier1_models as nat,
        ) + PAGE_7@ + text::digits(r.policies@.len()) + PAGE_8@ + text::digits(
            r.total_violations as nat,
        ) + PAGE_9@ + failing_note(r.policies@) + PAGE_10@ + policies_html(r.policies@) + PAGE_11@
            + r.version@ + PAGE_12@,
        failing_note(r.policies@).len() == 0 <==> check::failing_count(r.policies@) == 0,
        0 <= i < r.policies@.len() ==> policies_html(r.policies@) == policies_html(
            r.policies@.take(i),
        ) + policy_html(r.policies@[i]) + policies_html(r.policies@.skip(i + 1)),
        0 <= i < r.policies@.len() ==> ({
            let p = r.policies@[i];
            let n = p.violations@.len();
            &&& policy_html(p) == SECTION_0@ + pass_class(n == 0) + SECTION_1@ + escaped(p.name@)
                + SECTION_2@ + escaped(p.description@) + SECTION_3@ + policy_status(p) + SECTION_4@
                + (if n == 0 {
                Seq::empty()
            } else {
                "<ul class=\"violations\">"@ + violations_html(p.violations@) + "</ul>"@
            }) + "</section>"@
            &&& 0 <= j < n ==> violations_html(p.violations@) == violations_html(
                p.violations@.take(j),
            ) + violation_html(p.violations@[j]) + violations_html(p.violations@.skip(j + 1))
        }),
{
    let ps = r.policies@;
    assert(html_document(r, date) =~= PAGE_0@ + date + PAGE_1@ + STYLES@ + PAGE_2@ + r.version@
        + PAGE_3@ + date + PAGE_4@ + badge(r.total_violations == 0) + PAGE_6@ + text::digits(
        r.tier1_models as nat,
    ) + PAGE_7@ + text::digits(ps.len()) + PAGE_8@ + text::digits(r.total_violations as nat)
        + PAGE_9@ + failing_note(ps) + PAGE_10@ + policies_html(ps) + PAGE_11@ + r.version@
        + PAGE_12@);
    check::lemma_report_counts_nonneg(ps);
    if check::failing_count(ps) > 0 {
        reveal_strlit(" (");
        assert(failing_note(ps).len() > 0);
    }
    if 0 <= i < ps.len() {
        lemma_sections_split(ps, i);
        let p = ps[i];
        if 0 <= j < p.violations@.len() {
            lemma_items_split(p.violations@, j);
        }
    }
}

} // verus!
