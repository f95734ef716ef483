//! Score computation: the counts behind the per-policy percentages, and
//! the ISO-8601 timestamps of score snapshots.
//!
//! Percentages are "share of objects passing": models for ownership,
//! declared columns for descriptions. The overall score is the unweighted
//! mean of the percentages that have a denominator.

use vstd::prelude::*;

use crate::calendar::{self, civil_from_unix};
use crate::check::{self, CheckReport};
use crate::clock::now_unix;
use crate::manifest::{self, Manifest, Node};
use crate::policy::PolicyResult;
use crate::text::{self, push_padded_signed, push_str, same_text};
use crate::tier::TierConfig;

verus! {

/// The counts a score snapshot is computed from.
pub struct ScoreCounts {
    /// Tier-1 models, as the report counted them.
    pub tier1_models: usize,
    /// Columns declared on the tier-1 models of the manifest.
    pub total_columns: usize,
    /// Tier-1 models less the ownership violations (not below zero).
    pub owners_passing: usize,
    /// Declared columns less the description violations (not below zero).
    pub columns_passing: usize,
    /// Violations of all policies, as the report counted them.
    pub total_violations: usize,
}

/// Which percentages the overall score averages.
pub enum OverallBasis {
    /// No model and no column: the overall score is 0.
    Neither,
    /// Models but no column: the ownership percentage alone.
    OwnershipOnly,
    /// Columns but no model: the description percentage alone.
    DescriptionsOnly,
    /// The mean of both percentages.
    Both,
}

/// Violations of the first policy named `name` (0 when there is none).
pub open spec fn named_count(ps: Seq<PolicyResult>, name: Seq<char>) -> int
    decreases ps.len(),
{
    if ps.len() == 0 {
        0
    } else if ps[0].name@ == name {
        ps[0].violations@.len() as int
    } else {
        named_count(ps.drop_first(), name)
    }
}

/// Number of columns declared on `ms`.
pub open spec fn column_total(ms: Seq<Node>) -> int
    decreases ms.len(),
{
    if ms.len() == 0 {
        0
    } else {
        column_total(ms.drop_last()) + ms.last().columns@.len()
    }
}

/// `a - b`, or 0 when `b > a`.
pub open spec fn minus(a: int, b: int) -> int {
    if a >= b {
        a - b
    } else {
        0
    }
}

/// Violations of the first policy named `name` in `ps`.
pub fn violations_named(ps: &Vec<PolicyResult>, name: &str) -> (r: usize)
    ensures
        r == named_count(ps@, name@),
{
    let mut i: usize = 0;
    assert(ps@.subrange(0, ps@.len() as int) =~= ps@);
    while i < ps.len()
        invariant
            i <= ps.len(),
            named_count(ps@, name@) == named_count(ps@.subrange(i as int, ps@.len() as int), name@),
        decreases ps.len() - i,
    {
        assert(ps@.subrange(i as int, ps@.len() as int).drop_first() =~= ps@.subrange(
            i + 1,
            ps@.len() as int,
        ));
        if same_text(ps[i].name, name) {
            return ps[i].violations.len();
        }
        i = i + 1;
    }
    0
}

proof fn lemma_column_total_mono(ms: Seq<Node>, i: int)
    requires
        0 <= i <= ms.len(),
    ensures
        column_total(ms.subrange(0, i)) <= column_total(ms),
    decreases ms.len() - i,
{
    if i < ms.len() {
        lemma_column_total_mono(ms, i + 1);
        assert(ms.subrange(0, i + 1).drop_last() =~= ms.subrange(0, i));
    } else {
        assert(ms.subrange(0, i) =~= ms);
    }
}

/// Count what the score of `report` is computed from: the tier-1 models of
/// `manifest` (by `tiers`) are walked again to count their columns.
pub fn tally(report: &CheckReport, manifest: &Manifest, tiers: &TierConfig) -> (r: ScoreCounts)
    requires
        column_total(manifest::models_in(manifest.nodes@)) <= usize::MAX,
    ensures
        r.tier1_models == report.tier1_models,
        r.total_violations == report.total_violations,
        r.owners_passing == minus(
            report.tier1_models as int,
            named_count(report.policies@, "tier_1_has_owner"@),
        ),
        r.columns_passing == minus(
            r.total_columns as int,
            named_count(report.policies@, "tier_1_columns_described"@),
        ),
        r.owners_passing <= r.tier1_models,
        r.columns_passing <= r.total_columns,
        exists|picks: Seq<bool>|
            #[trigger] check::allowed_picks(
                manifest::models_in(manifest.nodes@),
                picks,
                tiers.paths(),
                tiers.meta(),
            ) && r.total_columns == column_total(check::select(manifest::models_in(manifest.nodes@), picks)),
        check::plain_paths(manifest::models_in(manifest.nodes@)) && crate::tier::plain_patterns(tiers.paths())
            ==> r.total_columns == column_total(
            check::tier_one_models(manifest::models_in(manifest.nodes@), tiers.paths(), tiers.meta()),
        ),
{
    let models = manifest.models();
    let ghost ms = manifest::models_in(manifest.nodes@);
    let mut total_columns: usize = 0;
    let ghost mut picked: Seq<Node> = Seq::empty();
    let ghost mut picks: Seq<bool> = Seq::empty();
    let mut i: usize = 0;
    while i < models.len()
        invariant
            i <= models.len(),
            models@.len() == ms.len(),
            forall|k: int| 0 <= k < models@.len() ==> *models@[k] == ms[k],
            column_total(ms) <= usize::MAX,
            total_columns == column_total(picked),
            total_columns <= column_total(ms.subrange(0, i as int)),
            picks.len() == i,
            check::allowed_picks(ms.subrange(0, i as int), picks, tiers.paths(), tiers.meta()),
            picked == check::select(ms.subrange(0, i as int), picks),
        decreases models.len() - i,
    {
        let m = models[i];
        assert(ms.subrange(0, i + 1).drop_last() =~= ms.subrange(0, i as int));
        assert(ms.subrange(0, i + 1).last() == ms[i as int]);
        proof {
            lemma_column_total_mono(ms, i + 1);
        }
        let ghost old_picks = picks;
        let hit = tiers.is_tier_1(m);
        if hit {
            total_columns = total_columns + m.columns.len();
            proof {
                let before = picked;
                picked = picked.push(*m);
                assert(picked.drop_last() =~= before);
            }
        }
        proof {
            picks = picks.push(hit);
            assert(picks.drop_last() =~= old_picks);
            let sub = ms.subrange(0, i + 1);
            assert(check::allowed_picks(sub, picks, tiers.paths(), tiers.meta())) by {
                assert forall|k: int|
                    0 <= k < sub.len() && crate::tier::plain_patterns(tiers.paths())
                        && !crate::tier::has_backslash(sub[k].original_file_path@) implies #[trigger] picks[k]
                    == crate::tier::tier_one(tiers.paths(), tiers.meta(), sub[k]) by {
                    if k < i {
                        assert(sub[k] == ms.subrange(0, i as int)[k] && picks[k] == old_picks[k]);
                    }
                }
                assert forall|k: int|
                    0 <= k < sub.len() && crate::tier::meta_matches(sub[k], tiers.meta()) implies #[trigger] picks[k] by {
                    if k < i {
                        assert(sub[k] == ms.subrange(0, i as int)[k] && picks[k] == old_picks[k]);
                    }
                }
            }
        }
        i = i + 1;
    }
    assert(ms.subrange(0, i as int) =~= ms);
    proof {
        assert(check::allowed_picks(ms, picks, tiers.paths(), tiers.meta()));
        if check::plain_paths(ms) && crate::tier::plain_patterns(tiers.paths()) {
            check::lemma_plain_selection_is_tier_rule(ms, picks, tiers.paths(), tiers.meta());
        }
    }
    let owner_violations = violations_named(&report.policies, "tier_1_has_owner");
    let desc_violations = violations_named(&report.policies, "tier_1_columns_described");
    ScoreCounts {
        tier1_models: report.tier1_models,
        total_columns,
        owners_passing: report.tier1_models.saturating_sub(owner_violations),
        columns_passing: total_columns.saturating_sub(desc_violations),
        total_violations: report.total_violations,
    }
}

/// Which percentages the overall score averages, by whether there are
/// tier-1 models and declared columns.
pub fn overall_basis(counts: &ScoreCounts) -> (r: OverallBasis)
    ensures
        r == (if counts.tier1_models == 0 && counts.total_columns == 0 {
            OverallBasis::Neither
        } else if counts.total_columns == 0 {
            OverallBasis::OwnershipOnly
        } else if counts.tier1_models == 0 {
            OverallBasis::DescriptionsOnly
        } else {
            OverallBasis::Both
        }),
{
    if counts.tier1_models == 0 && counts.total_columns == 0 {
        OverallBasis::Neither
    } else if counts.total_columns == 0 {
        OverallBasis::OwnershipOnly
    } else if counts.tier1_models == 0 {
        OverallBasis::DescriptionsOnly
    } else {
        OverallBasis::Both
    }
}

/// The ISO-8601 timestamp `YYYY-MM-DDTHH:MM:SSZ` of Unix time `t`.
pub open spec fn iso8601_text(t: int) -> Seq<char> {
    let (y, mo, d, h, mi, s) = calendar::civil_of_unix(t);
    text::padded_signed(y, 4) + "-"@ + text::padded_signed(mo, 2) + "-"@ + text::padded_signed(d, 2)
        + "T"@ + text::padded_signed(h, 2) + ":"@ + text::padded_signed(mi, 2) + ":"@
        + text::padded_signed(s, 2) + "Z"@
}

/// Unix time `secs` as an ISO-8601 UTC timestamp like `2026-05-06T11:30:00Z`.
pub fn iso8601_from_unix(secs: i64) -> (r: String)
    ensures
        r@ == iso8601_text(secs as int),
{
    let t = civil_from_unix(secs);
    let mut s = String::new();
    push_padded_signed(&mut s, t.year, 4);
    push_str(&mut s, "-");
    push_padded_signed(&mut s, t.month, 2);
    push_str(&mut s, "-");
    push_padded_signed(&mut s, t.day, 2);
    push_str(&mut s, "T");
    push_padded_signed(&mut s, t.hour, 2);
    push_str(&mut s, ":");
    push_padded_signed(&mut s, t.minute, 2);
    push_str(&mut s, ":");
    push_padded_signed(&mut s, t.second, 2);
    push_str(&mut s, "Z");
    assert(s@ =~= iso8601_text(secs as int));
    s
}

/// The current time as an ISO-8601 UTC timestamp.
pub fn now_iso8601() -> (r: String)
    ensures
        exists|t: i64| r@ == #[trigger] iso8601_text(t as int),
{
    iso8601_from_unix(now_unix())
}

} // verus!

verus! {

proof fn lemma_named_zero(ps: Seq<PolicyResult>, name: Seq<char>)
    requires
        forall|i: int| 0 <= i < ps.len() ==> (#[trigger] ps[i]).violations@.len() == 0,
    ensures
        named_count(ps, name) == 0,
    decreases ps.len(),
{
    if ps.len() > 0 {
        assert forall|i: int| 0 <= i < ps.drop_first().len() implies (
        #[trigger] ps.drop_first()[i]).violations@.len() == 0 by {
            assert(ps.drop_first()[i] == ps[i + 1]);
        }
        lemma_named_zero(ps.drop_first(), name);
    }
}

/// A consistent report without violations scores in full: every tier-1
/// model counts as owned and every declared column as described.
pub proof fn lemma_clean_report_scores_full(r: CheckReport, total_columns: int)
    requires
        check::consistent(r),
        r.total_violations == 0,
        total_columns >= 0,
    ensures
        minus(r.tier1_models as int, named_count(r.policies@, "tier_1_has_owner"@)) == r.tier1_models,
        minus(total_columns, named_count(r.policies@, "tier_1_columns_described"@)) == total_columns,
{
    check::lemma_report_passes_iff_all_policies_pass(r);
    lemma_named_zero(r.policies@, "tier_1_has_owner"@);
    lemma_named_zero(r.policies@, "tier_1_columns_described"@);
}

/// The calendar date `YYYY-MM-DD` of Unix time `t`, as both timestamp
/// formats print it.
pub open spec fn date_text(t: int) -> Seq<char> {
    let (y, mo, d, _h, _mi, _s) = calendar::civil_of_unix(t);
    text::padded_signed(y, 4) + "-"@ + text::padded_signed(mo, 2) + "-"@ + text::padded_signed(d, 2)
}

/// The snapshot timestamp and the HTML report's stamp of the same instant
/// show the same date, and the same hour and minute after it.
pub proof fn lemma_timestamp_formats_agree(t: int)
    ensures
        ({
            let (_y, _mo, _d, h, mi, s) = calendar::civil_of_unix(t);
            &&& iso8601_text(t) == date_text(t) + "T"@ + text::padded_signed(h, 2) + ":"@
                + text::padded_signed(mi, 2) + ":"@ + text::padded_signed(s, 2) + "Z"@
            &&& crate::render::html::utc_minute_text(t) == date_text(t) + " "@
                + text::padded_signed(h, 2) + ":"@ + text::padded_signed(mi, 2) + " UTC"@
        }),
{
    let (_y, _mo, _d, h, mi, s) = calendar::civil_of_unix(t);
    assert(iso8601_text(t) =~= date_text(t) + "T"@ + text::padded_signed(h, 2) + ":"@
        + text::padded_signed(mi, 2) + ":"@ + text::padded_signed(s, 2) + "Z"@);
    assert(crate::render::html::utc_minute_text(t) =~= date_text(t) + " "@ + text::padded_signed(
        h,
        2,
    ) + ":"@ + text::padded_signed(mi, 2) + " UTC"@);
}

} // verus!

verus! {

/// For a year between 0 and 9999 the ISO-8601 timestamp is 20 characters,
/// `YYYY-MM-DDTHH:MM:SSZ`, its fields are the calendar date and clock time
/// of `t`, those count back to `t`, and the HTML report's stamp is its date,
/// a space, its hour and minute, and ` UTC`.
pub proof fn lemma_iso8601_layout(t: int)
    requires
        0 <= calendar::civil_of_unix(t).0 <= 9999,
    ensures
        ({
            let (y, mo, d, h, mi, s) = calendar::civil_of_unix(t);
            let iso = iso8601_text(t);
            &&& iso.len() == 20
            &&& iso.subrange(0, 4) == text::padded(y as nat, 4)
            &&& iso[4] == '-'
            &&& iso.subrange(5, 7) == text::padded(mo as nat, 2)
            &&& iso[7] == '-'
            &&& iso.subrange(8, 10) == text::padded(d as nat, 2)
            &&& iso[10] == 'T'
            &&& iso.subrange(11, 13) == text::padded(h as nat, 2)
            &&& iso[13] == ':'
            &&& iso.subrange(14, 16) == text::padded(mi as nat, 2)
            &&& iso[16] == ':'
            &&& iso.subrange(17, 19) == text::padded(s as nat, 2)
            &&& iso[19] == 'Z'
            &&& 1 <= mo <= 12
            &&& 1 <= d <= calendar::month_len(y, mo - 1)
            &&& 0 <= h < 24 && 0 <= mi < 60 && 0 <= s < 60
            &&& t == (calendar::days_before_year(y) + calendar::days_before_month(y, mo - 1) + d - 1)
                * 86400 + h * 3600 + mi * 60 + s
            &&& crate::render::html::utc_minute_text(t) == iso.subrange(0, 10) + " "@ + iso.subrange(
                11,
                16,
            ) + " UTC"@
        }),
{
    let (y, mo, d, h, mi, s) = calendar::civil_of_unix(t);
    calendar::lemma_civil_is_calendar_date(t / 86400);
    calendar::lemma_time_of_day(t);
    assert(text::pow10(2) == 100 && text::pow10(4) == 10000) by {
        reveal_with_fuel(text::pow10, 5);
    }
    text::lemma_padded_len(y as nat, 4);
    text::lemma_padded_len(mo as nat, 2);
    text::lemma_padded_len(d as nat, 2);
    text::lemma_padded_len(h as nat, 2);
    text::lemma_padded_len(mi as nat, 2);
    text::lemma_padded_len(s as nat, 2);
    reveal_strlit("-");
    reveal_strlit("T");
    reveal_strlit(":");
    reveal_strlit("Z");
    reveal_strlit(" ");
    reveal_strlit(" UTC");
    let py = text::padded(y as nat, 4);
    let pmo = text::padded(mo as nat, 2);
    let pd = text::padded(d as nat, 2);
    let ph = text::padded(h as nat, 2);
    let pmi = text::padded(mi as nat, 2);
    let ps = text::padded(s as nat, 2);
    let iso = iso8601_text(t);
    assert(iso =~= py + "-"@ + pmo + "-"@ + pd + "T"@ + ph + ":"@ + pmi + ":"@ + ps + "Z"@);
    assert(iso.len() == 20);
    assert(iso.subrange(0, 4) =~= py);
    assert(iso.subrange(5, 7) =~= pmo);
    assert(iso.subrange(8, 10) =~= pd);
    assert(iso.subrange(11, 13) =~= ph);
    assert(iso.subrange(14, 16) =~= pmi);
    assert(iso.subrange(17, 19) =~= ps);
    assert(crate::render::html::utc_minute_text(t) =~= py + "-"@ + pmo + "-"@ + pd + " "@ + ph + ":"@
        + pmi + " UTC"@);
    assert(iso.subrange(0, 10) =~= py + "-"@ + pmo + "-"@ + pd);
    assert(iso.subrange(11, 16) =~= ph + ":"@ + pmi);
    assert(crate::render::html::utc_minute_text(t) =~= iso.subrange(0, 10) + " "@ + iso.subrange(
        11,
        16,
    ) + " UTC"@);
}

} // verus!

verus! {

/// Whether text `a` comes before text `b` character by character: at the
/// first place where they differ, `a` holds the smaller character.
pub open spec fn text_before(a: Seq<char>, b: Seq<char>) -> bool {
    exists|k: int|
        0 <= k < a.len() && k < b.len() && a.take(k) == b.take(k) && (a[k] as u32) < (#[trigger] b[k] as u32)
}

proof fn lemma_before_in_context(p: Seq<char>, x: Seq<char>, y: Seq<char>, u: Seq<char>, v: Seq<char>)
    requires
        x.len() == y.len(),
        text_before(x, y),
    ensures
        text_before(p + x + u, p + y + v),
{
    let k = choose|k: int|
        0 <= k < x.len() && k < y.len() && x.take(k) == y.take(k) && (x[k] as u32) < (#[trigger] y[k] as u32);
    let a = p + x + u;
    let b = p + y + v;
    let kk = p.len() + k;
    assert(a.take(kk) =~= p + x.take(k));
    assert(b.take(kk) =~= p + y.take(k));
    assert(a[kk] == x[k]);
    assert(b[kk] == y[k]);
}

proof fn lemma_two_digit_order(n: nat, m: nat)
    requires
        n < m < 100,
    ensures
        text_before(text::padded(n, 2), text::padded(m, 2)),
{
    text::lemma_two_digits(n);
    text::lemma_two_digits(m);
    text::lemma_digit_char((n / 10) as int);
    text::lemma_digit_char((n % 10) as int);
    text::lemma_digit_char((m / 10) as int);
    text::lemma_digit_char((m % 10) as int);
    let a = text::padded(n, 2);
    let b = text::padded(m, 2);
    if n / 10 < m / 10 {
        assert(a.take(0) =~= b.take(0));
        assert((a[0] as u32) < (b[0] as u32));
    } else {
        assert(n / 10 == m / 10);
        assert(a.take(1) =~= b.take(1));
        assert((a[1] as u32) < (b[1] as u32));
    }
}

proof fn lemma_four_digit_order(n: nat, m: nat)
    requires
        1000 <= n < m < 10000,
    ensures
        text_before(text::padded(n, 4), text::padded(m, 4)),
{
    text::lemma_four_digits(n);
    text::lemma_four_digits(m);
    let (n0, n1, n2, n3) = (n / 1000, (n / 100) % 10, (n / 10) % 10, n % 10);
    let (m0, m1, m2, m3) = (m / 1000, (m / 100) % 10, (m / 10) % 10, m % 10);
    assert(n == n0 * 1000 + n1 * 100 + n2 * 10 + n3 && n0 < 10 && n1 < 10 && n2 < 10 && n3 < 10)
        by (nonlinear_arith)
        requires
            1000 <= n < 10000,
            n0 == n / 1000,
            n1 == (n / 100) % 10,
            n2 == (n / 10) % 10,
            n3 == n % 10,
    ;
    assert(m == m0 * 1000 + m1 * 100 + m2 * 10 + m3 && m0 < 10 && m1 < 10 && m2 < 10 && m3 < 10)
        by (nonlinear_arith)
        requires
            1000 <= m < 10000,
            m0 == m / 1000,
            m1 == (m / 100) % 10,
            m2 == (m / 10) % 10,
            m3 == m % 10,
    ;
    text::lemma_digit_char(n0 as int);
    text::lemma_digit_char(n1 as int);
    text::lemma_digit_char(n2 as int);
    text::lemma_digit_char(n3 as int);
    text::lemma_digit_char(m0 as int);
    text::lemma_digit_char(m1 as int);
    text::lemma_digit_char(m2 as int);
    text::lemma_digit_char(m3 as int);
    let a = text::padded(n, 4);
    let b = text::padded(m, 4);
    if n0 != m0 {
        assert(n0 < m0);
        assert(a.take(0) =~= b.take(0));
        assert((a[0] as u32) < (b[0] as u32));
    } else if n1 != m1 {
        assert(n1 < m1);
        assert(a.take(1) =~= b.take(1));
        assert((a[1] as u32) < (b[1] as u32));
    } else if n2 != m2 {
        assert(n2 < m2);
        assert(a.take(2) =~= b.take(2));
        assert((a[2] as u32) < (b[2] as u32));
    } else {
        assert(n3 < m3);
        assert(a.take(3) =~= b.take(3));
        assert((a[3] as u32) < (b[3] as u32));
    }
}

/// The ISO-8601 text of calendar fields.
pub open spec fn iso_fields_text(f: (int, int, int, int, int, int)) -> Seq<char> {
    text::padded_signed(f.0, 4) + "-"@ + text::padded_signed(f.1, 2) + "-"@ + text::padded_signed(f.2, 2)
        + "T"@ + text::padded_signed(f.3, 2) + ":"@ + text::padded_signed(f.4, 2) + ":"@
        + text::padded_signed(f.5, 2) + "Z"@
}

/// Whether calendar fields lie in the ranges a timestamp of years 1000 to
/// 9999 uses.
pub open spec fn printable_fields(f: (int, int, int, int, int, int)) -> bool {
    &&& 1000 <= f.0 <= 9999
    &&& 0 <= f.1 < 100
    &&& 0 <= f.2 < 100
    &&& 0 <= f.3 < 100
    &&& 0 <= f.4 < 100
    &&& 0 <= f.5 < 100
}

proof fn lemma_two_wide(n: int)
    requires
        0 <= n < 100,
    ensures
        text::padded_signed(n, 2).len() == 2,
        text::padded_signed(n, 2) == text::padded(n as nat, 2),
{
    assert(text::pow10(2) == 100) by {
        reveal_with_fuel(text::pow10, 3);
    }
    text::lemma_padded_len(n as nat, 2);
}

proof fn lemma_before_after_prefix(p: Seq<char>, u: Seq<char>, v: Seq<char>)
    requires
        text_before(u, v),
    ensures
        text_before(p + u, p + v),
{
    let k = choose|k: int|
        0 <= k < u.len() && k < v.len() && u.take(k) == v.take(k) && (u[k] as u32) < (#[trigger] v[k] as u32);
    let kk = p.len() + k;
    assert((p + u).take(kk) =~= p + u.take(k));
    assert((p + v).take(kk) =~= p + v.take(k));
    assert((p + u)[kk] == u[k]);
    assert((p + v)[kk] == v[k]);
}

/// The text after one field: a separator, a two-digit field, and the rest.
proof fn lemma_field_step(
    sep: Seq<char>,
    na: int,
    nb: int,
    ra: Seq<char>,
    rb: Seq<char>,
)
    requires
        0 <= na < 100,
        0 <= nb < 100,
        na < nb || (na == nb && text_before(ra, rb)),
    ensures
        text_before(
            sep + text::padded_signed(na, 2) + ra,
            sep + text::padded_signed(nb, 2) + rb,
        ),
{
    lemma_two_wide(na);
    lemma_two_wide(nb);
    if na < nb {
        lemma_two_digit_order(na as nat, nb as nat);
        lemma_before_in_context(sep, text::padded_signed(na, 2), text::padded_signed(nb, 2), ra, rb);
    } else {
        let pre = sep + text::padded_signed(na, 2);
        lemma_before_after_prefix(pre, ra, rb);
        assert(pre + ra =~= sep + text::padded_signed(na, 2) + ra);
        assert(pre + rb =~= sep + text::padded_signed(nb, 2) + rb);
    }
}

#[verifier::opaque]
spec fn iso_tail5(f: (int, int, int, int, int, int)) -> Seq<char> {
    ":"@ + text::padded_signed(f.5, 2) + "Z"@
}

#[verifier::opaque]
spec fn iso_tail4(f: (int, int, int, int, int, int)) -> Seq<char> {
    ":"@ + text::padded_signed(f.4, 2) + iso_tail5(f)
}

#[verifier::opaque]
spec fn iso_tail3(f: (int, int, int, int, int, int)) -> Seq<char> {
    "T"@ + text::padded_signed(f.3, 2) + iso_tail4(f)
}

#[verifier::opaque]
spec fn iso_tail2(f: (int, int, int, int, int, int)) -> Seq<char> {
    "-"@ + text::padded_signed(f.2, 2) + iso_tail3(f)
}

#[verifier::opaque]
spec fn iso_tail1(f: (int, int, int, int, int, int)) -> Seq<char> {
    "-"@ + text::padded_signed(f.1, 2) + iso_tail2(f)
}

proof fn lemma_iso_split(f: (int, int, int, int, int, int))
    ensures
        iso_fields_text(f) == text::padded_signed(f.0, 4) + iso_tail1(f),
        iso_tail1(f) == "-"@ + text::padded_signed(f.1, 2) + iso_tail2(f),
        iso_tail2(f) == "-"@ + text::padded_signed(f.2, 2) + iso_tail3(f),
        iso_tail3(f) == "T"@ + text::padded_signed(f.3, 2) + iso_tail4(f),
        iso_tail4(f) == ":"@ + text::padded_signed(f.4, 2) + iso_tail5(f),
        iso_tail5(f) == ":"@ + text::padded_signed(f.5, 2) + "Z"@,
{
    reveal(iso_tail1);
    reveal(iso_tail2);
    reveal(iso_tail3);
    reveal(iso_tail4);
    reveal(iso_tail5);
    assert(iso_fields_text(f) =~= text::padded_signed(f.0, 4) + iso_tail1(f));
}

proof fn lemma_iso_fields_order(fa: (int, int, int, int, int, int), fb: (int, int, int, int, int, int))
    requires
        printable_fields(fa),
        printable_fields(fb),
        calendar::fields_before(fa, fb),
    ensures
        text_before(iso_fields_text(fa), iso_fields_text(fb)),
{
    lemma_iso_split(fa);
    lemma_iso_split(fb);
    if fa.0 < fb.0 {
        assert(text::pow10(4) == 10000) by {
            reveal_with_fuel(text::pow10, 5);
        }
        text::lemma_padded_len(fa.0 as nat, 4);
        text::lemma_padded_len(fb.0 as nat, 4);
        lemma_four_digit_order(fa.0 as nat, fb.0 as nat);
        lemma_before_in_context(
            Seq::empty(),
            text::padded_signed(fa.0, 4),
            text::padded_signed(fb.0, 4),
            iso_tail1(fa),
            iso_tail1(fb),
        );
        assert(Seq::<char>::empty() + text::padded_signed(fa.0, 4) =~= text::padded_signed(fa.0, 4));
        assert(Seq::<char>::empty() + text::padded_signed(fb.0, 4) =~= text::padded_signed(fb.0, 4));
    } else {
        if fa.1 == fb.1 && fa.2 == fb.2 && fa.3 == fb.3 && fa.4 == fb.4 {
            lemma_field_step(":"@, fa.5, fb.5, "Z"@, "Z"@);
        }
        if fa.1 == fb.1 && fa.2 == fb.2 && fa.3 == fb.3 {
            lemma_field_step(":"@, fa.4, fb.4, iso_tail5(fa), iso_tail5(fb));
        }
        if fa.1 == fb.1 && fa.2 == fb.2 {
            lemma_field_step("T"@, fa.3, fb.3, iso_tail4(fa), iso_tail4(fb));
        }
        if fa.1 == fb.1 {
            lemma_field_step("-"@, fa.2, fb.2, iso_tail3(fa), iso_tail3(fb));
        }
        lemma_field_step("-"@, fa.1, fb.1, iso_tail2(fa), iso_tail2(fb));
        lemma_before_after_prefix(text::padded_signed(fa.0, 4), iso_tail1(fa), iso_tail1(fb));
    }
}

/// From 1970 up to year 9999, ISO-8601 timestamps sort like the instants
/// they stand for: an earlier instant gives a timestamp that comes first
/// character by character.
pub proof fn lemma_iso8601_order(a: int, b: int)
    requires
        0 <= a < b,
        calendar::civil_of_unix(b).0 <= 9999,
    ensures
        text_before(iso8601_text(a), iso8601_text(b)),
{
    let fa = calendar::civil_of_unix(a);
    let fb = calendar::civil_of_unix(b);
    calendar::lemma_unix_order(a, b);
    calendar::lemma_civil_is_calendar_date(a / 86400);
    calendar::lemma_civil_is_calendar_date(b / 86400);
    calendar::lemma_time_of_day(a);
    calendar::lemma_time_of_day(b);
    assert(a / 86400 >= 0 && b / 86400 >= 0);
    assert(fa.0 <= fb.0);
    assert(iso8601_text(a) =~= iso_fields_text(fa));
    assert(iso8601_text(b) =~= iso_fields_text(fb));
    lemma_iso_fields_order(fa, fb);
}

/// The `YYYY-MM-DD HH:MM UTC` text of calendar fields.
pub open spec fn utc_fields_text(f: (int, int, int, int, int, int)) -> Seq<char> {
    text::padded_signed(f.0, 4) + "-"@ + text::padded_signed(f.1, 2) + "-"@ + text::padded_signed(f.2, 2)
        + " "@ + text::padded_signed(f.3, 2) + ":"@ + text::padded_signed(f.4, 2) + " UTC"@
}

#[verifier::opaque]
spec fn utc_tail4(f: (int, int, int, int, int, int)) -> Seq<char> {
    ":"@ + text::padded_signed(f.4, 2) + " UTC"@
}

#[verifier::opaque]
spec fn utc_tail3(f: (int, int, int, int, int, int)) -> Seq<char> {
    " "@ + text::padded_signed(f.3, 2) + utc_tail4(f)
}

#[verifier::opaque]
spec fn utc_tail2(f: (int, int, int, int, int, int)) -> Seq<char> {
    "-"@ + text::padded_signed(f.2, 2) + utc_tail3(f)
}

#[verifier::opaque]
spec fn utc_tail1(f: (int, int, int, int, int, int)) -> Seq<char> {
    "-"@ + text::padded_signed(f.1, 2) + utc_tail2(f)
}

proof fn lemma_utc_split(f: (int, int, int, int, int, int))
    ensures
        utc_fields_text(f) == text::padded_signed(f.0, 4) + utc_tail1(f),
        utc_tail1(f) == "-"@ + text::padded_signed(f.1, 2) + utc_tail2(f),
        utc_tail2(f) == "-"@ + text::padded_signed(f.2, 2) + utc_tail3(f),
        utc_tail3(f) == " "@ + text::padded_signed(f.3, 2) + utc_tail4(f),
        utc_tail4(f) == ":"@ + text::padded_signed(f.4, 2) + " UTC"@,
{
    reveal(utc_tail1);
    reveal(utc_tail2);
    reveal(utc_tail3);
    reveal(utc_tail4);
    assert(utc_fields_text(f) =~= text::padded_signed(f.0, 4) + utc_tail1(f));
}

proof fn lemma_utc_fields_order(fa: (int, int, int, int, int, int), fb: (int, int, int, int, int, int))
    requires
        printable_fields(fa),
        printable_fields(fb),
        calendar::fields_before(fa, fb),
        (fa.0, fa.1, fa.2, fa.3, fa.4) != (fb.0, fb.1, fb.2, fb.3, fb.4),
    ensures
        text_before(utc_fields_text(fa), utc_fields_text(fb)),
{
    lemma_utc_split(fa);
    lemma_utc_split(fb);
    if fa.0 < fb.0 {
        assert(text::pow10(4) == 10000) by {
            reveal_with_fuel(text::pow10, 5);
        }
        text::lemma_padded_len(fa.0 as nat, 4);
        text::lemma_padded_len(fb.0 as nat, 4);
        lemma_four_digit_order(fa.0 as nat, fb.0 as nat);
        lemma_before_in_context(
            Seq::empty(),
            text::padded_signed(fa.0, 4),
            text::padded_signed(fb.0, 4),
            utc_tail1(fa),
            utc_tail1(fb),
        );
        assert(Seq::<char>::empty() + text::padded_signed(fa.0, 4) =~= text::padded_signed(fa.0, 4));
        assert(Seq::<char>::empty() + text::padded_signed(fb.0, 4) =~= text::padded_signed(fb.0, 4));
    } else {
        if fa.1 == fb.1 && fa.2 == fb.2 && fa.3 == fb.3 {
            lemma_field_step(":"@, fa.4, fb.4, " UTC"@, " UTC"@);
        }
        if fa.1 == fb.1 && fa.2 == fb.2 {
            lemma_field_step(" "@, fa.3, fb.3, utc_tail4(fa), utc_tail4(fb));
        }
        if fa.1 == fb.1 {
            lemma_field_step("-"@, fa.2, fb.2, utc_tail3(fa), utc_tail3(fb));
        }
        lemma_field_step("-"@, fa.1, fb.1, utc_tail2(fa), utc_tail2(fb));
        lemma_before_after_prefix(text::padded_signed(fa.0, 4), utc_tail1(fa), utc_tail1(fb));
    }
}

/// From 1970 up to year 9999, the HTML report's `YYYY-MM-DD HH:MM UTC`
/// stamps sort like the instants they stand for: a later instant never
/// gives an earlier stamp; two instants within one minute give the same
/// stamp, and otherwise the earlier one comes first character by character.
pub proof fn lemma_utc_minute_order(a: int, b: int)
    requires
        0 <= a <= b,
        calendar::civil_of_unix(b).0 <= 9999,
    ensures
        crate::render::html::utc_minute_text(a) == crate::render::html::utc_minute_text(b)
            || text_before(
            crate::render::html::utc_minute_text(a),
            crate::render::html::utc_minute_text(b),
        ),
{
    let fa = calendar::civil_of_unix(a);
    let fb = calendar::civil_of_unix(b);
    calendar::lemma_unix_order(a, b);
    calendar::lemma_civil_is_calendar_date(a / 86400);
    calendar::lemma_civil_is_calendar_date(b / 86400);
    calendar::lemma_time_of_day(a);
    calendar::lemma_time_of_day(b);
    assert(a / 86400 >= 0 && b / 86400 >= 0);
    assert(crate::render::html::utc_minute_text(a) =~= utc_fields_text(fa));
    assert(crate::render::html::utc_minute_text(b) =~= utc_fields_text(fb));
    if a < b && (fa.0, fa.1, fa.2, fa.3, fa.4) != (fb.0, fb.1, fb.2, fb.3, fb.4) {
        assert(fa.0 <= fb.0);
        lemma_utc_fields_order(fa, fb);
    }
}

} // verus!

verus! {

/// The violation count taken for a policy name is that of the first policy
/// result carrying the name, whatever follows it; with no such result it
/// is 0.
pub proof fn lemma_named_count_first_match(ps: Seq<PolicyResult>, name: Seq<char>, i: int)
    ensures
        0 <= i < ps.len() && ps[i].name@ == name && (forall|j: int| 0 <= j < i ==> ps[j].name@ != name)
            ==> named_count(ps, name) == ps[i].violations@.len(),
        (forall|j: int| 0 <= j < ps.len() ==> ps[j].name@ != name) ==> named_count(ps, name) == 0,
    decreases ps.len(),
{
    if ps.len() > 0 {
        let rest = ps.drop_first();
        assert forall|j: int| 0 <= j < rest.len() implies rest[j] == ps[j + 1] by {}
        lemma_named_count_first_match(rest, name, i - 1);
        if 0 < i < ps.len() && ps[i].name@ == name && (forall|j: int| 0 <= j < i ==> ps[j].name@ != name) {
            assert(ps[0].name@ != name);
            assert(rest[i - 1] == ps[i]);
            assert forall|j: int| 0 <= j < i - 1 implies rest[j].name@ != name by {
                assert(rest[j] == ps[j + 1]);
            }
        }
        if forall|j: int| 0 <= j < ps.len() ==> ps[j].name@ != name {
            assert(ps[0].name@ != name);
            assert forall|j: int| 0 <= j < rest.len() implies rest[j].name@ != name by {
                assert(rest[j] == ps[j + 1]);
            }
        }
    }
}

} // verus!
