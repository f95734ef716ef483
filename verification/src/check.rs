//! `check` orchestration: select the tier-1 models, run every policy, and
//! render the results as text.

use vstd::prelude::*;

use crate::manifest::{self, Manifest, Node};
use crate::policy::{self, Policy, PolicyResult, Tier1ColumnsDescribed, Tier1HasOwner, Violation};
use crate::text::{self, push_decimal, push_str};
use crate::tier::{self, TierConfig};

verus! {

#[verifier::external_type_specification]
#[verifier::external_body]
pub struct ExFmtError(core::fmt::Error);

/// The outcome of checking a project.
pub struct CheckReport {
    pub version: &'static str,
    pub tier1_models: usize,
    pub policies: Vec<PolicyResult>,
    pub total_violations: usize,
}

/// Total number of violations over a list of policy results.
pub open spec fn violation_total(ps: Seq<PolicyResult>) -> int
    decreases ps.len(),
{
    if ps.len() == 0 {
        0
    } else {
        violation_total(ps.drop_last()) + ps.last().violations@.len()
    }
}

/// Number of policies that did not pass.
pub open spec fn failing_count(ps: Seq<PolicyResult>) -> int
    decreases ps.len(),
{
    if ps.len() == 0 {
        0
    } else {
        failing_count(ps.drop_last()) + if ps.last().violations@.len() == 0 {
            0int
        } else {
            1int
        }
    }
}

/// A report whose total is the sum of its policies' violations.
pub open spec fn consistent(r: CheckReport) -> bool {
    r.total_violations == violation_total(r.policies@)
}

impl CheckReport {
    /// A report passes when it holds no violation.
    pub fn passed(&self) -> (r: bool)
        ensures
            r == (self.total_violations == 0),
    {
        self.total_violations == 0
    }
}

/// The tier-1 models among `ms`, in order.
pub open spec fn tier_one_models(
    ms: Seq<Node>,
    paths: Seq<Seq<char>>,
    wanted: Seq<(String, manifest::MetaValue)>,
) -> Seq<Node>
    decreases ms.len(),
{
    if ms.len() == 0 {
        Seq::empty()
    } else if tier::tier_one(paths, wanted, ms.last()) {
        tier_one_models(ms.drop_last(), paths, wanted).push(ms.last())
    } else {
        tier_one_models(ms.drop_last(), paths, wanted)
    }
}

/// Room a model takes in the description policy's output: one violation
/// when it has no column, else at most one per column.
pub open spec fn column_load(ms: Seq<Node>) -> int
    decreases ms.len(),
{
    if ms.len() == 0 {
        0
    } else {
        column_load(ms.drop_last()) + if ms.last().columns@.len() == 0 {
            1
        } else {
            ms.last().columns@.len() as int
        }
    }
}

/// Whether no model file holds a backslash (then glob matching is stated).
pub open spec fn plain_paths(ms: Seq<Node>) -> bool {
    forall|i: int| 0 <= i < ms.len() ==> !tier::has_backslash(#[trigger] ms[i].original_file_path@)
}

proof fn lemma_owner_bound(ms: Seq<Node>)
    ensures
        policy::owner_violations(ms).len() <= ms.len(),
    decreases ms.len(),
{
    if ms.len() > 0 {
        lemma_owner_bound(ms.drop_last());
    }
}

proof fn lemma_column_bound(m: Node, cols: Seq<(String, manifest::Column)>)
    ensures
        policy::column_violations(m, cols).len() <= cols.len(),
    decreases cols.len(),
{
    if cols.len() > 0 {
        lemma_column_bound(m, cols.drop_last());
    }
}

proof fn lemma_description_bound(ms: Seq<Node>)
    ensures
        policy::description_violations(ms).len() <= column_load(ms),
    decreases ms.len(),
{
    if ms.len() > 0 {
        lemma_description_bound(ms.drop_last());
        lemma_column_bound(ms.last(), ms.last().columns@);
    }
}

/// The models of `ms` that `picks` marks, in order.
pub open spec fn select(ms: Seq<Node>, picks: Seq<bool>) -> Seq<Node>
    decreases ms.len(),
{
    if ms.len() == 0 || picks.len() == 0 {
        Seq::empty()
    } else if picks.last() {
        select(ms.drop_last(), picks.drop_last()).push(ms.last())
    } else {
        select(ms.drop_last(), picks.drop_last())
    }
}

/// Whether `picks` marks the tier-1 models of `ms` as the tier rule
/// allows: exactly by the rule for every model whose file holds no
/// backslash (when no pattern holds one), and every model that carries all
/// configured `meta` pairs. Which of the other models a glob matches
/// depends on the platform.
pub open spec fn allowed_picks(
    ms: Seq<Node>,
    picks: Seq<bool>,
    paths: Seq<Seq<char>>,
    wanted: Seq<(String, manifest::MetaValue)>,
) -> bool {
    &&& picks.len() == ms.len()
    &&& forall|i: int|
        0 <= i < ms.len() && tier::plain_patterns(paths) && !tier::has_backslash(
            ms[i].original_file_path@,
        ) ==> #[trigger] picks[i] == tier::tier_one(paths, wanted, ms[i])
    &&& forall|i: int| 0 <= i < ms.len() && tier::meta_matches(ms[i], wanted) ==> #[trigger] picks[i]
}

/// Where no model file and no pattern holds a backslash, the allowed
/// choice is the tier rule's.
pub proof fn lemma_plain_selection_is_tier_rule(
    ms: Seq<Node>,
    picks: Seq<bool>,
    paths: Seq<Seq<char>>,
    wanted: Seq<(String, manifest::MetaValue)>,
)
    requires
        allowed_picks(ms, picks, paths, wanted),
        plain_paths(ms),
        tier::plain_patterns(paths),
    ensures
        select(ms, picks) == tier_one_models(ms, paths, wanted),
    decreases ms.len(),
{
    if ms.len() > 0 {
        let l = ms.len() - 1;
        assert(!tier::has_backslash(ms[l].original_file_path@));
        assert(picks[l] == tier::tier_one(paths, wanted, ms[l]));
        assert(ms.last() == ms[l] && picks.last() == picks[l]);
        let (m2, p2) = (ms.drop_last(), picks.drop_last());
        assert forall|i: int| 0 <= i < m2.len() implies !tier::has_backslash(
            (#[trigger] m2[i]).original_file_path@,
        ) by {
            assert(m2[i] == ms[i]);
        }
        assert(allowed_picks(m2, p2, paths, wanted)) by {
            assert forall|i: int|
                0 <= i < m2.len() && tier::plain_patterns(paths) && !tier::has_backslash(
                    m2[i].original_file_path@,
                ) implies #[trigger] p2[i] == tier::tier_one(paths, wanted, m2[i]) by {
                assert(m2[i] == ms[i] && p2[i] == picks[i]);
            }
            assert forall|i: int|
                0 <= i < m2.len() && tier::meta_matches(m2[i], wanted) implies #[trigger] p2[i] by {
                assert(m2[i] == ms[i] && p2[i] == picks[i]);
            }
        }
        lemma_plain_selection_is_tier_rule(m2, p2, paths, wanted);
    }
}

/// Run every policy against the tier-1 models of `manifest`.
pub fn run(manifest: &Manifest, tiers: &TierConfig) -> (r: CheckReport)
    requires
        manifest::models_in(manifest.nodes@).len() + column_load(manifest::models_in(manifest.nodes@))
            <= usize::MAX,
    ensures
        r.version == crate::VERSION,
        r.policies@.len() == 2,
        r.policies@[0].name@ == "tier_1_has_owner"@,
        r.policies@[0].description@ == Tier1HasOwner.spec_description(),
        r.policies@[1].name@ == "tier_1_columns_described"@,
        r.policies@[1].description@ == Tier1ColumnsDescribed.spec_description(),
        consistent(r),
        r.total_violations == r.policies@[0].violations@.len() + r.policies@[1].violations@.len(),
        exists|picks: Seq<bool>|
            #[trigger] allowed_picks(manifest::models_in(manifest.nodes@), picks, tiers.paths(), tiers.meta())
                && {
                let t = select(manifest::models_in(manifest.nodes@), picks);
                &&& r.tier1_models == t.len()
                &&& policy::views(r.policies@[0].violations@) == policy::owner_violations(t)
                &&& policy::views(r.policies@[1].violations@) == policy::description_violations(t)
                &&& r.policies@[0].violations@.len() == t.filter(|m: Node| policy::unowned(m)).len()
                &&& r.policies@[1].violations@.len() == policy::description_total(t)
            },
        plain_paths(manifest::models_in(manifest.nodes@)) && crate::tier::plain_patterns(tiers.paths())
            ==> {
            let t = tier_one_models(manifest::models_in(manifest.nodes@), tiers.paths(), tiers.meta());
            &&& r.tier1_models == t.len()
            &&& policy::views(r.policies@[0].violations@) == policy::owner_violations(t)
            &&& policy::views(r.policies@[1].violations@) == policy::description_violations(t)
            &&& t == manifest::models_in(manifest.nodes@).filter(
                |m: Node| tier::tier_one(tiers.paths(), tiers.meta(), m),
            )
            &&& r.policies@[0].violations@.len() == t.filter(|m: Node| policy::unowned(m)).len()
            &&& r.policies@[1].violations@.len() == policy::description_total(t)
        },
{
    let models = manifest.models();
    let ghost ms = manifest::models_in(manifest.nodes@);
    let mut tier_1: Vec<&Node> = Vec::new();
    let ghost mut picks: Seq<bool> = Seq::empty();
    let mut i: usize = 0;
    while i < models.len()
        invariant
            i <= models.len(),
            models@.len() == ms.len(),
            forall|k: int| 0 <= k < models@.len() ==> *models@[k] == ms[k],
            ms.len() + column_load(ms) <= usize::MAX,
            tier_1@.len() + column_load(policy::deref_all(tier_1@)) <= i + column_load(
                ms.subrange(0, i as int),
            ),
            tier_1@.len() <= i,
            picks.len() == i,
            allowed_picks(ms.subrange(0, i as int), picks, tiers.paths(), tiers.meta()),
            policy::deref_all(tier_1@) == select(ms.subrange(0, i as int), picks),
        decreases models.len() - i,
    {
        let m = models[i];
        assert(ms.subrange(0, i + 1).drop_last() =~= ms.subrange(0, i as int));
        assert(ms.subrange(0, i + 1).last() == ms[i as int]);
        let ghost before = tier_1@;
        let ghost old_picks = picks;
        let hit = tiers.is_tier_1(m);
        if hit {
            tier_1.push(m);
            assert(policy::deref_all(tier_1@) =~= policy::deref_all(before).push(*m));
            assert(policy::deref_all(tier_1@).drop_last() =~= policy::deref_all(before));
        }
        proof {
            picks = picks.push(hit);
            assert(picks.drop_last() =~= old_picks);
            let sub = ms.subrange(0, i + 1);
            assert(allowed_picks(sub, picks, tiers.paths(), tiers.meta())) by {
                assert forall|k: int|
                    0 <= k < sub.len() && tier::plain_patterns(tiers.paths()) && !tier::has_backslash(
                        sub[k].original_file_path@,
                    ) implies #[trigger] picks[k] == tier::tier_one(tiers.paths(), tiers.meta(), sub[k]) by {
                    if k < i {
                        assert(sub[k] == ms.subrange(0, i as int)[k] && picks[k] == old_picks[k]);
                    }
                }
                assert forall|k: int|
                    0 <= k < sub.len() && tier::meta_matches(sub[k], tiers.meta()) implies #[trigger] picks[k] by {
                    if k < i {
                        assert(sub[k] == ms.subrange(0, i as int)[k] && picks[k] == old_picks[k]);
                    }
                }
            }
        }
        i = i + 1;
    }
    assert(ms.subrange(0, i as int) =~= ms);
    let owner = Tier1HasOwner.run(tier_1.as_slice());
    let described = Tier1ColumnsDescribed.run(tier_1.as_slice());
    proof {
        let t = policy::deref_all(tier_1@);
        lemma_owner_bound(t);
        lemma_description_bound(t);
        assert(owner.violations@.len() == policy::views(owner.violations@).len());
        assert(described.violations@.len() == policy::views(described.violations@).len());
    }
    let total = owner.violations.len() + described.violations.len();
    let tier1_models = tier_1.len();
    let mut policies: Vec<PolicyResult> = Vec::new();
    policies.push(owner);
    policies.push(described);
    let r = CheckReport { version: crate::VERSION, tier1_models, policies, total_violations: total };
    proof {
        let t = select(ms, picks);
        policy::lemma_owner_violations_are_unowned_models(t);
        policy::lemma_description_violation_count(t);
        assert(allowed_picks(ms, picks, tiers.paths(), tiers.meta()));
        if plain_paths(ms) && tier::plain_patterns(tiers.paths()) {
            lemma_plain_selection_is_tier_rule(ms, picks, tiers.paths(), tiers.meta());
            lemma_tier_one_models_filter(ms, tiers.paths(), tiers.meta());
        }
        let ps = r.policies@;
        assert(ps.drop_last().drop_last() =~= Seq::<PolicyResult>::empty());
        assert(ps.drop_last().last() == ps[0]);
        assert(violation_total(ps.drop_last().drop_last()) == 0);
        assert(violation_total(ps.drop_last()) == ps[0].violations@.len());
    }
    r
}

/// The tier-1 models of a list are exactly those that the tier rule
/// selects, in their order.
pub proof fn lemma_tier_one_models_filter(
    ms: Seq<Node>,
    paths: Seq<Seq<char>>,
    wanted: Seq<(String, manifest::MetaValue)>,
)
    ensures
        tier_one_models(ms, paths, wanted) == ms.filter(|m: Node| tier::tier_one(paths, wanted, m)),
    decreases ms.len(),
{
    reveal(Seq::filter);
    if ms.len() > 0 {
        lemma_tier_one_models_filter(ms.drop_last(), paths, wanted);
    }
}

/// Violation totals and failing counts are never negative.
pub proof fn lemma_report_counts_nonneg(ps: Seq<PolicyResult>)
    ensures
        violation_total(ps) >= 0,
        failing_count(ps) >= 0,
{
    lemma_total_zero(ps);
}

proof fn lemma_total_zero(ps: Seq<PolicyResult>)
    ensures
        violation_total(ps) >= 0,
        failing_count(ps) >= 0,
        violation_total(ps) == 0 <==> (forall|i: int|
            0 <= i < ps.len() ==> (#[trigger] ps[i]).violations@.len() == 0),
        failing_count(ps) == 0 <==> violation_total(ps) == 0,
    decreases ps.len(),
{
    if ps.len() > 0 {
        lemma_total_zero(ps.drop_last());
        assert forall|i: int| 0 <= i < ps.len() - 1 implies ps.drop_last()[i] == ps[i] by {}
        if violation_total(ps) == 0 {
            assert forall|i: int| 0 <= i < ps.len() implies (#[trigger] ps[i]).violations@.len() == 0 by {
                if i < ps.len() - 1 {
                    assert(ps.drop_last()[i] == ps[i]);
                }
            }
        }
        if forall|i: int| 0 <= i < ps.len() ==> (#[trigger] ps[i]).violations@.len() == 0 {
            assert(ps.last() == ps[ps.len() - 1]);
            assert forall|i: int| 0 <= i < ps.drop_last().len() implies (
            #[trigger] ps.drop_last()[i]).violations@.len() == 0 by {
                assert(ps.drop_last()[i] == ps[i]);
            }
        }
    }
}

/// A consistent report passes exactly when every one of its policies
/// passes, and then no policy is counted as failing.
pub proof fn lemma_report_passes_iff_all_policies_pass(r: CheckReport)
    requires
        consistent(r),
    ensures
        r.total_violations == 0 <==> (forall|i: int|
            0 <= i < r.policies@.len() ==> (#[trigger] r.policies@[i]).violations@.len() == 0),
        r.total_violations == 0 <==> failing_count(r.policies@) == 0,
{
    lemma_total_zero(r.policies@);
}

/// Where a violation points: `file:column`, or the file alone.
pub open spec fn location(v: Violation) -> Seq<char> {
    match v.column {
        Some(c) => v.file@ + ":"@ + c@,
        None => v.file@,
    }
}

/// The text line of one violation.
pub open spec fn violation_line(v: Violation) -> Seq<char> {
    "      \u{2022} "@ + location(v) + " \u{2014} "@ + v.message@ + "\n"@
}

/// The text lines of violations, in order.
pub open spec fn violation_lines(vs: Seq<Violation>) -> Seq<char>
    decreases vs.len(),
{
    if vs.len() == 0 {
        Seq::empty()
    } else {
        violation_lines(vs.drop_last()) + violation_line(vs.last())
    }
}

/// `suffix` when `n` is not 1, else nothing.
pub open spec fn plural(n: int, suffix: Seq<char>) -> Seq<char> {
    if n == 1 {
        Seq::empty()
    } else {
        suffix
    }
}

/// The text of one policy result: a pass mark, or a fail mark with the
/// violation count followed by one line per violation.
pub open spec fn policy_block(p: PolicyResult) -> Seq<char> {
    let count = p.violations@.len();
    if count == 0 {
        "  \u{2713} "@ + p.name@ + "\n"@
    } else {
        "  \u{2717} "@ + p.name@ + " \u{2014} "@ + text::digits(count) + " violation"@ + plural(
            count as int,
            "s"@,
        ) + "\n"@ + violation_lines(p.violations@)
    }
}

/// The text of a list of policy results, in order.
pub open spec fn policy_blocks(ps: Seq<PolicyResult>) -> Seq<char>
    decreases ps.len(),
{
    if ps.len() == 0 {
        Seq::empty()
    } else {
        policy_blocks(ps.drop_last()) + policy_block(ps.last())
    }
}

/// The closing line of the human-readable report.
pub open spec fn summary_line(r: CheckReport) -> Seq<char> {
    if r.total_violations == 0 {
        "Passed: 0 violations.\n"@
    } else {
        let failing = failing_count(r.policies@);
        "Failed: "@ + text::digits(r.total_violations as nat) + " violation"@ + plural(
            r.total_violations as int,
            "s"@,
        ) + " across "@ + text::digits(failing as nat) + " polic"@ + (if failing == 1 {
            "y"@
        } else {
            "ies"@
        }) + ".\n"@
    }
}

/// The human-readable report.
pub open spec fn human_text(r: CheckReport) -> Seq<char> {
    "dbt-fleet "@ + r.version@ + "\n\n"@ + "Tier-1 models: "@ + text::digits(r.tier1_models as nat)
        + "\n"@ + "Policies checked: "@ + text::digits(r.policies@.len()) + "\n\n"@ + policy_blocks(
        r.policies@,
    ) + "\n"@ + summary_line(r)
}

fn write_violation(w: &mut String, v: &Violation)
    ensures
        final(w)@ == old(w)@ + violation_line(*v),
{
    push_str(w, "      \u{2022} ");
    push_str(w, v.file.as_str());
    match &v.column {
        Some(c) => {
            push_str(w, ":");
            push_str(w, c.as_str());
        },
        None => {},
    }
    push_str(w, " \u{2014} ");
    push_str(w, v.message.as_str());
    push_str(w, "\n");
    assert(final(w)@ =~= old(w)@ + violation_line(*v));
}

fn write_policy(w: &mut String, p: &PolicyResult)
    ensures
        final(w)@ == old(w)@ + policy_block(*p),
{
    let count = p.violations.len();
    if count == 0 {
        push_str(w, "  \u{2713} ");
        push_str(w, p.name);
        push_str(w, "\n");
        assert(final(w)@ =~= old(w)@ + policy_block(*p));
    } else {
        push_str(w, "  \u{2717} ");
        push_str(w, p.name);
        push_str(w, " \u{2014} ");
        push_decimal(w, count as u64);
        push_str(w, " violation");
        if count != 1 {
            push_str(w, "s");
        }
        push_str(w, "\n");
        let ghost head = w@;
        assert(head =~= old(w)@ + ("  \u{2717} "@ + p.name@ + " \u{2014} "@ + text::digits(
            count as nat,
        ) + " violation"@ + plural(count as int, "s"@) + "\n"@));
        let mut j: usize = 0;
        while j < p.violations.len()
            invariant
                j <= p.violations@.len(),
                w@ == head + violation_lines(p.violations@.subrange(0, j as int)),
            decreases p.violations.len() - j,
        {
            assert(p.violations@.subrange(0, j + 1).drop_last() =~= p.violations@.subrange(
                0,
                j as int,
            ));
            write_violation(w, &p.violations[j]);
            j = j + 1;
            assert(w@ =~= head + violation_lines(p.violations@.subrange(0, j as int)));
        }
        assert(p.violations@.subrange(0, j as int) =~= p.violations@);
        assert(final(w)@ =~= old(w)@ + policy_block(*p));
    }
}

fn write_summary(w: &mut String, report: &CheckReport, failing: usize)
    requires
        failing == failing_count(report.policies@),
    ensures
        final(w)@ == old(w)@ + summary_line(*report),
{
    if report.passed() {
        push_str(w, "Passed: 0 violations.\n");
    } else {
        push_str(w, "Failed: ");
        push_decimal(w, report.total_violations as u64);
        push_str(w, " violation");
        if report.total_violations != 1 {
            push_str(w, "s");
        }
        push_str(w, " across ");
        push_decimal(w, failing as u64);
        push_str(w, " polic");
        if failing == 1 {
            push_str(w, "y");
        } else {
            push_str(w, "ies");
        }
        push_str(w, ".\n");
    }
    assert(final(w)@ =~= old(w)@ + summary_line(*report));
}

/// Write the human-readable report into `w`.
pub fn write_human(report: &CheckReport, w: &mut String) -> (r: Result<(), core::fmt::Error>)
    ensures
        r is Ok,
        final(w)@ == old(w)@ + human_text(*report),
{
    push_str(w, "dbt-fleet ");
    push_str(w, report.version);
    push_str(w, "\n\n");
    push_str(w, "Tier-1 models: ");
    push_decimal(w, report.tier1_models as u64);
    push_str(w, "\n");
    push_str(w, "Policies checked: ");
    push_decimal(w, report.policies.len() as u64);
    push_str(w, "\n\n");
    let ghost head = w@;
    let mut i: usize = 0;
    let mut failing: usize = 0;
    while i < report.policies.len()
        invariant
            i <= report.policies@.len(),
            w@ == head + policy_blocks(report.policies@.subrange(0, i as int)),
            failing == failing_count(report.policies@.subrange(0, i as int)),
            failing <= i,
        decreases report.policies.len() - i,
    {
        assert(report.policies@.subrange(0, i + 1).drop_last() =~= report.policies@.subrange(
            0,
            i as int,
        ));
        let p = &report.policies[i];
        write_policy(w, p);
        if !p.passed() {
            failing = failing + 1;
        }
        i = i + 1;
        assert(w@ =~= head + policy_blocks(report.policies@.subrange(0, i as int)));
    }
    assert(report.policies@.subrange(0, i as int) =~= report.policies@);
    push_str(w, "\n");
    write_summary(w, report, failing);
    assert(final(w)@ =~= old(w)@ + human_text(*report));
    Ok(())
}

} // verus!

verus! {

/// Whether `s` ends with `t`.
pub open spec fn ends_with(s: Seq<char>, t: Seq<char>) -> bool {
    t.len() <= s.len() && s.subrange(s.len() - t.len(), s.len() as int) == t
}

/// The closing line of the text report.
pub open spec fn passed_line() -> Seq<char> {
    "Passed: 0 violations.\n"@
}

/// The human-readable report closes with its summary line, and that line
/// says "Passed: 0 violations." exactly when the report holds no violation;
/// otherwise it gives the violation total and the number of failing
/// policies.
pub proof fn lemma_human_text_closes_with_verdict(r: CheckReport)
    ensures
        ends_with(human_text(r), summary_line(r)),
        ends_with(human_text(r), passed_line()) <==> r.total_violations == 0,
        r.total_violations != 0 ==> summary_line(r) == "Failed: "@ + text::digits(
            r.total_violations as nat,
        ) + " violation"@ + plural(r.total_violations as int, "s"@) + " across "@ + text::digits(
            failing_count(r.policies@) as nat,
        ) + " polic"@ + (if failing_count(r.policies@) == 1 {
            "y"@
        } else {
            "ies"@
        }) + ".\n"@,
{
    reveal_strlit("Passed: 0 violations.\n");
    reveal_strlit(".\n");
    reveal_strlit("y");
    reveal_strlit("ies");
    reveal_strlit(" polic");
    let h = human_text(r);
    let s = summary_line(r);
    let pre = "dbt-fleet "@ + r.version@ + "\n\n"@ + "Tier-1 models: "@ + text::digits(
        r.tier1_models as nat,
    ) + "\n"@ + "Policies checked: "@ + text::digits(r.policies@.len()) + "\n\n"@ + policy_blocks(
        r.policies@,
    ) + "\n"@;
    assert(h == pre + s);
    assert(h.subrange(h.len() - s.len(), h.len() as int) =~= s);
    if r.total_violations != 0 {
        if ends_with(h, passed_line()) {
            let p = passed_line();
            let f = failing_count(r.policies@);
            let tail = " polic"@ + (if f == 1 {
                "y"@
            } else {
                "ies"@
            }) + ".\n"@;
            let front = "Failed: "@ + text::digits(r.total_violations as nat) + " violation"@ + plural(
                r.total_violations as int,
                "s"@,
            ) + " across "@ + text::digits(f as nat);
            assert(s == front + tail);
            assert(h =~= (pre + front) + tail);
            assert(h[h.len() - 4] == tail[tail.len() - 4]);
            assert(h[h.len() - 4] == h.subrange(h.len() - p.len(), h.len() as int)[p.len() - 4]);
            assert(p[p.len() - 4] == 'n');
            if f == 1 {
                assert(tail[tail.len() - 4] == 'c');
            } else {
                assert(tail[tail.len() - 4] == 'e');
            }
        }
    } else {
        assert(s == passed_line());
    }
}

} // verus!

verus! {

/// Number of bullet characters `•` in `s`.
pub open spec fn bullet_count(s: Seq<char>) -> nat {
    s.filter(|c: char| c == '\u{2022}').len()
}

proof fn lemma_bullets_add(a: Seq<char>, b: Seq<char>)
    ensures
        bullet_count(a + b) == bullet_count(a) + bullet_count(b),
{
    Seq::filter_distributes_over_add(a, b, |c: char| c == '\u{2022}');
}

proof fn lemma_bullets_none(s: Seq<char>)
    requires
        !s.contains('\u{2022}'),
    ensures
        bullet_count(s) == 0,
    decreases s.len(),
{
    reveal(Seq::filter);
    if s.len() > 0 {
        assert(s.last() == s[s.len() - 1]);
        assert(!s.drop_last().contains('\u{2022}')) by {
            if s.drop_last().contains('\u{2022}') {
                let k = choose|k: int| 0 <= k < s.drop_last().len() && s.drop_last()[k] == '\u{2022}';
                assert(s[k] == '\u{2022}');
            }
        }
        lemma_bullets_none(s.drop_last());
    }
}

proof fn lemma_bullets_digits(n: nat)
    ensures
        bullet_count(text::digits(n)) == 0,
{
    text::lemma_digits_lack(n, '\u{2022}');
    lemma_bullets_none(text::digits(n));
}

proof fn lemma_bullet_words()
    ensures
        bullet_count("      \u{2022} "@) == 1,
        bullet_count(" \u{2014} "@) == 0,
        bullet_count("\n"@) == 0,
        bullet_count(":"@) == 0,
        bullet_count("  \u{2713} "@) == 0,
        bullet_count("  \u{2717} "@) == 0,
        bullet_count(" violation"@) == 0,
        bullet_count("s"@) == 0,
        bullet_count(Seq::<char>::empty()) == 0,
        bullet_count("Passed: 0 violations.\n"@) == 0,
        bullet_count("Failed: "@) == 0,
        bullet_count(" across "@) == 0,
        bullet_count(" polic"@) == 0,
        bullet_count("y"@) == 0,
        bullet_count("ies"@) == 0,
        bullet_count(".\n"@) == 0,
        bullet_count("dbt-fleet "@) == 0,
        bullet_count("\n\n"@) == 0,
        bullet_count("Tier-1 models: "@) == 0,
        bullet_count("Policies checked: "@) == 0,
{
    reveal_strlit("      \u{2022} ");
    reveal_strlit(" \u{2014} ");
    reveal_strlit("\n");
    reveal_strlit(":");
    reveal_strlit("  \u{2713} ");
    reveal_strlit("  \u{2717} ");
    reveal_strlit(" violation");
    reveal_strlit("s");
    reveal_strlit("Passed: 0 violations.\n");
    reveal_strlit("Failed: ");
    reveal_strlit(" across ");
    reveal_strlit(" polic");
    reveal_strlit("y");
    reveal_strlit("ies");
    reveal_strlit(".\n");
    reveal_strlit("dbt-fleet ");
    reveal_strlit("\n\n");
    reveal_strlit("Tier-1 models: ");
    reveal_strlit("Policies checked: ");
    let b = "      \u{2022} "@;
    assert(b =~= "      "@.push('\u{2022}').push(' ')) by {
        reveal_strlit("      ");
    }
    reveal_strlit("      ");
    lemma_bullets_none("      "@);
    lemma_bullets_add("      "@, seq!['\u{2022}']);
    lemma_bullets_add("      "@ + seq!['\u{2022}'], seq![' ']);
    assert("      "@.push('\u{2022}').push(' ') =~= "      "@ + seq!['\u{2022}'] + seq![' ']);
    reveal(Seq::filter);
    assert(seq!['\u{2022}'].drop_last() =~= Seq::<char>::empty());
    assert(seq![' '].drop_last() =~= Seq::<char>::empty());
    assert(bullet_count(seq!['\u{2022}']) == 1);
    assert(bullet_count(seq![' ']) == 0);
    lemma_bullets_none(" \u{2014} "@);
    lemma_bullets_none("\n"@);
    lemma_bullets_none(":"@);
    lemma_bullets_none("  \u{2713} "@);
    lemma_bullets_none("  \u{2717} "@);
    lemma_bullets_none(" violation"@);
    lemma_bullets_none("s"@);
    lemma_bullets_none(Seq::<char>::empty());
    lemma_bullets_none("Passed: 0 violations.\n"@);
    lemma_bullets_none("Failed: "@);
    lemma_bullets_none(" across "@);
    lemma_bullets_none(" polic"@);
    lemma_bullets_none("y"@);
    lemma_bullets_none("ies"@);
    lemma_bullets_none(".\n"@);
    lemma_bullets_none("dbt-fleet "@);
    lemma_bullets_none("\n\n"@);
    lemma_bullets_none("Tier-1 models: "@);
    lemma_bullets_none("Policies checked: "@);
}

/// Whether the texts of a violation hold no bullet character.
pub open spec fn bullet_free_violation(v: Violation) -> bool {
    &&& !v.file@.contains('\u{2022}')
    &&& !v.message@.contains('\u{2022}')
    &&& (v.column matches Some(c) ==> !c@.contains('\u{2022}'))
}

/// Whether the texts of a report (version, policy names, violation files,
/// columns and messages) hold no bullet character.
pub open spec fn bullet_free(r: CheckReport) -> bool {
    &&& !r.version@.contains('\u{2022}')
    &&& forall|i: int|
        0 <= i < r.policies@.len() ==> !(#[trigger] r.policies@[i]).name@.contains('\u{2022}')
    &&& forall|i: int, j: int|
        0 <= i < r.policies@.len() && 0 <= j < r.policies@[i].violations@.len()
            ==> bullet_free_violation(#[trigger] r.policies@[i].violations@[j])
}

proof fn lemma_violation_line_bullets(v: Violation)
    requires
        bullet_free_violation(v),
    ensures
        bullet_count(violation_line(v)) == 1,
{
    lemma_bullet_words();
    lemma_bullets_none(v.file@);
    lemma_bullets_none(v.message@);
    let loc = location(v);
    assert(bullet_count(loc) == 0) by {
        match v.column {
            Some(c) => {
                lemma_bullets_none(c@);
                lemma_bullets_add(v.file@, ":"@);
                lemma_bullets_add(v.file@ + ":"@, c@);
            },
            None => {},
        }
    }
    let b = "      \u{2022} "@;
    lemma_bullets_add(b, loc);
    lemma_bullets_add(b + loc, " \u{2014} "@);
    lemma_bullets_add(b + loc + " \u{2014} "@, v.message@);
    lemma_bullets_add(b + loc + " \u{2014} "@ + v.message@, "\n"@);
}

proof fn lemma_violation_lines_bullets(vs: Seq<Violation>)
    requires
        forall|j: int| 0 <= j < vs.len() ==> bullet_free_violation(#[trigger] vs[j]),
    ensures
        bullet_count(violation_lines(vs)) == vs.len(),
    decreases vs.len(),
{
    lemma_bullet_words();
    if vs.len() > 0 {
        assert forall|j: int| 0 <= j < vs.drop_last().len() implies bullet_free_violation(
            #[trigger] vs.drop_last()[j],
        ) by {
            assert(vs.drop_last()[j] == vs[j]);
        }
        assert(bullet_free_violation(vs[vs.len() - 1]));
        lemma_violation_lines_bullets(vs.drop_last());
        lemma_violation_line_bullets(vs.last());
        lemma_bullets_add(violation_lines(vs.drop_last()), violation_line(vs.last()));
    }
}

proof fn lemma_policy_block_bullets(p: PolicyResult)
    requires
        !p.name@.contains('\u{2022}'),
        forall|j: int| 0 <= j < p.violations@.len() ==> bullet_free_violation(#[trigger] p.violations@[j]),
    ensures
        bullet_count(policy_block(p)) == p.violations@.len(),
{
    lemma_bullet_words();
    lemma_bullets_none(p.name@);
    let n = p.violations@.len();
    if n == 0 {
        lemma_bullets_add("  \u{2713} "@, p.name@);
        lemma_bullets_add("  \u{2713} "@ + p.name@, "\n"@);
    } else {
        lemma_bullets_digits(n);
        lemma_violation_lines_bullets(p.violations@);
        let a1 = "  \u{2717} "@ + p.name@;
        let a2 = a1 + " \u{2014} "@;
        let a3 = a2 + text::digits(n);
        let a4 = a3 + " violation"@;
        let a5 = a4 + plural(n as int, "s"@);
        let a6 = a5 + "\n"@;
        lemma_bullets_add("  \u{2717} "@, p.name@);
        lemma_bullets_add(a1, " \u{2014} "@);
        lemma_bullets_add(a2, text::digits(n));
        lemma_bullets_add(a3, " violation"@);
        lemma_bullets_add(a4, plural(n as int, "s"@));
        lemma_bullets_add(a5, "\n"@);
        lemma_bullets_add(a6, violation_lines(p.violations@));
    }
}

proof fn lemma_policy_blocks_bullets(ps: Seq<PolicyResult>)
    requires
        forall|i: int| 0 <= i < ps.len() ==> !(#[trigger] ps[i]).name@.contains('\u{2022}'),
        forall|i: int, j: int|
            0 <= i < ps.len() && 0 <= j < ps[i].violations@.len() ==> bullet_free_violation(
                #[trigger] ps[i].violations@[j],
            ),
    ensures
        bullet_count(policy_blocks(ps)) == violation_total(ps),
    decreases ps.len(),
{
    lemma_bullet_words();
    if ps.len() > 0 {
        let q = ps.drop_last();
        assert forall|i: int| 0 <= i < q.len() implies !(#[trigger] q[i]).name@.contains('\u{2022}') by {
            assert(q[i] == ps[i]);
        }
        assert forall|i: int, j: int|
            0 <= i < q.len() && 0 <= j < q[i].violations@.len() implies bullet_free_violation(
            #[trigger] q[i].violations@[j],
        ) by {
            assert(q[i] == ps[i]);
        }
        let l = ps.len() - 1;
        assert(ps.last() == ps[l]);
        assert(!ps[l].name@.contains('\u{2022}'));
        assert forall|j: int| 0 <= j < ps.last().violations@.len() implies bullet_free_violation(
            #[trigger] ps.last().violations@[j],
        ) by {
            assert(bullet_free_violation(ps[l].violations@[j]));
        }
        lemma_policy_blocks_bullets(q);
        lemma_policy_block_bullets(ps.last());
        lemma_bullets_add(policy_blocks(q), policy_block(ps.last()));
    }
}

/// The text report carries one bullet line per violation, in policy order:
/// when the report's own texts hold no `•`, the number of `•` in the text
/// is the number of violations.
pub proof fn lemma_one_bullet_per_violation(r: CheckReport)
    requires
        bullet_free(r),
    ensures
        bullet_count(human_text(r)) == violation_total(r.policies@),
        consistent(r) ==> bullet_count(human_text(r)) == r.total_violations,
{
    lemma_bullet_words();
    lemma_bullets_none(r.version@);
    lemma_policy_blocks_bullets(r.policies@);
    let t1 = text::digits(r.tier1_models as nat);
    let t2 = text::digits(r.policies@.len());
    lemma_bullets_digits(r.tier1_models as nat);
    lemma_bullets_digits(r.policies@.len());
    let s = summary_line(r);
    assert(bullet_count(s) == 0) by {
        if r.total_violations != 0 {
            let f = failing_count(r.policies@);
            lemma_report_counts_nonneg(r.policies@);
            lemma_bullets_digits(r.total_violations as nat);
            lemma_bullets_digits(f as nat);
            let w = if f == 1 {
                "y"@
            } else {
                "ies"@
            };
            let b1 = "Failed: "@ + text::digits(r.total_violations as nat);
            let b2 = b1 + " violation"@;
            let b3 = b2 + plural(r.total_violations as int, "s"@);
            let b4 = b3 + " across "@;
            let b5 = b4 + text::digits(f as nat);
            let b6 = b5 + " polic"@;
            let b7 = b6 + w;
            lemma_bullets_add("Failed: "@, text::digits(r.total_violations as nat));
            lemma_bullets_add(b1, " violation"@);
            lemma_bullets_add(b2, plural(r.total_violations as int, "s"@));
            lemma_bullets_add(b3, " across "@);
            lemma_bullets_add(b4, text::digits(f as nat));
            lemma_bullets_add(b5, " polic"@);
            lemma_bullets_add(b6, w);
            lemma_bullets_add(b7, ".\n"@);
        }
    }
    let a1 = "dbt-fleet "@ + r.version@;
    let a2 = a1 + "\n\n"@;
    let a3 = a2 + "Tier-1 models: "@;
    let a4 = a3 + t1;
    let a5 = a4 + "\n"@;
    let a6 = a5 + "Policies checked: "@;
    let a7 = a6 + t2;
    let a8 = a7 + "\n\n"@;
    let a9 = a8 + policy_blocks(r.policies@);
    let a10 = a9 + "\n"@;
    lemma_bullets_add("dbt-fleet "@, r.version@);
    lemma_bullets_add(a1, "\n\n"@);
    lemma_bullets_add(a2, "Tier-1 models: "@);
    lemma_bullets_add(a3, t1);
    lemma_bullets_add(a4, "\n"@);
    lemma_bullets_add(a5, "Policies checked: "@);
    lemma_bullets_add(a6, t2);
    lemma_bullets_add(a7, "\n\n"@);
    lemma_bullets_add(a8, policy_blocks(r.policies@));
    lemma_bullets_add(a9, "\n"@);
    lemma_bullets_add(a10, s);
    assert(human_text(r) == a10 + s);
}

} // verus!
