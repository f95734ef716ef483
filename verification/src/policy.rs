//! Governance policies: what is checked, and how violations look.
//!
//! Each policy is run against the tier-1 models and returns its violations
//! (none means passing).

use vstd::prelude::*;

use crate::manifest::{self, Column, Node};
use crate::text::{self, push_decimal, push_str, same_text, to_lowercase, to_owned, trimmed};

verus! {

/// Minimum length of a column description, in characters after trimming.
pub const MIN_DESCRIPTION_LEN: usize = 10;

/// Message of a model without an owner.
pub const OWNER_MISSING: &'static str = "meta.owner is missing or empty";

/// Message of a model without any declared column.
pub const NO_COLUMNS: &'static str = "no columns declared in schema.yml \u{2014} add column definitions with descriptions";

/// Message of an empty column description.
pub const DESCRIPTION_EMPTY: &'static str = "description is empty";

/// A single policy failure.
pub struct Violation {
    pub model: String,
    pub file: String,
    /// Column name if column-scoped; `None` if model-scoped.
    pub column: Option<String>,
    pub message: String,
}

/// The content of a [`Violation`].
pub struct ViolationView {
    pub model: Seq<char>,
    pub file: Seq<char>,
    pub column: Option<Seq<char>>,
    pub message: Seq<char>,
}

impl View for Violation {
    type V = ViolationView;

    open spec fn view(&self) -> ViolationView {
        ViolationView {
            model: self.model@,
            file: self.file@,
            column: match self.column {
                Some(c) => Some(c@),
                None => None,
            },
            message: self.message@,
        }
    }
}

/// The contents of a list of violations.
pub open spec fn views(vs: Seq<Violation>) -> Seq<ViolationView> {
    vs.map_values(|v: Violation| v@)
}

/// The models behind a list of references.
pub open spec fn deref_all(ms: Seq<&Node>) -> Seq<Node> {
    ms.map_values(|m: &Node| *m)
}

/// The outcome of running one policy.
pub struct PolicyResult {
    pub name: &'static str,
    pub description: &'static str,
    pub violations: Vec<Violation>,
}

impl PolicyResult {
    /// A policy passes when it found no violation.
    pub fn passed(&self) -> (r: bool)
        ensures
            r == (self.violations@.len() == 0),
    {
        self.violations.len() == 0
    }
}

/// A governance policy over the tier-1 models.
pub trait Policy {
    /// The policy's identifier.
    spec fn spec_name(&self) -> Seq<char>;

    /// The policy's one-line description.
    spec fn spec_description(&self) -> Seq<char>;

    /// The violations the policy finds among `models`, in order.
    spec fn spec_check(&self, models: Seq<Node>) -> Seq<ViolationView>;

    fn name(&self) -> (r: &'static str)
        ensures
            r@ == self.spec_name(),
    ;

    fn description(&self) -> (r: &'static str)
        ensures
            r@ == self.spec_description(),
    ;

    fn check(&self, models: &[&Node]) -> (r: Vec<Violation>)
        ensures
            views(r@) == self.spec_check(deref_all(models@)),
    ;

    /// Run the policy and label its violations with its name and description.
    fn run(&self, models: &[&Node]) -> (r: PolicyResult)
        ensures
            r.name@ == self.spec_name(),
            r.description@ == self.spec_description(),
            views(r.violations@) == self.spec_check(deref_all(models@)),
    {
        PolicyResult { name: self.name(), description: self.description(), violations: self.check(models) }
    }
}

/// The violation of a model without an owner.
pub open spec fn owner_violation(m: Node) -> ViolationView {
    ViolationView { model: m.name@, file: m.original_file_path@, column: None, message: OWNER_MISSING@ }
}

/// One violation for each model without an owner, in order.
pub open spec fn owner_violations(ms: Seq<Node>) -> Seq<ViolationView>
    decreases ms.len(),
{
    if ms.len() == 0 {
        Seq::empty()
    } else if manifest::owner_of(ms.last()) is None {
        owner_violations(ms.drop_last()).push(owner_violation(ms.last()))
    } else {
        owner_violations(ms.drop_last())
    }
}

/// The placeholder descriptions that do not count as documentation
/// (compared after lowercasing).
pub open spec fn is_placeholder(s: Seq<char>) -> bool {
    ||| s == "tbd"@
    ||| s == "todo"@
    ||| s == "?"@
    ||| s == "n/a"@
    ||| s == "na"@
    ||| s == "-"@
    ||| s == "fixme"@
}

/// What is wrong with a column description, if anything: judged on the
/// description with surrounding whitespace trimmed; empty, then a
/// placeholder, then shorter than [`MIN_DESCRIPTION_LEN`] characters. A text
/// of that length or more is never a placeholder (lowercasing never
/// shortens a text, and every placeholder is shorter), so only shorter
/// texts are lowercased and compared.
pub open spec fn description_problem(desc: Seq<char>) -> Option<Seq<char>> {
    let t = text::trim(desc);
    if t.len() == 0 {
        Some(DESCRIPTION_EMPTY@)
    } else if t.len() >= MIN_DESCRIPTION_LEN {
        None
    } else if is_placeholder(text::lowercase(t)) {
        Some("description is a placeholder (\""@ + t + "\")"@)
    } else {
        Some(
            "description too short ("@ + text::digits(t.len()) + " chars, minimum "@
                + text::digits(MIN_DESCRIPTION_LEN as nat) + ")"@,
        )
    }
}

/// The violations of the columns `cols` of model `m`, in order.
pub open spec fn column_violations(m: Node, cols: Seq<(String, Column)>) -> Seq<ViolationView>
    decreases cols.len(),
{
    if cols.len() == 0 {
        Seq::empty()
    } else {
        let rest = column_violations(m, cols.drop_last());
        let c = cols.last().1;
        match description_problem(c.description@) {
            Some(reason) => rest.push(
                ViolationView {
                    model: m.name@,
                    file: m.original_file_path@,
                    column: Some(c.name@),
                    message: reason,
                },
            ),
            None => rest,
        }
    }
}

/// The violations of model `m`: a single one when it declares no column,
/// otherwise one per badly described column.
pub open spec fn model_description_violations(m: Node) -> Seq<ViolationView> {
    if m.columns@.len() == 0 {
        seq![
            ViolationView {
                model: m.name@,
                file: m.original_file_path@,
                column: None,
                message: NO_COLUMNS@,
            },
        ]
    } else {
        column_violations(m, m.columns@)
    }
}

/// The description violations of `ms`, model by model.
pub open spec fn description_violations(ms: Seq<Node>) -> Seq<ViolationView>
    decreases ms.len(),
{
    if ms.len() == 0 {
        Seq::empty()
    } else {
        description_violations(ms.drop_last()) + model_description_violations(ms.last())
    }
}

/// Tier-1 models must have an owner.
pub struct Tier1HasOwner;

/// Tier-1 model columns must have descriptions.
pub struct Tier1ColumnsDescribed;

proof fn lemma_prefix_step<T>(s: Seq<T>, i: int)
    requires
        0 <= i < s.len(),
    ensures
        s.subrange(0, i + 1).drop_last() =~= s.subrange(0, i),
        s.subrange(0, i + 1).last() == s[i],
{
}

proof fn lemma_whole<T>(s: Seq<T>)
    ensures
        s.subrange(0, s.len() as int) =~= s,
{
}

fn violation(m: &Node, column: Option<String>, message: String) -> (r: Violation)
    ensures
        r.model@ == m.name@,
        r.file@ == m.original_file_path@,
        r.column == column,
        r.message == message,
{
    Violation {
        model: to_owned(m.name.as_str()),
        file: to_owned(m.original_file_path.as_str()),
        column,
        message,
    }
}

impl Policy for Tier1HasOwner {
    open spec fn spec_name(&self) -> Seq<char> {
        "tier_1_has_owner"@
    }

    open spec fn spec_description(&self) -> Seq<char> {
        "Every tier-1 model must declare an owner via meta.owner."@
    }

    open spec fn spec_check(&self, models: Seq<Node>) -> Seq<ViolationView> {
        owner_violations(models)
    }

    fn name(&self) -> (r: &'static str) {
        "tier_1_has_owner"
    }

    fn description(&self) -> (r: &'static str) {
        "Every tier-1 model must declare an owner via meta.owner."
    }

    fn check(&self, models: &[&Node]) -> (r: Vec<Violation>) {
        let ghost ms = deref_all(models@);
        let mut r: Vec<Violation> = Vec::new();
        let mut i: usize = 0;
        while i < models.len()
            invariant
                i <= models.len(),
                ms == deref_all(models@),
                views(r@) == owner_violations(ms.subrange(0, i as int)),
            decreases models.len() - i,
        {
            proof {
                lemma_prefix_step(ms, i as int);
            }
            let m = models[i];
            if m.owner().is_none() {
                let v = violation(m, None, to_owned(OWNER_MISSING));
                r.push(v);
                assert(views(r@) =~= owner_violations(ms.subrange(0, i as int)).push(v@));
            }
            i = i + 1;
        }
        proof {
            lemma_whole(ms);
        }
        r
    }
}

/// What is wrong with a column description, if anything.
pub fn description_violation(desc: &str) -> (r: Option<String>)
    ensures
        match r {
            Some(s) => description_problem(desc@) == Some(s@),
            None => description_problem(desc@) is None,
        },
{
    let t = trimmed(desc);
    if t.as_str().is_empty() {
        return Some(to_owned(DESCRIPTION_EMPTY));
    }
    let len = t.as_str().unicode_len();
    if len >= MIN_DESCRIPTION_LEN {
        return None;
    }
    let lower = to_lowercase(t.as_str());
    let l = lower.as_str();
    if same_text(l, "tbd") || same_text(l, "todo") || same_text(l, "?") || same_text(l, "n/a")
        || same_text(l, "na") || same_text(l, "-") || same_text(l, "fixme") {
        let mut s = to_owned("description is a placeholder (\"");
        push_str(&mut s, t.as_str());
        push_str(&mut s, "\")");
        return Some(s);
    }
    let mut s = to_owned("description too short (");
    push_decimal(&mut s, len as u64);
    push_str(&mut s, " chars, minimum ");
    push_decimal(&mut s, MIN_DESCRIPTION_LEN as u64);
    push_str(&mut s, ")");
    assert(s@ =~= "description too short ("@ + text::digits(len as nat) + " chars, minimum "@
        + text::digits(MIN_DESCRIPTION_LEN as nat) + ")"@);
    Some(s)
}

impl Policy for Tier1ColumnsDescribed {
    open spec fn spec_name(&self) -> Seq<char> {
        "tier_1_columns_described"@
    }

    open spec fn spec_description(&self) -> Seq<char> {
        "Every column of a tier-1 model must have a description \u{2265} 10 chars (no TBD/TODO placeholders)."@
    }

    open spec fn spec_check(&self, models: Seq<Node>) -> Seq<ViolationView> {
        description_violations(models)
    }

    fn name(&self) -> (r: &'static str) {
        "tier_1_columns_described"
    }

    fn description(&self) -> (r: &'static str) {
        "Every column of a tier-1 model must have a description \u{2265} 10 chars (no TBD/TODO placeholders)."
    }

    fn check(&self, models: &[&Node]) -> (r: Vec<Violation>) {
        let ghost ms = deref_all(models@);
        let mut r: Vec<Violation> = Vec::new();
        let mut i: usize = 0;
        while i < models.len()
            invariant
                i <= models.len(),
                ms == deref_all(models@),
                views(r@) == description_violations(ms.subrange(0, i as int)),
            decreases models.len() - i,
        {
            proof {
                lemma_prefix_step(ms, i as int);
            }
            let m = models[i];
            let ghost before = views(r@);
            if m.columns.len() == 0 {
                let v = violation(m, None, to_owned(NO_COLUMNS));
                r.push(v);
                assert(views(r@) =~= before + model_description_violations(*m));
            } else {
                let mut j: usize = 0;
                while j < m.columns.len()
                    invariant
                        j <= m.columns.len(),
                        views(r@) == before + column_violations(*m, m.columns@.subrange(0, j as int)),
                    decreases m.columns.len() - j,
                {
                    proof {
                        lemma_prefix_step(m.columns@, j as int);
                    }
                    let col = &m.columns[j].1;
                    let ghost mid = views(r@);
                    match description_violation(col.description.as_str()) {
                        Some(reason) => {
                            let v = violation(m, Some(to_owned(col.name.as_str())), reason);
                            r.push(v);
                            assert(views(r@) =~= mid.push(v@));
                        },
                        None => {},
                    }
                    j = j + 1;
                }
                proof {
                    lemma_whole(m.columns@);
                }
            }
            i = i + 1;
        }
        proof {
            lemma_whole(ms);
        }
        r
    }
}

} // verus!

verus! {

/// The ownership policy passes on `ms` exactly when every model in `ms`
/// has an owner.
pub proof fn lemma_owner_policy_passes_iff_all_owned(ms: Seq<Node>)
    ensures
        owner_violations(ms).len() == 0 <==> forall|i: int|
            0 <= i < ms.len() ==> manifest::owner_of(#[trigger] ms[i]) is Some,
    decreases ms.len(),
{
    if ms.len() > 0 {
        lemma_owner_policy_passes_iff_all_owned(ms.drop_last());
        assert(ms.last() == ms[ms.len() - 1]);
        assert forall|i: int| 0 <= i < ms.len() - 1 implies ms.drop_last()[i] == ms[i] by {}
        if forall|i: int| 0 <= i < ms.len() ==> manifest::owner_of(#[trigger] ms[i]) is Some {
            assert forall|i: int| 0 <= i < ms.drop_last().len() implies manifest::owner_of(
                #[trigger] ms.drop_last()[i],
            ) is Some by {
                assert(ms.drop_last()[i] == ms[i]);
            }
        }
        if owner_violations(ms).len() == 0 {
            assert forall|i: int| 0 <= i < ms.len() implies manifest::owner_of(
                #[trigger] ms[i],
            ) is Some by {
                if i < ms.len() - 1 {
                    assert(ms.drop_last()[i] == ms[i]);
                }
            }
        }
    }
}

/// Whether every column in `cols` has an acceptable description.
pub open spec fn all_described(cols: Seq<(String, Column)>) -> bool {
    forall|j: int| 0 <= j < cols.len() ==> description_problem(#[trigger] cols[j].1.description@) is None
}

proof fn lemma_columns_pass(m: Node, cols: Seq<(String, Column)>)
    ensures
        column_violations(m, cols).len() == 0 <==> all_described(cols),
    decreases cols.len(),
{
    if cols.len() > 0 {
        lemma_columns_pass(m, cols.drop_last());
        assert(cols.last() == cols[cols.len() - 1]);
        assert forall|j: int| 0 <= j < cols.len() - 1 implies cols.drop_last()[j] == cols[j] by {}
        if all_described(cols) {
            assert forall|j: int| 0 <= j < cols.drop_last().len() implies description_problem(
                (#[trigger] cols.drop_last()[j]).1.description@,
            ) is None by {
                assert(cols.drop_last()[j] == cols[j]);
            }
        }
        if column_violations(m, cols).len() == 0 {
            assert forall|j: int| 0 <= j < cols.len() implies description_problem(
                (#[trigger] cols[j]).1.description@,
            ) is None by {
                if j < cols.len() - 1 {
                    assert(cols.drop_last()[j] == cols[j]);
                }
            }
        }
    }
}

/// The description policy passes on `ms` exactly when every model in `ms`
/// declares at least one column and every declared column is described.
pub proof fn lemma_description_policy_passes_iff_documented(ms: Seq<Node>)
    ensures
        description_violations(ms).len() == 0 <==> forall|i: int|
            0 <= i < ms.len() ==> (#[trigger] ms[i]).columns@.len() > 0 && all_described(
                ms[i].columns@,
            ),
    decreases ms.len(),
{
    if ms.len() > 0 {
        lemma_description_policy_passes_iff_documented(ms.drop_last());
        let m = ms.last();
        lemma_columns_pass(m, m.columns@);
        assert(m == ms[ms.len() - 1]);
        assert forall|i: int| 0 <= i < ms.len() - 1 implies ms.drop_last()[i] == ms[i] by {}
        if forall|i: int|
            0 <= i < ms.len() ==> (#[trigger] ms[i]).columns@.len() > 0 && all_described(
                ms[i].columns@,
            ) {
            assert forall|i: int| 0 <= i < ms.drop_last().len() implies (
            #[trigger] ms.drop_last()[i]).columns@.len() > 0 && all_described(
                ms.drop_last()[i].columns@,
            ) by {
                assert(ms.drop_last()[i] == ms[i]);
            }
        }
        if description_violations(ms).len() == 0 {
            assert forall|i: int| 0 <= i < ms.len() implies (#[trigger] ms[i]).columns@.len() > 0
                && all_described(ms[i].columns@) by {
                if i < ms.len() - 1 {
                    assert(ms.drop_last()[i] == ms[i]);
                }
            }
        }
    }
}

} // verus!

verus! {

/// Whether a model lacks an owner.
pub open spec fn unowned(m: Node) -> bool {
    manifest::owner_of(m) is None
}

/// Whether a column's description is flagged.
pub open spec fn badly_described(c: (String, Column)) -> bool {
    description_problem(c.1.description@) is Some
}

/// How many description violations model `m` gets: one when it declares no
/// column, else one per badly described column.
pub open spec fn description_count(m: Node) -> int {
    if m.columns@.len() == 0 {
        1
    } else {
        m.columns@.filter(|c: (String, Column)| badly_described(c)).len() as int
    }
}

/// The description violations of models `ms` added up.
pub open spec fn description_total(ms: Seq<Node>) -> int
    decreases ms.len(),
{
    if ms.len() == 0 {
        0
    } else {
        description_total(ms.drop_last()) + description_count(ms.last())
    }
}

/// The owner policy flags exactly the models without an owner, in order,
/// each with its name, file and the missing-owner message.
pub proof fn lemma_owner_violations_are_unowned_models(ms: Seq<Node>)
    ensures
        owner_violations(ms) == ms.filter(|m: Node| unowned(m)).map_values(
            |m: Node| owner_violation(m),
        ),
        owner_violations(ms).len() == ms.filter(|m: Node| unowned(m)).len(),
    decreases ms.len(),
{
    reveal(Seq::filter);
    if ms.len() > 0 {
        lemma_owner_violations_are_unowned_models(ms.drop_last());
        let f = |m: Node| unowned(m);
        let g = |m: Node| owner_violation(m);
        if unowned(ms.last()) {
            assert(ms.filter(f) == ms.drop_last().filter(f).push(ms.last()));
            assert(ms.filter(f).map_values(g) =~= ms.drop_last().filter(f).map_values(g).push(
                owner_violation(ms.last()),
            ));
        } else {
            assert(ms.filter(f) == ms.drop_last().filter(f));
        }
    }
}

proof fn lemma_column_count(m: Node, cols: Seq<(String, Column)>)
    ensures
        column_violations(m, cols).len() == cols.filter(|c: (String, Column)| badly_described(c)).len(),
    decreases cols.len(),
{
    reveal(Seq::filter);
    if cols.len() > 0 {
        lemma_column_count(m, cols.drop_last());
    }
}

/// The description policy gives each model one violation when it declares
/// no column, and otherwise one per badly described column; nothing else.
pub proof fn lemma_description_violation_count(ms: Seq<Node>)
    ensures
        description_violations(ms).len() == description_total(ms),
    decreases ms.len(),
{
    if ms.len() > 0 {
        lemma_description_violation_count(ms.drop_last());
        lemma_column_count(ms.last(), ms.last().columns@);
    }
}

} // verus!

verus! {

/// A column description passes exactly when, with surrounding whitespace
/// trimmed, it holds at least [`MIN_DESCRIPTION_LEN`] characters (no
/// placeholder is that long), and surrounding whitespace never changes the
/// verdict.
pub proof fn lemma_description_passes_iff_long_enough(desc: Seq<char>)
    ensures
        description_problem(desc) is None <==> text::trim(desc).len() >= MIN_DESCRIPTION_LEN,
        description_problem(text::trim(desc)) == description_problem(desc),
{
    text::lemma_trim_idempotent(desc);
}

} // verus!

verus! {

proof fn lemma_column_violations_point(m: Node, cols: Seq<(String, Column)>)
    ensures
        forall|j: int|
            0 <= j < column_violations(m, cols).len() ==> {
                let v = #[trigger] column_violations(m, cols)[j];
                &&& v.model == m.name@
                &&& v.file == m.original_file_path@
                &&& exists|k: int|
                    0 <= k < cols.len() && v.column == Some(cols[k].1.name@) && Some(v.message)
                        == description_problem(cols[k].1.description@)
            },
    decreases cols.len(),
{
    if cols.len() > 0 {
        lemma_column_violations_point(m, cols.drop_last());
        let rest = column_violations(m, cols.drop_last());
        let all = column_violations(m, cols);
        assert forall|j: int| 0 <= j < all.len() implies {
            let v = #[trigger] all[j];
            &&& v.model == m.name@
            &&& v.file == m.original_file_path@
            &&& exists|k: int|
                0 <= k < cols.len() && v.column == Some(cols[k].1.name@) && Some(v.message)
                    == description_problem(cols[k].1.description@)
        } by {
            if j < rest.len() {
                assert(all[j] == rest[j]);
                let v = rest[j];
                let k = choose|k: int|
                    0 <= k < cols.drop_last().len() && v.column == Some(cols.drop_last()[k].1.name@)
                        && Some(v.message) == description_problem(cols.drop_last()[k].1.description@);
                assert(cols.drop_last()[k] == cols[k]);
            } else {
                let k = cols.len() - 1;
                assert(cols.last() == cols[k]);
            }
        }
    }
}

/// Every violation of the description policy names its model and points at
/// the model's file (`original_file_path`, the path from the project root):
/// a model without columns gets exactly the "no columns" violation, with no
/// column; any other violation names one of the model's columns, with the
/// problem of that column's description as its message.
pub proof fn lemma_description_violations_point_at_models(ms: Seq<Node>)
    ensures
        forall|j: int|
            0 <= j < description_violations(ms).len() ==> exists|i: int|
                0 <= i < ms.len() && (#[trigger] description_violations(ms)[j]).model == ms[i].name@
                    && description_violations(ms)[j].file == ms[i].original_file_path@ && (match description_violations(
                    ms,
                )[j].column {
                    None => ms[i].columns@.len() == 0 && description_violations(ms)[j].message
                        == NO_COLUMNS@,
                    Some(c) => exists|k: int|
                        0 <= k < ms[i].columns@.len() && c == ms[i].columns@[k].1.name@ && Some(
                            description_violations(ms)[j].message,
                        ) == description_problem(ms[i].columns@[k].1.description@),
                }),
    decreases ms.len(),
{
    if ms.len() > 0 {
        lemma_description_violations_point_at_models(ms.drop_last());
        let m = ms.last();
        let l = ms.len() - 1;
        assert(m == ms[l]);
        let pre = description_violations(ms.drop_last());
        let own = model_description_violations(m);
        let all = description_violations(ms);
        assert(all == pre + own);
        lemma_column_violations_point(m, m.columns@);
        assert forall|j: int| 0 <= j < all.len() implies exists|i: int|
            0 <= i < ms.len() && (#[trigger] all[j]).model == ms[i].name@ && all[j].file
                == ms[i].original_file_path@ && (match all[j].column {
                None => ms[i].columns@.len() == 0 && all[j].message == NO_COLUMNS@,
                Some(c) => exists|k: int|
                    0 <= k < ms[i].columns@.len() && c == ms[i].columns@[k].1.name@ && Some(
                        all[j].message,
                    ) == description_problem(ms[i].columns@[k].1.description@),
            }) by {
            if j < pre.len() {
                assert(all[j] == pre[j]);
                let i = choose|i: int|
                    0 <= i < ms.drop_last().len() && (#[trigger] pre[j]).model == ms.drop_last()[i].name@
                        && pre[j].file == ms.drop_last()[i].original_file_path@ && (match pre[j].column {
                        None => ms.drop_last()[i].columns@.len() == 0 && pre[j].message == NO_COLUMNS@,
                        Some(c) => exists|k: int|
                            0 <= k < ms.drop_last()[i].columns@.len() && c == ms.drop_last()[i].columns@[k].1.name@
                                && Some(pre[j].message) == description_problem(
                                ms.drop_last()[i].columns@[k].1.description@,
                            ),
                    });
                assert(ms.drop_last()[i] == ms[i]);
            } else {
                let jj = j - pre.len();
                assert(all[j] == own[jj]);
                if m.columns@.len() == 0 {
                    assert(own[jj].column is None);
                } else {
                    assert(own == column_violations(m, m.columns@));
                    let v = own[jj];
                    let k = choose|k: int|
                        0 <= k < m.columns@.len() && v.column == Some(m.columns@[k].1.name@) && Some(
                            v.message,
                        ) == description_problem(m.columns@[k].1.description@);
                    assert(v.column is Some);
                }
            }
        }
    }
}

/// Every violation of the owner policy names a model without an owner and
/// points at that model's file, with no column and the missing-owner
/// message.
pub proof fn lemma_owner_violations_point_at_models(ms: Seq<Node>)
    ensures
        forall|j: int|
            0 <= j < owner_violations(ms).len() ==> exists|i: int|
                0 <= i < ms.len() && (#[trigger] owner_violations(ms)[j]).model == ms[i].name@
                    && owner_violations(ms)[j].file == ms[i].original_file_path@
                    && owner_violations(ms)[j].column is None && owner_violations(ms)[j].message
                    == OWNER_MISSING@ && manifest::owner_of(ms[i]) is None,
    decreases ms.len(),
{
    if ms.len() > 0 {
        lemma_owner_violations_point_at_models(ms.drop_last());
        let l = ms.len() - 1;
        assert(ms.last() == ms[l]);
        let pre = owner_violations(ms.drop_last());
        let all = owner_violations(ms);
        assert forall|j: int| 0 <= j < all.len() implies exists|i: int|
            0 <= i < ms.len() && (#[trigger] all[j]).model == ms[i].name@ && all[j].file
                == ms[i].original_file_path@ && all[j].column is None && all[j].message == OWNER_MISSING@
                && manifest::owner_of(ms[i]) is None by {
            if j < pre.len() {
                assert(all[j] == pre[j]);
                let i = choose|i: int|
                    0 <= i < ms.drop_last().len() && (#[trigger] pre[j]).model == ms.drop_last()[i].name@
                        && pre[j].file == ms.drop_last()[i].original_file_path@ && pre[j].column is None
                        && pre[j].message == OWNER_MISSING@ && manifest::owner_of(ms.drop_last()[i]) is None;
                assert(ms.drop_last()[i] == ms[i]);
            }
        }
    }
}

} // verus!
