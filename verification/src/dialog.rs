//! The merge dialog: which assessment it shows, when a merge may be
//! submitted, and what a failed submission leaves.
use vstd::prelude::*;

use crate::merge::{
    CheckState, CheckSummary, MergeAssessment, MergeMethod, MergeState, Mergeability,
};
use crate::model::{PrMeta, ReviewDecision};
use crate::text::{decimal, lowercase, push_char, push_decimal, to_lowercase};

verus! {

/// `a` and `b` report the same: the same fields and the same checks.
pub open spec fn same_assessment(a: MergeAssessment, b: MergeAssessment) -> bool {
    &&& a.is_draft == b.is_draft
    &&& a.mergeability == b.mergeability
    &&& a.merge_state == b.merge_state
    &&& a.review_decision == b.review_decision
    &&& a.head_oid == b.head_oid
    &&& a.checks@ == b.checks@
}

impl Mergeability {
    /// An equal copy.
    pub fn duplicate(&self) -> (r: Self)
        ensures
            r == *self,
    {
        match self {
            Mergeability::Mergeable => Mergeability::Mergeable,
            Mergeability::Conflicting => Mergeability::Conflicting,
            Mergeability::Unknown(v) => Mergeability::Unknown(v.clone()),
        }
    }
}

impl MergeState {
    /// An equal copy.
    pub fn duplicate(&self) -> (r: Self)
        ensures
            r == *self,
    {
        match self {
            MergeState::Behind => MergeState::Behind,
            MergeState::Blocked => MergeState::Blocked,
            MergeState::Clean => MergeState::Clean,
            MergeState::Dirty => MergeState::Dirty,
            MergeState::Draft => MergeState::Draft,
            MergeState::HasHooks => MergeState::HasHooks,
            MergeState::Unstable => MergeState::Unstable,
            MergeState::Unknown(v) => MergeState::Unknown(v.clone()),
        }
    }
}

impl ReviewDecision {
    /// An equal copy.
    pub fn duplicate(&self) -> (r: Self)
        ensures
            r == *self,
    {
        match self {
            ReviewDecision::Approved => ReviewDecision::Approved,
            ReviewDecision::ChangesRequested => ReviewDecision::ChangesRequested,
            ReviewDecision::ReviewRequired => ReviewDecision::ReviewRequired,
            ReviewDecision::Unknown(v) => ReviewDecision::Unknown(v.clone()),
        }
    }
}

impl MergeAssessment {
    /// A copy that reports the same.
    pub fn duplicate(&self) -> (r: Self)
        ensures
            same_assessment(r, *self),
    {
        let mut checks: Vec<CheckSummary> = Vec::new();
        let mut i: usize = 0;
        while i < self.checks.len()
            invariant
                0 <= i <= self.checks@.len(),
                checks@ == self.checks@.take(i as int),
            decreases self.checks@.len() - i,
        {
            let c = &self.checks[i];
            checks.push(CheckSummary { name: c.name.clone(), state: c.state });
            assert(checks@ =~= self.checks@.take(i + 1));
            i = i + 1;
        }
        assert(self.checks@.take(i as int) == self.checks@);
        MergeAssessment {
            is_draft: self.is_draft,
            mergeability: self.mergeability.duplicate(),
            merge_state: self.merge_state.duplicate(),
            review_decision: self.review_decision.duplicate(),
            head_oid: self.head_oid.clone(),
            checks,
        }
    }
}

/// Where the merge dialog stands.
pub enum MergePhase {
    /// Waiting for the assessment of request `request`.
    Checking { request: u64 },
    /// Showing an assessment, with the error of a failed submission if any.
    Assessed { assessment: MergeAssessment, error: Option<String> },
    /// A merge of this assessment is being submitted.
    Submitting { assessment: MergeAssessment },
    /// The assessment could not be fetched.
    Failed { message: String },
}

/// The merge dialog of one open item.
pub struct MergeDialog {
    pub item_id: u64,
    pub method: MergeMethod,
    pub delete_branch: bool,
    pub phase: MergePhase,
}

/// The dialog's settings are the same in `a` and `b`.
pub open spec fn same_settings(a: MergeDialog, b: MergeDialog) -> bool {
    a.item_id == b.item_id && a.method == b.method && a.delete_branch == b.delete_branch
}

/// `new` is `old` after the answer `result` to assessment request `request`
/// came, `taken` saying whether the dialog was waiting for it.
pub open spec fn assessment_applied(
    old: MergeDialog,
    new: MergeDialog,
    request: u64,
    result: Result<MergeAssessment, String>,
    taken: bool,
) -> bool {
    &&& taken == (old.phase matches MergePhase::Checking { request: active } && active == request)
    &&& !taken ==> new == old
    &&& taken ==> match result {
        Ok(assessment) => new.phase == (MergePhase::Assessed { assessment, error: None }),
        Err(message) => new.phase == (MergePhase::Failed { message }),
    }
    &&& same_settings(old, new)
}

/// `new` is `old` after a submission was asked for, `r` what came back.
pub open spec fn submit_begun(
    old: MergeDialog,
    new: MergeDialog,
    r: Option<(MergeAssessment, MergeMethod, bool)>,
) -> bool {
    &&& match old.phase {
        MergePhase::Assessed { assessment, .. } if assessment.may_attempt() => {
            &&& r matches Some((a, method, delete_branch)) && same_assessment(a, assessment) && method
                == old.method && delete_branch == old.delete_branch
            &&& new.phase matches MergePhase::Submitting { assessment: s } && same_assessment(
                s,
                assessment,
            )
        },
        _ => r is None && new == old,
    }
    &&& same_settings(old, new)
}

/// `new` is `old` after a submission failed with `message`.
pub open spec fn submit_failed_to(old: MergeDialog, new: MergeDialog, message: String) -> bool {
    &&& match old.phase {
        MergePhase::Submitting { assessment } => new.phase == (MergePhase::Assessed {
            assessment,
            error: Some(message),
        }),
        _ => new.phase == old.phase,
    }
    &&& same_settings(old, new)
}

impl MergeDialog {
    /// A dialog for item `item_id`, waiting for assessment request `request`,
    /// set to squash and keep the branch.
    pub fn new(item_id: u64, request: u64) -> (d: Self)
        ensures
            d.item_id == item_id,
            d.method == MergeMethod::Squash,
            !d.delete_branch,
            d.phase == (MergePhase::Checking { request }),
    {
        MergeDialog {
            item_id,
            method: MergeMethod::Squash,
            delete_branch: false,
            phase: MergePhase::Checking { request },
        }
    }

    /// Takes the answer to assessment request `request`. Only the request the
    /// dialog waits for is taken (any other answer is dropped and `false`
    /// comes back): an assessment is shown, an error ends in `Failed`.
    pub fn apply_assessment(&mut self, request: u64, result: Result<MergeAssessment, String>) -> (taken: bool)
        ensures
            assessment_applied(*old(self), *final(self), request, result, taken),
    {
        let waiting = match &self.phase {
            MergePhase::Checking { request: active } => *active == request,
            _ => false,
        };
        if !waiting {
            return false;
        }
        self.phase = match result {
            Ok(assessment) => MergePhase::Assessed { assessment, error: None },
            Err(message) => MergePhase::Failed { message },
        };
        true
    }

    /// Starts submitting the merge: possible only from an assessment that
    /// allows an attempt (approved, head known). It returns that assessment
    /// with the chosen method and branch deletion, and the dialog shows the
    /// submission.
    pub fn begin_submit(&mut self) -> (r: Option<(MergeAssessment, MergeMethod, bool)>)
        ensures
            submit_begun(*old(self), *final(self), r),
    {
        let values = match &self.phase {
            MergePhase::Assessed { assessment, .. } => {
                if !assessment.can_attempt() {
                    return None;
                }
                (assessment.duplicate(), assessment.duplicate())
            },
            _ => {
                return None;
            },
        };
        let (returned, kept) = values;
        self.phase = MergePhase::Submitting { assessment: kept };
        Some((returned, self.method, self.delete_branch))
    }

    /// A submission failed with `message`: the dialog shows the assessment
    /// again, with the message, so the merge can be retried. Outside a
    /// submission nothing changes.
    pub fn submit_failed(&mut self, message: String)
        ensures
            submit_failed_to(*old(self), *final(self), message),
    {
        let mut phase = MergePhase::Checking { request: 0 };
        core::mem::swap(&mut phase, &mut self.phase);
        self.phase = match phase {
            MergePhase::Submitting { assessment } => MergePhase::Assessed { assessment, error: Some(message) },
            other => other,
        };
    }

    /// Whether a merge is being submitted.
    pub fn is_submitting(&self) -> (r: bool)
        ensures
            r == (self.phase is Submitting),
    {
        match self.phase {
            MergePhase::Submitting { .. } => true,
            _ => false,
        }
    }
}

/// Whether a check passed.
pub open spec fn passed(c: CheckSummary) -> bool {
    c.state == CheckState::Passing
}

/// The checks that did not pass, in order.
pub open spec fn unpassed(checks: Seq<CheckSummary>) -> Seq<CheckSummary> {
    checks.filter(|c: CheckSummary| !passed(c))
}

/// How many checks passed.
pub open spec fn passed_count(checks: Seq<CheckSummary>) -> nat {
    checks.filter(|c: CheckSummary| passed(c)).len()
}

/// The most checks that are not passing the dialog lists.
pub const LISTED_PROBLEMS: usize = 8;

/// What the dialog's status area shows of an assessment.
pub struct MergeStatus {
    /// `"GitHub state: {state} · mergeability: {mergeability} · {n} checks passed"`,
    /// the two states in lower case.
    pub headline: String,
    /// Whether GitHub calls the merge state clean (the headline is then green).
    pub clean: bool,
    /// The first checks that did not pass, at most `LISTED_PROBLEMS`.
    pub problems: Vec<CheckSummary>,
    /// Whether to add that GitHub decides when the merge is submitted: the
    /// state is neither clean nor "has hooks".
    pub policy_note: bool,
}

/// The headline of a status: the merge state and mergeability as given
/// (lower-cased), and how many checks passed.
pub open spec fn headline_line(state: Seq<char>, mergeability: Seq<char>, passed: nat) -> Seq<char> {
    "GitHub state: "@ + state + " · mergeability: "@ + mergeability + " · "@ + decimal(passed)
        + " checks passed"@
}

/// The headline of an assessment's status.
pub open spec fn headline(a: MergeAssessment) -> Seq<char> {
    headline_line(lowercase(a.merge_state.text()), lowercase(a.mergeability.text()), passed_count(a.checks@))
}

/// The headline for a lower-cased merge state and mergeability and the
/// number of passed checks.
pub fn status_headline(state: &str, mergeability: &str, passed: u64) -> (r: String)
    ensures
        r@ == headline_line(state@, mergeability@, passed as nat),
{
    let mut headline = String::new();
    headline.append("GitHub state: ");
    headline.append(state);
    headline.append(" · mergeability: ");
    headline.append(mergeability);
    headline.append(" · ");
    push_decimal(&mut headline, passed);
    headline.append(" checks passed");
    headline
}

/// `status` is what the status area shows of `a`: the headline, whether the
/// state is clean, the first checks that did not pass (at most
/// `LISTED_PROBLEMS`), and whether GitHub's policy note applies.
pub open spec fn is_status_of(status: MergeStatus, a: MergeAssessment) -> bool {
    &&& status.headline@ == headline(a)
    &&& status.clean == (a.merge_state is Clean)
    &&& status.problems@ == unpassed(a.checks@).take(
        if unpassed(a.checks@).len() < LISTED_PROBLEMS {
            unpassed(a.checks@).len() as int
        } else {
            LISTED_PROBLEMS as int
        },
    )
    &&& status.policy_note == !(a.merge_state is Clean || a.merge_state is HasHooks)
}

/// What the status area shows of `a`.
pub fn merge_status(a: &MergeAssessment) -> (r: MergeStatus)
    ensures
        is_status_of(r, *a),
{
    let ghost good = |c: CheckSummary| passed(c);
    let ghost bad = |c: CheckSummary| !passed(c);
    let ghost checks = a.checks@;
    let mut passing: u64 = 0;
    let mut problems: Vec<CheckSummary> = Vec::new();
    let mut all_bad: usize = 0;
    let mut i: usize = 0;
    assert(checks.take(0).filter(good) == Seq::<CheckSummary>::empty()) by {
        reveal(Seq::filter);
    }
    assert(checks.take(0).filter(bad) == Seq::<CheckSummary>::empty()) by {
        reveal(Seq::filter);
    }
    while i < a.checks.len()
        invariant
            0 <= i <= checks.len(),
            checks == a.checks@,
            good == (|c: CheckSummary| passed(c)),
            bad == (|c: CheckSummary| !passed(c)),
            passing as nat == checks.take(i as int).filter(good).len(),
            passing <= i,
            all_bad as nat == checks.take(i as int).filter(bad).len(),
            problems@ == checks.take(i as int).filter(bad).take(
                if all_bad < LISTED_PROBLEMS { all_bad as int } else { LISTED_PROBLEMS as int },
            ),
            all_bad <= i,
        decreases checks.len() - i,
    {
        let c = &a.checks[i];
        let ghost t = checks.take(i + 1);
        assert(t.drop_last() == checks.take(i as int));
        assert(t.last() == *c);
        assert(t.filter(good) == (if good(*c) {
            checks.take(i as int).filter(good).push(*c)
        } else {
            checks.take(i as int).filter(good)
        })) by {
            reveal(Seq::filter);
        }
        assert(t.filter(bad) == (if bad(*c) {
            checks.take(i as int).filter(bad).push(*c)
        } else {
            checks.take(i as int).filter(bad)
        })) by {
            reveal(Seq::filter);
        }
        if c.state == CheckState::Passing {
            passing = passing + 1;
        } else {
            if all_bad < LISTED_PROBLEMS {
                problems.push(CheckSummary { name: c.name.clone(), state: c.state });
            }
            all_bad = all_bad + 1;
        }
        assert(problems@ =~= t.filter(bad).take(
            if all_bad < LISTED_PROBLEMS { all_bad as int } else { LISTED_PROBLEMS as int },
        ));
        i = i + 1;
    }
    assert(checks.take(i as int) == checks);
    let state = to_lowercase(a.merge_state.as_str());
    let mergeability = to_lowercase(a.mergeability.as_str());
    let headline = status_headline(state.as_str(), mergeability.as_str(), passing);
    let clean = match a.merge_state {
        MergeState::Clean => true,
        _ => false,
    };
    let hooks = match a.merge_state {
        MergeState::HasHooks => true,
        _ => false,
    };
    MergeStatus { headline, clean, problems, policy_note: !(clean || hooks) }
}

/// The label of a check that did not pass.
pub open spec fn problem_label(state: CheckState) -> Seq<char> {
    match state {
        CheckState::Failing => "failed"@,
        CheckState::Pending => "waiting"@,
        _ => "unknown"@,
    }
}

/// The line shown for a check that did not pass: `"{label}: {name}"`.
pub fn problem_line(check: &CheckSummary) -> (r: String)
    ensures
        r@ == problem_label(check.state) + ": "@ + check.name@,
{
    let mut r = String::new();
    let label = match check.state {
        CheckState::Failing => "failed",
        CheckState::Pending => "waiting",
        _ => "unknown",
    };
    r.append(label);
    r.append(": ");
    r.append(check.name.as_str());
    r
}

impl MergeDialog {
    /// Whether the confirm button is enabled: an assessment is shown that
    /// allows an attempt, and no submission is running.
    pub fn confirm_enabled(&self) -> (r: bool)
        ensures
            r == (self.phase matches MergePhase::Assessed { assessment, .. } && assessment.may_attempt()),
    {
        match &self.phase {
            MergePhase::Assessed { assessment, .. } => assessment.can_attempt(),
            _ => false,
        }
    }

    /// The error of the last failed submission, while its assessment is shown.
    pub fn shown_error(&self) -> (r: Option<String>)
        ensures
            match self.phase {
                MergePhase::Assessed { error, .. } => r == error,
                _ => r is None,
            },
    {
        match &self.phase {
            MergePhase::Assessed { error, .. } => match error {
                Some(e) => Some(e.clone()),
                None => None,
            },
            _ => None,
        }
    }
}

impl MergeDialog {
    /// Chooses how the pull request will be merged.
    pub fn select_method(&mut self, method: MergeMethod)
        ensures
            final(self).method == method,
            final(self).item_id == old(self).item_id,
            final(self).delete_branch == old(self).delete_branch,
            final(self).phase == old(self).phase,
    {
        self.method = method;
    }

    /// Flips whether the branch is deleted after the merge.
    pub fn toggle_delete_branch(&mut self)
        ensures
            final(self).delete_branch == !old(self).delete_branch,
            final(self).item_id == old(self).item_id,
            final(self).method == old(self).method,
            final(self).phase == old(self).phase,
    {
        self.delete_branch = !self.delete_branch;
    }
}

/// What the dialog's status area shows.
pub enum DialogStatus {
    /// The assessment is being fetched.
    Checking,
    /// The assessment could not be fetched; the message says why.
    Failed(String),
    /// The status of the assessment shown (also while it is submitted).
    Assessed(MergeStatus),
}

impl MergeDialog {
    /// The status area: a spinner while checking, the failure, or the
    /// status of the assessment being shown or submitted.
    pub fn status(&self) -> (r: DialogStatus)
        ensures
            match self.phase {
                MergePhase::Checking { .. } => r is Checking,
                MergePhase::Failed { message } => r == DialogStatus::Failed(message),
                MergePhase::Assessed { assessment, .. } | MergePhase::Submitting { assessment } => (r matches DialogStatus::Assessed(status)
                    && is_status_of(status, assessment)),
            },
    {
        match &self.phase {
            MergePhase::Checking { .. } => DialogStatus::Checking,
            MergePhase::Failed { message } => DialogStatus::Failed(message.clone()),
            MergePhase::Assessed { assessment, .. } => DialogStatus::Assessed(merge_status(assessment)),
            MergePhase::Submitting { assessment } => DialogStatus::Assessed(merge_status(assessment)),
        }
    }
}

/// The dialog's heading: `"#{number} {title}"`.
pub fn pr_heading(meta: &PrMeta) -> (r: String)
    ensures
        r@ == seq!['#'] + decimal(meta.number as nat) + seq![' '] + meta.title@,
{
    let mut r = String::new();
    push_char(&mut r, '#');
    push_decimal(&mut r, meta.number);
    push_char(&mut r, ' ');
    r.append(meta.title.as_str());
    r
}

/// The branches being merged: `"{head} → {base}"`.
pub fn branch_flow(meta: &PrMeta) -> (r: String)
    ensures
        r@ == meta.head_ref_name@ + " → "@ + meta.base_ref_name@,
{
    let mut r = String::new();
    r.append(meta.head_ref_name.as_str());
    r.append(" → ");
    r.append(meta.base_ref_name.as_str());
    r
}

} // verus!
