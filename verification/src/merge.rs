//! Merge readiness as GitHub reports it, and the guarded merge command.
use vstd::prelude::*;

use crate::model::{PrLocator, ReviewDecision};
use crate::text::{decimal, decimal_text, reversed, text_eq, views};
use vstd::std_specs::convert::FromSpecImpl;

verus! {

/// Whether GitHub can merge the branch.
#[derive(Debug, Clone, PartialEq, Eq)]
pub enum Mergeability {
    Mergeable,
    Conflicting,
    /// A value this library does not know, kept as GitHub sent it.
    Unknown(String),
}

impl Mergeability {
    /// The text GitHub uses for this value.
    pub open spec fn text(&self) -> Seq<char> {
        match self {
            Mergeability::Mergeable => "MERGEABLE"@,
            Mergeability::Conflicting => "CONFLICTING"@,
            Mergeability::Unknown(value) => value@,
        }
    }

    /// The value that GitHub's text `value` stands for.
    pub open spec fn from_text(value: String) -> Self {
        if value@ == "MERGEABLE"@ {
            Mergeability::Mergeable
        } else if value@ == "CONFLICTING"@ {
            Mergeability::Conflicting
        } else {
            Mergeability::Unknown(value)
        }
    }

    /// The text GitHub uses for this value.
    pub fn as_str(&self) -> (r: &str)
        ensures
            r@ == self.text(),
    {
        match self {
            Mergeability::Mergeable => "MERGEABLE",
            Mergeability::Conflicting => "CONFLICTING",
            Mergeability::Unknown(value) => value.as_str(),
        }
    }
}

impl From<String> for Mergeability {
    fn from(value: String) -> (r: Self) {
        if text_eq(value.as_str(), "MERGEABLE") {
            Mergeability::Mergeable
        } else if text_eq(value.as_str(), "CONFLICTING") {
            Mergeability::Conflicting
        } else {
            Mergeability::Unknown(value)
        }
    }
}

impl FromSpecImpl<String> for Mergeability {
    open spec fn obeys_from_spec() -> bool {
        true
    }

    open spec fn from_spec(v: String) -> Self {
        Mergeability::from_text(v)
    }
}

/// GitHub's merge state status of a pull request.
#[derive(Debug, Clone, PartialEq, Eq)]
pub enum MergeState {
    Behind,
    Blocked,
    Clean,
    Dirty,
    Draft,
    HasHooks,
    Unstable,
    /// A value this library does not know, kept as GitHub sent it.
    Unknown(String),
}

impl MergeState {
    /// The text GitHub uses for this value.
    pub open spec fn text(&self) -> Seq<char> {
        match self {
            MergeState::Behind => "BEHIND"@,
            MergeState::Blocked => "BLOCKED"@,
            MergeState::Clean => "CLEAN"@,
            MergeState::Dirty => "DIRTY"@,
            MergeState::Draft => "DRAFT"@,
            MergeState::HasHooks => "HAS_HOOKS"@,
            MergeState::Unstable => "UNSTABLE"@,
            MergeState::Unknown(value) => value@,
        }
    }

    /// The value that GitHub's text `value` stands for.
    pub open spec fn from_text(value: String) -> Self {
        if value@ == "BEHIND"@ {
            MergeState::Behind
        } else if value@ == "BLOCKED"@ {
            MergeState::Blocked
        } else if value@ == "CLEAN"@ {
            MergeState::Clean
        } else if value@ == "DIRTY"@ {
            MergeState::Dirty
        } else if value@ == "DRAFT"@ {
            MergeState::Draft
        } else if value@ == "HAS_HOOKS"@ {
            MergeState::HasHooks
        } else if value@ == "UNSTABLE"@ {
            MergeState::Unstable
        } else {
            MergeState::Unknown(value)
        }
    }

    /// The text GitHub uses for this value.
    pub fn as_str(&self) -> (r: &str)
        ensures
            r@ == self.text(),
    {
        match self {
            MergeState::Behind => "BEHIND",
            MergeState::Blocked => "BLOCKED",
            MergeState::Clean => "CLEAN",
            MergeState::Dirty => "DIRTY",
            MergeState::Draft => "DRAFT",
            MergeState::HasHooks => "HAS_HOOKS",
            MergeState::Unstable => "UNSTABLE",
            MergeState::Unknown(value) => value.as_str(),
        }
    }
}

impl From<String> for MergeState {
    fn from(value: String) -> (r: Self) {
        if text_eq(value.as_str(), "BEHIND") {
            MergeState::Behind
        } else if text_eq(value.as_str(), "BLOCKED") {
            MergeState::Blocked
        } else if text_eq(value.as_str(), "CLEAN") {
            MergeState::Clean
        } else if text_eq(value.as_str(), "DIRTY") {
            MergeState::Dirty
        } else if text_eq(value.as_str(), "DRAFT") {
            MergeState::Draft
        } else if text_eq(value.as_str(), "HAS_HOOKS") {
            MergeState::HasHooks
        } else if text_eq(value.as_str(), "UNSTABLE") {
            MergeState::Unstable
        } else {
            MergeState::Unknown(value)
        }
    }
}

impl FromSpecImpl<String> for MergeState {
    open spec fn obeys_from_spec() -> bool {
        true
    }

    open spec fn from_spec(v: String) -> Self {
        MergeState::from_text(v)
    }
}

/// How one status check stands.
#[derive(Debug, Clone, Copy, PartialEq, Eq, Structural)]
pub enum CheckState {
    Passing,
    Pending,
    Failing,
    Unknown,
}

/// A status check by name.
#[derive(Debug, Clone, PartialEq, Eq)]
pub struct CheckSummary {
    pub name: String,
    pub state: CheckState,
}

/// What GitHub reports of whether a pull request can merge.
#[derive(Debug, Clone)]
pub struct MergeAssessment {
    pub is_draft: bool,
    pub mergeability: Mergeability,
    pub merge_state: MergeState,
    pub review_decision: ReviewDecision,
    pub head_oid: String,
    pub checks: Vec<CheckSummary>,
}

/// The checks in `state`, in order.
pub open spec fn checks_in_state(checks: Seq<CheckSummary>, state: CheckState) -> Seq<CheckSummary> {
    checks.filter(|c: CheckSummary| c.state == state)
}

impl MergeAssessment {
    /// A merge may be attempted when the pull request is approved and its
    /// head commit is known (the merge is guarded by that commit).
    pub open spec fn may_attempt(&self) -> bool {
        self.review_decision is Approved && self.head_oid@.len() > 0
    }

    /// Whether a merge may be attempted.
    pub fn can_attempt(&self) -> (r: bool)
        ensures
            r == self.may_attempt(),
    {
        matches!(self.review_decision, ReviewDecision::Approved) && !self.head_oid.as_str().is_empty()
    }

    /// The checks in `state`, in order.
    pub fn checks_with(&self, state: CheckState) -> (r: Vec<CheckSummary>)
        ensures
            r@ == checks_in_state(self.checks@, state),
    {
        let ghost pred = |c: CheckSummary| c.state == state;
        let mut r: Vec<CheckSummary> = Vec::new();
        let mut i: usize = 0;
        assert(self.checks@.take(0).filter(pred) == Seq::<CheckSummary>::empty()) by {
            reveal(Seq::filter);
        }
        while i < self.checks.len()
            invariant
                0 <= i <= self.checks@.len(),
                r@ == self.checks@.take(i as int).filter(pred),
                pred == (|c: CheckSummary| c.state == state),
            decreases self.checks@.len() - i,
        {
            let c = &self.checks[i];
            let ghost t = self.checks@.take(i + 1);
            assert(t.drop_last() == self.checks@.take(i as int));
            assert(t.last() == *c);
            assert(t.filter(pred) == (if pred(*c) {
                self.checks@.take(i as int).filter(pred).push(*c)
            } else {
                self.checks@.take(i as int).filter(pred)
            })) by {
                reveal(Seq::filter);
            }
            if c.state == state {
                r.push(CheckSummary { name: c.name.clone(), state: c.state });
            }
            i = i + 1;
        }
        assert(self.checks@.take(i as int) == self.checks@);
        r
    }
}

/// One entry of GitHub's status check rollup, in either of its shapes.
pub enum RawCheck {
    CheckRun { name: String, status: String, conclusion: Option<String> },
    StatusContext { context: String, state: String },
    Unknown,
}

/// GitHub's merge assessment fields as `gh pr view --json` reports them.
pub struct RawAssessment {
    pub is_draft: bool,
    pub mergeable: String,
    pub merge_state_status: String,
    pub review_decision: ReviewDecision,
    pub head_ref_oid: String,
    pub status_check_rollup: Vec<RawCheck>,
}

/// The state of a check run: pending until completed, then passing when it
/// concluded with success, neutral or skipped, else failing.
pub open spec fn run_state(status: Seq<char>, conclusion: Option<Seq<char>>) -> CheckState {
    if status != "COMPLETED"@ {
        CheckState::Pending
    } else if conclusion matches Some(c) && (c == "SUCCESS"@ || c == "NEUTRAL"@ || c == "SKIPPED"@) {
        CheckState::Passing
    } else {
        CheckState::Failing
    }
}

/// The state of a commit status context.
pub open spec fn context_state(state: Seq<char>) -> CheckState {
    if state == "SUCCESS"@ {
        CheckState::Passing
    } else if state == "PENDING"@ || state == "EXPECTED"@ {
        CheckState::Pending
    } else if state == "ERROR"@ || state == "FAILURE"@ {
        CheckState::Failing
    } else {
        CheckState::Unknown
    }
}

/// The name a raw check is shown by.
pub open spec fn raw_check_name(check: RawCheck) -> Seq<char> {
    match check {
        RawCheck::CheckRun { name, .. } => name@,
        RawCheck::StatusContext { context, .. } => context@,
        RawCheck::Unknown => "unknown check"@,
    }
}

/// The state a raw check is summarised to.
pub open spec fn raw_check_state(check: RawCheck) -> CheckState {
    match check {
        RawCheck::CheckRun { status, conclusion, .. } => run_state(
            status@,
            match conclusion {
                Some(c) => Some(c@),
                None => None,
            },
        ),
        RawCheck::StatusContext { state, .. } => context_state(state@),
        RawCheck::Unknown => CheckState::Unknown,
    }
}

/// Summarises one raw check.
pub fn summarize_check(check: RawCheck) -> (r: CheckSummary)
    ensures
        r.name@ == raw_check_name(check),
        r.state == raw_check_state(check),
{
    match check {
        RawCheck::CheckRun { name, status, conclusion } => {
            let state = if !text_eq(status.as_str(), "COMPLETED") {
                CheckState::Pending
            } else {
                match &conclusion {
                    Some(c) => {
                        if text_eq(c.as_str(), "SUCCESS") || text_eq(c.as_str(), "NEUTRAL")
                            || text_eq(c.as_str(), "SKIPPED") {
                            CheckState::Passing
                        } else {
                            CheckState::Failing
                        }
                    },
                    None => CheckState::Failing,
                }
            };
            CheckSummary { name, state }
        },
        RawCheck::StatusContext { context, state } => {
            let s = state.as_str();
            let state = if text_eq(s, "SUCCESS") {
                CheckState::Passing
            } else if text_eq(s, "PENDING") || text_eq(s, "EXPECTED") {
                CheckState::Pending
            } else if text_eq(s, "ERROR") || text_eq(s, "FAILURE") {
                CheckState::Failing
            } else {
                CheckState::Unknown
            };
            CheckSummary { name: context, state }
        },
        RawCheck::Unknown => CheckSummary { name: "unknown check".to_owned(), state: CheckState::Unknown },
    }
}

/// Turns GitHub's raw report into an assessment: the remote texts become
/// typed values (unknown ones kept as sent) and each check is summarised,
/// in order.
pub fn normalize(raw: RawAssessment) -> (r: MergeAssessment)
    ensures
        r.is_draft == raw.is_draft,
        r.mergeability == Mergeability::from_text(raw.mergeable),
        r.merge_state == MergeState::from_text(raw.merge_state_status),
        r.review_decision == raw.review_decision,
        r.head_oid == raw.head_ref_oid,
        r.checks@.len() == raw.status_check_rollup@.len(),
        forall|i: int|
            0 <= i < r.checks@.len() ==> (#[trigger] r.checks@[i]).name@ == raw_check_name(
                raw.status_check_rollup@[i],
            ) && r.checks@[i].state == raw_check_state(raw.status_check_rollup@[i]),
{
    let RawAssessment {
        is_draft,
        mergeable,
        merge_state_status,
        review_decision,
        head_ref_oid,
        status_check_rollup,
    } = raw;
    let ghost src = status_check_rollup@;
    let mut rest = reversed(status_check_rollup);
    assert(rest@ =~= src.reverse().take(rest@.len() as int));
    let mut checks: Vec<CheckSummary> = Vec::new();
    while rest.len() > 0
        invariant
            checks@.len() + rest@.len() == src.len(),
            rest@ == src.reverse().take(rest@.len() as int),
            forall|i: int|
                0 <= i < checks@.len() ==> (#[trigger] checks@[i]).name@ == raw_check_name(src[i])
                    && checks@[i].state == raw_check_state(src[i]),
        decreases rest@.len(),
    {
        let ghost k = checks@.len() as int;
        let check = rest.pop().unwrap();
        assert(check == src.reverse()[rest@.len() as int]);
        assert(check == src[k]);
        checks.push(summarize_check(check));
        assert(rest@ =~= src.reverse().take(rest@.len() as int));
    }
    MergeAssessment {
        is_draft,
        mergeability: Mergeability::from(mergeable),
        merge_state: MergeState::from(merge_state_status),
        review_decision,
        head_oid: head_ref_oid,
        checks,
    }
}

/// How a pull request is merged.
#[derive(Debug, Clone, Copy, PartialEq, Eq, Structural)]
pub enum MergeMethod {
    Merge,
    Squash,
    Rebase,
}

impl MergeMethod {
    /// The `gh pr merge` flag for this method.
    pub open spec fn flag_text(self) -> Seq<char> {
        match self {
            MergeMethod::Merge => "--merge"@,
            MergeMethod::Squash => "--squash"@,
            MergeMethod::Rebase => "--rebase"@,
        }
    }

    /// The `gh pr merge` flag for this method.
    pub fn flag(self) -> (r: &'static str)
        ensures
            r@ == self.flag_text(),
    {
        match self {
            MergeMethod::Merge => "--merge",
            MergeMethod::Squash => "--squash",
            MergeMethod::Rebase => "--rebase",
        }
    }
}

/// The arguments of `gh pr merge` for `loc`, guarded by `head_oid`: GitHub
/// refuses the merge when the head has moved past that commit.
pub open spec fn merge_command(loc: PrLocator, method: MergeMethod, delete_branch: bool, head_oid: Seq<char>) -> Seq<Seq<char>> {
    let base = seq![
        "pr"@,
        "merge"@,
        decimal(loc.number as nat),
        "--repo"@,
        loc.slug(),
        method.flag_text(),
        "--match-head-commit"@,
        head_oid,
    ];
    if delete_branch {
        base.push("--delete-branch"@)
    } else {
        base
    }
}

/// The arguments of the guarded `gh pr merge` call.
pub fn merge_args(loc: &PrLocator, method: MergeMethod, delete_branch: bool, head_oid: &str) -> (args: Vec<String>)
    ensures
        views(args@) == merge_command(*loc, method, delete_branch, head_oid@),
{
    let mut args: Vec<String> = Vec::new();
    args.push("pr".to_owned());
    args.push("merge".to_owned());
    args.push(decimal_text(loc.number));
    args.push("--repo".to_owned());
    args.push(loc.repo_slug());
    args.push(method.flag().to_owned());
    args.push("--match-head-commit".to_owned());
    args.push(head_oid.to_owned());
    if delete_branch {
        args.push("--delete-branch".to_owned());
    }
    assert(views(args@) =~= merge_command(*loc, method, delete_branch, head_oid@));
    args
}

/// The arguments of `gh pr view` that fetch the merge assessment of `loc`.
pub fn fetch_merge_assessment(loc: &PrLocator) -> (args: Vec<String>)
    ensures
        views(args@) == seq![
            "pr"@,
            "view"@,
            decimal(loc.number as nat),
            "--repo"@,
            loc.slug(),
            "--json"@,
            "isDraft,mergeable,mergeStateStatus,reviewDecision,headRefOid,statusCheckRollup"@,
        ],
{
    let mut args: Vec<String> = Vec::new();
    args.push("pr".to_owned());
    args.push("view".to_owned());
    args.push(decimal_text(loc.number));
    args.push("--repo".to_owned());
    args.push(loc.repo_slug());
    args.push("--json".to_owned());
    args.push("isDraft,mergeable,mergeStateStatus,reviewDecision,headRefOid,statusCheckRollup".to_owned());
    assert(views(args@) =~= seq![
        "pr"@,
        "view"@,
        decimal(loc.number as nat),
        "--repo"@,
        loc.slug(),
        "--json"@,
        "isDraft,mergeable,mergeStateStatus,reviewDecision,headRefOid,statusCheckRollup"@,
    ]);
    args
}

} // verus!
