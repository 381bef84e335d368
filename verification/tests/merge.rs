use ghreview::merge::{
    fetch_merge_assessment, merge_args, normalize, summarize_check, CheckState, CheckSummary,
    MergeAssessment, MergeMethod, MergeState, Mergeability, RawAssessment, RawCheck,
};
use ghreview::model::{PrLocator, ReviewDecision};

fn parse(state: &str, decision: &str, checks: Vec<RawCheck>) -> MergeAssessment {
    normalize(RawAssessment {
        is_draft: false,
        mergeable: "MERGEABLE".to_string(),
        merge_state_status: state.to_string(),
        review_decision: ReviewDecision::from(decision.to_string()),
        head_ref_oid: "abc".to_string(),
        status_check_rollup: checks,
    })
}

fn check_run(name: &str, status: &str, conclusion: Option<&str>) -> RawCheck {
    RawCheck::CheckRun {
        name: name.to_string(),
        status: status.to_string(),
        conclusion: conclusion.map(|c| c.to_string()),
    }
}

fn status_context(context: &str, state: &str) -> RawCheck {
    RawCheck::StatusContext { context: context.to_string(), state: state.to_string() }
}

fn locator_a_r(number: u64) -> PrLocator {
    PrLocator { owner: "a".into(), repo: "r".into(), number }
}

#[test]
fn parses_every_documented_merge_state() {
    for (raw, expected) in [
        ("BEHIND", MergeState::Behind),
        ("BLOCKED", MergeState::Blocked),
        ("CLEAN", MergeState::Clean),
        ("DIRTY", MergeState::Dirty),
        ("DRAFT", MergeState::Draft),
        ("HAS_HOOKS", MergeState::HasHooks),
        ("UNSTABLE", MergeState::Unstable),
    ] {
        assert_eq!(parse(raw, "APPROVED", Vec::new()).merge_state, expected);
    }
    assert_eq!(
        parse("FUTURE", "APPROVED", Vec::new()).merge_state,
        MergeState::Unknown("FUTURE".into())
    );
}

#[test]
fn parses_both_check_shapes_without_values() {
    let status = parse(
        "BLOCKED",
        "APPROVED",
        vec![
            check_run("test", "COMPLETED", Some("SUCCESS")),
            status_context("deploy", "FAILURE"),
        ],
    );
    assert_eq!(status.checks[0].state, CheckState::Passing);
    assert_eq!(status.checks[1].state, CheckState::Failing);
    assert!(status.can_attempt());
}

#[test]
fn attempts_require_current_approval_and_head() {
    assert!(!parse("CLEAN", "CHANGES_REQUESTED", Vec::new()).can_attempt());
    let mut status = parse("CLEAN", "APPROVED", Vec::new());
    status.head_oid.clear();
    assert!(!status.can_attempt());
}

#[test]
fn arguments_keep_head_guard() {
    let loc = PrLocator { owner: "a".into(), repo: "r".into(), number: 8 };
    assert_eq!(
        merge_args(&loc, MergeMethod::Squash, true, "abc"),
        vec![
            "pr",
            "merge",
            "8",
            "--repo",
            "a/r",
            "--squash",
            "--match-head-commit",
            "abc",
            "--delete-branch"
        ]
    );
}

#[test]
fn merge_arguments_without_branch_deletion_end_at_the_head() {
    let loc = locator_a_r(120);
    assert_eq!(
        merge_args(&loc, MergeMethod::Merge, false, "f00d"),
        vec!["pr", "merge", "120", "--repo", "a/r", "--merge", "--match-head-commit", "f00d"]
    );
    assert_eq!(merge_args(&loc, MergeMethod::Rebase, false, "f00d")[5], "--rebase");
}

#[test]
fn merge_assessment_arguments_name_the_fields() {
    assert_eq!(
        fetch_merge_assessment(&locator_a_r(0)),
        vec![
            "pr",
            "view",
            "0",
            "--repo",
            "a/r",
            "--json",
            "isDraft,mergeable,mergeStateStatus,reviewDecision,headRefOid,statusCheckRollup"
        ]
    );
}

#[test]
fn check_runs_pass_only_on_completed_success_neutral_or_skipped() {
    let state = |status: &str, conclusion: Option<&str>| summarize_check(check_run("c", status, conclusion)).state;
    assert_eq!(state("IN_PROGRESS", Some("SUCCESS")), CheckState::Pending);
    assert_eq!(state("QUEUED", None), CheckState::Pending);
    assert_eq!(state("COMPLETED", Some("SUCCESS")), CheckState::Passing);
    assert_eq!(state("COMPLETED", Some("NEUTRAL")), CheckState::Passing);
    assert_eq!(state("COMPLETED", Some("SKIPPED")), CheckState::Passing);
    assert_eq!(state("COMPLETED", Some("FAILURE")), CheckState::Failing);
    assert_eq!(state("COMPLETED", Some("success")), CheckState::Failing);
    assert_eq!(state("COMPLETED", None), CheckState::Failing);
}

#[test]
fn status_contexts_map_every_state() {
    let state = |s: &str| summarize_check(status_context("ci", s)).state;
    assert_eq!(state("SUCCESS"), CheckState::Passing);
    assert_eq!(state("PENDING"), CheckState::Pending);
    assert_eq!(state("EXPECTED"), CheckState::Pending);
    assert_eq!(state("ERROR"), CheckState::Failing);
    assert_eq!(state("FAILURE"), CheckState::Failing);
    assert_eq!(state("WHATEVER"), CheckState::Unknown);
    assert_eq!(summarize_check(status_context("ci", "SUCCESS")).name, "ci");
}

#[test]
fn unknown_check_shapes_are_named_and_unknown() {
    let summary = summarize_check(RawCheck::Unknown);
    assert_eq!(summary, CheckSummary { name: "unknown check".into(), state: CheckState::Unknown });
}

#[test]
fn normalize_keeps_fields_and_check_order() {
    let status = normalize(RawAssessment {
        is_draft: true,
        mergeable: "CONFLICTING".to_string(),
        merge_state_status: "DIRTY".to_string(),
        review_decision: ReviewDecision::ReviewRequired,
        head_ref_oid: "deadbeef".to_string(),
        status_check_rollup: vec![
            status_context("first", "PENDING"),
            RawCheck::Unknown,
            check_run("third", "COMPLETED", Some("NEUTRAL")),
        ],
    });
    assert!(status.is_draft);
    assert_eq!(status.mergeability, Mergeability::Conflicting);
    assert_eq!(status.merge_state, MergeState::Dirty);
    assert_eq!(status.review_decision, ReviewDecision::ReviewRequired);
    assert_eq!(status.head_oid, "deadbeef");
    let names: Vec<&str> = status.checks.iter().map(|c| c.name.as_str()).collect();
    assert_eq!(names, vec!["first", "unknown check", "third"]);
    assert!(!status.can_attempt());
    let odd = normalize(RawAssessment {
        is_draft: false,
        mergeable: "UNKNOWN".to_string(),
        merge_state_status: "CLEAN".to_string(),
        review_decision: ReviewDecision::Approved,
        head_ref_oid: String::new(),
        status_check_rollup: Vec::new(),
    });
    assert_eq!(odd.mergeability, Mergeability::Unknown("UNKNOWN".into()));
}

#[test]
fn checks_with_selects_by_state_in_order() {
    let status = parse(
        "BLOCKED",
        "APPROVED",
        vec![
            status_context("a", "FAILURE"),
            status_context("b", "SUCCESS"),
            status_context("c", "ERROR"),
        ],
    );
    let failing: Vec<String> = status.checks_with(CheckState::Failing).into_iter().map(|c| c.name).collect();
    assert_eq!(failing, vec!["a", "c"]);
    assert_eq!(status.checks_with(CheckState::Pending).len(), 0);
    assert_eq!(status.checks_with(CheckState::Passing)[0].name, "b");
}

#[test]
fn remote_merge_texts_round_trip() {
    for text in ["MERGEABLE", "CONFLICTING", "UNKNOWN", ""] {
        assert_eq!(Mergeability::from(text.to_string()).as_str(), text);
    }
    for text in ["BEHIND", "BLOCKED", "CLEAN", "DIRTY", "DRAFT", "HAS_HOOKS", "UNSTABLE", "clean"] {
        assert_eq!(MergeState::from(text.to_string()).as_str(), text);
    }
    assert_eq!(MergeState::from("clean".to_string()), MergeState::Unknown("clean".into()));
}

#[test]
fn every_merge_keeps_the_head_guard() {
    for method in [MergeMethod::Merge, MergeMethod::Squash, MergeMethod::Rebase] {
        for delete in [false, true] {
            let args = merge_args(&locator_a_r(3), method, delete, "0123abc");
            assert_eq!(args[6], "--match-head-commit");
            assert_eq!(args[7], "0123abc");
            assert_eq!(args.len(), if delete { 9 } else { 8 });
        }
    }
}

#[test]
fn every_check_is_in_exactly_one_state() {
    let status = parse(
        "BLOCKED",
        "APPROVED",
        vec![
            status_context("a", "FAILURE"),
            status_context("b", "SUCCESS"),
            status_context("c", "PENDING"),
            status_context("d", "ODD"),
            check_run("e", "COMPLETED", Some("SKIPPED")),
        ],
    );
    let total: usize = [CheckState::Passing, CheckState::Pending, CheckState::Failing, CheckState::Unknown]
        .into_iter()
        .map(|state| status.checks_with(state).len())
        .sum();
    assert_eq!(total, status.checks.len());
}
