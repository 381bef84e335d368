use ghreview::dialog::{merge_status, problem_line, DialogStatus, MergeDialog, MergePhase, LISTED_PROBLEMS};
use ghreview::merge::{CheckState, CheckSummary, MergeAssessment, MergeMethod, MergeState, Mergeability};
use ghreview::model::{Author, PrMeta, PrState, ReviewDecision};

fn assessment(decision: ReviewDecision, head: &str) -> MergeAssessment {
    MergeAssessment {
        is_draft: false,
        mergeability: Mergeability::Mergeable,
        merge_state: MergeState::Clean,
        review_decision: decision,
        head_oid: head.into(),
        checks: Vec::new(),
    }
}

fn check(name: &str, state: CheckState) -> CheckSummary {
    CheckSummary { name: name.into(), state }
}

#[test]
fn reopened_dialog_rejects_the_prior_request() {
    let mut dialog = MergeDialog::new(1, 2);
    assert!(!dialog.apply_assessment(1, Ok(assessment(ReviewDecision::Approved, "old"))));
    assert!(matches!(dialog.phase, MergePhase::Checking { .. }));
    assert!(dialog.apply_assessment(2, Ok(assessment(ReviewDecision::Approved, "current"))));
    assert!(matches!(dialog.phase, MergePhase::Assessed { .. }));
}

#[test]
fn submit_failure_returns_to_assessed_for_retry() {
    let mut dialog = MergeDialog::new(1, 1);
    dialog.apply_assessment(1, Ok(assessment(ReviewDecision::Approved, "a")));
    assert!(dialog.begin_submit().is_some());
    assert!(dialog.is_submitting());
    dialog.submit_failed("blocked".into());
    assert!(matches!(dialog.phase, MergePhase::Assessed { error: Some(_), .. }));
}

#[test]
fn revoked_approval_or_missing_head_prevents_attempt() {
    let mut dialog = MergeDialog::new(1, 1);
    dialog.apply_assessment(1, Ok(assessment(ReviewDecision::ChangesRequested, "a")));
    assert!(dialog.begin_submit().is_none());
    let mut dialog = MergeDialog::new(1, 1);
    dialog.apply_assessment(1, Ok(assessment(ReviewDecision::Approved, "")));
    assert!(dialog.begin_submit().is_none());
}

#[test]
fn a_new_dialog_squashes_and_keeps_the_branch() {
    let dialog = MergeDialog::new(4, 9);
    assert_eq!(dialog.item_id, 4);
    assert_eq!(dialog.method, MergeMethod::Squash);
    assert!(!dialog.delete_branch);
    assert!(matches!(dialog.phase, MergePhase::Checking { request: 9 }));
    assert!(!dialog.confirm_enabled());
    assert_eq!(dialog.shown_error(), None);
}

#[test]
fn a_failed_assessment_ends_the_check() {
    let mut dialog = MergeDialog::new(1, 3);
    assert!(dialog.apply_assessment(3, Err("HTTP 502".into())));
    assert!(matches!(&dialog.phase, MergePhase::Failed { message } if message == "HTTP 502"));
    assert!(!dialog.apply_assessment(3, Ok(assessment(ReviewDecision::Approved, "a"))));
    assert!(dialog.begin_submit().is_none());
}

#[test]
fn submission_hands_out_the_settings_and_retry_works() {
    let mut dialog = MergeDialog::new(1, 1);
    dialog.method = MergeMethod::Rebase;
    dialog.delete_branch = true;
    dialog.apply_assessment(1, Ok(assessment(ReviewDecision::Approved, "head1")));
    assert!(dialog.confirm_enabled());
    let (submitted, method, delete) = dialog.begin_submit().unwrap();
    assert_eq!(submitted.head_oid, "head1");
    assert_eq!(method, MergeMethod::Rebase);
    assert!(delete);
    assert!(!dialog.confirm_enabled());
    assert!(dialog.begin_submit().is_none());
    dialog.submit_failed("head moved".into());
    assert_eq!(dialog.shown_error(), Some("head moved".to_string()));
    assert!(dialog.confirm_enabled());
    let (again, _, _) = dialog.begin_submit().unwrap();
    assert_eq!(again.head_oid, "head1");
}

#[test]
fn a_failure_outside_a_submission_changes_nothing() {
    let mut dialog = MergeDialog::new(1, 1);
    dialog.submit_failed("late".into());
    assert!(matches!(dialog.phase, MergePhase::Checking { request: 1 }));
    dialog.apply_assessment(1, Ok(assessment(ReviewDecision::Approved, "a")));
    dialog.submit_failed("late".into());
    assert_eq!(dialog.shown_error(), None);
}

#[test]
fn status_headline_counts_passing_checks_and_lists_problems() {
    let mut a = assessment(ReviewDecision::Approved, "a");
    a.merge_state = MergeState::Blocked;
    a.checks = vec![
        check("lint", CheckState::Passing),
        check("test", CheckState::Failing),
        check("deploy", CheckState::Pending),
        check("docs", CheckState::Passing),
        check("odd", CheckState::Unknown),
    ];
    let status = merge_status(&a);
    assert_eq!(status.headline, "GitHub state: blocked · mergeability: mergeable · 2 checks passed");
    assert!(!status.clean);
    assert!(status.policy_note);
    let lines: Vec<String> = status.problems.iter().map(problem_line).collect();
    assert_eq!(lines, vec!["failed: test", "waiting: deploy", "unknown: odd"]);
}

#[test]
fn status_lists_at_most_eight_problems_and_notes_policy() {
    let mut a = assessment(ReviewDecision::Approved, "a");
    a.checks = (0..10).map(|i| check(&format!("c{i}"), CheckState::Failing)).collect();
    let status = merge_status(&a);
    assert_eq!(status.problems.len(), LISTED_PROBLEMS);
    assert_eq!(status.problems[7].name, "c7");
    assert!(status.clean);
    assert!(!status.policy_note);
    assert!(status.headline.ends_with("· 0 checks passed"));
    a.merge_state = MergeState::HasHooks;
    assert!(!merge_status(&a).policy_note);
    a.merge_state = MergeState::Unknown("FUTURE".into());
    a.mergeability = Mergeability::Unknown("MAYBE".into());
    let status = merge_status(&a);
    assert!(status.policy_note);
    assert!(status.headline.starts_with("GitHub state: future · mergeability: maybe ·"));
}

#[test]
fn headline_text_from_its_parts() {
    assert_eq!(
        ghreview::dialog::status_headline("behind", "conflicting", 12),
        "GitHub state: behind · mergeability: conflicting · 12 checks passed"
    );
}

#[test]
fn settings_change_only_what_they_name() {
    let mut dialog = MergeDialog::new(2, 5);
    dialog.select_method(MergeMethod::Merge);
    assert_eq!(dialog.method, MergeMethod::Merge);
    dialog.toggle_delete_branch();
    assert!(dialog.delete_branch);
    dialog.toggle_delete_branch();
    assert!(!dialog.delete_branch);
    assert!(matches!(dialog.phase, MergePhase::Checking { request: 5 }));
    assert_eq!(dialog.item_id, 2);
}

#[test]
fn status_area_follows_the_phase() {
    let mut dialog = MergeDialog::new(1, 1);
    assert!(matches!(dialog.status(), DialogStatus::Checking));
    let mut a = assessment(ReviewDecision::Approved, "h");
    a.checks = vec![check("ci", CheckState::Pending)];
    dialog.apply_assessment(1, Ok(a));
    match dialog.status() {
        DialogStatus::Assessed(status) => {
            assert_eq!(status.headline, "GitHub state: clean · mergeability: mergeable · 0 checks passed");
            assert_eq!(problem_line(&status.problems[0]), "waiting: ci");
        }
        _ => panic!("expected an assessment"),
    }
    dialog.begin_submit();
    assert!(matches!(dialog.status(), DialogStatus::Assessed(_)));
    let mut failed = MergeDialog::new(1, 1);
    failed.apply_assessment(1, Err("timeout".into()));
    assert!(matches!(failed.status(), DialogStatus::Failed(message) if message == "timeout"));
}

#[test]
fn heading_and_branch_lines() {
    let meta = PrMeta {
        number: 8,
        title: "Fix the parser".into(),
        author: Author { login: "a".into() },
        state: PrState::Open,
        is_draft: false,
        url: "u".into(),
        body: String::new(),
        base_ref_name: "main".into(),
        head_ref_name: "fix".into(),
        base_ref_oid: String::new(),
        head_ref_oid: String::new(),
        additions: 0,
        deletions: 0,
        changed_files: 0,
        review_decision: ReviewDecision::default(),
    };
    assert_eq!(ghreview::dialog::pr_heading(&meta), "#8 Fix the parser");
    assert_eq!(ghreview::dialog::branch_flow(&meta), "fix → main");
}
