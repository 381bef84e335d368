use ghreview::command::GhError;
use ghreview::model::Author;
use ghreview::search::{
    authored_filter, list_prs, list_user_prs, merge_user_prs, review_requested_filter, search_user_prs,
    Repository, UserPrSummary,
};

fn pr(repo: &str, number: u64, updated: &str) -> UserPrSummary {
    UserPrSummary {
        number,
        title: format!("PR {number}"),
        author: Author { login: "a".into() },
        is_draft: false,
        updated_at: updated.into(),
        repository: Repository {
            name: repo.rsplit('/').next().unwrap().into(),
            name_with_owner: repo.into(),
        },
        url: format!("https://github.com/{repo}/pull/{number}"),
    }
}

fn ids(prs: &[UserPrSummary]) -> Vec<(&str, u64)> {
    prs.iter().map(|pr| (pr.repository.name_with_owner.as_str(), pr.number)).collect()
}

#[test]
fn merges_deduplicates_and_sorts() {
    let got = merge_user_prs(
        vec![pr("a/r", 1, "2026-01-01"), pr("a/r", 2, "2026-01-03")],
        vec![pr("a/r", 1, "2026-01-02"), pr("b/r", 3, "2026-01-04")],
    );
    let ids = ids(&got);
    assert_eq!(ids, vec![("b/r", 3), ("a/r", 2), ("a/r", 1)]);
}

#[test]
fn either_search_failure_fails_the_atomic_refresh() {
    let error = list_user_prs(
        Ok(vec![pr("a/r", 1, "now")]),
        Err(GhError { message: "gh search prs --review-requested=@me failed: offline".into() }),
    )
    .unwrap_err();
    assert!(error.message.contains("offline"));
}

#[test]
fn the_authored_failure_is_reported_first() {
    let error = list_user_prs(
        Err(GhError { message: "authored: offline".into() }),
        Err(GhError { message: "requested: offline".into() }),
    )
    .unwrap_err();
    assert_eq!(error.message, "authored: offline");
}

#[test]
fn both_searches_succeeding_merge_their_rows() {
    let rows = list_user_prs(Ok(vec![pr("a/r", 1, "now")]), Ok(vec![pr("b/r", 1, "now")])).unwrap();
    assert_eq!(ids(&rows), vec![("a/r", 1), ("b/r", 1)]);
}

#[test]
fn merge_keeps_the_newest_copy_and_the_first_of_equals() {
    let got = merge_user_prs(
        vec![pr("a/r", 1, "2026-01-05"), pr("a/r", 1, "2026-01-02")],
        vec![pr("a/r", 1, "2026-01-05")],
    );
    assert_eq!(got.len(), 1);
    assert_eq!(got[0].updated_at, "2026-01-05");
    let mut newer = pr("a/r", 1, "2026-01-05");
    newer.title = "later copy".into();
    let got = merge_user_prs(vec![pr("a/r", 1, "2026-01-04")], vec![newer]);
    assert_eq!(got[0].title, "later copy");
    let mut same_time = pr("a/r", 1, "2026-01-04");
    same_time.title = "same time".into();
    let got = merge_user_prs(vec![pr("a/r", 1, "2026-01-04")], vec![same_time]);
    assert_eq!(got[0].title, "PR 1");
}

#[test]
fn merge_orders_ties_by_repository_then_number() {
    let got = merge_user_prs(
        vec![pr("b/r", 1, "t"), pr("a/r", 9, "t"), pr("a/r", 2, "t")],
        vec![pr("c/r", 5, "u"), pr("a/r", 2, "t")],
    );
    assert_eq!(ids(&got), vec![("c/r", 5), ("a/r", 2), ("a/r", 9), ("b/r", 1)]);
    assert!(merge_user_prs(Vec::new(), Vec::new()).is_empty());
}

#[test]
fn merged_rows_hold_one_row_per_pull_request() {
    let left: Vec<UserPrSummary> = (0..20).map(|i| pr(if i % 2 == 0 { "a/r" } else { "b/r" }, i % 7, &format!("2026-01-{:02}", i + 1))).collect();
    let right: Vec<UserPrSummary> = (0..20).map(|i| pr(if i % 3 == 0 { "a/r" } else { "b/r" }, i % 5, &format!("2026-02-{:02}", i + 1))).collect();
    let got = merge_user_prs(left.clone(), right.clone());
    let keys = ids(&got);
    for (i, a) in keys.iter().enumerate() {
        for b in &keys[i + 1..] {
            assert_ne!(a, b);
        }
    }
    for row in left.iter().chain(right.iter()) {
        let kept = got
            .iter()
            .find(|g| g.number == row.number && g.repository.name_with_owner == row.repository.name_with_owner)
            .unwrap();
        assert!(kept.updated_at >= row.updated_at);
    }
    for pair in got.windows(2) {
        assert!(pair[0].updated_at >= pair[1].updated_at);
    }
}

#[test]
fn search_arguments() {
    assert_eq!(
        list_prs("ellie", "ghreview"),
        vec![
            "pr",
            "list",
            "--repo",
            "ellie/ghreview",
            "--state",
            "open",
            "--limit",
            "200",
            "--json",
            "number,title,author,state,isDraft,headRefName,updatedAt"
        ]
    );
    assert_eq!(
        search_user_prs(authored_filter()),
        vec![
            "search",
            "prs",
            "--author=@me",
            "--state=open",
            "--limit=200",
            "--sort=updated",
            "--order=desc",
            "--json=number,title,author,isDraft,updatedAt,repository,url"
        ]
    );
    assert_eq!(search_user_prs(review_requested_filter())[2], "--review-requested=@me");
}
