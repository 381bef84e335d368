use ghreview::model::{
    fetch_meta, locator_in_cwd_repo, repo_view_args, resolve_pr_arg, PrArgError, PrLocator, PrState,
    ReviewDecision,
};

fn locator(owner: &str, repo: &str, number: u64) -> PrLocator {
    PrLocator { owner: owner.into(), repo: repo.into(), number }
}

#[test]
fn parses_locators() {
    assert_eq!(resolve_pr_arg("ellie/ghreview#8").unwrap().number, 8);
    assert_eq!(resolve_pr_arg("https://github.com/ellie/ghreview/pull/9").unwrap().repo, "ghreview");
    assert!(resolve_pr_arg("garbage").is_err());
}

#[test]
fn typed_values_keep_unknown_remote_states() {
    let approved = ReviewDecision::from("APPROVED".to_string());
    let future = PrState::from("FUTURE".to_string());
    assert_eq!(approved, ReviewDecision::Approved);
    assert_eq!(future, PrState::Unknown("FUTURE".into()));
}

#[test]
fn every_url_form_resolves() {
    let expected = locator("ellie", "ghreview", 9);
    assert_eq!(resolve_pr_arg("https://github.com/ellie/ghreview/pull/9"), Ok(expected.clone()));
    assert_eq!(resolve_pr_arg("http://github.com/ellie/ghreview/pull/9"), Ok(expected.clone()));
    assert_eq!(resolve_pr_arg("github.com/ellie/ghreview/pull/9"), Ok(expected.clone()));
    assert_eq!(resolve_pr_arg("https://github.com/ellie/ghreview/pull/9/files"), Ok(expected.clone()));
    assert_eq!(
        resolve_pr_arg("https://github.com/ellie/ghreview/pull/9#discussion_r1"),
        Ok(expected)
    );
}

#[test]
fn owner_repo_number_resolves() {
    assert_eq!(resolve_pr_arg("ellie/ghreview#8"), Ok(locator("ellie", "ghreview", 8)));
    assert_eq!(resolve_pr_arg("a/b/c#3"), Ok(locator("a", "b/c", 3)));
    assert_eq!(resolve_pr_arg("a/b#+5"), Ok(locator("a", "b", 5)));
    assert_eq!(
        resolve_pr_arg("a/b#18446744073709551615"),
        Ok(locator("a", "b", u64::MAX))
    );
}

#[test]
fn each_argument_error_has_its_input() {
    assert_eq!(resolve_pr_arg("https://github.com/ellie/ghreview/issues/9"), Err(PrArgError::UnrecognizedUrl));
    assert_eq!(resolve_pr_arg("github.com/ellie"), Err(PrArgError::UnrecognizedUrl));
    assert_eq!(resolve_pr_arg("https://github.com/ellie/ghreview/pull/x"), Err(PrArgError::NoNumberInUrl));
    assert_eq!(resolve_pr_arg("https://github.com/ellie/ghreview/pull/"), Err(PrArgError::NoNumberInUrl));
    assert_eq!(
        resolve_pr_arg("https://github.com/ellie/ghreview/pull/18446744073709551616"),
        Err(PrArgError::NoNumberInUrl)
    );
    assert_eq!(resolve_pr_arg("ellie/ghreview#x"), Err(PrArgError::InvalidNumber));
    assert_eq!(resolve_pr_arg("ellie/ghreview#"), Err(PrArgError::InvalidNumber));
    assert_eq!(resolve_pr_arg("ellie/ghreview#18446744073709551616"), Err(PrArgError::InvalidNumber));
    assert_eq!(resolve_pr_arg("ghreview#8"), Err(PrArgError::MissingRepo));
    assert_eq!(resolve_pr_arg("garbage"), Err(PrArgError::Unrecognized));
    assert_eq!(resolve_pr_arg(""), Err(PrArgError::Unrecognized));
    assert_eq!(resolve_pr_arg("-3"), Err(PrArgError::Unrecognized));
    assert_eq!(resolve_pr_arg("12"), Err(PrArgError::InCurrentRepo { number: 12 }));
    assert_eq!(resolve_pr_arg("#12"), Err(PrArgError::InCurrentRepo { number: 12 }));
    assert_eq!(locator_in_cwd_repo(5, "ghreview\n"), Err(PrArgError::UnexpectedRepoView));
}

#[test]
fn current_repository_comes_from_repo_view() {
    assert_eq!(locator_in_cwd_repo(7, "  ellie/ghreview\n"), Ok(locator("ellie", "ghreview", 7)));
    assert_eq!(locator_in_cwd_repo(7, "a/b/c"), Ok(locator("a", "b/c", 7)));
    assert_eq!(
        repo_view_args(),
        vec!["repo", "view", "--json", "nameWithOwner", "--jq", ".nameWithOwner"]
    );
}

#[test]
fn slug_and_meta_arguments() {
    let loc = locator("ellie", "ghreview", 42);
    assert_eq!(loc.repo_slug(), "ellie/ghreview");
    assert_eq!(
        fetch_meta(&loc),
        vec![
            "pr",
            "view",
            "42",
            "--repo",
            "ellie/ghreview",
            "--json",
            "number,title,author,state,isDraft,url,body,baseRefName,headRefName,baseRefOid,headRefOid,additions,deletions,changedFiles,reviewDecision"
        ]
    );
}

#[test]
fn remote_model_texts_round_trip() {
    for text in ["OPEN", "CLOSED", "MERGED", "DRAFTED", ""] {
        assert_eq!(PrState::from(text.to_string()).as_str(), text);
    }
    for text in ["APPROVED", "CHANGES_REQUESTED", "REVIEW_REQUIRED", "approved"] {
        assert_eq!(ReviewDecision::from(text.to_string()).as_str(), text);
    }
    assert_eq!(PrState::from("MERGED".to_string()), PrState::Merged);
    assert_eq!(ReviewDecision::from("approved".to_string()), ReviewDecision::Unknown("approved".into()));
    assert_eq!(PrState::default(), PrState::Unknown(String::new()));
    assert_eq!(ReviewDecision::default().as_str(), "");
}
