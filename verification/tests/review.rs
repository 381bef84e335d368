use ghreview::model::{Author, PrLocator};
use ghreview::review::{
    fetch_review_comments, flatten_pages, post_reply, post_review_comment, submit_review, ReviewComment,
    ReviewVerdict,
};

fn review_locator() -> PrLocator {
    PrLocator { owner: "ellie".into(), repo: "ghreview".into(), number: 12 }
}

fn comment(id: u64, path: &str) -> ReviewComment {
    ReviewComment {
        id,
        path: path.into(),
        line: Some(2),
        side: Some("RIGHT".into()),
        start_line: None,
        body: "x".into(),
        user: Author { login: "a".into() },
        created_at: "now".into(),
        in_reply_to_id: None,
    }
}

#[test]
fn comment_arguments() {
    assert_eq!(
        fetch_review_comments(&review_locator()),
        vec!["api", "--paginate", "--slurp", "repos/ellie/ghreview/pulls/12/comments?per_page=100"]
    );
    assert_eq!(
        post_review_comment(&review_locator(), "abc", "src/a.rs", "RIGHT", 40, "nit: name"),
        vec![
            "api",
            "-X",
            "POST",
            "repos/ellie/ghreview/pulls/12/comments",
            "-f",
            "body=nit: name",
            "-f",
            "commit_id=abc",
            "-f",
            "path=src/a.rs",
            "-f",
            "side=RIGHT",
            "-F",
            "line=40"
        ]
    );
    assert_eq!(
        post_reply(&review_locator(), 9001, "done"),
        vec!["api", "-X", "POST", "repos/ellie/ghreview/pulls/12/comments/9001/replies", "-f", "body=done"]
    );
}

#[test]
fn review_arguments_carry_the_verdict_and_any_body() {
    assert_eq!(
        submit_review(&review_locator(), ReviewVerdict::Approve, ""),
        vec!["pr", "review", "12", "--repo", "ellie/ghreview", "--approve"]
    );
    assert_eq!(
        submit_review(&review_locator(), ReviewVerdict::RequestChanges, "please fix"),
        vec!["pr", "review", "12", "--repo", "ellie/ghreview", "--request-changes", "--body", "please fix"]
    );
    assert_eq!(submit_review(&review_locator(), ReviewVerdict::Comment, "")[5], "--comment");
}

#[test]
fn pages_of_comments_join_in_order() {
    let pages = vec![vec![comment(1, "a.rs"), comment(2, "b.rs")], Vec::new(), vec![comment(3, "c.rs")]];
    let all = flatten_pages(pages);
    let ids: Vec<u64> = all.iter().map(|c| c.id).collect();
    assert_eq!(ids, vec![1, 2, 3]);
    assert_eq!(all[0].path, "a.rs");
    assert!(flatten_pages(Vec::new()).is_empty());
}
