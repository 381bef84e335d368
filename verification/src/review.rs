//! Review comments and reviews: the `gh` calls that read and write them.
use vstd::prelude::*;

use crate::model::{Author, PrLocator};
use crate::text::{decimal, decimal_text, push_char, push_decimal, views};

verus! {

/// A review comment on a line of a pull request's diff.
#[derive(Debug, Clone, PartialEq, Eq)]
pub struct ReviewComment {
    pub id: u64,
    pub path: String,
    pub line: Option<u64>,
    pub side: Option<String>,
    pub start_line: Option<u64>,
    pub body: String,
    pub user: Author,
    pub created_at: String,
    pub in_reply_to_id: Option<u64>,
}

/// `repos/{owner}/{repo}/pulls/{number}`.
pub open spec fn pulls_path(loc: PrLocator) -> Seq<char> {
    "repos/"@ + loc.owner@ + seq!['/'] + loc.repo@ + "/pulls/"@ + decimal(loc.number as nat)
}

fn push_pulls_path(out: &mut String, loc: &PrLocator)
    ensures
        final(out)@ == old(out)@ + pulls_path(*loc),
{
    out.append("repos/");
    out.append(loc.owner.as_str());
    push_char(out, '/');
    out.append(loc.repo.as_str());
    out.append("/pulls/");
    push_decimal(out, loc.number);
    assert(out@ =~= old(out)@ + pulls_path(*loc));
}

/// `{name}={value}`, a field of `gh api -f`/`-F`.
pub open spec fn field(name: Seq<char>, value: Seq<char>) -> Seq<char> {
    name + seq!['='] + value
}

fn field_text(name: &str, value: &str) -> (r: String)
    ensures
        r@ == field(name@, value@),
{
    let mut r = String::new();
    r.append(name);
    push_char(&mut r, '=');
    r.append(value);
    r
}

/// The arguments of `gh api` that read all review comments of `loc`, every
/// page of 100 as one JSON array of pages.
pub fn fetch_review_comments(loc: &PrLocator) -> (args: Vec<String>)
    ensures
        views(args@) == seq![
            "api"@,
            "--paginate"@,
            "--slurp"@,
            pulls_path(*loc) + "/comments?per_page=100"@,
        ],
{
    let mut endpoint = String::new();
    push_pulls_path(&mut endpoint, loc);
    endpoint.append("/comments?per_page=100");
    let mut args: Vec<String> = Vec::new();
    args.push("api".to_owned());
    args.push("--paginate".to_owned());
    args.push("--slurp".to_owned());
    args.push(endpoint);
    assert(views(args@) =~= seq![
        "api"@,
        "--paginate"@,
        "--slurp"@,
        pulls_path(*loc) + "/comments?per_page=100"@,
    ]);
    args
}

/// The comments of all pages, page after page.
pub open spec fn flattened(pages: Seq<Vec<ReviewComment>>) -> Seq<ReviewComment>
    decreases pages.len(),
{
    if pages.len() == 0 {
        Seq::empty()
    } else {
        flattened(pages.drop_last()) + pages.last()@
    }
}

/// Joins the pages of review comments into one list, in order.
pub fn flatten_pages(pages: Vec<Vec<ReviewComment>>) -> (out: Vec<ReviewComment>)
    ensures
        out@ == flattened(pages@),
{
    let ghost all = pages@;
    assert(all.len() == pages.len());
    let mut rest = crate::text::reversed(pages);
    let mut out: Vec<ReviewComment> = Vec::new();
    let mut i: usize = 0;
    assert(rest@ =~= all.reverse().take(rest@.len() as int));
    assert(all.take(0) =~= Seq::<Vec<ReviewComment>>::empty());
    while rest.len() > 0
        invariant
            i as int + rest@.len() == all.len(),
            all.len() <= usize::MAX,
            rest@ == all.reverse().take(rest@.len() as int),
            out@ == flattened(all.take(i as int)),
        decreases rest@.len(),
    {
        let mut page = rest.pop().unwrap();
        assert(page == all[i as int]);
        assert(rest@ =~= all.reverse().take(rest@.len() as int));
        assert(all.take(i + 1).drop_last() == all.take(i as int));
        out.append(&mut page);
        i = i + 1;
    }
    assert(all.take(i as int) == all);
    out
}

/// The arguments of `gh api` that comment on `line` of `path` (on `side` of
/// the diff) at `commit_id`.
pub fn post_review_comment(loc: &PrLocator, commit_id: &str, path: &str, side: &str, line: u64, body: &str) -> (args: Vec<String>)
    ensures
        views(args@) == seq![
            "api"@,
            "-X"@,
            "POST"@,
            pulls_path(*loc) + "/comments"@,
            "-f"@,
            field("body"@, body@),
            "-f"@,
            field("commit_id"@, commit_id@),
            "-f"@,
            field("path"@, path@),
            "-f"@,
            field("side"@, side@),
            "-F"@,
            field("line"@, decimal(line as nat)),
        ],
{
    let mut endpoint = String::new();
    push_pulls_path(&mut endpoint, loc);
    endpoint.append("/comments");
    let line_text = decimal_text(line);
    let mut args: Vec<String> = Vec::new();
    args.push("api".to_owned());
    args.push("-X".to_owned());
    args.push("POST".to_owned());
    args.push(endpoint);
    args.push("-f".to_owned());
    args.push(field_text("body", body));
    args.push("-f".to_owned());
    args.push(field_text("commit_id", commit_id));
    args.push("-f".to_owned());
    args.push(field_text("path", path));
    args.push("-f".to_owned());
    args.push(field_text("side", side));
    args.push("-F".to_owned());
    args.push(field_text("line", line_text.as_str()));
    assert(views(args@) =~= seq![
        "api"@,
        "-X"@,
        "POST"@,
        pulls_path(*loc) + "/comments"@,
        "-f"@,
        field("body"@, body@),
        "-f"@,
        field("commit_id"@, commit_id@),
        "-f"@,
        field("path"@, path@),
        "-f"@,
        field("side"@, side@),
        "-F"@,
        field("line"@, decimal(line as nat)),
    ]);
    args
}

/// The arguments of `gh api` that reply to review comment `comment_id`.
pub fn post_reply(loc: &PrLocator, comment_id: u64, body: &str) -> (args: Vec<String>)
    ensures
        views(args@) == seq![
            "api"@,
            "-X"@,
            "POST"@,
            pulls_path(*loc) + "/comments/"@ + decimal(comment_id as nat) + "/replies"@,
            "-f"@,
            field("body"@, body@),
        ],
{
    let mut endpoint = String::new();
    push_pulls_path(&mut endpoint, loc);
    endpoint.append("/comments/");
    push_decimal(&mut endpoint, comment_id);
    endpoint.append("/replies");
    let mut args: Vec<String> = Vec::new();
    args.push("api".to_owned());
    args.push("-X".to_owned());
    args.push("POST".to_owned());
    args.push(endpoint);
    args.push("-f".to_owned());
    args.push(field_text("body", body));
    assert(views(args@) =~= seq![
        "api"@,
        "-X"@,
        "POST"@,
        pulls_path(*loc) + "/comments/"@ + decimal(comment_id as nat) + "/replies"@,
        "-f"@,
        field("body"@, body@),
    ]);
    args
}

/// The verdict of a submitted review.
#[derive(Debug, Clone, Copy, PartialEq, Eq, Structural)]
pub enum ReviewVerdict {
    Approve,
    RequestChanges,
    Comment,
}

/// The `gh pr review` flag of a verdict.
pub open spec fn verdict_flag(verdict: ReviewVerdict) -> Seq<char> {
    match verdict {
        ReviewVerdict::Approve => "--approve"@,
        ReviewVerdict::RequestChanges => "--request-changes"@,
        ReviewVerdict::Comment => "--comment"@,
    }
}

/// The arguments of `gh pr review` that submit `verdict` on `loc`, with
/// `body` when it is not empty.
pub open spec fn review_command(loc: PrLocator, verdict: ReviewVerdict, body: Seq<char>) -> Seq<Seq<char>> {
    let base = seq!["pr"@, "review"@, decimal(loc.number as nat), "--repo"@, loc.slug(), verdict_flag(verdict)];
    if body.len() == 0 {
        base
    } else {
        base + seq!["--body"@, body]
    }
}

/// The arguments of `gh pr review` for a review with `verdict` and `body`.
pub fn submit_review(loc: &PrLocator, verdict: ReviewVerdict, body: &str) -> (args: Vec<String>)
    ensures
        views(args@) == review_command(*loc, verdict, body@),
{
    let flag = match verdict {
        ReviewVerdict::Approve => "--approve",
        ReviewVerdict::RequestChanges => "--request-changes",
        ReviewVerdict::Comment => "--comment",
    };
    let mut args: Vec<String> = Vec::new();
    args.push("pr".to_owned());
    args.push("review".to_owned());
    args.push(decimal_text(loc.number));
    args.push("--repo".to_owned());
    args.push(loc.repo_slug());
    args.push(flag.to_owned());
    if !body.is_empty() {
        args.push("--body".to_owned());
        args.push(body.to_owned());
    }
    assert(views(args@) =~= review_command(*loc, verdict, body@));
    args
}

} // verus!
