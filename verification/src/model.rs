//! Pull request identity and metadata.
use vstd::prelude::*;

use crate::text::{
    chars_eq, chars_of, decimal, decimal_text, find_char, is_digit, lemma_find_char,
    parse_decimal, parse_unsigned, position_of, push_char, split_char, split_chars,
    string_of_range, text_eq, trim, trim_bounds, views,
};
use vstd::std_specs::convert::FromSpecImpl;

verus! {

/// Where a pull request lives: `owner/repo` and its number.
#[derive(Debug, Clone, PartialEq, Eq)]
pub struct PrLocator {
    pub owner: String,
    pub repo: String,
    pub number: u64,
}

impl PrLocator {
    /// `owner/repo`.
    pub open spec fn slug(&self) -> Seq<char> {
        self.owner@ + seq!['/'] + self.repo@
    }

    /// The repository as `owner/repo`.
    pub fn repo_slug(&self) -> (r: String)
        ensures
            r@ == self.slug(),
    {
        let mut r = String::new();
        r.append(self.owner.as_str());
        push_char(&mut r, '/');
        r.append(self.repo.as_str());
        r
    }
}

/// The author of a pull request or comment.
#[derive(Debug, Clone, PartialEq, Eq)]
pub struct Author {
    pub login: String,
}

/// The state of a pull request.
#[derive(Debug, Clone, PartialEq, Eq)]
pub enum PrState {
    Open,
    Closed,
    Merged,
    /// A value this library does not know, kept as GitHub sent it.
    Unknown(String),
}

impl PrState {
    /// The text GitHub uses for this value.
    pub open spec fn text(&self) -> Seq<char> {
        match self {
            PrState::Open => "OPEN"@,
            PrState::Closed => "CLOSED"@,
            PrState::Merged => "MERGED"@,
            PrState::Unknown(value) => value@,
        }
    }

    /// The value that GitHub's text `value` stands for.
    pub open spec fn from_text(value: String) -> Self {
        if value@ == "OPEN"@ {
            PrState::Open
        } else if value@ == "CLOSED"@ {
            PrState::Closed
        } else if value@ == "MERGED"@ {
            PrState::Merged
        } else {
            PrState::Unknown(value)
        }
    }

    /// The text GitHub uses for this value.
    pub fn as_str(&self) -> (r: &str)
        ensures
            r@ == self.text(),
    {
        match self {
            PrState::Open => "OPEN",
            PrState::Closed => "CLOSED",
            PrState::Merged => "MERGED",
            PrState::Unknown(value) => value.as_str(),
        }
    }
}

impl From<String> for PrState {
    fn from(value: String) -> (r: Self) {
        if text_eq(value.as_str(), "OPEN") {
            PrState::Open
        } else if text_eq(value.as_str(), "CLOSED") {
            PrState::Closed
        } else if text_eq(value.as_str(), "MERGED") {
            PrState::Merged
        } else {
            PrState::Unknown(value)
        }
    }
}

impl FromSpecImpl<String> for PrState {
    open spec fn obeys_from_spec() -> bool {
        true
    }

    open spec fn from_spec(v: String) -> Self {
        PrState::from_text(v)
    }
}

impl Default for PrState {
    /// An unknown value with empty text, as when GitHub sends none.
    fn default() -> (r: Self)
        ensures
            r matches PrState::Unknown(value) && value@.len() == 0,
    {
        PrState::Unknown(String::new())
    }
}

/// The review decision on a pull request.
#[derive(Debug, Clone, PartialEq, Eq)]
pub enum ReviewDecision {
    Approved,
    ChangesRequested,
    ReviewRequired,
    /// A value this library does not know, kept as GitHub sent it.
    Unknown(String),
}

impl ReviewDecision {
    /// The text GitHub uses for this value.
    pub open spec fn text(&self) -> Seq<char> {
        match self {
            ReviewDecision::Approved => "APPROVED"@,
            ReviewDecision::ChangesRequested => "CHANGES_REQUESTED"@,
            ReviewDecision::ReviewRequired => "REVIEW_REQUIRED"@,
            ReviewDecision::Unknown(value) => value@,
        }
    }

    /// The value that GitHub's text `value` stands for.
    pub open spec fn from_text(value: String) -> Self {
        if value@ == "APPROVED"@ {
            ReviewDecision::Approved
        } else if value@ == "CHANGES_REQUESTED"@ {
            ReviewDecision::ChangesRequested
        } else if value@ == "REVIEW_REQUIRED"@ {
            ReviewDecision::ReviewRequired
        } else {
            ReviewDecision::Unknown(value)
        }
    }

    /// The text GitHub uses for this value.
    pub fn as_str(&self) -> (r: &str)
        ensures
            r@ == self.text(),
    {
        match self {
            ReviewDecision::Approved => "APPROVED",
            ReviewDecision::ChangesRequested => "CHANGES_REQUESTED",
            ReviewDecision::ReviewRequired => "REVIEW_REQUIRED",
            ReviewDecision::Unknown(value) => value.as_str(),
        }
    }
}

impl From<String> for ReviewDecision {
    fn from(value: String) -> (r: Self) {
        if text_eq(value.as_str(), "APPROVED") {
            ReviewDecision::Approved
        } else if text_eq(value.as_str(), "CHANGES_REQUESTED") {
            ReviewDecision::ChangesRequested
        } else if text_eq(value.as_str(), "REVIEW_REQUIRED") {
            ReviewDecision::ReviewRequired
        } else {
            ReviewDecision::Unknown(value)
        }
    }
}

impl FromSpecImpl<String> for ReviewDecision {
    open spec fn obeys_from_spec() -> bool {
        true
    }

    open spec fn from_spec(v: String) -> Self {
        ReviewDecision::from_text(v)
    }
}

impl Default for ReviewDecision {
    /// An unknown value with empty text, as when GitHub sends none.
    fn default() -> (r: Self)
        ensures
            r matches ReviewDecision::Unknown(value) && value@.len() == 0,
    {
        ReviewDecision::Unknown(String::new())
    }
}

// ---------------------------------------------------------------------------
// Resolving a pull request argument
// ---------------------------------------------------------------------------

/// Why an argument names no pull request, or what the caller must add.
#[derive(Debug, Clone, Copy, PartialEq, Eq, Structural)]
pub enum PrArgError {
    /// A GitHub URL that is not a pull request URL.
    UnrecognizedUrl,
    /// A pull request URL without a number after `pull/`.
    NoNumberInUrl,
    /// `…#N` where `N` is not a number.
    InvalidNumber,
    /// `x#N` where `x` is not `owner/repo`.
    MissingRepo,
    /// None of the accepted forms.
    Unrecognized,
    /// `N` or `#N`: pull request `number` of the repository of the current
    /// directory, which the caller looks up and hands to `locator_in_cwd_repo`.
    InCurrentRepo { number: u64 },
    /// The current directory's repository, as `gh repo view` printed it, is
    /// not `owner/repo`.
    UnexpectedRepoView,
}

/// Whether `s` starts with `p`.
pub open spec fn has_prefix(s: Seq<char>, p: Seq<char>) -> bool {
    p.len() <= s.len() && s.take(p.len() as int) == p
}

/// What follows the GitHub host in a URL-like argument.
pub open spec fn url_rest(arg: Seq<char>) -> Option<Seq<char>> {
    if has_prefix(arg, "https://github.com/"@) {
        Some(arg.skip("https://github.com/"@.len() as int))
    } else if has_prefix(arg, "http://github.com/"@) {
        Some(arg.skip("http://github.com/"@.len() as int))
    } else if has_prefix(arg, "github.com/"@) {
        Some(arg.skip("github.com/"@.len() as int))
    } else {
        None
    }
}

/// The leading ASCII digits of `s`.
pub open spec fn leading_digits(s: Seq<char>) -> Seq<char>
    decreases s.len(),
{
    if s.len() > 0 && is_digit(s[0]) {
        seq![s[0]] + leading_digits(s.drop_first())
    } else {
        Seq::empty()
    }
}

/// The pull request an argument names, as `(owner, repo, number)`:
/// `https://github.com/owner/repo/pull/N…` (also `http://` or no scheme),
/// `owner/repo#N`, or, for the repository of the current directory, `#N`
/// or `N`.
pub open spec fn resolve(arg: Seq<char>) -> Result<(Seq<char>, Seq<char>, u64), PrArgError> {
    match url_rest(arg) {
        Some(rest) => {
            let parts = split_char(rest, '/');
            if parts.len() >= 4 && parts[2] == "pull"@ {
                match parse_unsigned(leading_digits(parts[3]), u64::MAX as nat) {
                    Some(n) => Ok((parts[0], parts[1], n as u64)),
                    None => Err(PrArgError::NoNumberInUrl),
                }
            } else {
                Err(PrArgError::UnrecognizedUrl)
            }
        },
        None => match find_char(arg, '#') {
            Some(i) => {
                let repo = arg.take(i as int);
                match parse_unsigned(arg.skip(i as int + 1), u64::MAX as nat) {
                    None => Err(PrArgError::InvalidNumber),
                    Some(n) => if repo.len() == 0 {
                        Err(PrArgError::InCurrentRepo { number: n as u64 })
                    } else {
                        match find_char(repo, '/') {
                            None => Err(PrArgError::MissingRepo),
                            Some(j) => Ok((repo.take(j as int), repo.skip(j as int + 1), n as u64)),
                        }
                    },
                }
            },
            None => match parse_unsigned(arg, u64::MAX as nat) {
                Some(n) => Err(PrArgError::InCurrentRepo { number: n as u64 }),
                None => Err(PrArgError::Unrecognized),
            },
        },
    }
}

/// Whether `chars` starts with the characters of `prefix`.
fn starts_with(chars: &Vec<char>, prefix: &str) -> (r: bool)
    ensures
        r == has_prefix(chars@, prefix@),
{
    let p = chars_of(prefix);
    if p.len() > chars.len() {
        return false;
    }
    let head = crate::text::slice_range(chars, 0, p.len());
    chars_eq(head.as_slice(), p.as_slice())
}

/// The leading ASCII digits of `chars`.
fn take_digits(chars: &Vec<char>) -> (r: Vec<char>)
    ensures
        r@ == leading_digits(chars@),
{
    let mut i: usize = 0;
    while i < chars.len() && '0' <= chars[i] && chars[i] <= '9'
        invariant
            0 <= i <= chars@.len(),
            forall|k: int| 0 <= k < i ==> is_digit(#[trigger] chars@[k]),
        decreases chars@.len() - i,
    {
        i = i + 1;
    }
    proof {
        lemma_leading_digits(chars@, i as int);
    }
    crate::text::slice_range(chars, 0, i)
}

pub(crate) proof fn lemma_leading_digits(s: Seq<char>, i: int)
    requires
        0 <= i <= s.len(),
        forall|k: int| 0 <= k < i ==> is_digit(#[trigger] s[k]),
        i < s.len() ==> !is_digit(s[i]),
    ensures
        leading_digits(s) == s.take(i),
    decreases i,
{
    if i > 0 {
        assert forall|k: int| 0 <= k < i - 1 implies is_digit(#[trigger] s.drop_first()[k]) by {
            assert(s.drop_first()[k] == s[k + 1]);
        }
        lemma_leading_digits(s.drop_first(), i - 1);
        assert(s.take(i) == seq![s[0]] + s.drop_first().take(i - 1));
    } else if s.len() > 0 {
        assert(!is_digit(s[0]));
    }
}

/// Reads a pull request argument: a pull request URL, `owner/repo#N`, or
/// `#N` / `N` (answered with `InCurrentRepo`, since the repository then
/// comes from the current directory).
#[verifier::spinoff_prover]
pub fn resolve_pr_arg(arg: &str) -> (r: Result<PrLocator, PrArgError>)
    ensures
        match resolve(arg@) {
            Ok((owner, repo, number)) => r matches Ok(loc) && loc.owner@ == owner && loc.repo@
                == repo && loc.number == number,
            Err(e) => r == Err::<PrLocator, PrArgError>(e),
        },
{
    let chars = chars_of(arg);
    let (is_url, skip) = if starts_with(&chars, "https://github.com/") {
        (true, chars_of("https://github.com/").len())
    } else if starts_with(&chars, "http://github.com/") {
        (true, chars_of("http://github.com/").len())
    } else if starts_with(&chars, "github.com/") {
        (true, chars_of("github.com/").len())
    } else {
        (false, 0)
    };
    if is_url {
        let rest = crate::text::slice_range(&chars, skip, chars.len());
        proof {
            assert(url_rest(arg@) == Some(rest@));
        }
        let parts = split_chars(&rest, '/');
        let pull = chars_of("pull");
        proof {
            assert(crate::text::pieces_view(parts@).len() == parts@.len());
        }
        if parts.len() >= 4 && chars_eq(parts[2].as_slice(), pull.as_slice()) {
            proof {
                let pv = crate::text::pieces_view(parts@);
                assert(pv[2] == parts@[2]@ && pv[3] == parts@[3]@);
                assert(pv[0] == parts@[0]@ && pv[1] == parts@[1]@);
            }
            let digits = take_digits(&parts[3]);
            match parse_decimal(digits.as_slice(), u64::MAX) {
                Some(number) => {
                    let owner = string_of_range(&parts[0], 0, parts[0].len());
                    let repo = string_of_range(&parts[1], 0, parts[1].len());
                    proof {
                        assert(parts@[0]@.subrange(0, parts@[0]@.len() as int) == parts@[0]@);
                        assert(parts@[1]@.subrange(0, parts@[1]@.len() as int) == parts@[1]@);
                    }
                    return Ok(PrLocator { owner, repo, number });
                },
                None => {
                    return Err(PrArgError::NoNumberInUrl);
                },
            }
        }
        proof {
            let pv = crate::text::pieces_view(parts@);
            if parts@.len() >= 4 {
                assert(pv[2] == parts@[2]@);
            }
        }
        return Err(PrArgError::UnrecognizedUrl);
    }
    proof {
        assert(url_rest(arg@) is None);
    }
    match position_of(&chars, '#') {
        Some(i) => {
            proof {
                lemma_find_char(chars@, '#');
                assert(i < chars@.len());
            }
            let repo_part = crate::text::slice_range(&chars, 0, i);
            let num_part = crate::text::slice_range(&chars, i + 1, chars.len());
            proof {
                assert(repo_part@ == arg@.take(i as int));
                assert(num_part@ == arg@.skip(i + 1));
            }
            let number = match parse_decimal(num_part.as_slice(), u64::MAX) {
                Some(n) => n,
                None => {
                    return Err(PrArgError::InvalidNumber);
                },
            };
            if repo_part.len() == 0 {
                return Err(PrArgError::InCurrentRepo { number });
            }
            match position_of(&repo_part, '/') {
                Some(j) => {
                    proof {
                        lemma_find_char(repo_part@, '/');
                    }
                    let owner = string_of_range(&repo_part, 0, j);
                    let repo = string_of_range(&repo_part, j + 1, repo_part.len());
                    proof {
                        assert(repo_part@.subrange(0, j as int) == repo_part@.take(j as int));
                        assert(repo_part@.subrange(j + 1, repo_part@.len() as int) == repo_part@.skip(
                            j + 1,
                        ));
                    }
                    Ok(PrLocator { owner, repo, number })
                },
                None => Err(PrArgError::MissingRepo),
            }
        },
        None => match parse_decimal(chars.as_slice(), u64::MAX) {
            Some(number) => Err(PrArgError::InCurrentRepo { number }),
            None => Err(PrArgError::Unrecognized),
        },
    }
}

/// The pull request `number` of the current directory's repository, given
/// what `gh repo view --json nameWithOwner --jq .nameWithOwner` printed.
pub fn locator_in_cwd_repo(number: u64, repo_view: &str) -> (r: Result<PrLocator, PrArgError>)
    ensures
        match find_char(trim(repo_view@), '/') {
            Some(j) => r matches Ok(loc) && loc.owner@ == trim(repo_view@).take(j as int) && loc.repo@
                == trim(repo_view@).skip(j as int + 1) && loc.number == number,
            None => r == Err::<PrLocator, PrArgError>(PrArgError::UnexpectedRepoView),
        },
{
    let chars = chars_of(repo_view);
    let (lo, hi) = trim_bounds(&chars);
    let t = crate::text::slice_range(&chars, lo, hi);
    match position_of(&t, '/') {
        Some(j) => {
            proof {
                lemma_find_char(t@, '/');
            }
            let owner = string_of_range(&t, 0, j);
            let repo = string_of_range(&t, j + 1, t.len());
            proof {
                assert(t@.subrange(0, j as int) == t@.take(j as int));
                assert(t@.subrange(j + 1, t@.len() as int) == t@.skip(j + 1));
            }
            Ok(PrLocator { owner, repo, number })
        },
        None => Err(PrArgError::UnexpectedRepoView),
    }
}


// ---------------------------------------------------------------------------
// Metadata
// ---------------------------------------------------------------------------

/// What `gh pr view` reports of a pull request.
#[derive(Debug, Clone)]
pub struct PrMeta {
    pub number: u64,
    pub title: String,
    pub author: Author,
    pub state: PrState,
    pub is_draft: bool,
    pub url: String,
    pub body: String,
    pub base_ref_name: String,
    pub head_ref_name: String,
    pub base_ref_oid: String,
    pub head_ref_oid: String,
    pub additions: u64,
    pub deletions: u64,
    pub changed_files: u64,
    pub review_decision: ReviewDecision,
}

/// The arguments of `gh pr view` that fetch the metadata of `loc`.
pub fn fetch_meta(loc: &PrLocator) -> (args: Vec<String>)
    ensures
        views(args@) == seq![
            "pr"@,
            "view"@,
            decimal(loc.number as nat),
            "--repo"@,
            loc.slug(),
            "--json"@,
            "number,title,author,state,isDraft,url,body,baseRefName,headRefName,baseRefOid,headRefOid,additions,deletions,changedFiles,reviewDecision"@,
        ],
{
    let mut args: Vec<String> = Vec::new();
    args.push("pr".to_owned());
    args.push("view".to_owned());
    args.push(decimal_text(loc.number));
    args.push("--repo".to_owned());
    args.push(loc.repo_slug());
    args.push("--json".to_owned());
    args.push(
        "number,title,author,state,isDraft,url,body,baseRefName,headRefName,baseRefOid,headRefOid,additions,deletions,changedFiles,reviewDecision".to_owned(),
    );
    assert(views(args@) =~= seq![
        "pr"@,
        "view"@,
        decimal(loc.number as nat),
        "--repo"@,
        loc.slug(),
        "--json"@,
        "number,title,author,state,isDraft,url,body,baseRefName,headRefName,baseRefOid,headRefOid,additions,deletions,changedFiles,reviewDecision"@,
    ]);
    args
}

/// The arguments of `gh repo view` that print the current directory's
/// repository as `owner/repo`.
pub fn repo_view_args() -> (args: Vec<String>)
    ensures
        views(args@) == seq!["repo"@, "view"@, "--json"@, "nameWithOwner"@, "--jq"@, ".nameWithOwner"@],
{
    let mut args: Vec<String> = Vec::new();
    args.push("repo".to_owned());
    args.push("view".to_owned());
    args.push("--json".to_owned());
    args.push("nameWithOwner".to_owned());
    args.push("--jq".to_owned());
    args.push(".nameWithOwner".to_owned());
    assert(views(args@) =~= seq!["repo"@, "view"@, "--json"@, "nameWithOwner"@, "--jq"@, ".nameWithOwner"@]);
    args
}

} // verus!
