//! The pull request selector: its refresh state machine and fuzzy filtering.
use vstd::prelude::*;

use crate::search::UserPrSummary;
use crate::text::{chars_of, decimal, push_char, push_decimal, string_of_range, trim, trim_bounds};
use fuzzy_matcher::skim::SkimMatcherV2;
use fuzzy_matcher::FuzzyMatcher;

verus! {

// ---------------------------------------------------------------------------
// Fuzzy matching
// ---------------------------------------------------------------------------

/// The score that the skim matcher (default settings) gives `choice` for
/// `pattern`, or `None` where the pattern does not match.
pub uninterp spec fn skim_score(choice: Seq<char>, pattern: Seq<char>) -> Option<i64>;

/// Whether `p` holds an ASCII upper-case letter.
pub open spec fn has_ascii_upper(p: Seq<char>) -> bool {
    exists|i: int| 0 <= i < p.len() && 'A' <= #[trigger] p[i] && p[i] <= 'Z'
}

/// `char::to_ascii_lowercase`.
pub open spec fn ascii_lower(c: char) -> char {
    if 'A' <= c && c <= 'Z' {
        ((c as u32) + 32) as char
    } else {
        c
    }
}

/// Whether two characters match, exactly or up to ASCII case.
pub open spec fn chars_match(a: char, b: char, case_sensitive: bool) -> bool {
    if case_sensitive {
        a == b
    } else {
        ascii_lower(a) == ascii_lower(b)
    }
}

/// Whether the characters of `pattern` occur in `choice` in order.
pub open spec fn subsequence_in(choice: Seq<char>, pattern: Seq<char>, case_sensitive: bool) -> bool
    decreases choice.len(),
{
    if pattern.len() == 0 {
        true
    } else if choice.len() == 0 {
        false
    } else if chars_match(choice[0], pattern[0], case_sensitive) {
        subsequence_in(choice.drop_first(), pattern.drop_first(), case_sensitive)
    } else {
        subsequence_in(choice.drop_first(), pattern, case_sensitive)
    }
}

/// The skim matcher's "smart case": case matters only where the pattern
/// holds an upper-case letter.
pub open spec fn smart_case_match(choice: Seq<char>, pattern: Seq<char>) -> bool {
    subsequence_in(choice, pattern, has_ascii_upper(pattern))
}

/// `SkimMatcherV2::default().fuzzy_match(choice, pattern)`. The contract
/// names the score, and states what the matcher's source shows of when there
/// is one: exactly when the pattern's characters occur in the choice in
/// order (ASCII case ignored unless the pattern holds an upper-case letter).
/// How large the score is is left unsaid.
#[verifier::external_body]
fn skim_match(choice: &str, pattern: &str) -> (score: Option<i64>)
    ensures
        score == skim_score(choice@, pattern@),
        score is Some <==> smart_case_match(choice@, pattern@),
{
    SkimMatcherV2::default().fuzzy_match(choice, pattern)
}

/// `i` ranks before `j`: a higher score first, the lower index among equals.
pub open spec fn ranks_before(si: i64, i: int, sj: i64, j: int) -> bool {
    si > sj || (si == sj && i < j)
}

/// `out` lists the indices whose score is `Some`, best score first and,
/// among equal scores, in index order.
pub open spec fn is_score_ranking(out: Seq<usize>, scores: Seq<Option<i64>>) -> bool {
    &&& forall|k: int| 0 <= k < out.len() ==> out[k] < scores.len() && scores[out[k] as int] is Some
    &&& forall|i: int|
        0 <= i < scores.len() && scores[i] is Some ==> exists|k: int| 0 <= k < out.len() && out[k] == i
    &&& forall|a: int, b: int|
        0 <= a < b < out.len() ==> ranks_before(
            scores[out[a] as int]->0,
            out[a] as int,
            scores[out[b] as int]->0,
            out[b] as int,
        )
}

/// The skim matcher's scores of `texts` for `query`.
pub open spec fn skim_scores(texts: Seq<Seq<char>>, query: Seq<char>) -> Seq<Option<i64>> {
    texts.map_values(|t: Seq<char>| skim_score(t, query))
}

/// The characters of each string.
pub open spec fn text_views(texts: Seq<String>) -> Seq<Seq<char>> {
    texts.map_values(|t: String| t@)
}

/// The indices of `texts` that `query` (trimmed) selects: all of them in
/// order when the trimmed query is empty, else the ones the matcher scores,
/// best first.
pub open spec fn fuzzy_selection(out: Seq<usize>, texts: Seq<Seq<char>>, query: Seq<char>) -> bool {
    if trim(query).len() == 0 {
        out == Seq::new(texts.len(), |i: int| i as usize)
    } else {
        is_score_ranking(out, skim_scores(texts, trim(query)))
    }
}

/// Ranks the indices that have a score: best score first, ties in index
/// order; indices without a score are left out.
pub fn rank_matches(scores: &Vec<Option<i64>>) -> (out: Vec<usize>)
    ensures
        is_score_ranking(out@, scores@),
{
    let n = scores.len();
    // (score, index) pairs kept in rank order
    let mut ranked: Vec<(i64, usize)> = Vec::new();
    let mut i: usize = 0;
    while i < n
        invariant
            0 <= i <= n == scores@.len(),
            forall|k: int|
                0 <= k < ranked@.len() ==> ranked@[k].1 < i && scores@[ranked@[k].1 as int] == Some(
                    ranked@[k].0,
                ),
            forall|j: int|
                0 <= j < i && scores@[j] is Some ==> exists|k: int|
                    0 <= k < ranked@.len() && ranked@[k].1 == j,
            forall|a: int, b: int|
                0 <= a < b < ranked@.len() ==> ranks_before(
                    ranked@[a].0,
                    ranked@[a].1 as int,
                    ranked@[b].0,
                    ranked@[b].1 as int,
                ),
        decreases n - i,
    {
        if let Some(s) = scores[i] {
            let mut pos: usize = 0;
            while pos < ranked.len() && ranked[pos].0 >= s
                invariant
                    0 <= pos <= ranked@.len(),
                    forall|a: int| 0 <= a < pos ==> ranked@[a].0 >= s,
                decreases ranked@.len() - pos,
            {
                pos = pos + 1;
            }
            let ghost old_ranked = ranked@;
            ranked.insert(pos, (s, i));
            proof {
                assert(ranked@ == old_ranked.insert(pos as int, (s, i)));
                assert forall|a: int, b: int| 0 <= a < b < ranked@.len() implies ranks_before(
                    ranked@[a].0,
                    ranked@[a].1 as int,
                    ranked@[b].0,
                    ranked@[b].1 as int,
                ) by {
                    if b < pos {
                        assert(ranked@[a] == old_ranked[a] && ranked@[b] == old_ranked[b]);
                    } else if b == pos {
                        assert(ranked@[a] == old_ranked[a]);
                    } else if a == pos {
                        assert(ranked@[b] == old_ranked[b - 1]);
                        assert(old_ranked[pos as int].0 < s);
                        if b - 1 > pos {
                            assert(ranks_before(
                                old_ranked[pos as int].0,
                                old_ranked[pos as int].1 as int,
                                old_ranked[b - 1].0,
                                old_ranked[b - 1].1 as int,
                            ));
                        }
                    } else if a < pos {
                        assert(ranked@[a] == old_ranked[a] && ranked@[b] == old_ranked[b - 1]);
                    } else {
                        assert(ranked@[a] == old_ranked[a - 1] && ranked@[b] == old_ranked[b - 1]);
                    }
                }
                assert forall|k: int| 0 <= k < ranked@.len() implies ranked@[k].1 < i + 1
                    && scores@[ranked@[k].1 as int] == Some(ranked@[k].0) by {
                    if k < pos {
                        assert(ranked@[k] == old_ranked[k]);
                    } else if k > pos {
                        assert(ranked@[k] == old_ranked[k - 1]);
                    }
                }
                assert forall|j: int| 0 <= j < i + 1 && scores@[j] is Some implies exists|k: int|
                    0 <= k < ranked@.len() && ranked@[k].1 == j by {
                    if j == i {
                        assert(ranked@[pos as int].1 == j);
                    } else {
                        let k = choose|k: int| 0 <= k < old_ranked.len() && old_ranked[k].1 == j;
                        if k < pos {
                            assert(ranked@[k] == old_ranked[k]);
                        } else {
                            assert(ranked@[k + 1] == old_ranked[k]);
                        }
                    }
                }
            }
        }
        i = i + 1;
    }
    let mut out: Vec<usize> = Vec::new();
    let mut k: usize = 0;
    while k < ranked.len()
        invariant
            0 <= k <= ranked@.len(),
            out@.len() == k,
            forall|a: int| 0 <= a < k ==> out@[a] == ranked@[a].1,
        decreases ranked@.len() - k,
    {
        out.push(ranked[k].1);
        k = k + 1;
    }
    proof {
        assert forall|j: int| 0 <= j < n && scores@[j] is Some implies exists|a: int|
            0 <= a < out@.len() && out@[a] == j by {
            let a = choose|a: int| 0 <= a < ranked@.len() && ranked@[a].1 == j;
            assert(out@[a] == j);
        }
    }
    out
}

/// `out` lists exactly the indices of the texts that the trimmed `query`
/// matches: those in which its characters occur in order, with ASCII case
/// ignored unless it holds an upper-case letter (every text, for a blank
/// query).
pub open spec fn lists_matches(out: Seq<usize>, texts: Seq<Seq<char>>, query: Seq<char>) -> bool {
    forall|i: int|
        0 <= i < texts.len() ==> ((exists|k: int| 0 <= k < out.len() && out[k] == i) <==> smart_case_match(
            #[trigger] texts[i],
            trim(query),
        ))
}

/// Ranks `texts` against `query`: with an empty (trimmed) query every index
/// in order, else the indices that the skim matcher matches, best score first,
/// ties in index order.
pub fn fuzzy_indices(texts: &Vec<String>, query: &str) -> (out: Vec<usize>)
    ensures
        fuzzy_selection(out@, text_views(texts@), query@),
        lists_matches(out@, text_views(texts@), query@),
{
    let qc = chars_of(query);
    let (lo, hi) = trim_bounds(&qc);
    let q = string_of_range(&qc, lo, hi);
    let n = texts.len();
    if lo == hi {
        let mut all: Vec<usize> = Vec::new();
        let mut i: usize = 0;
        while i < n
            invariant
                0 <= i <= n == texts@.len(),
                all@ == Seq::new(i as nat, |k: int| k as usize),
            decreases n - i,
        {
            all.push(i);
            assert(all@ =~= Seq::new((i + 1) as nat, |k: int| k as usize));
            i = i + 1;
        }
        proof {
            let tv = text_views(texts@);
            assert(trim(query@) =~= Seq::<char>::empty()) by {
                assert(qc@.subrange(lo as int, hi as int).len() == 0);
            }
            assert forall|j: int| 0 <= j < tv.len() implies ((exists|k: int|
                0 <= k < all@.len() && all@[k] == j) <==> smart_case_match(#[trigger] tv[j], trim(query@))) by {
                assert(all@[j] == j);
            }
        }
        return all;
    }
    let mut scores: Vec<Option<i64>> = Vec::new();
    let mut i: usize = 0;
    while i < n
        invariant
            0 <= i <= n == texts@.len(),
            scores@.len() == i,
            forall|k: int| 0 <= k < i ==> scores@[k] == skim_score(texts@[k]@, q@),
            forall|k: int| 0 <= k < i ==> (scores@[k] is Some <==> smart_case_match(texts@[k]@, q@)),
        decreases n - i,
    {
        scores.push(skim_match(texts[i].as_str(), q.as_str()));
        i = i + 1;
    }
    assert(scores@ =~= skim_scores(text_views(texts@), trim(query@)));
    let out = rank_matches(&scores);
    proof {
        let tv = text_views(texts@);
        assert forall|j: int| 0 <= j < tv.len() implies ((exists|k: int|
            0 <= k < out@.len() && out@[k] == j) <==> smart_case_match(#[trigger] tv[j], trim(query@))) by {
            assert(tv[j] == texts@[j]@);
            assert(q@ == trim(query@));
            if smart_case_match(tv[j], trim(query@)) {
                assert(scores@[j] is Some);
            }
            if exists|k: int| 0 <= k < out@.len() && out@[k] == j {
                let k = choose|k: int| 0 <= k < out@.len() && out@[k] == j;
                assert(scores@[out@[k] as int] is Some);
            }
        }
    }
    out
}

/// The text a selector row is searched by:
/// `"{repository} #{number} {title} {author}"`.
pub open spec fn search_text(pr: UserPrSummary) -> Seq<char> {
    pr.repository.name_with_owner@ + seq![' ', '#'] + decimal(pr.number as nat) + seq![' ']
        + pr.title@ + seq![' '] + pr.author.login@
}

/// The search text of one row.
pub fn row_search_text(pr: &UserPrSummary) -> (out: String)
    ensures
        out@ == search_text(*pr),
{
    let mut out = String::new();
    out.append(pr.repository.name_with_owner.as_str());
    push_char(&mut out, ' ');
    push_char(&mut out, '#');
    push_decimal(&mut out, pr.number);
    push_char(&mut out, ' ');
    out.append(pr.title.as_str());
    push_char(&mut out, ' ');
    out.append(pr.author.login.as_str());
    out
}

/// The search texts of `rows`, in order.
pub open spec fn search_texts(rows: Seq<UserPrSummary>) -> Seq<Seq<char>> {
    rows.map_values(|pr: UserPrSummary| search_text(pr))
}

/// The rows of the selector that `query` shows, as indices into `rows`.
pub fn filter(rows: &Vec<UserPrSummary>, query: &str) -> (out: Vec<usize>)
    ensures
        fuzzy_selection(out@, search_texts(rows@), query@),
        lists_matches(out@, search_texts(rows@), query@),
{
    let mut texts: Vec<String> = Vec::new();
    let mut i: usize = 0;
    while i < rows.len()
        invariant
            0 <= i <= rows@.len(),
            texts@.len() == i,
            forall|k: int| 0 <= k < i ==> #[trigger] texts@[k]@ == search_text(rows@[k]),
        decreases rows@.len() - i,
    {
        texts.push(row_search_text(&rows[i]));
        i = i + 1;
    }
    let out = fuzzy_indices(&texts, query);
    assert(text_views(texts@) =~= search_texts(rows@));
    out
}

// ---------------------------------------------------------------------------
// Refresh state
// ---------------------------------------------------------------------------

/// Where the selector's list refresh stands.
#[derive(Debug, Clone, PartialEq, Eq)]
pub enum RefreshPhase {
    Idle,
    Loading { request: u64 },
    Failed { request: u64, message: String },
}

/// The pull request selector: the rows last loaded, the refresh in flight
/// or the last refresh error, and whether the list is expanded.
pub struct PrSelector {
    pub rows: Vec<UserPrSummary>,
    pub phase: RefreshPhase,
    pub next_request: u64,
    pub expanded: bool,
}

/// `new` is `old` after a refresh began under `request`: the next request
/// number, now in flight, with the rows kept.
pub open spec fn refresh_begun(old: PrSelector, new: PrSelector, request: u64) -> bool {
    &&& request == old.next_request + 1
    &&& new.next_request == request
    &&& new.phase == (RefreshPhase::Loading { request })
    &&& new.rows == old.rows
    &&& new.expanded == old.expanded
}

/// `new` is `old` after the answer `result` to `request` came, `taken` saying
/// whether it was the answer to the refresh in flight.
pub open spec fn result_applied(
    old: PrSelector,
    new: PrSelector,
    request: u64,
    result: Result<Vec<UserPrSummary>, String>,
    taken: bool,
) -> bool {
    &&& taken == (old.phase == RefreshPhase::Loading { request })
    &&& !taken ==> new == old
    &&& taken ==> match result {
        Ok(rows) => new.rows == rows && new.phase == RefreshPhase::Idle,
        Err(message) => new.rows == old.rows && new.phase == (RefreshPhase::Failed { request, message }),
    }
    &&& new.next_request == old.next_request
    &&& new.expanded == old.expanded
}

impl PrSelector {
    /// An expanded selector with no rows and no refresh.
    pub fn new() -> (s: Self)
        ensures
            s.rows@.len() == 0,
            s.phase == RefreshPhase::Idle,
            s.next_request == 0,
            s.expanded,
    {
        PrSelector { rows: Vec::new(), phase: RefreshPhase::Idle, next_request: 0, expanded: true }
    }

    /// Starts a refresh under a fresh request number, which it returns; the
    /// rows stay as they are until the answer comes.
    pub fn begin_refresh(&mut self) -> (request: u64)
        requires
            old(self).next_request < u64::MAX,
        ensures
            refresh_begun(*old(self), *final(self), request),
    {
        self.next_request = self.next_request + 1;
        self.phase = RefreshPhase::Loading { request: self.next_request };
        self.next_request
    }

    /// Takes the answer to refresh `request`. Only the refresh in flight is
    /// taken (the answer to any other request is dropped and `false` comes
    /// back): rows replace the list and end the refresh, an error keeps the
    /// rows and records its message.
    pub fn apply_result(&mut self, request: u64, result: Result<Vec<UserPrSummary>, String>) -> (taken: bool)
        ensures
            result_applied(*old(self), *final(self), request, result, taken),
    {
        let active = match &self.phase {
            RefreshPhase::Loading { request: active } => *active == request,
            _ => false,
        };
        if !active {
            return false;
        }
        match result {
            Ok(rows) => {
                self.rows = rows;
                self.phase = RefreshPhase::Idle;
            },
            Err(message) => {
                self.phase = RefreshPhase::Failed { request, message };
            },
        }
        true
    }

    /// Drops the row of pull request `number` of `repo`, keeping the others
    /// in order.
    pub fn remove(&mut self, repo: &str, number: u64)
        ensures
            final(self).rows@ == rows_without(old(self).rows@, repo@, number),
            final(self).phase == old(self).phase,
            final(self).next_request == old(self).next_request,
            final(self).expanded == old(self).expanded,
    {
        let mut rows: Vec<UserPrSummary> = Vec::new();
        core::mem::swap(&mut rows, &mut self.rows);
        self.rows = without_row(rows, repo, number);
    }

    /// Expands or collapses the list.
    pub fn toggle_expanded(&mut self)
        ensures
            final(self).expanded == !old(self).expanded,
            final(self).rows == old(self).rows,
            final(self).phase == old(self).phase,
            final(self).next_request == old(self).next_request,
    {
        self.expanded = !self.expanded;
    }

    /// Whether a refresh is in flight.
    pub fn is_loading(&self) -> (r: bool)
        ensures
            r == (self.phase is Loading),
    {
        match self.phase {
            RefreshPhase::Loading { .. } => true,
            _ => false,
        }
    }

    /// The message of the last refresh error, while no refresh has replaced it.
    pub fn error(&self) -> (r: Option<String>)
        ensures
            match self.phase {
                RefreshPhase::Failed { message, .. } => r == Some(message),
                _ => r is None,
            },
    {
        match &self.phase {
            RefreshPhase::Failed { message, .. } => Some(message.clone()),
            _ => None,
        }
    }
}


/// A row stays unless it is pull request `number` of the repository `repo`.
pub open spec fn keeps_row(pr: UserPrSummary, repo: Seq<char>, number: u64) -> bool {
    !(pr.number == number && pr.repository.name_with_owner@ == repo)
}

/// `rows` without the rows of pull request `number` of `repo`, in order.
pub open spec fn rows_without(rows: Seq<UserPrSummary>, repo: Seq<char>, number: u64) -> Seq<UserPrSummary> {
    rows.filter(|pr: UserPrSummary| keeps_row(pr, repo, number))
}

/// `rows` without pull request `number` of `repo`, in order.
fn without_row(rows: Vec<UserPrSummary>, repo: &str, number: u64) -> (out: Vec<UserPrSummary>)
    ensures
        out@ == rows_without(rows@, repo@, number),
{
    let ghost pred = |pr: UserPrSummary| keeps_row(pr, repo@, number);
    let ghost orig = rows@;
    assert(orig.len() == rows.len());
    let target = chars_of(repo);
    let mut rows = rows;
    let mut rev: Vec<UserPrSummary> = Vec::new();
    while rows.len() > 0
        invariant
            rev@.len() + rows@.len() == orig.len(),
            orig.len() <= usize::MAX,
            rows@ == orig.take(rows@.len() as int),
            forall|j: int| 0 <= j < rev@.len() ==> rev@[j] == orig[orig.len() - 1 - j],
        decreases rows@.len(),
    {
        let p = rows.pop().unwrap();
        rev.push(p);
        assert(rows@ == orig.take(rows@.len() as int));
    }
    assert(orig.take(0).filter(pred) == Seq::<UserPrSummary>::empty()) by {
        reveal(Seq::filter);
    }
    let mut out: Vec<UserPrSummary> = Vec::new();
    let mut i: usize = 0;
    while rev.len() > 0
        invariant
            i as int + rev@.len() == orig.len(),
            orig.len() <= usize::MAX,
            forall|j: int| 0 <= j < rev@.len() ==> rev@[j] == orig[orig.len() - 1 - j],
            out@ == orig.take(i as int).filter(pred),
            target@ == repo@,
            pred == (|pr: UserPrSummary| keeps_row(pr, repo@, number)),
        decreases rev@.len(),
    {
        let p = rev.pop().unwrap();
        assert(p == orig[i as int]);
        let ghost t = orig.take(i + 1);
        assert(t.drop_last() == orig.take(i as int));
        assert(t.last() == p);
        let name = chars_of(p.repository.name_with_owner.as_str());
        let drop = p.number == number && crate::text::chars_eq(name.as_slice(), target.as_slice());
        assert(drop == !pred(p));
        assert(t.filter(pred) == (if pred(p) {
            orig.take(i as int).filter(pred).push(p)
        } else {
            orig.take(i as int).filter(pred)
        })) by {
            reveal(Seq::filter);
        }
        if !drop {
            out.push(p);
        }
        i = i + 1;
    }
    assert(orig.take(i as int) == orig);
    out
}


// ---------------------------------------------------------------------------
// What the selector shows
// ---------------------------------------------------------------------------

/// The most rows the list shows at once (more scroll).
pub const VISIBLE_ROWS: usize = 5;

/// What the selector's body shows.
#[derive(Debug, Clone, PartialEq, Eq)]
pub enum SelectorBody {
    /// The list is collapsed.
    Collapsed,
    /// No rows yet and a refresh is running.
    Loading,
    /// No rows, and the last refresh failed with this message.
    Failed(String),
    /// No rows: the user has no open pull requests.
    NoOpenPrs,
    /// Rows, but the query matches none of them.
    NoMatches,
    /// `count` matching rows, `visible` of them at a time.
    Rows { count: usize, visible: usize },
}

impl PrSelector {
    /// The header: `"Pull requests ({total})"`.
    pub fn header_title(&self) -> (r: String)
        ensures
            r@ == "Pull requests ("@ + decimal(self.rows@.len() as nat) + ")"@,
    {
        let mut r = String::new();
        r.append("Pull requests (");
        push_decimal(&mut r, self.rows.len() as u64);
        r.append(")");
        r
    }

    /// The body, given how many rows the query matches.
    pub fn body(&self, matching: usize) -> (r: SelectorBody)
        ensures
            !self.expanded ==> r == SelectorBody::Collapsed,
            self.expanded && self.rows@.len() == 0 && self.phase is Loading ==> r == SelectorBody::Loading,
            self.expanded && self.rows@.len() == 0 && !(self.phase is Loading) ==> r == (match self.phase {
                RefreshPhase::Failed { message, .. } => SelectorBody::Failed(message),
                _ => SelectorBody::NoOpenPrs,
            }),
            self.expanded && self.rows@.len() > 0 && matching == 0 ==> r == SelectorBody::NoMatches,
            self.expanded && self.rows@.len() > 0 && matching > 0 ==> r == (SelectorBody::Rows {
                count: matching,
                visible: if matching < VISIBLE_ROWS { matching } else { VISIBLE_ROWS },
            }),
    {
        if !self.expanded {
            return SelectorBody::Collapsed;
        }
        let loading = self.is_loading();
        if self.rows.len() == 0 && loading {
            return SelectorBody::Loading;
        }
        if self.rows.len() == 0 {
            return match self.error() {
                Some(message) => SelectorBody::Failed(message),
                None => SelectorBody::NoOpenPrs,
            };
        }
        if matching == 0 {
            return SelectorBody::NoMatches;
        }
        SelectorBody::Rows {
            count: matching,
            visible: if matching < VISIBLE_ROWS {
                matching
            } else {
                VISIBLE_ROWS
            },
        }
    }

    /// The error shown under a non-empty expanded list.
    pub fn footer_error(&self) -> (r: Option<String>)
        ensures
            self.expanded && self.rows@.len() > 0 ==> match self.phase {
                RefreshPhase::Failed { message, .. } => r == Some(message),
                _ => r is None,
            },
            !(self.expanded && self.rows@.len() > 0) ==> r is None,
    {
        if self.expanded && self.rows.len() > 0 {
            self.error()
        } else {
            None
        }
    }
}

/// The second line of a row: `"{repository}#{number} · @{author}"`.
pub fn row_caption(pr: &UserPrSummary) -> (r: String)
    ensures
        r@ == pr.repository.name_with_owner@ + seq!['#'] + decimal(pr.number as nat) + " · @"@
            + pr.author.login@,
{
    let mut r = String::new();
    r.append(pr.repository.name_with_owner.as_str());
    push_char(&mut r, '#');
    push_decimal(&mut r, pr.number);
    r.append(" · @");
    r.append(pr.author.login.as_str());
    r
}

} // verus!
