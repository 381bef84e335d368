//! Open pull requests: the rows that `gh pr list` and `gh search prs` return,
//! and the merge of the authored and review-requested searches.
use vstd::prelude::*;

use crate::command::GhError;
use crate::model::Author;
use crate::text::{
    chars_eq, chars_less, chars_of, lemma_text_less_irreflexive, lemma_text_less_total,
    lemma_text_less_transitive, push_char, text_less, views,
};

verus! {

/// One row of `gh pr list`.
#[derive(Debug, Clone, PartialEq, Eq)]
pub struct PrSummary {
    pub number: u64,
    pub title: String,
    pub author: Author,
    pub state: String,
    pub is_draft: bool,
    pub head_ref_name: String,
    pub updated_at: String,
}

/// One row of `gh search prs`.
#[derive(Debug, Clone, PartialEq, Eq)]
pub struct UserPrSummary {
    pub number: u64,
    pub title: String,
    pub author: Author,
    pub is_draft: bool,
    pub updated_at: String,
    pub repository: Repository,
    pub url: String,
}

/// The repository a searched pull request belongs to.
#[derive(Debug, Clone, PartialEq, Eq)]
pub struct Repository {
    pub name: String,
    pub name_with_owner: String,
}

/// What identifies a pull request across searches: its repository and number.
pub open spec fn pr_key(pr: UserPrSummary) -> (Seq<char>, u64) {
    (pr.repository.name_with_owner@, pr.number)
}

/// The entry that the merge keeps for `key` after reading `prs` in order:
/// the first one with that key, replaced by any later one whose `updated_at`
/// is strictly greater.
pub open spec fn kept_for(prs: Seq<UserPrSummary>, key: (Seq<char>, u64)) -> Option<UserPrSummary>
    decreases prs.len(),
{
    if prs.len() == 0 {
        None
    } else {
        let prev = kept_for(prs.drop_last(), key);
        let pr = prs.last();
        if pr_key(pr) == key && (prev is None || text_less(prev->0.updated_at@, pr.updated_at@)) {
            Some(pr)
        } else {
            prev
        }
    }
}

/// The display order: most recently updated first, then by repository,
/// then by number.
pub open spec fn shown_before(a: UserPrSummary, b: UserPrSummary) -> bool {
    ||| text_less(b.updated_at@, a.updated_at@)
    ||| (a.updated_at@ == b.updated_at@ && text_less(
        a.repository.name_with_owner@,
        b.repository.name_with_owner@,
    ))
    ||| (a.updated_at@ == b.updated_at@ && a.repository.name_with_owner@
        == b.repository.name_with_owner@ && a.number < b.number)
}

/// `prs` is in display order, each entry strictly before the next.
pub open spec fn in_display_order(prs: Seq<UserPrSummary>) -> bool {
    forall|i: int, j: int| 0 <= i < j < prs.len() ==> shown_before(#[trigger] prs[i], #[trigger] prs[j])
}

/// `out` is the merge of `prs`: one entry per key found in `prs`, the one
/// `kept_for` chooses, in display order.
pub open spec fn is_merge_of(out: Seq<UserPrSummary>, prs: Seq<UserPrSummary>) -> bool {
    &&& in_display_order(out)
    &&& forall|i: int| 0 <= i < out.len() ==> kept_for(prs, pr_key(#[trigger] out[i])) == Some(out[i])
    &&& forall|j: int| 0 <= j < prs.len() ==> exists|i: int| 0 <= i < out.len() && pr_key(#[trigger] out[i]) == pr_key(#[trigger] prs[j])
}

pub proof fn lemma_shown_before_irreflexive(a: UserPrSummary)
    ensures
        !shown_before(a, a),
{
    lemma_text_less_irreflexive(a.updated_at@);
    lemma_text_less_irreflexive(a.repository.name_with_owner@);
}

pub proof fn lemma_shown_before_transitive(a: UserPrSummary, b: UserPrSummary, c: UserPrSummary)
    requires
        shown_before(a, b),
        shown_before(b, c),
    ensures
        shown_before(a, c),
{
    if text_less(b.updated_at@, a.updated_at@) && text_less(c.updated_at@, b.updated_at@) {
        lemma_text_less_transitive(c.updated_at@, b.updated_at@, a.updated_at@);
    }
    if text_less(a.repository.name_with_owner@, b.repository.name_with_owner@) && text_less(
        b.repository.name_with_owner@,
        c.repository.name_with_owner@,
    ) {
        lemma_text_less_transitive(
            a.repository.name_with_owner@,
            b.repository.name_with_owner@,
            c.repository.name_with_owner@,
        );
    }
}

pub proof fn lemma_shown_before_total(a: UserPrSummary, b: UserPrSummary)
    requires
        pr_key(a) != pr_key(b),
    ensures
        shown_before(a, b) || shown_before(b, a),
{
    lemma_text_less_total(a.updated_at@, b.updated_at@);
    lemma_text_less_total(a.repository.name_with_owner@, b.repository.name_with_owner@);
}

/// Whether `a` and `b` name the same pull request.
fn same_key(a: &UserPrSummary, b: &UserPrSummary) -> (r: bool)
    ensures
        r == (pr_key(*a) == pr_key(*b)),
{
    if a.number != b.number {
        return false;
    }
    let x = chars_of(a.repository.name_with_owner.as_str());
    let y = chars_of(b.repository.name_with_owner.as_str());
    chars_eq(x.as_slice(), y.as_slice())
}

/// Whether `a` comes before `b` in display order.
fn before(a: &UserPrSummary, b: &UserPrSummary) -> (r: bool)
    ensures
        r == shown_before(*a, *b),
{
    let au = chars_of(a.updated_at.as_str());
    let bu = chars_of(b.updated_at.as_str());
    if chars_less(&bu, &au) {
        return true;
    }
    if !chars_eq(au.as_slice(), bu.as_slice()) {
        return false;
    }
    let an = chars_of(a.repository.name_with_owner.as_str());
    let bn = chars_of(b.repository.name_with_owner.as_str());
    if chars_less(&an, &bn) {
        return true;
    }
    chars_eq(an.as_slice(), bn.as_slice()) && a.number < b.number
}

/// Whether `a` was updated strictly later than `b`.
fn newer(a: &UserPrSummary, b: &UserPrSummary) -> (r: bool)
    ensures
        r == text_less(b.updated_at@, a.updated_at@),
{
    let au = chars_of(a.updated_at.as_str());
    let bu = chars_of(b.updated_at.as_str());
    chars_less(&bu, &au)
}

/// The keys of `kept` are distinct, and `kept` holds, for each key seen in
/// `seen`, exactly the entry that `kept_for` chooses.
spec fn tracks(kept: Seq<UserPrSummary>, seen: Seq<UserPrSummary>) -> bool {
    &&& forall|a: int, b: int|
        0 <= a < b < kept.len() ==> pr_key(#[trigger] kept[a]) != pr_key(#[trigger] kept[b])
    &&& forall|a: int| 0 <= a < kept.len() ==> kept_for(seen, pr_key(#[trigger] kept[a])) == Some(kept[a])
    &&& forall|k: (Seq<char>, u64)|
        #[trigger] kept_for(seen, k) is Some ==> exists|a: int| 0 <= a < kept.len() && pr_key(#[trigger] kept[a]) == k
}

pub(crate) proof fn lemma_kept_for_key(prs: Seq<UserPrSummary>, key: (Seq<char>, u64))
    ensures
        kept_for(prs, key) matches Some(p) ==> pr_key(p) == key,
        kept_for(prs, key) is None ==> forall|j: int| 0 <= j < prs.len() ==> pr_key(#[trigger] prs[j]) != key,
    decreases prs.len(),
{
    if prs.len() > 0 {
        lemma_kept_for_key(prs.drop_last(), key);
        assert forall|j: int| 0 <= j < prs.len() - 1 implies prs.drop_last()[j] == prs[j] by {}
    }
}

/// Reads `prs` in order, keeping one entry per key, the one `kept_for` chooses.
fn dedupe(prs: Vec<UserPrSummary>, kept: &mut Vec<UserPrSummary>, Ghost(before): Ghost<Seq<UserPrSummary>>)
    requires
        tracks(old(kept)@, before),
    ensures
        tracks(final(kept)@, before + prs@),
{
    let ghost all = prs@;
    assert(all.len() == prs.len());
    let mut rest = prs;
    let ghost mut seen = before;
    // `rest` is consumed from the front by reversing it once.
    let mut rev: Vec<UserPrSummary> = Vec::new();
    while rest.len() > 0
        invariant
            rev@.len() + rest@.len() == all.len(),
            forall|j: int| 0 <= j < rev@.len() ==> rev@[j] == all[all.len() - 1 - j],
            rest@ == all.take(rest@.len() as int),
        decreases rest@.len(),
    {
        let ghost old_rest = rest@;
        let p = rest.pop().unwrap();
        rev.push(p);
        assert(rest@ == all.take(rest@.len() as int));
    }
    assert(seen + all.take(0) == before);
    let mut i: usize = 0;
    while rev.len() > 0
        invariant
            i as int + rev@.len() == all.len(),
            all.len() <= usize::MAX,
            forall|j: int| 0 <= j < rev@.len() ==> rev@[j] == all[all.len() - 1 - j],
            seen == before + all.take(i as int),
            tracks(kept@, seen),
        decreases rev@.len(),
    {
        let p = rev.pop().unwrap();
        assert(p == all[i as int]);
        let ghost next = seen.push(p);
        assert(next == before + all.take(i + 1));
        assert(next.drop_last() == seen);
        let mut j: usize = 0;
        let mut found: Option<usize> = None;
        while j < kept.len()
            invariant_except_break
                found is None,
            invariant
                0 <= j <= kept@.len(),
                forall|a: int| 0 <= a < j ==> pr_key(#[trigger] kept@[a]) != pr_key(p),
            ensures
                found matches Some(f) ==> f < kept@.len() && pr_key(kept@[f as int]) == pr_key(p),
                found is None ==> forall|a: int|
                    0 <= a < kept@.len() ==> pr_key(#[trigger] kept@[a]) != pr_key(p),
            decreases kept@.len() - j,
        {
            if same_key(&kept[j], &p) {
                found = Some(j);
                break;
            }
            j = j + 1;
        }
        proof {
            lemma_kept_for_key(seen, pr_key(p));
        }
        match found {
            Some(j) => {
                assert(pr_key(kept@[j as int]) == pr_key(p));
                if newer(&p, &kept[j]) {
                    let ghost old_kept = kept@;
                    kept.set(j, p);
                    proof {
                        assert(kept_for(next, pr_key(p)) == Some(p));
                        assert forall|k: (Seq<char>, u64)| k != pr_key(p) implies kept_for(next, k)
                            == kept_for(seen, k) by {}
                        assert forall|a: int| 0 <= a < kept@.len() && a != j implies kept@[a]
                            == old_kept[a] by {}
                        assert forall|k: (Seq<char>, u64)| #[trigger]
                            kept_for(next, k) is Some implies exists|a: int|
                            0 <= a < kept@.len() && pr_key(#[trigger] kept@[a]) == k by {
                            if k == pr_key(p) {
                                assert(pr_key(kept@[j as int]) == k);
                            } else {
                                assert(kept_for(seen, k) is Some);
                                let a = choose|a: int|
                                    0 <= a < old_kept.len() && pr_key(#[trigger] old_kept[a]) == k;
                                assert(kept@[a] == old_kept[a]);
                            }
                        }
                    }
                } else {
                    proof {
                        assert(kept_for(next, pr_key(p)) == kept_for(seen, pr_key(p)));
                        assert forall|k: (Seq<char>, u64)| k != pr_key(p) implies kept_for(next, k)
                            == kept_for(seen, k) by {}
                        assert forall|k: (Seq<char>, u64)| #[trigger]
                            kept_for(next, k) is Some implies exists|a: int|
                            0 <= a < kept@.len() && pr_key(#[trigger] kept@[a]) == k by {
                            assert(kept_for(seen, k) is Some);
                        }
                    }
                }
            },
            None => {
                let ghost old_kept = kept@;
                proof {
                    assert forall|a: int| 0 <= a < old_kept.len() implies pr_key(#[trigger] old_kept[a])
                        != pr_key(p) by {}
                    assert(kept_for(seen, pr_key(p)) is None) by {
                        if kept_for(seen, pr_key(p)) is Some {
                            let a = choose|a: int|
                                0 <= a < old_kept.len() && pr_key(#[trigger] old_kept[a]) == pr_key(p);
                        }
                    }
                }
                kept.push(p);
                proof {
                    assert(kept_for(next, pr_key(p)) == Some(p));
                    assert forall|k: (Seq<char>, u64)| k != pr_key(p) implies kept_for(next, k)
                        == kept_for(seen, k) by {}
                    assert forall|a: int| 0 <= a < old_kept.len() implies kept@[a] == old_kept[a] by {}
                    assert forall|k: (Seq<char>, u64)| #[trigger]
                        kept_for(next, k) is Some implies exists|a: int|
                        0 <= a < kept@.len() && pr_key(#[trigger] kept@[a]) == k by {
                        if k == pr_key(p) {
                            assert(pr_key(kept@[old_kept.len() as int]) == k);
                        } else {
                            assert(kept_for(seen, k) is Some);
                            let a = choose|a: int|
                                0 <= a < old_kept.len() && pr_key(#[trigger] old_kept[a]) == k;
                            assert(kept@[a] == old_kept[a]);
                        }
                    }
                }
            },
        }
        proof {
            seen = next;
        }
        i = i + 1;
    }
    assert(all.take(i as int) == all);
}

/// Inserts `p` into `out`, which is in display order and holds no entry with
/// the key of `p`, keeping the order.
fn insert_in_order(out: &mut Vec<UserPrSummary>, p: UserPrSummary)
    requires
        in_display_order(old(out)@),
        forall|i: int| 0 <= i < old(out)@.len() ==> pr_key(#[trigger] old(out)@[i]) != pr_key(p),
    ensures
        in_display_order(final(out)@),
        exists|pos: int| 0 <= pos <= old(out)@.len() && final(out)@ == old(out)@.insert(pos, p),
{
    let mut pos: usize = 0;
    while pos < out.len() && !before(&p, &out[pos])
        invariant
            0 <= pos <= out@.len(),
            forall|a: int| 0 <= a < pos ==> shown_before(#[trigger] out@[a], p),
            forall|i: int| 0 <= i < out@.len() ==> pr_key(#[trigger] out@[i]) != pr_key(p),
        decreases out@.len() - pos,
    {
        proof {
            lemma_shown_before_total(out@[pos as int], p);
        }
        pos = pos + 1;
    }
    let ghost old_out = out@;
    out.insert(pos, p);
    proof {
        assert(out@ == old_out.insert(pos as int, p));
        assert forall|i: int, j: int| 0 <= i < j < out@.len() implies shown_before(
            #[trigger] out@[i],
            #[trigger] out@[j],
        ) by {
            if j < pos {
                assert(out@[i] == old_out[i] && out@[j] == old_out[j]);
            } else if j == pos {
                assert(out@[i] == old_out[i]);
            } else if i == pos {
                assert(out@[j] == old_out[j - 1]);
                if j - 1 > pos {
                    assert(shown_before(old_out[pos as int], old_out[j - 1]));
                    lemma_shown_before_transitive(p, old_out[pos as int], old_out[j - 1]);
                }
            } else if i < pos {
                assert(out@[i] == old_out[i] && out@[j] == old_out[j - 1]);
            } else {
                assert(out@[i] == old_out[i - 1] && out@[j] == old_out[j - 1]);
            }
        }
    }
}

/// Every entry of `out` is one of `orig[m..]`, and each of those is in `out`.
spec fn holds_suffix(out: Seq<UserPrSummary>, orig: Seq<UserPrSummary>, m: int) -> bool {
    &&& forall|i: int| 0 <= i < out.len() ==> exists|k: int| m <= k < orig.len() && #[trigger] out[i] == orig[k]
    &&& forall|k: int| m <= k < orig.len() ==> exists|i: int| 0 <= i < out.len() && out[i] == #[trigger] orig[k]
}

proof fn lemma_holds_suffix_step(
    old_out: Seq<UserPrSummary>,
    out: Seq<UserPrSummary>,
    orig: Seq<UserPrSummary>,
    m: int,
    pos: int,
)
    requires
        0 <= m < orig.len(),
        holds_suffix(old_out, orig, m + 1),
        0 <= pos <= old_out.len(),
        out == old_out.insert(pos, orig[m]),
    ensures
        holds_suffix(out, orig, m),
{
    assert forall|i: int| 0 <= i < out.len() implies exists|k: int|
        m <= k < orig.len() && #[trigger] out[i] == orig[k] by {
        if i < pos {
            assert(out[i] == old_out[i]);
            let k = choose|k: int| m + 1 <= k < orig.len() && old_out[i] == orig[k];
        } else if i == pos {
            assert(out[i] == orig[m]);
        } else {
            assert(out[i] == old_out[i - 1]);
            let k = choose|k: int| m + 1 <= k < orig.len() && old_out[i - 1] == orig[k];
        }
    }
    assert forall|k: int| m <= k < orig.len() implies exists|i: int|
        0 <= i < out.len() && out[i] == #[trigger] orig[k] by {
        if k == m {
            assert(out[pos] == orig[k]);
        } else {
            let i = choose|i: int| 0 <= i < old_out.len() && old_out[i] == orig[k];
            if i < pos {
                assert(out[i] == orig[k]);
            } else {
                assert(out[i + 1] == orig[k]);
            }
        }
    }
}

/// Puts `prs`, whose keys are distinct, in display order.
fn sort_for_display(prs: Vec<UserPrSummary>) -> (out: Vec<UserPrSummary>)
    requires
        forall|a: int, b: int|
            0 <= a < b < prs@.len() ==> pr_key(#[trigger] prs@[a]) != pr_key(#[trigger] prs@[b]),
    ensures
        in_display_order(out@),
        holds_suffix(out@, prs@, 0),
{
    let ghost orig = prs@;
    let mut rest = prs;
    let mut out: Vec<UserPrSummary> = Vec::new();
    while rest.len() > 0
        invariant
            rest@ == orig.take(rest@.len() as int),
            rest@.len() <= orig.len(),
            forall|a: int, b: int|
                0 <= a < b < orig.len() ==> pr_key(#[trigger] orig[a]) != pr_key(#[trigger] orig[b]),
            in_display_order(out@),
            holds_suffix(out@, orig, rest@.len() as int),
        decreases rest@.len(),
    {
        let p = rest.pop().unwrap();
        let ghost m = rest@.len() as int;
        assert(p == orig[m]);
        assert(rest@ == orig.take(m));
        assert forall|i: int| 0 <= i < out@.len() implies pr_key(#[trigger] out@[i]) != pr_key(p) by {
            let k = choose|k: int| m + 1 <= k < orig.len() && out@[i] == orig[k];
        }
        let ghost old_out = out@;
        insert_in_order(&mut out, p);
        proof {
            let pos = choose|pos: int| 0 <= pos <= old_out.len() && out@ == old_out.insert(pos, p);
            lemma_holds_suffix_step(old_out, out@, orig, m, pos);
        }
    }
    out
}

proof fn lemma_kept_for_some(prs: Seq<UserPrSummary>, j: int)
    requires
        0 <= j < prs.len(),
    ensures
        kept_for(prs, pr_key(prs[j])) is Some,
{
    lemma_kept_for_key(prs, pr_key(prs[j]));
}

/// Merges the rows of two searches: one row per pull request (the most
/// recently updated of its copies, the first of equals), most recently
/// updated first, then by repository and number.
pub fn merge_user_prs(left: Vec<UserPrSummary>, right: Vec<UserPrSummary>) -> (out: Vec<UserPrSummary>)
    ensures
        is_merge_of(out@, left@ + right@),
{
    let ghost all = left@ + right@;
    let ghost l = left@;
    let mut kept: Vec<UserPrSummary> = Vec::new();
    assert(tracks(kept@, Seq::<UserPrSummary>::empty()));
    dedupe(left, &mut kept, Ghost(Seq::<UserPrSummary>::empty()));
    assert(Seq::<UserPrSummary>::empty() + l == l);
    dedupe(right, &mut kept, Ghost(l));
    let ghost k = kept@;
    let out = sort_for_display(kept);
    proof {
        assert(holds_suffix(out@, k, 0));
        assert(tracks(k, all));
        assert forall|i: int| 0 <= i < out@.len() implies kept_for(all, pr_key(#[trigger] out@[i]))
            == Some(out@[i]) by {
            assert(exists|a: int| 0 <= a < k.len() && #[trigger] out@[i] == k[a]);
            let a = choose|a: int| 0 <= a < k.len() && #[trigger] out@[i] == k[a];
            assert(kept_for(all, pr_key(k[a])) == Some(k[a]));
        }
        assert forall|j: int| 0 <= j < all.len() implies exists|i: int|
            0 <= i < out@.len() && pr_key(#[trigger] out@[i]) == pr_key(#[trigger] all[j]) by {
            lemma_kept_for_some(all, j);
            let a = choose|a: int| 0 <= a < k.len() && pr_key(#[trigger] k[a]) == pr_key(all[j]);
            let i = choose|i: int| 0 <= i < out@.len() && out@[i] == #[trigger] k[a];
        }
    }
    out
}


/// The arguments of `gh pr list` for the open pull requests of `owner/repo`.
pub fn list_prs(owner: &str, repo: &str) -> (args: Vec<String>)
    ensures
        views(args@) == seq![
            "pr"@,
            "list"@,
            "--repo"@,
            owner@ + seq!['/'] + repo@,
            "--state"@,
            "open"@,
            "--limit"@,
            "200"@,
            "--json"@,
            "number,title,author,state,isDraft,headRefName,updatedAt"@,
        ],
{
    let mut slug = String::new();
    slug.append(owner);
    push_char(&mut slug, '/');
    slug.append(repo);
    assert(slug@ =~= owner@ + seq!['/'] + repo@);
    let mut args: Vec<String> = Vec::new();
    args.push("pr".to_owned());
    args.push("list".to_owned());
    args.push("--repo".to_owned());
    args.push(slug);
    args.push("--state".to_owned());
    args.push("open".to_owned());
    args.push("--limit".to_owned());
    args.push("200".to_owned());
    args.push("--json".to_owned());
    args.push("number,title,author,state,isDraft,headRefName,updatedAt".to_owned());
    assert(views(args@) =~= seq![
        "pr"@,
        "list"@,
        "--repo"@,
        owner@ + seq!['/'] + repo@,
        "--state"@,
        "open"@,
        "--limit"@,
        "200"@,
        "--json"@,
        "number,title,author,state,isDraft,headRefName,updatedAt"@,
    ]);
    args
}

/// The arguments of `gh search prs` for the open pull requests that `filter`
/// selects, most recently updated first.
pub fn search_user_prs(filter: &str) -> (args: Vec<String>)
    ensures
        views(args@) == seq![
            "search"@,
            "prs"@,
            filter@,
            "--state=open"@,
            "--limit=200"@,
            "--sort=updated"@,
            "--order=desc"@,
            "--json=number,title,author,isDraft,updatedAt,repository,url"@,
        ],
{
    let mut args: Vec<String> = Vec::new();
    args.push("search".to_owned());
    args.push("prs".to_owned());
    args.push(filter.to_owned());
    args.push("--state=open".to_owned());
    args.push("--limit=200".to_owned());
    args.push("--sort=updated".to_owned());
    args.push("--order=desc".to_owned());
    args.push("--json=number,title,author,isDraft,updatedAt,repository,url".to_owned());
    assert(views(args@) =~= seq![
        "search"@,
        "prs"@,
        filter@,
        "--state=open"@,
        "--limit=200"@,
        "--sort=updated"@,
        "--order=desc"@,
        "--json=number,title,author,isDraft,updatedAt,repository,url"@,
    ]);
    args
}

/// The search filter for the pull requests the user wrote.
pub fn authored_filter() -> (r: &'static str)
    ensures
        r@ == "--author=@me"@,
{
    "--author=@me"
}

/// The search filter for the pull requests awaiting the user's review.
pub fn review_requested_filter() -> (r: &'static str)
    ensures
        r@ == "--review-requested=@me"@,
{
    "--review-requested=@me"
}

/// The user's pull request list from the answers of its two searches (run
/// side by side): the first failure in the order authored, then
/// review-requested, fails the whole refresh; otherwise the merged rows.
pub fn list_user_prs(
    authored: Result<Vec<UserPrSummary>, GhError>,
    requested: Result<Vec<UserPrSummary>, GhError>,
) -> (r: Result<Vec<UserPrSummary>, GhError>)
    ensures
        authored matches Err(e) ==> r == Err::<Vec<UserPrSummary>, GhError>(e),
        authored is Ok ==> (requested matches Err(e) ==> r == Err::<Vec<UserPrSummary>, GhError>(e)),
        authored matches Ok(a) ==> (requested matches Ok(b) ==> (r matches Ok(rows) && is_merge_of(
            rows@,
            a@ + b@,
        ))),
{
    let a = match authored {
        Ok(a) => a,
        Err(e) => {
            return Err(e);
        },
    };
    let b = match requested {
        Ok(b) => b,
        Err(e) => {
            return Err(e);
        },
    };
    Ok(merge_user_prs(a, b))
}

} // verus!
