//! Properties of the library as a whole, each proved over the spec functions
//! that the operations' own contracts use.
use vstd::prelude::*;

use crate::dialog::{
    MergeDialog, MergePhase, assessment_applied, same_assessment, submit_begun,
    submit_failed_to,
};
use crate::merge::{
    CheckState, CheckSummary, MergeAssessment, MergeMethod, MergeState, Mergeability, RawCheck,
    checks_in_state, merge_command, raw_check_name, raw_check_state,
};
use crate::review::{ReviewVerdict, review_command};
use crate::dialog::problem_label;
use crate::preview::{mentions_large_diff, encode_byte, encode_bytes, hex_upper, hex_value, is_unreserved, key_message, percent_decode};
use crate::search::{
    UserPrSummary, is_merge_of, kept_for, lemma_kept_for_key, lemma_shown_before_irreflexive,
    pr_key,
};
use crate::selector::{
    PrSelector, RefreshPhase, keeps_row, refresh_begun, result_applied, rows_without,
};
use crate::model::{
    PrArgError, PrLocator, PrState, ReviewDecision, has_prefix, lemma_leading_digits, resolve,
    url_rest,
};
use crate::text::{
    all_digits, decimal, digit_char, digits_value, find_char, is_digit, lemma_find_char,
    is_whitespace, lemma_find_char_at, lemma_text_less_irreflexive, trim, trim_end, trim_start, lemma_text_less_transitive, parse_unsigned,
    split_char, text_less,
};
use vstd::utf8::{
    char_is_scalar, char_u32_cast, decode_utf8, encode_scalar, encode_utf8, encode_utf8_decode_utf8,
    last_continuation_byte, leading_byte_width_1, leading_byte_width_2, leading_byte_width_3,
    leading_byte_width_4, second_last_continuation_byte, third_last_continuation_byte,
};

verus! {

/// The decimal digits of `n` are ASCII digits that read back as `n`.
proof fn lemma_decimal_digits(n: nat)
    ensures
        decimal(n).len() > 0,
        all_digits(decimal(n)),
        digits_value(decimal(n)) == n,
    decreases n,
{
    if n >= 10 {
        lemma_decimal_digits(n / 10);
        let s = decimal(n);
        assert(s.drop_last() == decimal(n / 10));
        assert(s.last() == digit_char(n % 10));
        assert(crate::text::digit_value(digit_char(n % 10)) == n % 10);
        assert(n == (n / 10) * 10 + n % 10);
        assert(digits_value(s) == digits_value(s.drop_last()) * 10 + crate::text::digit_value(s.last()));
        assert(digits_value(s) == n);
    } else {
        let s = decimal(n);
        assert(s.drop_last().len() == 0);
        assert(digits_value(s) == digits_value(s.drop_last()) * 10 + crate::text::digit_value(s.last()));
        assert(crate::text::digit_value(digit_char(n)) == n);
        assert forall|i: int| 0 <= i < s.len() implies is_digit(#[trigger] s[i]) by {
            if i < s.len() - 1 {
                assert(s[i] == decimal(n / 10)[i]);
            }
        }
    }
}

/// A number written in decimal reads back as itself wherever it fits:
/// `parse` of `n.to_string()` gives `n`.
pub proof fn law_decimal_reads_back(n: nat, max: nat)
    requires
        n <= max,
    ensures
        parse_unsigned(decimal(n), max) == Some(n),
{
    lemma_decimal_digits(n);
    assert(is_digit(decimal(n)[0]));
}

/// Different numbers have different decimal texts, so distinct preview
/// generations (and distinct processes) get distinct directory names.
pub proof fn law_decimal_names_distinct(m: nat, n: nat)
    requires
        m != n,
    ensures
        decimal(m) != decimal(n),
{
    lemma_decimal_digits(m);
    lemma_decimal_digits(n);
}

/// Every text GitHub sends for a remote state is kept: turning the text into
/// the typed value and back gives the same text, for known and unknown
/// values alike.
pub proof fn law_remote_texts_kept(value: String)
    ensures
        PrState::from_text(value).text() == value@,
        ReviewDecision::from_text(value).text() == value@,
        Mergeability::from_text(value).text() == value@,
        MergeState::from_text(value).text() == value@,
{
}

/// `c` does not occur in `s`.
pub open spec fn free_of(s: Seq<char>, c: char) -> bool {
    forall|k: int| 0 <= k < s.len() ==> s[k] != c
}

proof fn lemma_find_after(a: Seq<char>, c: char, b: Seq<char>)
    requires
        free_of(a, c),
    ensures
        find_char(a + seq![c] + b, c) == Some(a.len()),
{
    let s = a + seq![c] + b;
    assert forall|k: int| 0 <= k < a.len() implies s[k] != c by {
        assert(s[k] == a[k]);
    }
    lemma_find_char_at(s, c, a.len() as int);
}

proof fn lemma_find_none(s: Seq<char>, c: char)
    requires
        free_of(s, c),
    ensures
        find_char(s, c) is None,
{
    lemma_find_char_at(s, c, s.len() as int);
}

proof fn lemma_split_first(a: Seq<char>, b: Seq<char>)
    requires
        free_of(a, '/'),
    ensures
        split_char(a + seq!['/'] + b, '/') == seq![a] + split_char(b, '/'),
{
    let s = a + seq!['/'] + b;
    lemma_find_after(a, '/', b);
    assert(s.take(a.len() as int) == a);
    assert(s.skip(a.len() as int + 1) == b);
}

proof fn lemma_split_nonempty(s: Seq<char>)
    ensures
        split_char(s, '/').len() >= 1,
        split_char(s, '/')[0] == (match find_char(s, '/') {
            Some(j) => s.take(j as int),
            None => s,
        }),
{
    lemma_find_char(s, '/');
}

proof fn lemma_decimal_no(n: nat, c: char)
    requires
        !is_digit(c),
    ensures
        free_of(decimal(n), c),
{
    lemma_decimal_digits(n);
    assert forall|k: int| 0 <= k < decimal(n).len() implies decimal(n)[k] != c by {
        assert(is_digit(decimal(n)[k]));
    }
}

/// `owner/repo#N` names pull request `N` of `owner/repo`, for an owner and a
/// repository without `/` or `#` (and an owner other than `github.com`, with
/// which the argument reads as a URL).
pub proof fn law_owner_repo_number_resolves(owner: Seq<char>, repo: Seq<char>, n: u64)
    requires
        free_of(owner, '/'),
        free_of(owner, '#'),
        free_of(repo, '/'),
        free_of(repo, '#'),
        owner != "github.com"@,
    ensures
        resolve(owner + seq!['/'] + repo + seq!['#'] + decimal(n as nat)) == Ok::<
            (Seq<char>, Seq<char>, u64),
            PrArgError,
        >((owner, repo, n)),
{
    let slug = owner + seq!['/'] + repo;
    let d = decimal(n as nat);
    let arg = slug + seq!['#'] + d;
    lemma_decimal_no(n as nat, '/');
    assert forall|k: int| 0 <= k < arg.len() && arg[k] == '/' implies k == owner.len() by {
        if k < owner.len() {
            assert(arg[k] == owner[k]);
        } else if owner.len() < k < slug.len() {
            assert(arg[k] == repo[k - owner.len() - 1]);
        } else if k > slug.len() {
            assert(arg[k] == d[k - slug.len() - 1]);
        }
    }
    reveal_strlit("https://github.com/");
    reveal_strlit("http://github.com/");
    reveal_strlit("github.com/");
    reveal_strlit("github.com");
    if has_prefix(arg, "https://github.com/"@) {
        assert(arg[6] == "https://github.com/"@[6]);
        assert(arg[7] == "https://github.com/"@[7]);
    }
    if has_prefix(arg, "http://github.com/"@) {
        assert(arg[5] == "http://github.com/"@[5]);
        assert(arg[6] == "http://github.com/"@[6]);
    }
    if has_prefix(arg, "github.com/"@) {
        assert(arg[10] == "github.com/"@[10]);
        assert(owner.len() == 10);
        assert forall|k: int| 0 <= k < 10 implies owner[k] == "github.com"@[k] by {
            assert(arg[k] == owner[k]);
            assert(arg.take(11)[k] == "github.com/"@[k]);
        }
        assert(owner =~= "github.com"@);
    }
    assert(url_rest(arg) is None);
    assert forall|k: int| 0 <= k < slug.len() implies slug[k] != '#' by {
        if k < owner.len() {
            assert(slug[k] == owner[k]);
        } else if k > owner.len() {
            assert(slug[k] == repo[k - owner.len() - 1]);
        }
    }
    lemma_find_after(slug, '#', d);
    assert(arg.take(slug.len() as int) == slug);
    assert(arg.skip(slug.len() as int + 1) == d);
    law_decimal_reads_back(n as nat, u64::MAX as nat);
    lemma_find_after(owner, '/', repo);
    assert(slug.take(owner.len() as int) == owner);
    assert(slug.skip(owner.len() as int + 1) == repo);
}

/// What follows the host of a pull request URL, `owner/repo/pull/N{tail}`,
/// names pull request `N` of `owner/repo`.
proof fn lemma_pull_path_resolves(arg: Seq<char>, owner: Seq<char>, repo: Seq<char>, n: u64, tail: Seq<char>)
    requires
        free_of(owner, '/'),
        free_of(repo, '/'),
        tail.len() == 0 || !is_digit(tail[0]),
        url_rest(arg) == Some(owner + seq!['/'] + repo + "/pull/"@ + decimal(n as nat) + tail),
    ensures
        resolve(arg) == Ok::<(Seq<char>, Seq<char>, u64), PrArgError>((owner, repo, n)),
{
    reveal_strlit("/pull/");
    reveal_strlit("pull");
    let d = decimal(n as nat);
    let last = d + tail;
    let rest = owner + seq!['/'] + (repo + seq!['/'] + ("pull"@ + seq!['/'] + last));
    assert(owner + seq!['/'] + repo + "/pull/"@ + d + tail =~= rest);
    assert(free_of("pull"@, '/'));
    lemma_split_first("pull"@, last);
    lemma_split_first(repo, "pull"@ + seq!['/'] + last);
    lemma_split_first(owner, repo + seq!['/'] + ("pull"@ + seq!['/'] + last));
    let parts = split_char(rest, '/');
    lemma_split_nonempty(last);
    assert(parts == seq![owner, repo, "pull"@] + split_char(last, '/'));
    assert(parts.len() >= 4);
    assert(parts[2] == "pull"@);
    assert(parts[3] == split_char(last, '/')[0]);
    // The first piece of `last` is the number and what follows it up to a `/`.
    lemma_decimal_digits(n as nat);
    lemma_find_char(last, '/');
    let piece = parts[3];
    assert(piece.take(d.len() as int) == d) by {
        match find_char(last, '/') {
            Some(j) => {
                if j < d.len() {
                    assert(last[j as int] == d[j as int]);
                    assert(is_digit(d[j as int]));
                }
            },
            None => {},
        }
    }
    assert forall|k: int| 0 <= k < d.len() implies is_digit(#[trigger] piece[k]) by {
        assert(piece[k] == piece.take(d.len() as int)[k]);
    }
    if piece.len() > d.len() {
        assert(piece[d.len() as int] == tail[0]);
    }
    lemma_leading_digits(piece, d.len() as int);
    law_decimal_reads_back(n as nat, u64::MAX as nat);
}

/// A pull request URL, `https://github.com/owner/repo/pull/N` with anything
/// after the number that does not start with a digit (`/files`, `#…`),
/// names pull request `N` of `owner/repo`.
pub proof fn law_pull_url_resolves(owner: Seq<char>, repo: Seq<char>, n: u64, tail: Seq<char>)
    requires
        free_of(owner, '/'),
        free_of(repo, '/'),
        tail.len() == 0 || !is_digit(tail[0]),
    ensures
        resolve("https://github.com/"@ + owner + seq!['/'] + repo + "/pull/"@ + decimal(n as nat) + tail)
            == Ok::<(Seq<char>, Seq<char>, u64), PrArgError>((owner, repo, n)),
{
    law_pull_url_any_form_resolves("https://github.com/"@, owner, repo, n, tail);
}

/// Every accepted URL form, `https://github.com/`, `http://github.com/` or
/// `github.com/` followed by `owner/repo/pull/N` and anything that does not
/// start with a digit, names pull request `N` of `owner/repo`, for every
/// `u64` number `N`.
pub proof fn law_pull_url_any_form_resolves(
    host: Seq<char>,
    owner: Seq<char>,
    repo: Seq<char>,
    n: u64,
    tail: Seq<char>,
)
    requires
        host == "https://github.com/"@ || host == "http://github.com/"@ || host == "github.com/"@,
        free_of(owner, '/'),
        free_of(repo, '/'),
        tail.len() == 0 || !is_digit(tail[0]),
    ensures
        resolve(host + owner + seq!['/'] + repo + "/pull/"@ + decimal(n as nat) + tail) == Ok::<
            (Seq<char>, Seq<char>, u64),
            PrArgError,
        >((owner, repo, n)),
{
    reveal_strlit("https://github.com/");
    reveal_strlit("http://github.com/");
    reveal_strlit("github.com/");
    let rest = owner + seq!['/'] + repo + "/pull/"@ + decimal(n as nat) + tail;
    let arg = host + owner + seq!['/'] + repo + "/pull/"@ + decimal(n as nat) + tail;
    assert(arg =~= host + rest);
    assert(arg.take(host.len() as int) =~= host);
    assert(arg.skip(host.len() as int) =~= rest);
    if host != "https://github.com/"@ {
        if has_prefix(arg, "https://github.com/"@) {
            assert(arg[0] == "https://github.com/"@[0]);
            assert(arg[4] == "https://github.com/"@[4]);
            assert(arg[0] == host[0] && arg[4] == host[4]);
        }
    }
    if host == "github.com/"@ {
        if has_prefix(arg, "http://github.com/"@) {
            assert(arg[0] == "http://github.com/"@[0]);
            assert(arg[0] == host[0]);
        }
    }
    assert(url_rest(arg) == Some(rest));
    lemma_pull_path_resolves(arg, owner, repo, n, tail);
}

proof fn lemma_no_slash_not_url(arg: Seq<char>)
    requires
        free_of(arg, '/'),
    ensures
        url_rest(arg) is None,
{
    reveal_strlit("https://github.com/");
    reveal_strlit("http://github.com/");
    reveal_strlit("github.com/");
    if has_prefix(arg, "https://github.com/"@) {
        assert(arg[6] == "https://github.com/"@[6]);
    }
    if has_prefix(arg, "http://github.com/"@) {
        assert(arg[5] == "http://github.com/"@[5]);
    }
    if has_prefix(arg, "github.com/"@) {
        assert(arg[10] == "github.com/"@[10]);
    }
}

/// `x#N` where `x` is not empty and holds no `/` names no repository: the
/// argument is refused as missing `owner/`.
pub proof fn law_missing_owner_refused(name: Seq<char>, n: u64)
    requires
        name.len() > 0,
        free_of(name, '/'),
        free_of(name, '#'),
    ensures
        resolve(name + seq!['#'] + decimal(n as nat)) == Err::<(Seq<char>, Seq<char>, u64), PrArgError>(
            PrArgError::MissingRepo,
        ),
{
    let d = decimal(n as nat);
    let arg = name + seq!['#'] + d;
    lemma_decimal_no(n as nat, '/');
    assert forall|k: int| 0 <= k < arg.len() implies arg[k] != '/' by {
        if k < name.len() {
            assert(arg[k] == name[k]);
        } else if k > name.len() {
            assert(arg[k] == d[k - name.len() - 1]);
        }
    }
    lemma_no_slash_not_url(arg);
    lemma_find_after(name, '#', d);
    assert(arg.take(name.len() as int) == name);
    assert(arg.skip(name.len() as int + 1) == d);
    law_decimal_reads_back(n as nat, u64::MAX as nat);
    lemma_find_none(name, '/');
}

/// `x#y` where what follows the first `#` is not a number (no digits, a
/// sign other than a leading `+`, or a value above `u64::MAX`) is refused as
/// an invalid number, whatever stands before the `#`.
pub proof fn law_invalid_number_refused(name: Seq<char>, number: Seq<char>)
    requires
        free_of(name, '/'),
        free_of(name, '#'),
        free_of(number, '/'),
        parse_unsigned(number, u64::MAX as nat) is None,
    ensures
        resolve(name + seq!['#'] + number) == Err::<(Seq<char>, Seq<char>, u64), PrArgError>(
            PrArgError::InvalidNumber,
        ),
{
    let arg = name + seq!['#'] + number;
    assert forall|k: int| 0 <= k < arg.len() implies arg[k] != '/' by {
        if k < name.len() {
            assert(arg[k] == name[k]);
        } else if k > name.len() {
            assert(arg[k] == number[k - name.len() - 1]);
        }
    }
    lemma_no_slash_not_url(arg);
    lemma_find_after(name, '#', number);
    assert(arg.skip(name.len() as int + 1) == number);
}

/// A GitHub URL whose third path piece is not `pull` (an issue, a commit, a
/// file) is refused as an unrecognized URL, for each accepted URL form.
pub proof fn law_non_pull_url_refused(
    host: Seq<char>,
    owner: Seq<char>,
    repo: Seq<char>,
    kind: Seq<char>,
    tail: Seq<char>,
)
    requires
        host == "https://github.com/"@ || host == "http://github.com/"@ || host == "github.com/"@,
        free_of(owner, '/'),
        free_of(repo, '/'),
        free_of(kind, '/'),
        kind != "pull"@,
        tail.len() == 0 || tail[0] == '/',
    ensures
        resolve(host + owner + seq!['/'] + repo + seq!['/'] + kind + tail) == Err::<
            (Seq<char>, Seq<char>, u64),
            PrArgError,
        >(PrArgError::UnrecognizedUrl),
{
    reveal_strlit("https://github.com/");
    reveal_strlit("http://github.com/");
    reveal_strlit("github.com/");
    let last = kind + tail;
    let rest = owner + seq!['/'] + (repo + seq!['/'] + last);
    let arg = host + owner + seq!['/'] + repo + seq!['/'] + kind + tail;
    assert(arg =~= host + rest);
    assert(arg.take(host.len() as int) =~= host);
    assert(arg.skip(host.len() as int) =~= rest);
    if host != "https://github.com/"@ {
        if has_prefix(arg, "https://github.com/"@) {
            assert(arg[0] == "https://github.com/"@[0]);
            assert(arg[4] == "https://github.com/"@[4]);
            assert(arg[0] == host[0] && arg[4] == host[4]);
        }
    }
    if host == "github.com/"@ {
        if has_prefix(arg, "http://github.com/"@) {
            assert(arg[0] == "http://github.com/"@[0]);
            assert(arg[0] == host[0]);
        }
    }
    assert(url_rest(arg) == Some(rest));
    lemma_split_first(repo, last);
    lemma_split_first(owner, repo + seq!['/'] + last);
    lemma_split_nonempty(last);
    let parts = split_char(rest, '/');
    assert(parts == seq![owner, repo] + split_char(last, '/'));
    lemma_find_char(last, '/');
    if tail.len() > 0 {
        lemma_find_after(kind, '/', tail.drop_first());
        assert(last =~= kind + seq!['/'] + tail.drop_first());
        assert(last.take(kind.len() as int) =~= kind);
    } else {
        lemma_find_none(kind, '/');
        assert(last =~= kind);
    }
    if parts.len() >= 4 {
        assert(parts[2] == split_char(last, '/')[0]);
        assert(parts[2] == kind);
    }
}

/// A bare number `N`, or `#N`, names pull request `N` of the current
/// directory's repository, which the caller looks up.
pub proof fn law_bare_number_in_current_repo(n: u64)
    ensures
        resolve(decimal(n as nat)) == Err::<(Seq<char>, Seq<char>, u64), PrArgError>(
            PrArgError::InCurrentRepo { number: n },
        ),
        resolve(seq!['#'] + decimal(n as nat)) == Err::<(Seq<char>, Seq<char>, u64), PrArgError>(
            PrArgError::InCurrentRepo { number: n },
        ),
{
    reveal_strlit("https://github.com/");
    reveal_strlit("http://github.com/");
    reveal_strlit("github.com/");
    let d = decimal(n as nat);
    lemma_decimal_digits(n as nat);
    assert(is_digit(d[0]));
    if has_prefix(d, "https://github.com/"@) {
        assert(d[0] == "https://github.com/"@[0]);
    }
    if has_prefix(d, "http://github.com/"@) {
        assert(d[0] == "http://github.com/"@[0]);
    }
    if has_prefix(d, "github.com/"@) {
        assert(d[0] == "github.com/"@[0]);
    }
    lemma_decimal_no(n as nat, '#');
    lemma_find_none(d, '#');
    law_decimal_reads_back(n as nat, u64::MAX as nat);
    let h = seq!['#'] + d;
    if has_prefix(h, "https://github.com/"@) {
        assert(h[0] == "https://github.com/"@[0]);
    }
    if has_prefix(h, "http://github.com/"@) {
        assert(h[0] == "http://github.com/"@[0]);
    }
    if has_prefix(h, "github.com/"@) {
        assert(h[0] == "github.com/"@[0]);
    }
    lemma_find_char_at(h, '#', 0);
    assert(h.take(0).len() == 0);
    assert(h.skip(1) == d);
}

// ---------------------------------------------------------------------------
// The merged pull request list
// ---------------------------------------------------------------------------

/// The merged list holds one row per pull request.
pub proof fn law_merge_one_row_per_pr(out: Seq<UserPrSummary>, prs: Seq<UserPrSummary>)
    requires
        is_merge_of(out, prs),
    ensures
        forall|i: int, j: int|
            0 <= i < j < out.len() ==> pr_key(#[trigger] out[i]) != pr_key(#[trigger] out[j]),
{
    assert forall|i: int, j: int| 0 <= i < j < out.len() implies pr_key(#[trigger] out[i]) != pr_key(
        #[trigger] out[j],
    ) by {
        if pr_key(out[i]) == pr_key(out[j]) {
            assert(kept_for(prs, pr_key(out[i])) == Some(out[i]));
            assert(kept_for(prs, pr_key(out[j])) == Some(out[j]));
            lemma_shown_before_irreflexive(out[i]);
        }
    }
}

proof fn lemma_kept_is_newest(prs: Seq<UserPrSummary>, key: (Seq<char>, u64))
    ensures
        kept_for(prs, key) matches Some(p) ==> forall|j: int|
            0 <= j < prs.len() && pr_key(#[trigger] prs[j]) == key ==> !text_less(
                p.updated_at@,
                prs[j].updated_at@,
            ),
    decreases prs.len(),
{
    if prs.len() > 0 {
        let init = prs.drop_last();
        let last = prs.last();
        lemma_kept_is_newest(init, key);
        lemma_kept_for_key(init, key);
        lemma_text_less_irreflexive(last.updated_at@);
        if let Some(p) = kept_for(prs, key) {
            assert forall|j: int| 0 <= j < prs.len() && pr_key(#[trigger] prs[j]) == key implies !text_less(
                p.updated_at@,
                prs[j].updated_at@,
            ) by {
                if j < prs.len() - 1 {
                    assert(prs[j] == init[j]);
                    if let Some(q) = kept_for(init, key) {
                        if p == last && text_less(p.updated_at@, prs[j].updated_at@) {
                            lemma_text_less_transitive(q.updated_at@, p.updated_at@, prs[j].updated_at@);
                        }
                    }
                }
            }
        }
    }
}

/// Of the copies of one pull request, the merged list keeps one that no
/// other copy was updated after.
pub proof fn law_merge_keeps_newest(out: Seq<UserPrSummary>, prs: Seq<UserPrSummary>)
    requires
        is_merge_of(out, prs),
    ensures
        forall|i: int, j: int|
            0 <= i < out.len() && 0 <= j < prs.len() && pr_key(#[trigger] out[i]) == pr_key(
                #[trigger] prs[j],
            ) ==> !text_less(out[i].updated_at@, prs[j].updated_at@),
{
    assert forall|i: int, j: int|
        0 <= i < out.len() && 0 <= j < prs.len() && pr_key(#[trigger] out[i]) == pr_key(
            #[trigger] prs[j],
        ) implies !text_less(out[i].updated_at@, prs[j].updated_at@) by {
        lemma_kept_is_newest(prs, pr_key(out[i]));
        assert(kept_for(prs, pr_key(out[i])) == Some(out[i]));
    }
}

// ---------------------------------------------------------------------------
// The selector's refresh
// ---------------------------------------------------------------------------

/// Only the latest refresh is answered: once a second refresh has begun, the
/// answer to the first is dropped and the selector stays as it was.
pub proof fn law_stale_refresh_dropped(
    s0: PrSelector,
    s1: PrSelector,
    s2: PrSelector,
    s3: PrSelector,
    first: u64,
    second: u64,
    result: Result<Vec<UserPrSummary>, String>,
    taken: bool,
)
    requires
        refresh_begun(s0, s1, first),
        refresh_begun(s1, s2, second),
        result_applied(s2, s3, first, result, taken),
    ensures
        first < second,
        !taken,
        s3 == s2,
{
}

/// The answer to the refresh in flight is taken: rows replace the list, and
/// a failure keeps the rows there were and shows its message.
pub proof fn law_refresh_answer_taken(
    s0: PrSelector,
    s1: PrSelector,
    s2: PrSelector,
    request: u64,
    result: Result<Vec<UserPrSummary>, String>,
    taken: bool,
)
    requires
        refresh_begun(s0, s1, request),
        result_applied(s1, s2, request, result, taken),
    ensures
        taken,
        match result {
            Ok(rows) => s2.rows == rows && s2.phase == RefreshPhase::Idle,
            Err(message) => s2.rows == s0.rows && s2.phase == (RefreshPhase::Failed { request, message }),
        },
{
}

/// After a row is removed, no row of that pull request is left.
pub proof fn law_removed_row_gone(rows: Seq<UserPrSummary>, repo: Seq<char>, number: u64)
    ensures
        forall|i: int|
            0 <= i < rows_without(rows, repo, number).len() ==> keeps_row(
                #[trigger] rows_without(rows, repo, number)[i],
                repo,
                number,
            ),
{
    let pred = |pr: UserPrSummary| keeps_row(pr, repo, number);
    assert forall|i: int| 0 <= i < rows.filter(pred).len() implies keeps_row(
        #[trigger] rows.filter(pred)[i],
        repo,
        number,
    ) by {
        rows.lemma_filter_pred(pred, i);
    }
}

/// Removing the row of pull request `number` of `repo` drops exactly the
/// rows whose full repository name is `repo` and whose number is `number`:
/// every other row (another repository, even of the same owner, or another
/// number) stays, in its order, and no dropped row is left.
pub proof fn law_remove_drops_exactly_that_pr(rows: Seq<UserPrSummary>, repo: Seq<char>, number: u64)
    ensures
        forall|i: int|
            0 <= i < rows_without(rows, repo, number).len() ==> (
            #[trigger] rows_without(rows, repo, number)[i]).repository.name_with_owner@ != repo
                || rows_without(rows, repo, number)[i].number != number,
        forall|i: int|
            0 <= i < rows.len() && (#[trigger] rows[i].repository.name_with_owner@ != repo || rows[i].number
                != number) ==> rows_without(rows, repo, number).contains(rows[i]),
        forall|i: int|
            0 <= i < rows_without(rows, repo, number).len() ==> rows.contains(
                #[trigger] rows_without(rows, repo, number)[i],
            ),
        rows_without(rows, repo, number).len() <= rows.len(),
        (forall|i: int|
            0 <= i < rows.len() ==> (#[trigger] rows[i]).repository.name_with_owner@ != repo || rows[i].number
                != number) ==> rows_without(rows, repo, number) == rows,
    decreases rows.len(),
{
    let pred = |pr: UserPrSummary| keeps_row(pr, repo, number);
    assert forall|i: int| 0 <= i < rows.filter(pred).len() implies (
    #[trigger] rows.filter(pred)[i]).repository.name_with_owner@ != repo || rows.filter(pred)[i].number
        != number by {
        rows.lemma_filter_pred(pred, i);
    }
    assert forall|i: int|
        0 <= i < rows.len() && (#[trigger] rows[i].repository.name_with_owner@ != repo || rows[i].number
            != number) implies rows.filter(pred).contains(rows[i]) by {
        rows.lemma_filter_contains(pred, i);
    }
    assert forall|i: int| 0 <= i < rows.filter(pred).len() implies rows.contains(
        #[trigger] rows.filter(pred)[i],
    ) by {
        let x = rows.filter(pred)[i];
        assert(rows.filter(pred).contains(x));
        rows.lemma_filter_contains_rev(pred, x);
    }
    rows.lemma_filter_len(pred);
    if forall|i: int|
        0 <= i < rows.len() ==> (#[trigger] rows[i]).repository.name_with_owner@ != repo || rows[i].number
            != number {
        if rows.len() > 0 {
            law_remove_drops_exactly_that_pr(rows.drop_last(), repo, number);
            assert forall|i: int| 0 <= i < rows.drop_last().len() implies (
            #[trigger] rows.drop_last()[i]).repository.name_with_owner@ != repo || rows.drop_last()[i].number
                != number by {
                assert(rows.drop_last()[i] == rows[i]);
            }
            let r = rows[rows.len() - 1];
            assert(r.repository.name_with_owner@ != repo || r.number != number);
            reveal(Seq::filter);
            assert(rows.filter(pred) == rows.drop_last().filter(pred).push(rows.last()));
            assert(rows.drop_last().push(rows.last()) =~= rows);
        } else {
            reveal(Seq::filter);
            assert(rows.filter(pred) =~= rows);
        }
    }
}

// ---------------------------------------------------------------------------
// The merge dialog
// ---------------------------------------------------------------------------

/// A dialog waiting for one assessment request takes only that request's
/// answer: an answer to any other request (one from before the dialog was
/// opened again) leaves it as it was.
pub proof fn law_dialog_takes_only_its_request(
    d0: MergeDialog,
    d1: MergeDialog,
    waiting: u64,
    request: u64,
    result: Result<MergeAssessment, String>,
    taken: bool,
)
    requires
        d0.phase == (MergePhase::Checking { request: waiting }),
        assessment_applied(d0, d1, request, result, taken),
    ensures
        taken == (request == waiting),
        !taken ==> d1 == d0,
        taken ==> (result is Ok ==> d1.phase is Assessed),
{
}

/// A merge is submitted only from an assessment that allows it: the pull
/// request is approved and its head commit is known.
pub proof fn law_submit_needs_approval_and_head(
    d0: MergeDialog,
    d1: MergeDialog,
    r: Option<(MergeAssessment, MergeMethod, bool)>,
)
    requires
        submit_begun(d0, d1, r),
    ensures
        r is Some <==> (d0.phase matches MergePhase::Assessed { assessment, .. } && assessment.review_decision
            is Approved && assessment.head_oid@.len() > 0),
        d0.phase is Submitting ==> r is None,
{
}

/// A failed submission returns the dialog to the assessment it submitted,
/// with the failure shown, and from there the merge can be submitted again.
pub proof fn law_failed_submit_can_retry(
    d0: MergeDialog,
    d1: MergeDialog,
    d2: MergeDialog,
    d3: MergeDialog,
    submitted: Option<(MergeAssessment, MergeMethod, bool)>,
    message: String,
    retried: Option<(MergeAssessment, MergeMethod, bool)>,
)
    requires
        submit_begun(d0, d1, submitted),
        submitted is Some,
        submit_failed_to(d1, d2, message),
        submit_begun(d2, d3, retried),
    ensures
        d2.phase matches MergePhase::Assessed { assessment, error } && error == Some(message)
            && same_assessment(assessment, submitted.unwrap().0),
        retried is Some,
        same_assessment(retried.unwrap().0, submitted.unwrap().0),
{
}

// ---------------------------------------------------------------------------
// Commands
// ---------------------------------------------------------------------------

/// Every merge is guarded by the head commit it was assessed at: the
/// arguments always carry `--match-head-commit` followed by that commit.
pub proof fn law_merge_guarded_by_head(loc: PrLocator, method: MergeMethod, delete_branch: bool, head_oid: Seq<char>)
    ensures
        merge_command(loc, method, delete_branch, head_oid).len() >= 8,
        merge_command(loc, method, delete_branch, head_oid)[6] == "--match-head-commit"@,
        merge_command(loc, method, delete_branch, head_oid)[7] == head_oid,
{
}

/// Whether `c` may stand in a URL path as it is: an ASCII letter or digit,
/// one of `-._~/`, or the `%` of an escape.
pub open spec fn url_path_char(c: char) -> bool {
    ||| ('A' <= c && c <= 'Z')
    ||| ('a' <= c && c <= 'z')
    ||| ('0' <= c && c <= '9')
    ||| c == '-' || c == '.' || c == '_' || c == '~' || c == '/' || c == '%'
}

/// An encoded path holds only characters that may stand in a URL path.
pub proof fn law_encoded_path_is_url_safe(bytes: Seq<u8>)
    ensures
        forall|k: int| 0 <= k < encode_bytes(bytes).len() ==> url_path_char(#[trigger] encode_bytes(bytes)[k]),
    decreases bytes.len(),
{
    if bytes.len() > 0 {
        law_encoded_path_is_url_safe(bytes.drop_last());
        let init = encode_bytes(bytes.drop_last());
        let tail = crate::preview::encode_byte(bytes.last());
        assert forall|k: int| 0 <= k < tail.len() implies url_path_char(#[trigger] tail[k]) by {
            let b = bytes.last();
            if !crate::preview::is_unreserved(b) {
                assert(b / 16 < 16 && b % 16 < 16);
            }
        }
        assert forall|k: int| 0 <= k < encode_bytes(bytes).len() implies url_path_char(
            #[trigger] encode_bytes(bytes)[k],
        ) by {
            if k < init.len() {
                assert(encode_bytes(bytes)[k] == init[k]);
            } else {
                assert(encode_bytes(bytes)[k] == tail[k - init.len()]);
            }
        }
    }
}

// ---------------------------------------------------------------------------
// Blob cache names
// ---------------------------------------------------------------------------

/// No byte of `bytes` is zero.
pub open spec fn free_of_nul(bytes: Seq<u8>) -> bool {
    forall|k: int| 0 <= k < bytes.len() ==> bytes[k] != 0
}

proof fn lemma_scalar_bytes_nonzero(v: u32)
    requires
        v != 0,
        v <= 0x10FFFF,
    ensures
        free_of_nul(encode_scalar(v)),
{
    assert(v <= 0x7F && v != 0 ==> leading_byte_width_1(v) != 0) by (bit_vector);
    assert(leading_byte_width_2(v) != 0) by (bit_vector);
    assert(leading_byte_width_3(v) != 0) by (bit_vector);
    assert(leading_byte_width_4(v) != 0) by (bit_vector);
    assert(last_continuation_byte(v) != 0) by (bit_vector);
    assert(second_last_continuation_byte(v) != 0) by (bit_vector);
    assert(third_last_continuation_byte(v) != 0) by (bit_vector);
}

proof fn lemma_encoding_free_of_nul(s: Seq<char>)
    requires
        free_of(s, '\0'),
    ensures
        free_of_nul(encode_utf8(s)),
    decreases s.len(),
{
    if s.len() > 0 {
        let rest = s.drop_first();
        assert forall|k: int| 0 <= k < rest.len() implies rest[k] != '\0' by {
            assert(rest[k] == s[k + 1]);
        }
        lemma_encoding_free_of_nul(rest);
        assert(s[0] != '\0');
        char_is_scalar(s[0]);
        char_u32_cast(s[0], s[0] as u32);
        char_u32_cast('\0', '\0' as u32);
        assert(('\0' as u32) == 0);
        assert((s[0] as u32) != 0);
        lemma_scalar_bytes_nonzero(s[0] as u32);
        let head = encode_scalar(s[0] as u32);
        let tail = encode_utf8(rest);
        assert(encode_utf8(s) == head + tail);
        assert forall|k: int| 0 <= k < (head + tail).len() implies (head + tail)[k] != 0 by {
            if k < head.len() {
                assert((head + tail)[k] == head[k]);
            } else {
                assert((head + tail)[k] == tail[k - head.len()]);
            }
        }
    }
}

proof fn lemma_split_at_nul(a1: Seq<u8>, b1: Seq<u8>, a2: Seq<u8>, b2: Seq<u8>)
    requires
        free_of_nul(a1),
        free_of_nul(a2),
        a1 + seq![0u8] + b1 == a2 + seq![0u8] + b2,
    ensures
        a1 == a2,
        b1 == b2,
{
    let m = a1 + seq![0u8] + b1;
    let n = a2 + seq![0u8] + b2;
    if a1.len() < a2.len() {
        assert(m[a1.len() as int] == 0u8);
        assert(n[a1.len() as int] == a2[a1.len() as int]);
    }
    if a2.len() < a1.len() {
        assert(n[a2.len() as int] == 0u8);
        assert(m[a2.len() as int] == a1[a2.len() as int]);
    }
    assert(a1.len() == a2.len());
    assert(a1 =~= m.take(a1.len() as int));
    assert(a2 =~= n.take(a2.len() as int));
    assert(b1 =~= m.skip(a1.len() as int + 1));
    assert(b2 =~= n.skip(a2.len() as int + 1));
}

/// The message hashed for a cache entry is unambiguous: two (repository,
/// commit, path) triples without NUL characters have the same message only
/// when they are the same triple, so cache entries of different files can
/// meet only through a SHA-256 collision.
pub proof fn law_cache_message_unambiguous(
    repo1: Seq<char>,
    oid1: Seq<char>,
    path1: Seq<char>,
    repo2: Seq<char>,
    oid2: Seq<char>,
    path2: Seq<char>,
)
    requires
        free_of(repo1, '\0'),
        free_of(oid1, '\0'),
        free_of(path1, '\0'),
        free_of(repo2, '\0'),
        free_of(oid2, '\0'),
        free_of(path2, '\0'),
        key_message(repo1, oid1, path1) == key_message(repo2, oid2, path2),
    ensures
        repo1 == repo2,
        oid1 == oid2,
        path1 == path2,
{
    lemma_encoding_free_of_nul(repo1);
    lemma_encoding_free_of_nul(oid1);
    lemma_encoding_free_of_nul(path1);
    lemma_encoding_free_of_nul(repo2);
    lemma_encoding_free_of_nul(oid2);
    lemma_encoding_free_of_nul(path2);
    let z = seq![0u8];
    let rest1 = encode_utf8(oid1) + z + encode_utf8(path1) + z;
    let rest2 = encode_utf8(oid2) + z + encode_utf8(path2) + z;
    assert(key_message(repo1, oid1, path1) =~= encode_utf8(repo1) + z + rest1);
    assert(key_message(repo2, oid2, path2) =~= encode_utf8(repo2) + z + rest2);
    lemma_split_at_nul(encode_utf8(repo1), rest1, encode_utf8(repo2), rest2);
    let last1 = encode_utf8(path1) + z;
    let last2 = encode_utf8(path2) + z;
    assert(rest1 =~= encode_utf8(oid1) + z + last1);
    assert(rest2 =~= encode_utf8(oid2) + z + last2);
    lemma_split_at_nul(encode_utf8(oid1), last1, encode_utf8(oid2), last2);
    assert(encode_utf8(path1) =~= last1.drop_last());
    assert(encode_utf8(path2) =~= last2.drop_last());
    encode_utf8_decode_utf8(repo1);
    encode_utf8_decode_utf8(repo2);
    encode_utf8_decode_utf8(oid1);
    encode_utf8_decode_utf8(oid2);
    encode_utf8_decode_utf8(path1);
    encode_utf8_decode_utf8(path2);
}

// ---------------------------------------------------------------------------
// Checks
// ---------------------------------------------------------------------------

/// Every check is in exactly one of the four states: the checks passing,
/// pending, failing and unknown together number all the checks.
pub proof fn law_check_states_partition(checks: Seq<CheckSummary>)
    ensures
        checks_in_state(checks, CheckState::Passing).len() + checks_in_state(checks, CheckState::Pending).len()
            + checks_in_state(checks, CheckState::Failing).len() + checks_in_state(
            checks,
            CheckState::Unknown,
        ).len() == checks.len(),
    decreases checks.len(),
{
    reveal(Seq::filter);
    if checks.len() > 0 {
        law_check_states_partition(checks.drop_last());
    }
}

// ---------------------------------------------------------------------------
// The merge dialog over any sequence of calls
// ---------------------------------------------------------------------------

/// A submission runs only for an assessment that allows an attempt.
pub open spec fn submits_only_attemptable(d: MergeDialog) -> bool {
    d.phase matches MergePhase::Submitting { assessment } ==> assessment.may_attempt()
}

/// `d1` is `d0` after one operation on the dialog: an assessment answer, a
/// submission asked for, a failed submission, or a change of the merge
/// method or branch deletion (which leave the phase as it is).
pub open spec fn dialog_step(d0: MergeDialog, d1: MergeDialog) -> bool {
    ||| exists|request: u64, result: Result<MergeAssessment, String>, taken: bool|
        #[trigger] assessment_applied(d0, d1, request, result, taken)
    ||| exists|r: Option<(MergeAssessment, MergeMethod, bool)>| #[trigger] submit_begun(d0, d1, r)
    ||| exists|message: String| #[trigger] submit_failed_to(d0, d1, message)
    ||| d1.phase == d0.phase
}

/// A new dialog is submitting nothing.
pub proof fn law_new_dialog_submits_nothing(d: MergeDialog, request: u64)
    requires
        d.phase == (MergePhase::Checking { request }),
    ensures
        submits_only_attemptable(d),
{
}

/// Whatever operations run on the dialog, a submission is always of an
/// approved assessment with a known head: every step keeps that. A
/// submission starts only where `begin_submit` returned the assessment, and
/// ends only by `submit_failed`, back to showing the same assessment.
pub proof fn law_submission_stays_attemptable(d0: MergeDialog, d1: MergeDialog)
    requires
        submits_only_attemptable(d0),
        dialog_step(d0, d1),
    ensures
        submits_only_attemptable(d1),
        (d1.phase is Submitting && !(d0.phase is Submitting)) ==> exists|
            r: Option<(MergeAssessment, MergeMethod, bool)>,
        | #[trigger] submit_begun(d0, d1, r) && r is Some,
        d0.phase matches MergePhase::Submitting { assessment: a } ==> (d1.phase is Submitting
            || (d1.phase matches MergePhase::Assessed { assessment, .. } && assessment == a)),
{
    if exists|r: Option<(MergeAssessment, MergeMethod, bool)>| #[trigger] submit_begun(d0, d1, r) {
        let r = choose|r: Option<(MergeAssessment, MergeMethod, bool)>| #[trigger] submit_begun(d0, d1, r);
        if d1.phase is Submitting && !(d0.phase is Submitting) {
            assert(submit_begun(d0, d1, r) && r is Some);
        }
    }
}

/// While a merge is being submitted, an assessment answer changes nothing.
pub proof fn law_assessment_ignored_while_submitting(
    d0: MergeDialog,
    d1: MergeDialog,
    request: u64,
    result: Result<MergeAssessment, String>,
    taken: bool,
)
    requires
        d0.phase is Submitting,
        assessment_applied(d0, d1, request, result, taken),
    ensures
        !taken,
        d1 == d0,
{
}

// ---------------------------------------------------------------------------
// Percent-encoding
// ---------------------------------------------------------------------------

proof fn lemma_encode_bytes_concat(a: Seq<u8>, b: Seq<u8>)
    ensures
        encode_bytes(a + b) == encode_bytes(a) + encode_bytes(b),
    decreases b.len(),
{
    if b.len() == 0 {
        assert(a + b == a);
    } else {
        lemma_encode_bytes_concat(a, b.drop_last());
        assert((a + b).drop_last() == a + b.drop_last());
        assert((a + b).last() == b.last());
    }
}

proof fn lemma_hex_round_trip(n: nat)
    requires
        n < 16,
    ensures
        hex_value(hex_upper(n)) == n,
{
}

/// Percent-decoding an encoded path gives its bytes back, so
/// `encode_path` loses nothing: decoding its result and reading the bytes
/// as UTF-8 gives the path.
pub proof fn law_percent_decoding_inverts_encoding(bytes: Seq<u8>)
    ensures
        percent_decode(encode_bytes(bytes)) == bytes,
    decreases bytes.len(),
{
    if bytes.len() > 0 {
        let b = bytes[0];
        let rest = bytes.drop_first();
        assert(bytes == seq![b] + rest);
        lemma_encode_bytes_concat(seq![b], rest);
        assert(seq![b].drop_last() =~= Seq::<u8>::empty());
        assert(seq![b].last() == b);
        assert(encode_bytes(Seq::<u8>::empty()) =~= Seq::<char>::empty());
        assert(encode_bytes(seq![b]) == encode_bytes(seq![b].drop_last()) + encode_byte(b));
        assert(encode_bytes(seq![b]) =~= encode_byte(b));
        law_percent_decoding_inverts_encoding(rest);
        let s = encode_bytes(bytes);
        assert(s == encode_byte(b) + encode_bytes(rest));
        if is_unreserved(b) {
            assert(s[0] == b as char);
            assert((b as char) != '%');
            assert(s.drop_first() =~= encode_bytes(rest));
            assert((b as char) as u8 == b);
        } else {
            lemma_hex_round_trip((b / 16) as nat);
            lemma_hex_round_trip((b % 16) as nat);
            assert(s.skip(3) =~= encode_bytes(rest));
            assert(((b / 16) as nat) * 16 + ((b % 16) as nat) == b);
        }
        assert(percent_decode(s) =~= bytes);
    }
}

/// An encoded path decodes to the path: percent-decoding what
/// `encode_path` returns and reading the bytes as UTF-8 gives the path back.
pub proof fn law_encoded_path_decodes(path: Seq<char>)
    ensures
        decode_utf8(percent_decode(encode_bytes(encode_utf8(path)))) == path,
{
    law_percent_decoding_inverts_encoding(encode_utf8(path));
    encode_utf8_decode_utf8(path);
}

// ---------------------------------------------------------------------------
// Status checks
// ---------------------------------------------------------------------------

/// A check run is pending until its status is `COMPLETED`; a completed run
/// passes exactly when it concluded `SUCCESS`, `NEUTRAL` or `SKIPPED`, and
/// fails on any other conclusion (`FAILURE`, `CANCELLED`, `TIMED_OUT`, …)
/// or none. It is shown by its own name.
pub proof fn law_check_run_states(name: String, status: String, conclusion: Option<String>)
    ensures
        raw_check_name(RawCheck::CheckRun { name, status, conclusion }) == name@,
        status@ != "COMPLETED"@ ==> raw_check_state(RawCheck::CheckRun { name, status, conclusion })
            == CheckState::Pending,
        status@ == "COMPLETED"@ ==> (raw_check_state(RawCheck::CheckRun { name, status, conclusion })
            == CheckState::Passing <==> (conclusion matches Some(c) && (c@ == "SUCCESS"@ || c@
            == "NEUTRAL"@ || c@ == "SKIPPED"@))),
        status@ == "COMPLETED"@ && !(conclusion matches Some(c) && (c@ == "SUCCESS"@ || c@ == "NEUTRAL"@
            || c@ == "SKIPPED"@)) ==> raw_check_state(RawCheck::CheckRun { name, status, conclusion })
            == CheckState::Failing,
{
}

/// A commit status context passes on `SUCCESS`, is pending on `PENDING` or
/// `EXPECTED`, fails on `ERROR` or `FAILURE`, and is unknown otherwise; it is
/// shown by its context. A check of neither shape is an unknown check.
pub proof fn law_status_context_states(context: String, state: String)
    ensures
        raw_check_name(RawCheck::StatusContext { context, state }) == context@,
        raw_check_state(RawCheck::StatusContext { context, state }) == CheckState::Passing <==> state@
            == "SUCCESS"@,
        raw_check_state(RawCheck::StatusContext { context, state }) == CheckState::Pending <==> (state@
            == "PENDING"@ || state@ == "EXPECTED"@),
        raw_check_state(RawCheck::StatusContext { context, state }) == CheckState::Failing <==> (state@
            == "ERROR"@ || state@ == "FAILURE"@),
        raw_check_name(RawCheck::Unknown) == "unknown check"@,
        raw_check_state(RawCheck::Unknown) == CheckState::Unknown,
{
    reveal_strlit("SUCCESS");
    reveal_strlit("PENDING");
    reveal_strlit("EXPECTED");
    reveal_strlit("ERROR");
    reveal_strlit("FAILURE");
    let texts = seq!["SUCCESS"@, "PENDING"@, "EXPECTED"@, "ERROR"@, "FAILURE"@];
    assert(forall|i: int, j: int|
        0 <= i < j < 5 ==> #[trigger] texts[i] != #[trigger] texts[j]) by {
        assert(texts[0][0] != texts[1][0] && texts[0][0] != texts[2][0] && texts[0][0] != texts[3][0]);
        assert(texts[0][0] != texts[4][0] && texts[1][0] != texts[2][0] && texts[1][0] != texts[3][0]);
        assert(texts[1][0] != texts[4][0] && texts[2][1] != texts[3][1] && texts[2][0] != texts[4][0]);
        assert(texts[3][0] != texts[4][0]);
    }
}

// ---------------------------------------------------------------------------
// Reviews
// ---------------------------------------------------------------------------

/// A review is submitted with `gh pr review N --repo owner/repo` and the
/// verdict's flag (`--approve`, `--request-changes` or `--comment`); any
/// body that is not empty follows as `--body` and the body, whatever the
/// verdict, and an empty body adds nothing.
pub proof fn law_review_arguments(loc: PrLocator, verdict: ReviewVerdict, body: Seq<char>)
    ensures
        review_command(loc, verdict, body).len() == if body.len() == 0 { 6int } else { 8int },
        review_command(loc, verdict, body)[0] == "pr"@,
        review_command(loc, verdict, body)[1] == "review"@,
        review_command(loc, verdict, body)[2] == decimal(loc.number as nat),
        review_command(loc, verdict, body)[3] == "--repo"@,
        review_command(loc, verdict, body)[4] == loc.owner@ + seq!['/'] + loc.repo@,
        review_command(loc, verdict, body)[5] == match verdict {
            ReviewVerdict::Approve => "--approve"@,
            ReviewVerdict::RequestChanges => "--request-changes"@,
            ReviewVerdict::Comment => "--comment"@,
        },
        body.len() > 0 ==> review_command(loc, verdict, body)[6] == "--body"@ && review_command(
            loc,
            verdict,
            body,
        )[7] == body,
{
}

// ---------------------------------------------------------------------------
// Diffs too large for the API
// ---------------------------------------------------------------------------

/// An error is GitHub refusing a diff as too large exactly when its
/// lower-cased text contains one of the phrases "diff too large", "diff is
/// too large", "diff too big", "diff exceeded the maximum" (of lines or of
/// files alike) or "pullrequest.diff too_large".
pub proof fn law_large_diff_phrases(lower: Seq<char>)
    ensures
        crate::text::contains(lower, "diff too large"@) ==> mentions_large_diff(lower),
        crate::text::contains(lower, "diff is too large"@) ==> mentions_large_diff(lower),
        crate::text::contains(lower, "diff too big"@) ==> mentions_large_diff(lower),
        crate::text::contains(lower, "diff exceeded the maximum"@) ==> mentions_large_diff(lower),
        crate::text::contains(lower, "pullrequest.diff too_large"@) ==> mentions_large_diff(lower),
        mentions_large_diff(lower) ==> (crate::text::contains(lower, "diff too large"@)
            || crate::text::contains(lower, "diff is too large"@) || crate::text::contains(
            lower,
            "diff too big"@,
        ) || crate::text::contains(lower, "diff exceeded the maximum"@) || crate::text::contains(
            lower,
            "pullrequest.diff too_large"@,
        )),
{
}

// ---------------------------------------------------------------------------
// Remote states, merge arguments, path bytes, display order, labels
// ---------------------------------------------------------------------------

/// GitHub's documented pull request states name their variants, and only
/// they do; any other text is kept as an unknown state holding it.
pub proof fn law_known_pr_states(value: String)
    ensures
        (PrState::from_text(value) == PrState::Open) == (value@ == "OPEN"@),
        (PrState::from_text(value) == PrState::Closed) == (value@ == "CLOSED"@),
        (PrState::from_text(value) == PrState::Merged) == (value@ == "MERGED"@),
        PrState::from_text(value) is Unknown ==> PrState::from_text(value) == PrState::Unknown(value),
{
    reveal_strlit("OPEN");
    reveal_strlit("CLOSED");
    reveal_strlit("MERGED");
    assert("OPEN"@.len() != "CLOSED"@.len() && "OPEN"@.len() != "MERGED"@.len());
    assert("CLOSED"@[0] != "MERGED"@[0]);
}

/// GitHub's documented review decisions name their variants, and only they
/// do; any other text is kept as an unknown decision holding it.
pub proof fn law_known_review_decisions(value: String)
    ensures
        (ReviewDecision::from_text(value) == ReviewDecision::Approved) == (value@ == "APPROVED"@),
        (ReviewDecision::from_text(value) == ReviewDecision::ChangesRequested) == (value@
            == "CHANGES_REQUESTED"@),
        (ReviewDecision::from_text(value) == ReviewDecision::ReviewRequired) == (value@
            == "REVIEW_REQUIRED"@),
        ReviewDecision::from_text(value) is Unknown ==> ReviewDecision::from_text(value)
            == ReviewDecision::Unknown(value),
{
    reveal_strlit("APPROVED");
    reveal_strlit("CHANGES_REQUESTED");
    reveal_strlit("REVIEW_REQUIRED");
    assert("APPROVED"@.len() != "CHANGES_REQUESTED"@.len());
    assert("APPROVED"@.len() != "REVIEW_REQUIRED"@.len());
    assert("CHANGES_REQUESTED"@.len() != "REVIEW_REQUIRED"@.len());
}

/// GitHub's documented mergeability texts name their variants, and only
/// they do; any other text is kept as an unknown value holding it.
pub proof fn law_known_mergeability(value: String)
    ensures
        (Mergeability::from_text(value) == Mergeability::Mergeable) == (value@ == "MERGEABLE"@),
        (Mergeability::from_text(value) == Mergeability::Conflicting) == (value@ == "CONFLICTING"@),
        Mergeability::from_text(value) is Unknown ==> Mergeability::from_text(value)
            == Mergeability::Unknown(value),
{
    reveal_strlit("MERGEABLE");
    reveal_strlit("CONFLICTING");
    assert("MERGEABLE"@.len() != "CONFLICTING"@.len());
}

/// GitHub's documented merge states name their variants, and only they do;
/// any other text is kept as an unknown state holding it.
#[verifier::spinoff_prover]
pub proof fn law_known_merge_states(value: String)
    ensures
        (MergeState::from_text(value) == MergeState::Behind) == (value@ == "BEHIND"@),
        (MergeState::from_text(value) == MergeState::Blocked) == (value@ == "BLOCKED"@),
        (MergeState::from_text(value) == MergeState::Clean) == (value@ == "CLEAN"@),
        (MergeState::from_text(value) == MergeState::Dirty) == (value@ == "DIRTY"@),
        (MergeState::from_text(value) == MergeState::Draft) == (value@ == "DRAFT"@),
        (MergeState::from_text(value) == MergeState::HasHooks) == (value@ == "HAS_HOOKS"@),
        (MergeState::from_text(value) == MergeState::Unstable) == (value@ == "UNSTABLE"@),
        MergeState::from_text(value) is Unknown ==> MergeState::from_text(value) == MergeState::Unknown(
            value,
        ),
{
    reveal_strlit("BEHIND");
    reveal_strlit("BLOCKED");
    reveal_strlit("CLEAN");
    reveal_strlit("DIRTY");
    reveal_strlit("DRAFT");
    reveal_strlit("HAS_HOOKS");
    reveal_strlit("UNSTABLE");
    let t = seq!["BEHIND"@, "BLOCKED"@, "CLEAN"@, "DIRTY"@, "DRAFT"@, "HAS_HOOKS"@, "UNSTABLE"@];
    assert(t[0].len() == 6 && t[1].len() == 7 && t[2].len() == 5 && t[3].len() == 5);
    assert(t[4].len() == 5 && t[5].len() == 9 && t[6].len() == 8);
    assert(t[2][0] != t[3][0] && t[2][0] != t[4][0] && t[3][1] != t[4][1]);
    assert(forall|i: int, j: int| 0 <= i < j < 7 ==> #[trigger] t[i] != #[trigger] t[j]);
}

/// A merge is `gh pr merge N --repo owner/repo` with the method's flag
/// (`--merge`, `--squash` or `--rebase`), `--match-head-commit` and the head
/// commit, and `--delete-branch` exactly when the branch is to be deleted.
pub proof fn law_merge_arguments(loc: PrLocator, method: MergeMethod, delete_branch: bool, head_oid: Seq<char>)
    ensures
        merge_command(loc, method, delete_branch, head_oid).len() == if delete_branch { 9int } else { 8int },
        merge_command(loc, method, delete_branch, head_oid)[0] == "pr"@,
        merge_command(loc, method, delete_branch, head_oid)[1] == "merge"@,
        merge_command(loc, method, delete_branch, head_oid)[2] == decimal(loc.number as nat),
        merge_command(loc, method, delete_branch, head_oid)[3] == "--repo"@,
        merge_command(loc, method, delete_branch, head_oid)[4] == loc.owner@ + seq!['/'] + loc.repo@,
        merge_command(loc, method, delete_branch, head_oid)[5] == match method {
            MergeMethod::Merge => "--merge"@,
            MergeMethod::Squash => "--squash"@,
            MergeMethod::Rebase => "--rebase"@,
        },
        merge_command(loc, method, delete_branch, head_oid)[6] == "--match-head-commit"@,
        merge_command(loc, method, delete_branch, head_oid)[7] == head_oid,
        delete_branch ==> merge_command(loc, method, delete_branch, head_oid)[8] == "--delete-branch"@,
{
}

/// A path byte stays as it is exactly when it is an ASCII letter or digit or
/// one of `-`, `.`, `_`, `~`, `/`; every other byte becomes `%` and its two
/// upper-case hexadecimal digits.
pub proof fn law_path_byte_encoding(b: u8)
    ensures
        (('A' as u8 <= b <= 'Z' as u8) || ('a' as u8 <= b <= 'z' as u8) || ('0' as u8 <= b <= '9' as u8)
            || b == '-' as u8 || b == '.' as u8 || b == '_' as u8 || b == '~' as u8 || b == '/' as u8)
            ==> encode_byte(b) == seq![b as char],
        !(('A' as u8 <= b <= 'Z' as u8) || ('a' as u8 <= b <= 'z' as u8) || ('0' as u8 <= b <= '9' as u8)
            || b == '-' as u8 || b == '.' as u8 || b == '_' as u8 || b == '~' as u8 || b == '/' as u8)
            ==> encode_byte(b) == seq!['%', "0123456789ABCDEF"@[(b / 16) as int], "0123456789ABCDEF"@[(b % 16) as int]],
{
    reveal_strlit("0123456789ABCDEF");
    let hex = "0123456789ABCDEF"@;
    assert forall|n: int| 0 <= n < 16 implies #[trigger] hex[n] == hex_upper(n as nat) by {
        assert(hex[n] == "0123456789ABCDEF"@[n]);
    }
    assert(hex[(b / 16) as int] == hex_upper((b / 16) as nat));
    assert(hex[(b % 16) as int] == hex_upper((b % 16) as nat));
}

/// The merged list shows the most recently updated pull requests first;
/// among equally recent ones by repository name, then by number.
pub proof fn law_merge_newest_first(out: Seq<UserPrSummary>, prs: Seq<UserPrSummary>)
    requires
        is_merge_of(out, prs),
    ensures
        forall|i: int, j: int|
            0 <= i < j < out.len() ==> !text_less(
                (#[trigger] out[i]).updated_at@,
                (#[trigger] out[j]).updated_at@,
            ),
        forall|i: int, j: int|
            0 <= i < j < out.len() && (#[trigger] out[i]).updated_at@ == (#[trigger] out[j]).updated_at@
                ==> !text_less(out[j].repository.name_with_owner@, out[i].repository.name_with_owner@),
        forall|i: int, j: int|
            0 <= i < j < out.len() && (#[trigger] out[i]).updated_at@ == (#[trigger] out[j]).updated_at@
                && out[i].repository.name_with_owner@ == out[j].repository.name_with_owner@ ==> out[i].number
                < out[j].number,
{
    assert forall|i: int, j: int| 0 <= i < j < out.len() implies !text_less(
        (#[trigger] out[i]).updated_at@,
        (#[trigger] out[j]).updated_at@,
    ) by {
        let a = out[i].updated_at@;
        let b = out[j].updated_at@;
        lemma_text_less_irreflexive(a);
        if text_less(a, b) && text_less(b, a) {
            lemma_text_less_transitive(a, b, a);
        }
    }
    assert forall|i: int, j: int|
        0 <= i < j < out.len() && (#[trigger] out[i]).updated_at@ == (#[trigger] out[j]).updated_at@
            implies !text_less(out[j].repository.name_with_owner@, out[i].repository.name_with_owner@) by {
        let a = out[i].repository.name_with_owner@;
        let b = out[j].repository.name_with_owner@;
        lemma_text_less_irreflexive(a);
        lemma_text_less_irreflexive(out[i].updated_at@);
        if text_less(a, b) && text_less(b, a) {
            lemma_text_less_transitive(a, b, a);
        }
    }
    assert forall|i: int, j: int|
        0 <= i < j < out.len() && (#[trigger] out[i]).updated_at@ == (#[trigger] out[j]).updated_at@
            && out[i].repository.name_with_owner@ == out[j].repository.name_with_owner@ implies out[i].number
            < out[j].number by {
        lemma_text_less_irreflexive(out[i].updated_at@);
        lemma_text_less_irreflexive(out[i].repository.name_with_owner@);
    }
}

/// A check that did not pass is labelled `failed` when failing, `waiting`
/// when pending, and `unknown` otherwise.
pub proof fn law_problem_labels(state: CheckState)
    ensures
        state == CheckState::Failing ==> problem_label(state) == "failed"@,
        state == CheckState::Pending ==> problem_label(state) == "waiting"@,
        (state == CheckState::Unknown || state == CheckState::Passing) ==> problem_label(state) == "unknown"@,
{
}

// ---------------------------------------------------------------------------
// Trimming
// ---------------------------------------------------------------------------

proof fn lemma_trim_start_shape(s: Seq<char>) -> (i: int)
    ensures
        0 <= i <= s.len(),
        trim_start(s) == s.skip(i),
        forall|k: int| 0 <= k < i ==> is_whitespace(#[trigger] s[k]),
        i < s.len() ==> !is_whitespace(s[i]),
    decreases s.len(),
{
    if s.len() > 0 && is_whitespace(s[0]) {
        let j = lemma_trim_start_shape(s.drop_first());
        assert(s.drop_first().skip(j) =~= s.skip(j + 1));
        assert forall|k: int| 0 <= k < j + 1 implies is_whitespace(#[trigger] s[k]) by {
            if k > 0 {
                assert(s[k] == s.drop_first()[k - 1]);
            }
        }
        if j + 1 < s.len() {
            assert(s[j + 1] == s.drop_first()[j]);
        }
        j + 1
    } else {
        assert(s.skip(0) =~= s);
        0
    }
}

proof fn lemma_trim_end_shape(s: Seq<char>) -> (j: int)
    ensures
        0 <= j <= s.len(),
        trim_end(s) == s.take(j),
        forall|k: int| j <= k < s.len() ==> is_whitespace(#[trigger] s[k]),
        j > 0 ==> !is_whitespace(s[j - 1]),
    decreases s.len(),
{
    if s.len() > 0 && is_whitespace(s.last()) {
        let j = lemma_trim_end_shape(s.drop_last());
        assert(s.drop_last().take(j) =~= s.take(j));
        assert forall|k: int| j <= k < s.len() implies is_whitespace(#[trigger] s[k]) by {
            if k < s.len() - 1 {
                assert(s[k] == s.drop_last()[k]);
            }
        }
        if j > 0 {
            assert(s[j - 1] == s.drop_last()[j - 1]);
        }
        j
    } else {
        assert(s.take(s.len() as int) =~= s);
        s.len() as int
    }
}

/// Trimming removes white space from both ends and nothing else: the result
/// is a stretch `s[i..j]` of `s` with only white space before and after it,
/// and, unless it is empty, it starts and ends with a character that is not
/// white space.
pub proof fn law_trim_strips_both_ends(s: Seq<char>)
    ensures
        exists|i: int, j: int|
            0 <= i <= j <= s.len() && #[trigger] s.subrange(i, j) == trim(s) && (forall|k: int|
                0 <= k < i ==> is_whitespace(#[trigger] s[k])) && (forall|k: int|
                j <= k < s.len() ==> is_whitespace(#[trigger] s[k])),
        trim(s).len() > 0 ==> !is_whitespace(trim(s)[0]) && !is_whitespace(trim(s).last()),
{
    let i = lemma_trim_start_shape(s);
    let t = s.skip(i);
    let j = lemma_trim_end_shape(t);
    assert(trim(s) == t.take(j));
    assert(t.take(j) =~= s.subrange(i, i + j));
    assert forall|k: int| i + j <= k < s.len() implies is_whitespace(#[trigger] s[k]) by {
        assert(s[k] == t[k - i]);
    }
    if j > 0 {
        assert(trim(s)[0] == s[i]);
        assert(trim(s).last() == t[j - 1]);
    }
    assert(s.subrange(i, i + j) == trim(s));
}

} // verus!
