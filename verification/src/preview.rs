//! Patches and file contents for the preview: the `gh`/`git` calls that
//! fetch them, the blob cache's names, and what each answer means.
use vstd::prelude::*;

use crate::command::{GhError, lossy_text, utf8_lossy, utf8_option};
use crate::model::PrLocator;
use crate::text::{
    chars_contain, chars_of, contains, decimal, decimal_text, lowercase, push_char,
    push_decimal, to_lowercase, trim, trimmed, views,
};
use sha2::{Digest, Sha256};
use vstd::utf8::{decode_utf8, encode_utf8, valid_utf8};

verus! {

/// The largest file, in bytes, that the preview shows.
pub const MAX_BLOB_BYTES: usize = 1048576;

/// The arguments of `gh pr diff` for `loc`.
pub fn fetch_patch(loc: &PrLocator) -> (args: Vec<String>)
    ensures
        views(args@) == seq!["pr"@, "diff"@, decimal(loc.number as nat), "--repo"@, loc.slug()],
{
    let mut args: Vec<String> = Vec::new();
    args.push("pr".to_owned());
    args.push("diff".to_owned());
    args.push(decimal_text(loc.number));
    args.push("--repo".to_owned());
    args.push(loc.repo_slug());
    assert(views(args@) =~= seq!["pr"@, "diff"@, decimal(loc.number as nat), "--repo"@, loc.slug()]);
    args
}

// ---------------------------------------------------------------------------
// Diffs too large for the API
// ---------------------------------------------------------------------------

/// Whether a lower-cased error text is one of GitHub's "diff too large"
/// refusals.
pub open spec fn mentions_large_diff(text: Seq<char>) -> bool {
    ||| contains(text, "diff too large"@)
    ||| contains(text, "diff is too large"@)
    ||| contains(text, "diff too big"@)
    ||| contains(text, "diff exceeded the maximum"@)
    ||| contains(text, "pullrequest.diff too_large"@)
}

/// Whether a lower-cased error text is one of GitHub's "diff too large"
/// refusals.
pub fn names_large_diff(lower: &str) -> (r: bool)
    ensures
        r == mentions_large_diff(lower@),
{
    let text = chars_of(lower);
    chars_contain(&text, &chars_of("diff too large")) || chars_contain(&text, &chars_of("diff is too large"))
        || chars_contain(&text, &chars_of("diff too big")) || chars_contain(
        &text,
        &chars_of("diff exceeded the maximum"),
    ) || chars_contain(&text, &chars_of("pullrequest.diff too_large"))
}

/// Whether an error, given as its full text (the error and its causes, as
/// `{:#}` shows them), is GitHub refusing a diff as too large; the preview
/// then builds the patch locally.
pub fn is_diff_too_large_error(message: &str) -> (r: bool)
    ensures
        r == mentions_large_diff(lowercase(message@)),
{
    let lower = to_lowercase(message);
    names_large_diff(lower.as_str())
}

// ---------------------------------------------------------------------------
// Paths in API URLs
// ---------------------------------------------------------------------------

/// The bytes a path keeps as they are: letters, digits and `-._~/`.
pub open spec fn is_unreserved(b: u8) -> bool {
    ||| (65 <= b && b <= 90)
    ||| (97 <= b && b <= 122)
    ||| (48 <= b && b <= 57)
    ||| b == 45
    ||| b == 46
    ||| b == 95
    ||| b == 126
    ||| b == 47
}

/// The upper-case hexadecimal digit of `n < 16`.
pub open spec fn hex_upper(n: nat) -> char {
    if n < 10 {
        (48 + n) as char
    } else {
        (55 + n) as char
    }
}

/// The lower-case hexadecimal digit of `n < 16`.
pub open spec fn hex_lower(n: nat) -> char {
    if n < 10 {
        (48 + n) as char
    } else {
        (87 + n) as char
    }
}

/// One byte of a path in an API URL: itself when unreserved, else `%XX`.
pub open spec fn encode_byte(b: u8) -> Seq<char> {
    if is_unreserved(b) {
        seq![b as char]
    } else {
        seq!['%', hex_upper((b / 16) as nat), hex_upper((b % 16) as nat)]
    }
}

/// The bytes of a path, percent-encoded.
pub open spec fn encode_bytes(bytes: Seq<u8>) -> Seq<char>
    decreases bytes.len(),
{
    if bytes.len() == 0 {
        Seq::empty()
    } else {
        encode_bytes(bytes.drop_last()) + encode_byte(bytes.last())
    }
}

/// The value of a hexadecimal digit (`0-9`, `A-F`).
pub open spec fn hex_value(c: char) -> int {
    if '0' <= c && c <= '9' {
        c as int - 48
    } else {
        c as int - 55
    }
}

/// Percent-decoding: each `%XY` is the byte `0xXY`, every other character
/// the byte of its code.
pub open spec fn percent_decode(s: Seq<char>) -> Seq<u8>
    decreases s.len(),
{
    if s.len() == 0 {
        Seq::empty()
    } else if s[0] == '%' && s.len() >= 3 {
        seq![(hex_value(s[1]) * 16 + hex_value(s[2])) as u8] + percent_decode(s.skip(3))
    } else {
        seq![s[0] as u8] + percent_decode(s.drop_first())
    }
}

fn hex_digit_upper(n: u8) -> (c: char)
    requires
        n < 16,
    ensures
        c == hex_upper(n as nat),
{
    if n < 10 {
        (48 + n) as char
    } else {
        (55 + n) as char
    }
}

fn hex_digit_lower(n: u8) -> (c: char)
    requires
        n < 16,
    ensures
        c == hex_lower(n as nat),
{
    if n < 10 {
        (48 + n) as char
    } else {
        (87 + n) as char
    }
}

/// Percent-encodes the UTF-8 bytes of `path` for the contents API, keeping
/// letters, digits, `-._~` and `/`.
pub fn encode_path(path: &str) -> (r: String)
    ensures
        r@ == encode_bytes(encode_utf8(path@)),
{
    let bytes = path.as_bytes();
    let mut out = String::new();
    let mut i: usize = 0;
    assert(bytes@.take(0) =~= Seq::<u8>::empty());
    while i < bytes.len()
        invariant
            0 <= i <= bytes@.len(),
            out@ == encode_bytes(bytes@.take(i as int)),
        decreases bytes@.len() - i,
    {
        let b = bytes[i];
        assert(bytes@.take(i + 1).drop_last() == bytes@.take(i as int));
        if (65 <= b && b <= 90) || (97 <= b && b <= 122) || (48 <= b && b <= 57) || b == 45 || b == 46
            || b == 95 || b == 126 || b == 47 {
            push_char(&mut out, b as char);
        } else {
            push_char(&mut out, '%');
            push_char(&mut out, hex_digit_upper(b / 16));
            push_char(&mut out, hex_digit_upper(b % 16));
        }
        assert(out@ =~= encode_bytes(bytes@.take(i + 1)));
        i = i + 1;
    }
    assert(bytes@.take(i as int) == bytes@);
    out
}

// ---------------------------------------------------------------------------
// Blob cache names
// ---------------------------------------------------------------------------

/// The SHA-256 digest of `data`.
pub uninterp spec fn sha256(data: Seq<u8>) -> Seq<u8>;

/// `Sha256::digest` of the `sha2` crate. The contract names the digest and
/// states its length, 32 bytes (the output size of SHA-256).
#[verifier::external_body]
fn sha256_digest(data: &[u8]) -> (d: Vec<u8>)
    ensures
        d@ == sha256(data@),
        d@.len() == 32,
{
    Sha256::digest(data).to_vec()
}

/// The bytes that name a cached blob: repository, commit and path, each
/// followed by a zero byte.
pub open spec fn key_message(repo: Seq<char>, oid: Seq<char>, path: Seq<char>) -> Seq<u8> {
    encode_utf8(repo) + seq![0u8] + encode_utf8(oid) + seq![0u8] + encode_utf8(path) + seq![0u8]
}

/// Bytes in lower-case hexadecimal, two digits each.
pub open spec fn hex_lower_bytes(bytes: Seq<u8>) -> Seq<char>
    decreases bytes.len(),
{
    if bytes.len() == 0 {
        Seq::empty()
    } else {
        hex_lower_bytes(bytes.drop_last()) + seq![
            hex_lower((bytes.last() / 16) as nat),
            hex_lower((bytes.last() % 16) as nat),
        ]
    }
}

fn push_bytes(out: &mut Vec<u8>, bytes: &[u8])
    ensures
        final(out)@ == old(out)@ + bytes@,
{
    let mut i: usize = 0;
    while i < bytes.len()
        invariant
            0 <= i <= bytes@.len(),
            out@ == old(out)@ + bytes@.take(i as int),
        decreases bytes@.len() - i,
    {
        out.push(bytes[i]);
        assert(bytes@.take(i + 1) == bytes@.take(i as int).push(bytes@[i as int]));
        i = i + 1;
    }
    assert(bytes@.take(i as int) == bytes@);
}

/// `bytes` in lower-case hexadecimal, two digits each.
pub fn hex_text(bytes: &[u8]) -> (r: String)
    ensures
        r@ == hex_lower_bytes(bytes@),
        r@.len() == 2 * bytes@.len(),
{
    let mut out = String::new();
    let mut i: usize = 0;
    assert(bytes@.take(0) =~= Seq::<u8>::empty());
    while i < bytes.len()
        invariant
            0 <= i <= bytes@.len(),
            out@ == hex_lower_bytes(bytes@.take(i as int)),
            out@.len() == 2 * i,
        decreases bytes@.len() - i,
    {
        let b = bytes[i];
        assert(bytes@.take(i + 1).drop_last() == bytes@.take(i as int));
        push_char(&mut out, hex_digit_lower(b / 16));
        push_char(&mut out, hex_digit_lower(b % 16));
        assert(out@ =~= hex_lower_bytes(bytes@.take(i + 1)));
        i = i + 1;
    }
    assert(bytes@.take(i as int) == bytes@);
    out
}

/// The file name of the cached blob of `path` at `oid` in `repo`: the
/// SHA-256 of the three, in lower-case hexadecimal.
pub fn cache_key(repo: &str, oid: &str, path: &str) -> (r: String)
    ensures
        r@ == hex_lower_bytes(sha256(key_message(repo@, oid@, path@))),
        r@.len() == 64,
{
    let mut message: Vec<u8> = Vec::new();
    push_bytes(&mut message, repo.as_bytes());
    message.push(0);
    push_bytes(&mut message, oid.as_bytes());
    message.push(0);
    push_bytes(&mut message, path.as_bytes());
    message.push(0);
    assert(message@ =~= key_message(repo@, oid@, path@));
    let digest = sha256_digest(message.as_slice());
    hex_text(digest.as_slice())
}

// ---------------------------------------------------------------------------
// Fetching a file at a commit
// ---------------------------------------------------------------------------

/// How to fetch one file: where its cache entry lives and the `gh api` call.
pub struct BlobRequest {
    /// The cache directory; `None` for the default one under the home
    /// directory.
    pub cache_root: Option<String>,
    /// The file name of the cache entry (the `.absent` marker sits beside it).
    pub cache_file: String,
    /// The contents API endpoint.
    pub endpoint: String,
    /// The arguments of `gh`.
    pub args: Vec<String>,
}

/// The contents API endpoint of `path` at `oid`.
pub open spec fn contents_endpoint(loc: PrLocator, oid: Seq<char>, path: Seq<char>) -> Seq<char> {
    "repos/"@ + loc.owner@ + seq!['/'] + loc.repo@ + "/contents/"@ + encode_bytes(encode_utf8(path))
        + "?ref="@ + oid
}

/// The request for `path` at `commit_oid` of `loc`'s repository, cached under
/// `cache_root`.
pub open spec fn is_blob_request(r: BlobRequest, loc: PrLocator, oid: Seq<char>, path: Seq<char>) -> bool {
    &&& r.cache_file@ == hex_lower_bytes(sha256(key_message(loc.slug(), oid, path)))
    &&& r.endpoint@ == contents_endpoint(loc, oid, path)
    &&& views(r.args@) == seq![
        "api"@,
        "-H"@,
        "Accept: application/vnd.github.raw+json"@,
        contents_endpoint(loc, oid, path),
    ]
}

fn blob_request(loc: &PrLocator, commit_oid: &str, path: &str, cache_root: Option<String>) -> (r: BlobRequest)
    ensures
        is_blob_request(r, *loc, commit_oid@, path@),
        r.cache_root == cache_root,
{
    let slug = loc.repo_slug();
    let cache_file = cache_key(slug.as_str(), commit_oid, path);
    let mut endpoint = String::new();
    endpoint.append("repos/");
    endpoint.append(loc.owner.as_str());
    push_char(&mut endpoint, '/');
    endpoint.append(loc.repo.as_str());
    endpoint.append("/contents/");
    let encoded = encode_path(path);
    endpoint.append(encoded.as_str());
    endpoint.append("?ref=");
    endpoint.append(commit_oid);
    assert(endpoint@ =~= contents_endpoint(*loc, commit_oid@, path@));
    let mut args: Vec<String> = Vec::new();
    args.push("api".to_owned());
    args.push("-H".to_owned());
    args.push("Accept: application/vnd.github.raw+json".to_owned());
    args.push(endpoint.as_str().to_owned());
    let r = BlobRequest { cache_root, cache_file, endpoint, args };
    assert(views(r.args@) =~= seq![
        "api"@,
        "-H"@,
        "Accept: application/vnd.github.raw+json"@,
        contents_endpoint(*loc, commit_oid@, path@),
    ]);
    r
}

/// How to fetch `path` at `commit_oid`, cached in the default directory.
pub fn fetch_file_at(loc: &PrLocator, commit_oid: &str, path: &str) -> (r: BlobRequest)
    ensures
        is_blob_request(r, *loc, commit_oid@, path@),
        r.cache_root is None,
{
    blob_request(loc, commit_oid, path, None)
}

/// How to fetch `path` at `commit_oid`, cached under `cache_root`.
pub fn fetch_file_at_in(loc: &PrLocator, commit_oid: &str, path: &str, cache_root: &str) -> (r: BlobRequest)
    ensures
        is_blob_request(r, *loc, commit_oid@, path@),
        r.cache_root matches Some(root) && root@ == cache_root@,
{
    blob_request(loc, commit_oid, path, Some(cache_root.to_owned()))
}

/// What the cache says of a file before any fetch.
#[derive(Debug, Clone, PartialEq, Eq)]
pub enum CacheLookup {
    /// The answer is known: the file's text, or `None` for a file that is
    /// absent, too large or not text.
    Answer(Option<String>),
    /// Nothing cached: fetch it.
    Fetch,
}

/// Reads the cache: an `.absent` marker answers "no text"; a cached entry
/// answers its text where it is UTF-8 (else "no text"); otherwise fetch.
pub fn cached_blob(absent_marker: bool, cached: Option<Vec<u8>>) -> (r: CacheLookup)
    ensures
        absent_marker ==> r == CacheLookup::Answer(None),
        !absent_marker && cached is None ==> r == CacheLookup::Fetch,
        !absent_marker ==> (cached matches Some(bytes) ==> (r matches CacheLookup::Answer(text) && (
        text is Some <==> valid_utf8(bytes@)) && (text matches Some(t) ==> t@ == decode_utf8(bytes@)))),
{
    if absent_marker {
        return CacheLookup::Answer(None);
    }
    match cached {
        Some(bytes) => CacheLookup::Answer(utf8_option(bytes)),
        None => CacheLookup::Fetch,
    }
}

/// What a failed `gh api` call for `endpoint` means, given its standard
/// error as text: a 404 says the file is absent (`None`, to be marked
/// absent); anything else is an error.
pub fn blob_failure(endpoint: &str, stderr_text: &str) -> (r: Result<Option<String>, GhError>)
    ensures
        contains(stderr_text@, "404"@) ==> r == Ok::<Option<String>, GhError>(None),
        !contains(stderr_text@, "404"@) ==> (r matches Err(e) && e.message@ == "gh api "@ + endpoint@
            + " failed: "@ + trim(stderr_text@)),
{
    let err_chars = chars_of(stderr_text);
    if chars_contain(&err_chars, &chars_of("404")) {
        return Ok(None);
    }
    let mut message = String::new();
    message.append("gh api ");
    message.append(endpoint);
    message.append(" failed: ");
    let t = trimmed(stderr_text);
    message.append(t.as_str());
    Err(GhError { message })
}

/// What the finished `gh api` call for `endpoint` means: the file's text
/// (to be cached), `None` for a file that is absent (404), larger than
/// `MAX_BLOB_BYTES` or not UTF-8 (to be marked absent), or the error.
pub fn blob_response(endpoint: &str, success: bool, stdout: Vec<u8>, stderr: Vec<u8>) -> (r: Result<Option<String>, GhError>)
    ensures
        !success && contains(utf8_lossy(stderr@), "404"@) ==> r == Ok::<Option<String>, GhError>(None),
        !success && !contains(utf8_lossy(stderr@), "404"@) ==> (r matches Err(e) && e.message@ == "gh api "@
            + endpoint@ + " failed: "@ + trim(utf8_lossy(stderr@))),
        success && stdout@.len() > MAX_BLOB_BYTES ==> r == Ok::<Option<String>, GhError>(None),
        success && stdout@.len() <= MAX_BLOB_BYTES ==> (r matches Ok(text) && (text is Some
            <==> valid_utf8(stdout@)) && (text matches Some(t) ==> t@ == decode_utf8(stdout@))),
{
    if !success {
        let err = lossy_text(stderr.as_slice());
        return blob_failure(endpoint, err.as_str());
    }
    if stdout.len() > MAX_BLOB_BYTES {
        return Ok(None);
    }
    Ok(utf8_option(stdout))
}

// ---------------------------------------------------------------------------
// Building a patch locally
// ---------------------------------------------------------------------------

/// The arguments of `gh repo clone` that make a bare, blob-less clone of
/// `loc`'s repository at `destination`.
pub fn local_clone_args(loc: &PrLocator, destination: &str) -> (args: Vec<String>)
    ensures
        views(args@) == seq![
            "repo"@,
            "clone"@,
            loc.slug(),
            destination@,
            "--"@,
            "--bare"@,
            "--filter=blob:none"@,
            "--single-branch"@,
            "--no-tags"@,
        ],
{
    let mut args: Vec<String> = Vec::new();
    args.push("repo".to_owned());
    args.push("clone".to_owned());
    args.push(loc.repo_slug());
    args.push(destination.to_owned());
    args.push("--".to_owned());
    args.push("--bare".to_owned());
    args.push("--filter=blob:none".to_owned());
    args.push("--single-branch".to_owned());
    args.push("--no-tags".to_owned());
    assert(views(args@) =~= seq![
        "repo"@,
        "clone"@,
        loc.slug(),
        destination@,
        "--"@,
        "--bare"@,
        "--filter=blob:none"@,
        "--single-branch"@,
        "--no-tags"@,
    ]);
    args
}

/// The arguments of `git fetch` that bring the base branch `base_ref_name`
/// and the pull request's head into the local refs `refs/ghreview/base` and
/// `refs/ghreview/head`.
pub fn local_fetch_args(loc: &PrLocator, base_ref_name: &str) -> (args: Vec<String>)
    ensures
        views(args@) == seq![
            "fetch"@,
            "--no-tags"@,
            "origin"@,
            "+refs/heads/"@ + base_ref_name@ + ":refs/ghreview/base"@,
            "+refs/pull/"@ + decimal(loc.number as nat) + "/head:refs/ghreview/head"@,
        ],
{
    let mut base = String::new();
    base.append("+refs/heads/");
    base.append(base_ref_name);
    base.append(":refs/ghreview/base");
    let mut head = String::new();
    head.append("+refs/pull/");
    push_decimal(&mut head, loc.number);
    head.append("/head:refs/ghreview/head");
    let mut args: Vec<String> = Vec::new();
    args.push("fetch".to_owned());
    args.push("--no-tags".to_owned());
    args.push("origin".to_owned());
    args.push(base);
    args.push(head);
    assert(views(args@) =~= seq![
        "fetch"@,
        "--no-tags"@,
        "origin"@,
        "+refs/heads/"@ + base_ref_name@ + ":refs/ghreview/base"@,
        "+refs/pull/"@ + decimal(loc.number as nat) + "/head:refs/ghreview/head"@,
    ]);
    args
}

/// The arguments of `git merge-base` for the fetched base and head.
pub fn local_merge_base_args() -> (args: Vec<String>)
    ensures
        views(args@) == seq!["merge-base"@, "refs/ghreview/base"@, "refs/ghreview/head"@],
{
    let mut args: Vec<String> = Vec::new();
    args.push("merge-base".to_owned());
    args.push("refs/ghreview/base".to_owned());
    args.push("refs/ghreview/head".to_owned());
    assert(views(args@) =~= seq!["merge-base"@, "refs/ghreview/base"@, "refs/ghreview/head"@]);
    args
}

/// The arguments of `git diff` from the merge base (as `git merge-base`
/// printed it) to the pull request's head, with renames detected.
pub fn local_diff_args(merge_base_output: &str) -> (args: Vec<String>)
    ensures
        views(args@) == seq![
            "diff"@,
            "-M"@,
            "--no-color"@,
            "--no-ext-diff"@,
            trim(merge_base_output@),
            "refs/ghreview/head"@,
        ],
{
    let mut args: Vec<String> = Vec::new();
    args.push("diff".to_owned());
    args.push("-M".to_owned());
    args.push("--no-color".to_owned());
    args.push("--no-ext-diff".to_owned());
    args.push(trimmed(merge_base_output));
    args.push("refs/ghreview/head".to_owned());
    assert(views(args@) =~= seq![
        "diff"@,
        "-M"@,
        "--no-color"@,
        "--no-ext-diff"@,
        trim(merge_base_output@),
        "refs/ghreview/head"@,
    ]);
    args
}

} // verus!
