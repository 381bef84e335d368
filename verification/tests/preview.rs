use ghreview::command::GhError;
use ghreview::model::PrLocator;
use ghreview::preview::{
    blob_response, cache_key, cached_blob, encode_path, fetch_file_at, fetch_file_at_in, fetch_patch,
    is_diff_too_large_error, local_clone_args, local_diff_args, local_fetch_args, local_merge_base_args,
    CacheLookup, MAX_BLOB_BYTES,
};

fn blob_locator() -> PrLocator {
    PrLocator { owner: "a".into(), repo: "r".into(), number: 1 }
}

#[test]
fn recognizes_only_large_diff_errors() {
    assert!(is_diff_too_large_error(&format!("{:#}", anyhow::Error::msg("PullRequest.diff too_large"))));
    assert!(!is_diff_too_large_error(&format!("{:#}", anyhow::Error::msg("bad credentials"))));
}

#[test]
fn encodes_paths_and_stable_keys() {
    assert_eq!(encode_path("a b/c#d"), "a%20b/c%23d");
    assert_eq!(cache_key("a/r", "oid", "p"), cache_key("a/r", "oid", "p"));
}

#[test]
fn every_large_diff_phrasing_is_recognized_in_any_case() {
    for message in [
        "HTTP 406: Sorry, the diff exceeded the maximum number of lines",
        "could not find pull request diff: Diff Too Large",
        "the diff is too large to show",
        "DIFF TOO BIG",
        "gh pr diff failed: PullRequest.diff too_large",
    ] {
        assert!(is_diff_too_large_error(message), "{message}");
    }
    for message in ["", "diff", "too large", "HTTP 404: Not Found", "diff-too-large"] {
        assert!(!is_diff_too_large_error(message), "{message}");
    }
}

#[test]
fn encodes_utf8_bytes_and_keeps_unreserved() {
    assert_eq!(encode_path("AZaz09-._~/"), "AZaz09-._~/");
    assert_eq!(encode_path("é"), "%C3%A9");
    assert_eq!(encode_path("?&=+%"), "%3F%26%3D%2B%25");
    assert_eq!(encode_path(""), "");
}

#[test]
fn cache_keys_are_sha256_hex_of_the_three_names() {
    assert_eq!(
        cache_key("a/r", "oid", "p"),
        "4dbffcfa2b864a463fa715a3506c4a66f6ad39e58cd56cd151edfea8a138971c"
    );
    assert_eq!(
        cache_key("ellie/ghreview", "abc123", "src/main.rs"),
        "43cc0b999c6a8e96826e6f026832af3388716e232f6a96c4886e3a6a986be4ad"
    );
    assert_ne!(cache_key("a/r", "oid", "p"), cache_key("a/r", "oid", "q"));
    assert_eq!(cache_key("", "", "").len(), 64);
}

#[test]
fn file_requests_name_cache_entry_and_endpoint() {
    let request = fetch_file_at(&blob_locator(), "oid", "a b/c.rs");
    assert_eq!(request.cache_root, None);
    assert_eq!(request.cache_file, cache_key("a/r", "oid", "a b/c.rs"));
    assert_eq!(request.endpoint, "repos/a/r/contents/a%20b/c.rs?ref=oid");
    assert_eq!(
        request.args,
        vec!["api", "-H", "Accept: application/vnd.github.raw+json", "repos/a/r/contents/a%20b/c.rs?ref=oid"]
    );
    let rooted = fetch_file_at_in(&blob_locator(), "oid", "x", "/tmp/blobs");
    assert_eq!(rooted.cache_root, Some("/tmp/blobs".to_string()));
    assert_eq!(rooted.endpoint, "repos/a/r/contents/x?ref=oid");
}

#[test]
fn cache_answers_before_any_fetch() {
    assert_eq!(cached_blob(true, Some(b"text".to_vec())), CacheLookup::Answer(None));
    assert_eq!(cached_blob(true, None), CacheLookup::Answer(None));
    assert_eq!(cached_blob(false, None), CacheLookup::Fetch);
    assert_eq!(cached_blob(false, Some(b"fn main() {}".to_vec())), CacheLookup::Answer(Some("fn main() {}".into())));
    assert_eq!(cached_blob(false, Some(vec![0xff, 0xfe])), CacheLookup::Answer(None));
}

#[test]
fn blob_answers_cover_missing_large_binary_and_text() {
    assert_eq!(blob_response("e", false, Vec::new(), b"HTTP 404: Not Found".to_vec()), Ok(None));
    assert_eq!(
        blob_response("repos/a/r/contents/x?ref=oid", false, Vec::new(), b"  HTTP 500: boom\n".to_vec()),
        Err(GhError { message: "gh api repos/a/r/contents/x?ref=oid failed: HTTP 500: boom".into() })
    );
    assert_eq!(blob_response("e", true, vec![b'a'; MAX_BLOB_BYTES + 1], Vec::new()), Ok(None));
    assert_eq!(
        blob_response("e", true, vec![b'a'; MAX_BLOB_BYTES], Vec::new()).unwrap().map(|t| t.len()),
        Some(MAX_BLOB_BYTES)
    );
    assert_eq!(blob_response("e", true, vec![0xc3], Vec::new()), Ok(None));
    assert_eq!(blob_response("e", true, b"hello".to_vec(), Vec::new()), Ok(Some("hello".into())));
}

#[test]
fn patch_and_local_preview_arguments() {
    let loc = PrLocator { owner: "ellie".into(), repo: "ghreview".into(), number: 31 };
    assert_eq!(fetch_patch(&loc), vec!["pr", "diff", "31", "--repo", "ellie/ghreview"]);
    assert_eq!(
        local_clone_args(&loc, "/tmp/p/repo.git"),
        vec![
            "repo",
            "clone",
            "ellie/ghreview",
            "/tmp/p/repo.git",
            "--",
            "--bare",
            "--filter=blob:none",
            "--single-branch",
            "--no-tags"
        ]
    );
    assert_eq!(
        local_fetch_args(&loc, "main"),
        vec!["fetch", "--no-tags", "origin", "+refs/heads/main:refs/ghreview/base", "+refs/pull/31/head:refs/ghreview/head"]
    );
    assert_eq!(local_merge_base_args(), vec!["merge-base", "refs/ghreview/base", "refs/ghreview/head"]);
    assert_eq!(
        local_diff_args("0123abcd\n"),
        vec!["diff", "-M", "--no-color", "--no-ext-diff", "0123abcd", "refs/ghreview/head"]
    );
}

#[test]
fn encoded_paths_hold_only_url_path_characters() {
    let all: String = (1u8..=127).map(char::from).chain("é€😀".chars()).collect();
    let encoded = encode_path(&all);
    assert!(encoded
        .chars()
        .all(|c| c.is_ascii_alphanumeric() || "-._~/%".contains(c)));
}

#[test]
fn cache_keys_keep_the_three_names_apart() {
    assert_ne!(cache_key("a/r", "oid", "p"), cache_key("a/r", "oi", "dp"));
    assert_ne!(cache_key("a/r", "", "oid"), cache_key("a/r", "oid", ""));
    assert_ne!(cache_key("a/ro", "id", "p"), cache_key("a/r", "oid", "p"));
}

#[test]
fn lower_case_phrases_and_hex_and_api_failures() {
    assert!(ghreview::preview::names_large_diff("the diff is too large"));
    assert!(!ghreview::preview::names_large_diff("The Diff Is Too Large"));
    assert_eq!(ghreview::preview::hex_text(&[0x00, 0x0f, 0xa0, 0xff]), "000fa0ff");
    assert_eq!(ghreview::preview::hex_text(&[]), "");
    assert_eq!(ghreview::preview::blob_failure("e", "gh: Not Found (HTTP 404)"), Ok(None));
    assert_eq!(
        ghreview::preview::blob_failure("e", " rate limited\n"),
        Err(GhError { message: "gh api e failed: rate limited".into() })
    );
}

#[test]
fn encoded_paths_decode_back() {
    for path in ["a b/c#d", "é€😀/x?y=1&z", "%25", ""] {
        let encoded = encode_path(path);
        let bytes = encoded.as_bytes();
        let mut decoded = Vec::new();
        let mut i = 0;
        while i < bytes.len() {
            if bytes[i] == b'%' {
                decoded.push(u8::from_str_radix(&encoded[i + 1..i + 3], 16).unwrap());
                i += 3;
            } else {
                decoded.push(bytes[i]);
                i += 1;
            }
        }
        assert_eq!(String::from_utf8(decoded).unwrap(), path);
    }
}
