use ghreview::command::{checked_output, GhError};

fn args(values: &[&str]) -> Vec<String> {
    values.iter().map(|v| v.to_string()).collect()
}

#[test]
fn successful_runs_give_their_output() {
    assert_eq!(
        checked_output("gh", &args(&["pr", "diff"]), true, b"diff --git a b\n".to_vec(), b"warning".to_vec()),
        Ok("diff --git a b\n".to_string())
    );
    assert_eq!(checked_output("git", &Vec::new(), true, Vec::new(), Vec::new()), Ok(String::new()));
}

#[test]
fn failed_runs_report_the_command_and_trimmed_stderr() {
    assert_eq!(
        checked_output("gh", &args(&["pr", "view", "8"]), false, b"ignored".to_vec(), b"\n  HTTP 404: Not Found \n".to_vec()),
        Err(GhError { message: "gh pr view 8 failed: HTTP 404: Not Found".into() })
    );
    assert_eq!(
        checked_output("git", &args(&["fetch"]), false, Vec::new(), vec![b'x', 0xff, b'y']),
        Err(GhError { message: "git fetch failed: x\u{fffd}y".into() })
    );
}

#[test]
fn output_that_is_not_utf8_is_an_error() {
    assert_eq!(
        checked_output("gh", &args(&["api"]), true, vec![0xc3, 0x28], Vec::new()),
        Err(GhError { message: "gh output was not UTF-8: invalid utf-8 sequence of 1 bytes from index 0".into() })
    );
}

#[test]
fn failure_text_joins_arguments_with_spaces() {
    assert_eq!(
        ghreview::command::failure_text("gh", &args(&["pr", "merge", "8"]), "\tblocked by policy\n"),
        "gh pr merge 8 failed: blocked by policy"
    );
    assert_eq!(ghreview::command::failure_text("git", &Vec::new(), ""), "git  failed: ");
}
