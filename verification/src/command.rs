//! What a finished `gh` or `git` run means: its output, or the error to
//! report.
use vstd::prelude::*;

use crate::text::{push_char, trim, trimmed, views};
use vstd::utf8::{decode_utf8, valid_utf8};

verus! {

/// A failed command, with the message to show for it.
#[derive(Debug, Clone, PartialEq, Eq)]
pub struct GhError {
    pub message: String,
}

/// What `String::from_utf8_lossy` makes of `bytes`.
pub uninterp spec fn utf8_lossy(bytes: Seq<u8>) -> Seq<char>;

/// `String::from_utf8_lossy`. The contract names the result and states what
/// the documentation gives: valid UTF-8 is decoded as it is. How invalid
/// sequences are replaced is left unsaid.
#[verifier::external_body]
pub(crate) fn lossy_text(bytes: &[u8]) -> (r: String)
    ensures
        r@ == utf8_lossy(bytes@),
        valid_utf8(bytes@) ==> r@ == decode_utf8(bytes@),
{
    String::from_utf8_lossy(bytes).into_owned()
}

/// What the error of `String::from_utf8` says of `bytes` that are not valid
/// UTF-8 (where the first invalid sequence starts, and how long it is).
pub uninterp spec fn utf8_error_text(bytes: Seq<u8>) -> Seq<char>;

/// `String::from_utf8`: the text of `bytes` where they are valid UTF-8, else
/// the description of its error (`to_string` of the `FromUtf8Error`), which
/// the contract names.
#[verifier::external_body]
pub(crate) fn utf8_text(bytes: Vec<u8>) -> (r: Result<String, String>)
    ensures
        r is Ok <==> valid_utf8(bytes@),
        r matches Ok(s) ==> s@ == decode_utf8(bytes@),
        r matches Err(e) ==> e@ == utf8_error_text(bytes@),
{
    String::from_utf8(bytes).map_err(|err| err.to_string())
}

/// The text of `bytes` where they are valid UTF-8.
pub fn utf8_option(bytes: Vec<u8>) -> (r: Option<String>)
    ensures
        r is Some <==> valid_utf8(bytes@),
        r matches Some(s) ==> s@ == decode_utf8(bytes@),
{
    match utf8_text(bytes) {
        Ok(s) => Some(s),
        Err(_) => None,
    }
}

/// `parts` joined with `sep` between them.
pub open spec fn join(parts: Seq<Seq<char>>, sep: Seq<char>) -> Seq<char>
    decreases parts.len(),
{
    if parts.len() == 0 {
        Seq::empty()
    } else if parts.len() == 1 {
        parts[0]
    } else {
        join(parts.drop_last(), sep) + sep + parts.last()
    }
}

/// Appends `args` joined with single spaces.
pub fn push_joined(out: &mut String, args: &Vec<String>)
    ensures
        final(out)@ == old(out)@ + join(views(args@), seq![' ']),
{
    let ghost start = out@;
    let mut i: usize = 0;
    assert(views(args@).take(0) =~= Seq::<Seq<char>>::empty());
    while i < args.len()
        invariant
            0 <= i <= args@.len(),
            out@ == start + join(views(args@).take(i as int), seq![' ']),
        decreases args@.len() - i,
    {
        let ghost before = out@;
        let ghost t = views(args@).take(i + 1);
        assert(t.drop_last() == views(args@).take(i as int));
        assert(t.last() == args@[i as int]@);
        if i > 0 {
            push_char(out, ' ');
        } else {
            assert(t.len() == 1 && t[0] == args@[0]@);
        }
        out.append(args[i].as_str());
        proof {
            if i == 0 {
                assert(join(views(args@).take(0), seq![' ']) == Seq::<char>::empty());
                assert(out@ =~= start + join(t, seq![' ']));
            } else {
                assert(out@ =~= start + join(t, seq![' ']));
            }
        }
        i = i + 1;
    }
    assert(views(args@).take(i as int) =~= views(args@));
}

/// The message of a command that exited unsuccessfully, given its standard
/// error as text: `"{program} {args joined by spaces} failed: {trimmed stderr}"`.
pub open spec fn failure_line(program: Seq<char>, args: Seq<String>, stderr_text: Seq<char>) -> Seq<char> {
    program + seq![' '] + join(views(args), seq![' ']) + " failed: "@ + trim(stderr_text)
}

/// The message of a command that exited unsuccessfully, its standard error
/// read as UTF-8 with invalid sequences replaced.
pub open spec fn failure_message(program: Seq<char>, args: Seq<String>, stderr: Seq<u8>) -> Seq<char> {
    failure_line(program, args, utf8_lossy(stderr))
}

/// The message of a run of `program` with `args` that failed with
/// `stderr_text`.
pub fn failure_text(program: &str, args: &Vec<String>, stderr_text: &str) -> (r: String)
    ensures
        r@ == failure_line(program@, args@, stderr_text@),
{
    let mut message = String::new();
    message.append(program);
    push_char(&mut message, ' ');
    push_joined(&mut message, args);
    message.append(" failed: ");
    let t = trimmed(stderr_text);
    message.append(t.as_str());
    message
}

/// The outcome of a finished run of `program` with `args`: its standard
/// output as text when it succeeded and printed UTF-8, else the error to
/// report (for output that is not UTF-8, with the decoding error as its
/// cause).
pub fn checked_output(program: &str, args: &Vec<String>, success: bool, stdout: Vec<u8>, stderr: Vec<u8>) -> (r: Result<String, GhError>)
    ensures
        !success ==> (r matches Err(e) && e.message@ == failure_message(program@, args@, stderr@)),
        success && valid_utf8(stdout@) ==> (r matches Ok(s) && s@ == decode_utf8(stdout@)),
        success && !valid_utf8(stdout@) ==> (r matches Err(e) && e.message@ == program@
            + " output was not UTF-8: "@ + utf8_error_text(stdout@)),
{
    if !success {
        let err = lossy_text(stderr.as_slice());
        return Err(GhError { message: failure_text(program, args, err.as_str()) });
    }
    match utf8_text(stdout) {
        Ok(text) => Ok(text),
        Err(cause) => {
            let mut message = String::new();
            message.append(program);
            message.append(" output was not UTF-8: ");
            message.append(cause.as_str());
            Err(GhError { message })
        },
    }
}

} // verus!
