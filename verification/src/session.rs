//! Preview sessions left behind by earlier runs.
use vstd::prelude::*;

use crate::text::{chars_of, decimal, decimal_text, parse_decimal, parse_unsigned};

verus! {

/// Which earlier session a directory named `name` under the preview root
/// belongs to: the process id it is named after, unless it is not a process
/// id or is the current process's own. The caller removes it when that
/// process is no longer alive.
pub fn stale_session_pid(name: &str, current_pid: u32) -> (r: Option<u32>)
    ensures
        match parse_unsigned(name@, u32::MAX as nat) {
            Some(pid) => if pid == current_pid as nat {
                r is None
            } else {
                r == Some(pid as u32)
            },
            None => r is None,
        },
{
    let chars = chars_of(name);
    match parse_decimal(chars.as_slice(), u32::MAX as u64) {
        Some(pid) => {
            let pid = pid as u32;
            if pid == current_pid {
                None
            } else {
                Some(pid)
            }
        },
        None => None,
    }
}

/// The generation of an item's preview that follows generation `last`, with
/// the name of its directory (the number in decimal). Each new generation
/// works in a directory of its own, so work on an older one cannot touch it.
pub fn next_generation(last: u64) -> (r: (u64, String))
    requires
        last < u64::MAX,
    ensures
        r.0 == last + 1,
        r.1@ == decimal(r.0 as nat),
{
    let next = last + 1;
    (next, decimal_text(next))
}

} // verus!
