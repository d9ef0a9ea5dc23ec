//! What a finished child process means: its command line as shown, and the error of a failure.
use vstd::prelude::*;

use crate::error::{Error, ErrorView};
use crate::text::{decode_utf8_lossy, joined, owned, trim, trimmed, utf8_lossy, views};

verus! {

/// What a child process left behind.
#[derive(Debug)]
pub struct Output {
    pub success: bool,
    pub status: Option<i32>,
    pub stdout: Vec<u8>,
    pub stderr: Vec<u8>,
}

/// The command line as shown: the program and its arguments, separated by spaces.
pub fn format_command(program: &str, args: &Vec<String>) -> (r: String)
    ensures
        r@ == joined(seq![program@] + views(args@), " "@),
{
    let mut parts: Vec<String> = Vec::new();
    parts.push(owned(program));
    let mut i: usize = 0;
    while i < args.len()
        invariant
            i <= args.len(),
            views(parts@) == seq![program@] + views(args@).take(i as int),
        decreases args.len() - i,
    {
        let ghost before = parts@;
        parts.push(args[i].clone());
        proof {
            crate::text::lemma_views_push(before, args@[i as int]);
            assert(views(args@).take(i + 1) =~= views(args@).take(i as int).push(args@[i as int]@));
            assert(views(parts@) =~= seq![program@] + views(args@).take(i + 1));
        }
        i = i + 1;
    }
    assert(views(args@).take(i as int) =~= views(args@));
    crate::text::join(&parts, " ")
}

/// The decimal form of a signed number.
pub open spec fn signed_decimal(n: int) -> Seq<char> {
    if n < 0 {
        "-"@ + crate::text::decimal((-n) as nat)
    } else {
        crate::text::decimal(n as nat)
    }
}

/// The decimal form of an `i32` (as `{}` formats it).
pub fn signed_decimal_text(n: i32) -> (r: String)
    ensures
        r@ == signed_decimal(n as int),
{
    if n < 0 {
        let m: u64 = (0i64 - (n as i64)) as u64;
        let d = crate::text::decimal_text(m);
        crate::text::concat2("-", d.as_str())
    } else {
        crate::text::decimal_text(n as u64)
    }
}

/// What a failed command printed, for its error: `:\n` and the trimmed standard error, else
/// the trimmed standard output, else nothing.
pub open spec fn failure_details(stdout: Seq<u8>, stderr: Seq<u8>) -> Seq<char> {
    let err = trimmed(utf8_lossy(stderr));
    let out = trimmed(utf8_lossy(stdout));
    if err.len() > 0 {
        ":\n"@ + err
    } else if out.len() > 0 {
        ":\n"@ + out
    } else {
        Seq::empty()
    }
}

/// How a failed command ended: its exit code, or that a signal stopped it.
pub open spec fn exit_text(status: Option<i32>) -> Seq<char> {
    match status {
        Some(code) => signed_decimal(code as int),
        None => "被信号终止"@,
    }
}

/// A finished command as a result: its output when it succeeded, else the error that shows
/// the command (`display`), how it ended and what it printed.
pub fn checked(display: String, output: Output) -> (r: Result<Output, Error>)
    ensures
        output.success ==> (r matches Ok(o) && o == output),
        !output.success ==> (r matches Err(e) && e@ == ErrorView::Command(
            display@,
            exit_text(output.status),
            failure_details(output.stdout@, output.stderr@),
        )),
{
    if output.success {
        return Ok(output);
    }
    let err = trim(decode_utf8_lossy(output.stderr.as_slice()).as_str());
    let out = trim(decode_utf8_lossy(output.stdout.as_slice()).as_str());
    let details = if !err.as_str().is_empty() {
        crate::text::concat2(":\n", err.as_str())
    } else if !out.as_str().is_empty() {
        crate::text::concat2(":\n", out.as_str())
    } else {
        String::new()
    };
    let status = match output.status {
        Some(code) => signed_decimal_text(code),
        None => owned("被信号终止"),
    };
    Err(Error::Command { command: display, status, details })
}

}
