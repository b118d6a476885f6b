//! The plain values exchanged with the process that runs Git: the arguments of
//! an invocation and what a finished invocation reported.
use vstd::prelude::*;
use crate::text::{string_from, trim};

verus! {

/// What a finished `git` process reported, its streams decoded as text.
pub struct CommandOutput {
    pub success: bool,
    pub stdout: String,
    pub stderr: String,
}

/// The texts of a list of strings.
pub open spec fn texts(v: Seq<String>) -> Seq<Seq<char>> {
    Seq::new(v.len(), |i: int| v[i]@)
}

pub proof fn lemma_texts_push(v: Seq<String>, s: String)
    ensures
        texts(v.push(s)) == texts(v).push(s@),
{
    assert(texts(v.push(s)) =~= texts(v).push(s@));
}

/// Appends one argument.
pub fn push_arg(args: &mut Vec<String>, a: String)
    ensures
        texts(final(args)@) == texts(old(args)@).push(a@),
{
    proof {
        lemma_texts_push(args@, a);
    }
    args.push(a);
}

/// Appends a literal argument.
pub fn push_lit(args: &mut Vec<String>, a: &str)
    ensures
        texts(final(args)@) == texts(old(args)@).push(a@),
{
    push_arg(args, string_from(a));
}

/// Error text when a command could not be started or reported failure:
/// its standard error when that holds more than whitespace, else its standard output.
pub open spec fn stderr_or_stdout(stdout: Seq<char>, stderr: Seq<char>) -> Seq<char> {
    if trim(stderr).len() == 0 {
        stdout
    } else {
        stderr
    }
}

/// The trimmed error text of a failed command, or "`label` failed" when it printed none.
pub open spec fn stderr_or_failure_spec(label: Seq<char>, stderr: Seq<char>) -> Seq<char> {
    if trim(stderr).len() == 0 {
        label + " failed"@
    } else {
        trim(stderr)
    }
}

pub fn stderr_or_failure(label: &str, output: &CommandOutput) -> (r: String)
    ensures
        r@ == stderr_or_failure_spec(label@, output.stderr@),
{
    let t = crate::text::trim_string(output.stderr.as_str());
    if t.as_str().is_empty() {
        crate::text::prefixed(label, " failed")
    } else {
        t
    }
}

/// A failed command is reported by its error output whenever that is not
/// blank: the output itself for the detail of a failure, the trimmed output
/// for the short form; only blank error output gives way to the standard
/// output, or to "`label` failed".
pub proof fn law_error_output_first(label: Seq<char>, stdout: Seq<char>, stderr: Seq<char>)
    ensures
        trim(stderr).len() > 0 ==> stderr_or_stdout(stdout, stderr) == stderr,
        trim(stderr).len() == 0 ==> stderr_or_stdout(stdout, stderr) == stdout,
        trim(stderr).len() > 0 ==> stderr_or_failure_spec(label, stderr) == trim(stderr),
        trim(stderr).len() == 0 ==> stderr_or_failure_spec(label, stderr) == label + " failed"@,
{
}

} // verus!
