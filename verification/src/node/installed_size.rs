//! The disk size of an installed target, as `du` reports it.
use vstd::prelude::*;
use crate::command::Runner;

use crate::command::{
    accepts_all, parsed_command, ran, trimmed_result, Command, CommandOutput, CommandView,
    Invocation, InvocationView, RunError,
};
use crate::error::Error;
use crate::text::{lemma_split_on_nonempty, parse_usize, parse_usize_spec, split, split_on, to_string};

verus! {

/// The command that measures `dir` in megabytes.
pub open spec fn du_command(dir: Seq<char>) -> CommandView {
    parsed_command("du -sm "@ + dir)
}

/// The size that `du -sm` reports in `out`: the number before the first
/// tab.
pub open spec fn du_size(out: Seq<char>) -> Result<nat, Error> {
    match parse_usize_spec(split_on(out, '\t')[0]) {
        Some(n) => Ok(n),
        None => Err(Error::NotANumber),
    }
}

/// `runner` was asked to measure `dir` with `du -sm`, and `size` is what
/// its answer gives: the size, or why there is none.
pub open spec fn measured<F: Fn(&Invocation) -> Result<CommandOutput, RunError>>(
    runner: F,
    dir: Seq<char>,
    size: Result<nat, Error>,
) -> bool {
    exists|o| #[trigger]
        ran(runner, InvocationView::Single(du_command(dir)), o) && match trimmed_result(o) {
            Err(e) => size == Err::<nat, Error>(e),
            Ok(out) => size == du_size(out),
        }
}

/// A size, as a mathematical integer.
pub open spec fn size_res(r: Result<usize, Error>) -> Result<nat, Error> {
    match r {
        Ok(n) => Ok(n as nat),
        Err(e) => Err(e),
    }
}

/// The size of `dir` in megabytes, read from the output of `du -sm`.
pub fn folder_size<F: Fn(&Invocation) -> Result<CommandOutput, RunError>>(dir: &str, runner: &mut Runner<F>) -> (res:
    Result<usize, Error>)
    requires
        accepts_all(old(runner).fun()),
    ensures
        final(runner).fun() == old(runner).fun(),
        final(runner).log() == old(runner).log().push(InvocationView::Single(du_command(dir@))),
        measured(old(runner).fun(), dir@, size_res(res)),
{
    let mut line = to_string("du -sm ");
    proof {
        reveal_strlit("du -sm ");
    }
    line.append(dir);
    let cmd = Command::parse(line.as_str());
    let output = cmd.run_trim(runner)?;
    let words = split(output.as_str(), '\t');
    proof {
        lemma_split_on_nonempty(output@, '\t');
    }
    let r = match parse_usize(words[0].as_str()) {
        Some(n) => Ok(n),
        None => Err(Error::NotANumber),
    };
    assert(size_res(r) == du_size(output@));
    r
}

} // verus!
