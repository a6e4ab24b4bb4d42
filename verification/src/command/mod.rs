//! Commands to run, and what running them gave back.
use vstd::prelude::*;

mod piped_command;
mod single_command;

pub use piped_command::PipedCommands;
pub use single_command::{
    copy_envs, copy_strings, lemma_nonempty_pieces_concat, lemma_nonempty_pieces_last,
    nonempty_pieces, parsed_command, printed_args, printed_command, Command,
    CommandView,
};
pub use piped_command::{parsed_pipeline, printed_pipeline};

use crate::error::Error;
use crate::text::{
    chars_of, find_chars, find_spec, lemma_find_from_range, matches_at, push_char, string_of_range, to_string,
    trim, trim_spec, pair_views,
};

verus! {

/// What a finished command produced.
#[derive(Debug)]
pub struct CommandOutput {
    /// Standard output, decoded as UTF-8.
    pub stdout: String,
    /// Standard error, decoded as UTF-8.
    pub stderr: String,
    /// The command exited with status zero.
    pub success: bool,
    /// How long the command ran, in nanoseconds.
    pub duration_ns: u64,
}

impl CommandOutput {
    /// A copy of the standard output.
    pub fn stdout_str_clone(&self) -> (s: String)
        ensures
            s@ == self.stdout@,
    {
        self.stdout.clone()
    }

    /// The text reported for standard error. It is a copy of the standard
    /// output, not of `stderr`: callers that want the error stream read the
    /// `stderr` field.
    pub fn stderr_str_clone(&self) -> (s: String)
        ensures
            s@ == self.stdout@,
    {
        self.stdout.clone()
    }

    /// The command exited with status zero.
    pub fn success(&self) -> (b: bool)
        ensures
            b == self.success,
    {
        self.success
    }
}

/// Why a runner could not execute a command.
#[derive(Debug)]
pub struct RunError {
    pub message: String,
}

/// A command or a pipeline of commands, handed to a runner.
#[derive(Debug)]
pub enum Invocation {
    Single(Command),
    Piped(PipedCommands),
}

/// The plain contents of an [`Invocation`].
pub enum InvocationView {
    Single(CommandView),
    Piped(Seq<CommandView>),
}

impl View for Invocation {
    type V = InvocationView;

    open spec fn view(&self) -> InvocationView {
        match self {
            Invocation::Single(c) => InvocationView::Single(c@),
            Invocation::Piped(p) => InvocationView::Piped(p@),
        }
    }
}

/// A runner that keeps, in order, the invocations it was handed: the
/// library's functions that take one state which commands they ran.
pub struct Runner<F> {
    f: F,
    log: Ghost<Seq<InvocationView>>,
}

impl<F: Fn(&Invocation) -> Result<CommandOutput, RunError>> Runner<F> {
    /// The function that runs an invocation.
    pub closed spec fn fun(&self) -> F {
        self.f
    }

    /// The invocations handed over so far, oldest first.
    pub closed spec fn log(&self) -> Seq<InvocationView> {
        self.log@
    }

    /// A runner that has run nothing yet.
    pub fn new(f: F) -> (r: Self)
        ensures
            r.fun() == f,
            r.log() == Seq::<InvocationView>::empty(),
    {
        Runner { f, log: Ghost(Seq::empty()) }
    }

    /// Hands `inv` to the function and notes it in the log.
    pub fn call(&mut self, inv: &Invocation) -> (out: Result<CommandOutput, RunError>)
        requires
            call_requires(old(self).fun(), (inv,)),
        ensures
            call_ensures(old(self).fun(), (inv,), out),
            final(self).fun() == old(self).fun(),
            final(self).log() == old(self).log().push(inv@),
    {
        let out = (self.f)(inv);
        self.log = Ghost(self.log@.push(inv@));
        out
    }
}

/// Every invocation may be handed to `runner`.
pub open spec fn accepts_all<F: Fn(&Invocation) -> Result<CommandOutput, RunError>>(
    runner: F,
) -> bool {
    forall|i: &Invocation| call_requires(runner, (i,))
}

/// `runner` was given an invocation that looks like `inv` and answered `out`.
pub open spec fn ran<F: Fn(&Invocation) -> Result<CommandOutput, RunError>>(
    runner: F,
    inv: InvocationView,
    out: Result<CommandOutput, RunError>,
) -> bool {
    exists|i: Invocation| i@ == inv && #[trigger] call_ensures(runner, (&i,), out)
}

/// A string result, by its view.
pub open spec fn sres(r: Result<String, Error>) -> Result<Seq<char>, Error> {
    match r {
        Ok(s) => Ok(s@),
        Err(e) => Err(e),
    }
}

/// The standard output of a run when it succeeded, as `CommandTrait::run`
/// gives it: the runner's failure, or a failure of the command itself, is
/// an error.
pub open spec fn stdout_result(out: Result<CommandOutput, RunError>) -> Result<Seq<char>, Error> {
    match out {
        Err(e) => Err(Error::Run(e)),
        Ok(o) => if o.success {
            Ok(o.stdout@)
        } else {
            Err(Error::ExitFailure(o))
        },
    }
}

/// The trimmed standard output of a run, as `CommandTrait::run_trim` gives
/// it.
pub open spec fn trimmed_result(out: Result<CommandOutput, RunError>) -> Result<Seq<char>, Error> {
    match stdout_result(out) {
        Ok(s) => Ok(trim_spec(s)),
        Err(e) => Err(e),
    }
}

/// `runner` was given `inv`, and the standard output it answered, as
/// [`stdout_result`] reads it, is `r`.
pub open spec fn gave<F: Fn(&Invocation) -> Result<CommandOutput, RunError>>(
    runner: F,
    inv: InvocationView,
    r: Result<Seq<char>, Error>,
) -> bool {
    exists|o| #[trigger] ran(runner, inv, o) && stdout_result(o) == r
}

/// `runner` was given `inv`, and the trimmed standard output it answered,
/// as [`trimmed_result`] reads it, is `r`.
pub open spec fn gave_trimmed<F: Fn(&Invocation) -> Result<CommandOutput, RunError>>(
    runner: F,
    inv: InvocationView,
    r: Result<Seq<char>, Error>,
) -> bool {
    exists|o| #[trigger] ran(runner, inv, o) && trimmed_result(o) == r
}

/// Hands `inv` to `runner` and returns the standard output, failing when
/// the run or the command failed.
pub fn run_invocation<F: Fn(&Invocation) -> Result<CommandOutput, RunError>>(
    inv: Invocation,
    runner: &mut Runner<F>,
) -> (res: Result<String, Error>)
    requires
        accepts_all(old(runner).fun()),
    ensures
        final(runner).fun() == old(runner).fun(),
        final(runner).log() == old(runner).log().push(inv@),
        exists|o| #[trigger] ran(old(runner).fun(), inv@, o) && sres(res) == stdout_result(o),
{
    let out = runner.call(&inv);
    assert(ran(old(runner).fun(), inv@, out));
    match out {
        Err(e) => Err(Error::Run(e)),
        Ok(o) => if o.success {
            Ok(o.stdout)
        } else {
            Err(Error::ExitFailure(o))
        },
    }
}

/// The whole output of a run, as `CommandTrait::run_and_time` gives it:
/// only a runner that could not execute the command fails.
pub open spec fn output_result(out: Result<CommandOutput, RunError>) -> Result<CommandOutput, Error> {
    match out {
        Ok(o) => Ok(o),
        Err(e) => Err(Error::Run(e)),
    }
}

/// Hands `inv` to `runner` and returns all it produced, whether or not the
/// command succeeded.
pub fn run_invocation_output<F: Fn(&Invocation) -> Result<CommandOutput, RunError>>(
    inv: Invocation,
    runner: &mut Runner<F>,
) -> (res: Result<CommandOutput, Error>)
    requires
        accepts_all(old(runner).fun()),
    ensures
        final(runner).fun() == old(runner).fun(),
        final(runner).log() == old(runner).log().push(inv@),
        exists|o| #[trigger] ran(old(runner).fun(), inv@, o) && res == output_result(o),
{
    let out = runner.call(&inv);
    assert(ran(old(runner).fun(), inv@, out));
    match out {
        Err(e) => Err(Error::Run(e)),
        Ok(o) => Ok(o),
    }
}

/// Hands `inv` to `runner` and returns the trimmed standard output.
pub fn run_invocation_trim<F: Fn(&Invocation) -> Result<CommandOutput, RunError>>(
    inv: Invocation,
    runner: &mut Runner<F>,
) -> (res: Result<String, Error>)
    requires
        accepts_all(old(runner).fun()),
    ensures
        final(runner).fun() == old(runner).fun(),
        final(runner).log() == old(runner).log().push(inv@),
        exists|o| #[trigger] ran(old(runner).fun(), inv@, o) && sres(res) == trimmed_result(o),
{
    let ghost v = inv@;
    let r = run_invocation(inv, runner);
    match r {
        Ok(s) => Ok(trim(s.as_str())),
        Err(e) => Err(e),
    }
}

// ---------------------------------------------------------------------------
// Substitution of `$KEY` by environment values.
// ---------------------------------------------------------------------------

/// `s` with the first occurrence of `key` replaced by `value`, if any.
pub open spec fn substitute_first(s: Seq<char>, key: Seq<char>, value: Seq<char>) -> Seq<char> {
    match find_spec(s, key) {
        Some(i) => s.take(i) + value + s.skip(i + key.len()),
        None => s,
    }
}

/// The key as it is written in commands: `$` followed by the name.
pub open spec fn dollar(key: Seq<char>) -> Seq<char> {
    seq!['$'] + key
}

/// `s` with, for each `(key, value)` in turn, the first `$key` replaced by
/// `value`.
pub open spec fn substitute_all_spec(s: Seq<char>, kvs: Seq<(Seq<char>, Seq<char>)>) -> Seq<char>
    decreases kvs.len(),
{
    if kvs.len() == 0 {
        s
    } else {
        substitute_first(
            substitute_all_spec(s, kvs.drop_last()),
            dollar(kvs.last().0),
            kvs.last().1,
        )
    }
}

/// Replaces the first occurrence of `key` in `string` by `value`; `None`
/// when `key` does not occur.
pub fn substitute_if_present(string: &mut String, key: &str, value: &str) -> (res: Option<
    (),
>)
    ensures
        res is Some <==> find_spec(old(string)@, key@) is Some,
        final(string)@ == substitute_first(old(string)@, key@, value@),
{
    let vs = chars_of(string.as_str());
    let vk = chars_of(key);
    match find_chars(&vs, &vk) {
        None => None,
        Some(start) => {
            proof {
                lemma_find_from_range(vs@, vk@, 0);
                assert(matches_at(vs@, vk@, start as int));
            }
            assert(start + vk.len() <= vs.len());
            let end = start + vk.len();
            let mut out = string_of_range(&vs, 0, start);
            out.append(value);
            let rest = string_of_range(&vs, end, vs.len());
            out.append(rest.as_str());
            assert(vs@.skip(end as int) =~= vs@.subrange(end as int, vs.len() as int));
            *string = out;
            Some(())
        },
    }
}

/// `string` with each `$key` of `key_value` replaced by its value.
pub fn substitute_all(string: &str, key_value: &Vec<(String, String)>) -> (out: String)
    ensures
        out@ == substitute_all_spec(string@, pair_views(key_value@)),
{
    let mut out = to_string(string);
    let mut i: usize = 0;
    while i < key_value.len()
        invariant
            i <= key_value.len(),
            out@ == substitute_all_spec(string@, pair_views(key_value@).take(i as int)),
        decreases key_value.len() - i,
    {
        let key = &key_value[i].0;
        let value = &key_value[i].1;
        let mut dollar_key = String::new();
        push_char(&mut dollar_key, '$');
        dollar_key.append(key.as_str());
        assert(dollar_key@ =~= dollar(key@));
        let _ = substitute_if_present(&mut out, dollar_key.as_str(), value.as_str());
        assert(pair_views(key_value@).take(i as int + 1).drop_last() =~= pair_views(key_value@).take(
            i as int,
        ));
        i = i + 1;
    }
    assert(pair_views(key_value@).take(key_value.len() as int) =~= pair_views(key_value@));
    out
}

} // verus!
