use vstd::prelude::*;
use crate::command::Runner;

use super::single_command::{nonempty_pieces, parsed_command, printed_command};
use super::{
    accepts_all, ran, run_invocation, run_invocation_trim, sres, stdout_result, trimmed_result,
    Command, CommandOutput, CommandView, Invocation, InvocationView, RunError,
};
use crate::error::Error;
use crate::text::{chars_of, push_char, split, split_on, to_string, views};

verus! {

/// Commands whose outputs feed the next one's input, as a shell pipeline.
#[derive(Clone, Debug)]
pub struct PipedCommands {
    cmds: Vec<Command>,
}

impl View for PipedCommands {
    type V = Seq<CommandView>;

    closed spec fn view(&self) -> Seq<CommandView> {
        self.cmds@.map_values(|c: Command| c@)
    }
}

/// The pipeline that `PipedCommands::parse` reads from `s`: each nonempty
/// `|`-separated part, read as a command.
pub open spec fn parsed_pipeline(s: Seq<char>) -> Seq<CommandView> {
    nonempty_pieces(split_on(s, '|')).map_values(|p: Seq<char>| parsed_command(p))
}

/// The commands of a pipeline printed one after the other, joined by ` | `.
pub open spec fn printed_pipeline(cmds: Seq<CommandView>, delim: Seq<char>) -> Seq<char>
    decreases cmds.len(),
{
    if cmds.len() <= 1 {
        if cmds.len() == 1 {
            printed_command(cmds[0], delim)
        } else {
            Seq::empty()
        }
    } else {
        printed_pipeline(cmds.drop_last(), delim) + seq![' ', '|', ' '] + printed_command(
            cmds.last(),
            delim,
        )
    }
}

impl PipedCommands {
    /// A pipeline of `cmds`, in order.
    pub fn new(cmds: Vec<Command>) -> (p: Self)
        ensures
            p@ == cmds@.map_values(|c: Command| c@),
    {
        Self { cmds }
    }

    /// Appends `cmd` at the end of the pipeline.
    pub fn push(&mut self, cmd: Command)
        ensures
            final(self)@ == old(self)@.push(cmd@),
    {
        self.cmds.push(cmd);
        assert(self@ =~= old(self)@.push(cmd@));
    }

    /// The commands, in order.
    pub fn cmds(&self) -> (c: &Vec<Command>)
        ensures
            c@.map_values(|x: Command| x@) == self@,
    {
        &self.cmds
    }

    /// Reads a pipeline from a line of text: each nonempty part between `|`
    /// characters is read as a command.
    pub fn parse(string: &str) -> (p: Self)
        ensures
            p@ == parsed_pipeline(string@),
    {
        let pieces = split(string, '|');
        let ghost all = split_on(string@, '|');
        let mut pipe = Self { cmds: Vec::new() };
        let mut i: usize = 0;
        while i < pieces.len()
            invariant
                i <= pieces.len(),
                views(pieces@) == all,
                all == split_on(string@, '|'),
                pipe@ == nonempty_pieces(all.take(i as int)).map_values(|p: Seq<char>| parsed_command(p)),
            decreases pieces.len() - i,
        {
            let s = &pieces[i];
            let sv = chars_of(s.as_str());
            assert(all.take(i as int + 1).drop_last() =~= all.take(i as int));
            assert(all.take(i as int + 1).last() == s@);
            if sv.len() > 0 {
                let c = Command::parse(s.as_str());
                let ghost old_c = pipe.cmds@;
                pipe.cmds.push(c);
                assert(pipe.cmds@ =~= old_c.push(c));
                assert(pipe@ =~= old_c.map_values(|x: Command| x@).push(c@));
                assert(pipe@ =~= nonempty_pieces(all.take(i as int + 1)).map_values(|p: Seq<char>| parsed_command(p)));
            }
            i = i + 1;
        }
        assert(all.take(pieces.len() as int) =~= all);
        pipe
    }

    /// The pipeline as text: `empty command` for no commands, otherwise the
    /// commands joined by ` | `, each with `arg_delim` before its arguments.
    pub fn print_command_with_delim(&self, arg_delim: &str) -> (msg: String)
        ensures
            self@.len() == 0 ==> msg@ == "empty command"@,
            self@.len() > 0 ==> msg@ == printed_pipeline(self@, arg_delim@),
    {
        if self.cmds.len() == 0 {
            return to_string("empty command");
        }
        let mut msg = self.cmds[0].print_command_with_delim(arg_delim);
        assert(self@.take(1).drop_last() =~= self@.take(0));
        let mut i: usize = 1;
        while i < self.cmds.len()
            invariant
                1 <= i <= self.cmds.len(),
                msg@ == printed_pipeline(self@.take(i as int), arg_delim@),
            decreases self.cmds.len() - i,
        {
            msg.append(" | ");
            let next = self.cmds[i].print_command_with_delim(arg_delim);
            msg.append(next.as_str());
            proof {
                reveal_strlit(" | ");
            }
            assert(self@.take(i as int + 1).drop_last() =~= self@.take(i as int));
            assert(" | "@ =~= seq![' ', '|', ' ']);
            i = i + 1;
        }
        assert(self@.take(self.cmds.len() as int) =~= self@);
        msg
    }

    /// The pipeline as text, arguments separated by single spaces:
    /// `empty command` for no commands.
    pub fn print_command(&self) -> (msg: String)
        ensures
            self@.len() == 0 ==> msg@ == "empty command"@,
            self@.len() > 0 ==> msg@ == printed_pipeline(self@, seq![' ']),
    {
        let mut sp = String::new();
        push_char(&mut sp, ' ');
        self.print_command_with_delim(sp.as_str())
    }

    /// A copy of this pipeline.
    pub fn duplicate(&self) -> (p: Self)
        ensures
            p@ == self@,
    {
        let mut cmds: Vec<Command> = Vec::new();
        let mut i: usize = 0;
        while i < self.cmds.len()
            invariant
                i <= self.cmds.len(),
                cmds@.map_values(|c: Command| c@) == self@.take(i as int),
            decreases self.cmds.len() - i,
        {
            let ghost old_c = cmds@;
            let c = self.cmds[i].duplicate();
            cmds.push(c);
            assert(cmds@ =~= old_c.push(c));
            assert(self@.take(i as int + 1) =~= self@.take(i as int).push(self.cmds@[i as int]@));
            assert(cmds@.map_values(|c: Command| c@) =~= self@.take(i as int + 1));
            i = i + 1;
        }
        assert(self@.take(self.cmds.len() as int) =~= self@);
        Self { cmds }
    }

    /// Runs the pipeline with `runner` and returns the last command's standard
    /// output; a pipeline of fewer than two commands cannot be run.
    pub fn run<F: Fn(&Invocation) -> Result<CommandOutput, RunError>>(&self, runner: &mut Runner<F>) -> (res:
        Result<String, Error>)
        requires
            accepts_all(old(runner).fun()),
            self@.len() > 0,
        ensures
            final(runner).fun() == old(runner).fun(),
            self@.len() == 1 ==> res == Err::<String, Error>(Error::PipelineTooShort),
            self@.len() == 1 ==> final(runner).log() == old(runner).log(),
            self@.len() >= 2 ==> final(runner).log() == old(runner).log().push(InvocationView::Piped(self@)),
            self@.len() >= 2 ==> exists|o| #[trigger] ran(old(runner).fun(), InvocationView::Piped(self@), o)
                && sres(res) == stdout_result(o),
    {
        if self.cmds.len() < 2 {
            return Err(Error::PipelineTooShort);
        }
        run_invocation(Invocation::Piped(self.duplicate()), runner)
    }

    /// Runs the pipeline and returns the trimmed output of its last command.
    pub fn run_trim<F: Fn(&Invocation) -> Result<CommandOutput, RunError>>(&self, runner: &mut Runner<F>) -> (res:
        Result<String, Error>)
        requires
            accepts_all(old(runner).fun()),
            self@.len() > 0,
        ensures
            final(runner).fun() == old(runner).fun(),
            self@.len() == 1 ==> res == Err::<String, Error>(Error::PipelineTooShort),
            self@.len() == 1 ==> final(runner).log() == old(runner).log(),
            self@.len() >= 2 ==> final(runner).log() == old(runner).log().push(InvocationView::Piped(self@)),
            self@.len() >= 2 ==> exists|o| #[trigger] ran(old(runner).fun(), InvocationView::Piped(self@), o)
                && sres(res) == trimmed_result(o),
    {
        if self.cmds.len() < 2 {
            return Err(Error::PipelineTooShort);
        }
        run_invocation_trim(Invocation::Piped(self.duplicate()), runner)
    }
}

} // verus!
