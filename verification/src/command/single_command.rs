use vstd::prelude::*;
use crate::command::Runner;

use super::{
    accepts_all, output_result, ran, run_invocation, run_invocation_output, run_invocation_trim, sres, stdout_result,
    substitute_all, substitute_all_spec, trimmed_result, CommandOutput, Invocation, InvocationView,
    RunError,
};
use crate::error::Error;
use crate::text::{
    chars_of, lemma_split_on_concat, lemma_split_on_nonempty, pair_views, push_char, split, split_on, to_string, views,
};

verus! {

/// A program with its arguments, environment and working directory.
#[derive(Clone, Debug)]
pub struct Command {
    cmd: String,
    args: Vec<String>,
    envs: Vec<(String, String)>,
    root: Option<String>,
}

/// The plain contents of a [`Command`].
pub struct CommandView {
    pub cmd: Seq<char>,
    pub args: Seq<Seq<char>>,
    pub envs: Seq<(Seq<char>, Seq<char>)>,
    pub root: Option<Seq<char>>,
}

impl View for Command {
    type V = CommandView;

    closed spec fn view(&self) -> CommandView {
        CommandView {
            cmd: self.cmd@,
            args: views(self.args@),
            envs: pair_views(self.envs@),
            root: match self.root {
                Some(r) => Some(r@),
                None => None,
            },
        }
    }
}

/// A copy of `v`, element by element.
pub fn copy_strings(v: &Vec<String>) -> (r: Vec<String>)
    ensures
        views(r@) == views(v@),
{
    let mut r: Vec<String> = Vec::new();
    let mut i: usize = 0;
    while i < v.len()
        invariant
            i <= v.len(),
            views(r@) == views(v@).take(i as int),
        decreases v.len() - i,
    {
        let ghost old_r = r@;
        let x = v[i].clone();
        r.push(x);
        assert(r@ =~= old_r.push(x));
        assert(views(r@) =~= views(old_r).push(x@));
        assert(views(v@).take(i as int + 1) =~= views(v@).take(i as int).push(v@[i as int]@));
        i = i + 1;
    }
    assert(views(v@).take(v.len() as int) =~= views(v@));
    r
}

/// A copy of an environment list, pair by pair.
pub fn copy_envs(v: &Vec<(String, String)>) -> (r: Vec<(String, String)>)
    ensures
        pair_views(r@) == pair_views(v@),
{
    let mut r: Vec<(String, String)> = Vec::new();
    let mut i: usize = 0;
    while i < v.len()
        invariant
            i <= v.len(),
            pair_views(r@) == pair_views(v@).take(i as int),
        decreases v.len() - i,
    {
        let ghost old_r = r@;
        let x = (v[i].0.clone(), v[i].1.clone());
        r.push(x);
        assert(r@ =~= old_r.push(x));
        assert(pair_views(r@) =~= pair_views(old_r).push((x.0@, x.1@)));
        assert(pair_views(v@).take(i as int + 1) =~= pair_views(v@).take(i as int).push(
            (v@[i as int].0@, v@[i as int].1@),
        ));
        i = i + 1;
    }
    assert(pair_views(v@).take(v.len() as int) =~= pair_views(v@));
    r
}

/// The arguments printed after the program name, each after `delim` and
/// with its `$key`s substituted.
pub open spec fn printed_args(
    args: Seq<Seq<char>>,
    envs: Seq<(Seq<char>, Seq<char>)>,
    delim: Seq<char>,
) -> Seq<char>
    decreases args.len(),
{
    if args.len() == 0 {
        Seq::empty()
    } else {
        printed_args(args.drop_last(), envs, delim) + delim + substitute_all_spec(args.last(), envs)
    }
}

/// A command as text: the substituted program name, then each substituted
/// argument after `delim`.
pub open spec fn printed_command(c: CommandView, delim: Seq<char>) -> Seq<char> {
    substitute_all_spec(c.cmd, c.envs) + printed_args(c.args, c.envs, delim)
}

/// The pieces of a split that are not empty, in order.
pub open spec fn nonempty_pieces(pieces: Seq<Seq<char>>) -> Seq<Seq<char>>
    decreases pieces.len(),
{
    if pieces.len() == 0 {
        Seq::empty()
    } else if pieces.last().len() == 0 {
        nonempty_pieces(pieces.drop_last())
    } else {
        nonempty_pieces(pieces.drop_last()).push(pieces.last())
    }
}

/// Dropping empty pieces commutes with concatenation.
pub proof fn lemma_nonempty_pieces_concat(x: Seq<Seq<char>>, y: Seq<Seq<char>>)
    ensures
        nonempty_pieces(x + y) == nonempty_pieces(x) + nonempty_pieces(y),
    decreases y.len(),
{
    if y.len() == 0 {
        assert(x + y =~= x);
        assert(nonempty_pieces(x) + nonempty_pieces(y) =~= nonempty_pieces(x));
    } else {
        lemma_nonempty_pieces_concat(x, y.drop_last());
        assert((x + y).drop_last() =~= x + y.drop_last());
        assert((x + y).last() == y.last());
        if y.last().len() > 0 {
            assert((nonempty_pieces(x) + nonempty_pieces(y.drop_last())).push(y.last())
                =~= nonempty_pieces(x) + nonempty_pieces(y.drop_last()).push(y.last()));
        }
    }
}

/// A split whose last piece is not empty keeps at least one piece.
pub proof fn lemma_nonempty_pieces_last(x: Seq<Seq<char>>)
    requires
        x.len() > 0,
        x.last().len() > 0,
    ensures
        nonempty_pieces(x).len() > 0,
{
}

/// `w` holds no `sep`.
pub open spec fn free_of(w: Seq<char>, sep: char) -> bool {
    forall|i: int| 0 <= i < w.len() ==> #[trigger] w[i] != sep
}

proof fn lemma_split_free(w: Seq<char>, sep: char)
    requires
        free_of(w, sep),
    ensures
        split_on(w, sep) == seq![w],
    decreases w.len(),
{
    if w.len() > 0 {
        let d = w.drop_last();
        assert forall|i: int| 0 <= i < d.len() implies #[trigger] d[i] != sep by {
            assert(d[i] == w[i]);
        }
        lemma_split_free(d, sep);
        assert(w.last() == w[w.len() - 1]);
        assert(w.last() != sep);
        assert(d.push(w.last()) =~= w);
        assert(seq![d].update(0, d.push(w.last())) =~= seq![w]);
    } else {
        assert(w =~= Seq::<char>::empty());
    }
}

proof fn lemma_nonempty_pieces_all(x: Seq<Seq<char>>)
    requires
        forall|i: int| 0 <= i < x.len() ==> (#[trigger] x[i]).len() > 0,
    ensures
        nonempty_pieces(x) == x,
    decreases x.len(),
{
    if x.len() > 0 {
        lemma_nonempty_pieces_all(x.drop_last());
        assert(x.drop_last().push(x.last()) =~= x);
    }
}

proof fn lemma_split_printed(cmd: Seq<char>, args: Seq<Seq<char>>)
    requires
        free_of(cmd, ' '),
        forall|i: int| 0 <= i < args.len() ==> free_of(#[trigger] args[i], ' '),
    ensures
        split_on(cmd + printed_args(args, Seq::empty(), seq![' ']), ' ') == seq![cmd] + args,
    decreases args.len(),
{
    if args.len() == 0 {
        assert(cmd + printed_args(args, Seq::empty(), seq![' ']) =~= cmd);
        lemma_split_free(cmd, ' ');
        assert(seq![cmd] + args =~= seq![cmd]);
    } else {
        let rest = args.drop_last();
        lemma_split_printed(cmd, rest);
        let p = cmd + printed_args(rest, Seq::empty(), seq![' ']);
        let last = args.last();
        assert(substitute_all_spec(last, Seq::empty()) == last);
        assert(cmd + printed_args(args, Seq::empty(), seq![' ']) =~= p + seq![' '] + last);
        lemma_split_on_concat(p, ' ', last);
        lemma_split_free(last, ' ');
        assert(seq![cmd] + rest + seq![last] =~= seq![cmd] + args);
    }
}

/// Printing a command with single spaces and parsing the text gives the
/// command back, when it has no environment and no working directory, and
/// its program and its arguments hold no space and no argument is empty.
pub proof fn law_print_parse_roundtrip(c: CommandView)
    requires
        c.envs.len() == 0,
        c.root is None,
        free_of(c.cmd, ' '),
        forall|i: int| 0 <= i < c.args.len() ==> free_of(#[trigger] c.args[i], ' ') && c.args[i].len() > 0,
    ensures
        parsed_command(printed_command(c, seq![' '])) == c,
{
    assert(c.envs =~= Seq::<(Seq<char>, Seq<char>)>::empty());
    assert(substitute_all_spec(c.cmd, c.envs) == c.cmd);
    lemma_split_printed(c.cmd, c.args);
    let pieces = seq![c.cmd] + c.args;
    assert(pieces.drop_first() =~= c.args);
    lemma_nonempty_pieces_all(c.args);
}

/// The command that `Command::parse` reads from `s`: the text before the
/// first space is the program, every other nonempty space-separated word is
/// an argument.
pub open spec fn parsed_command(s: Seq<char>) -> CommandView {
    let pieces = split_on(s, ' ');
    CommandView {
        cmd: pieces[0],
        args: nonempty_pieces(pieces.drop_first()),
        envs: Seq::empty(),
        root: None,
    }
}

impl Command {
    /// A command running `cmd` with no arguments and no environment.
    pub fn new(cmd: &str) -> (c: Self)
        ensures
            c@ == (CommandView {
                cmd: cmd@,
                args: Seq::empty(),
                envs: Seq::empty(),
                root: None,
            }),
    {
        let c = Self { cmd: to_string(cmd), args: Vec::new(), envs: Vec::new(), root: None };
        assert(c@.args =~= Seq::<Seq<char>>::empty());
        assert(c@.envs =~= Seq::<(Seq<char>, Seq<char>)>::empty());
        c
    }

    /// Appends one argument.
    pub fn add_arg(&mut self, arg: &str)
        ensures
            final(self)@ == (CommandView { args: old(self)@.args.push(arg@), ..old(self)@ }),
    {
        self.args.push(to_string(arg));
        assert(views(self.args@) =~= views(old(self).args@).push(arg@));
    }

    /// Appends the arguments of `args`, in order.
    pub fn add_args(&mut self, args: &[String])
        ensures
            final(self)@ == (CommandView { args: old(self)@.args + views(args@), ..old(self)@ }),
    {
        let mut i: usize = 0;
        while i < args.len()
            invariant
                i <= args.len(),
                self@ == (CommandView { args: old(self)@.args + views(args@).take(i as int), ..old(self)@ }),
            decreases args.len() - i,
        {
            let ghost old_a = self.args@;
            let x = args[i].clone();
            self.args.push(x);
            assert(self.args@ =~= old_a.push(x));
            assert(views(self.args@) =~= views(old_a).push(x@));
            assert(views(args@).take(i as int + 1) =~= views(args@).take(i as int).push(args@[i as int]@));
            i = i + 1;
        }
        assert(views(args@).take(args.len() as int) =~= views(args@));
    }

    /// Adds the environment variable `key` with `value`.
    pub fn add_env(&mut self, key: &str, value: &str)
        ensures
            final(self)@ == (CommandView { envs: old(self)@.envs.push((key@, value@)), ..old(self)@ }),
    {
        self.envs.push((to_string(key), to_string(value)));
        assert(pair_views(self.envs@) =~= pair_views(old(self).envs@).push((key@, value@)));
    }

    /// Adds the environment variable `key` holding the path `path`.
    pub fn add_env_path(&mut self, key: &str, path: &str)
        ensures
            final(self)@ == (CommandView { envs: old(self)@.envs.push((key@, path@)), ..old(self)@ }),
    {
        self.add_env(key, path)
    }

    /// Sets the directory the command runs in.
    pub fn set_run_root(&mut self, path: &str)
        ensures
            final(self)@ == (CommandView { root: Some(path@), ..old(self)@ }),
    {
        self.root = Some(to_string(path));
    }

    /// The program to run.
    pub fn cmd(&self) -> (s: &String)
        ensures
            s@ == self@.cmd,
    {
        &self.cmd
    }

    /// The arguments, in order.
    pub fn args(&self) -> (a: &Vec<String>)
        ensures
            views(a@) == self@.args,
    {
        &self.args
    }

    /// The environment variables, in the order they were added.
    pub fn envs(&self) -> (e: &Vec<(String, String)>)
        ensures
            pair_views(e@) == self@.envs,
    {
        &self.envs
    }

    /// The directory the command runs in, if one was set.
    pub fn root(&self) -> (r: &Option<String>)
        ensures
            self@.root == (match r {
                Some(s) => Some(s@),
                None => None,
            }),
    {
        &self.root
    }

    /// A command built from all of its parts.
    pub fn from_parts(
        cmd: String,
        args: Vec<String>,
        envs: Vec<(String, String)>,
        root: Option<String>,
    ) -> (c: Self)
        ensures
            c@ == (CommandView {
                cmd: cmd@,
                args: views(args@),
                envs: pair_views(envs@),
                root: match root {
                    Some(r) => Some(r@),
                    None => None,
                },
            }),
    {
        Self { cmd, args, envs, root }
    }

    /// A copy of this command.
    pub fn duplicate(&self) -> (c: Self)
        ensures
            c@ == self@,
    {
        let root = match &self.root {
            Some(r) => Some(r.clone()),
            None => None,
        };
        Self {
            cmd: self.cmd.clone(),
            args: copy_strings(&self.args),
            envs: copy_envs(&self.envs),
            root,
        }
    }

    /// Reads a command from a line of text: the first space-separated word is
    /// the program, the other nonempty words are its arguments.
    pub fn parse(string: &str) -> (c: Self)
        ensures
            c@ == parsed_command(string@),
    {
        let pieces = split(string, ' ');
        proof {
            lemma_split_on_nonempty(string@, ' ');
        }
        let mut cmd = Self::new(pieces[0].as_str());
        let ghost rest = split_on(string@, ' ').drop_first();
        let mut i: usize = 1;
        while i < pieces.len()
            invariant
                1 <= i <= pieces.len(),
                views(pieces@) == split_on(string@, ' '),
                rest == split_on(string@, ' ').drop_first(),
                cmd@ == (CommandView {
                    cmd: pieces@[0]@,
                    args: nonempty_pieces(rest.take(i - 1)),
                    envs: Seq::empty(),
                    root: None,
                }),
            decreases pieces.len() - i,
        {
            let piece = &pieces[i];
            let pv = chars_of(piece.as_str());
            assert(rest.take(i as int).drop_last() =~= rest.take(i - 1));
            assert(rest.take(i as int).last() == piece@);
            if pv.len() > 0 {
                cmd.add_arg(piece.as_str());
            }
            i = i + 1;
        }
        assert(rest.take(pieces.len() - 1) =~= rest);
        cmd
    }

    /// The command as text, with `arg_delim` before each argument.
    pub fn print_command_with_delim(&self, arg_delim: &str) -> (msg: String)
        ensures
            msg@ == printed_command(self@, arg_delim@),
    {
        let mut msg = substitute_all(self.cmd.as_str(), &self.envs);
        let mut i: usize = 0;
        while i < self.args.len()
            invariant
                i <= self.args.len(),
                msg@ == substitute_all_spec(self@.cmd, self@.envs) + printed_args(
                    self@.args.take(i as int),
                    self@.envs,
                    arg_delim@,
                ),
            decreases self.args.len() - i,
        {
            let arg = substitute_all(self.args[i].as_str(), &self.envs);
            msg.append(arg_delim);
            msg.append(arg.as_str());
            assert(self@.args.take(i as int + 1).drop_last() =~= self@.args.take(i as int));
            i = i + 1;
        }
        assert(self@.args.take(self.args.len() as int) =~= self@.args);
        msg
    }

    /// The command as text, arguments separated by single spaces.
    pub fn print_command(&self) -> (msg: String)
        ensures
            msg@ == printed_command(self@, seq![' ']),
    {
        let mut sp = String::new();
        push_char(&mut sp, ' ');
        self.print_command_with_delim(sp.as_str())
    }

    /// Runs the command with `runner` and returns its standard output.
    pub fn run<F: Fn(&Invocation) -> Result<CommandOutput, RunError>>(&self, runner: &mut Runner<F>) -> (res:
        Result<String, Error>)
        requires
            accepts_all(old(runner).fun()),
        ensures
            final(runner).fun() == old(runner).fun(),
            final(runner).log() == old(runner).log().push(InvocationView::Single(self@)),
            exists|o| #[trigger] ran(old(runner).fun(), InvocationView::Single(self@), o) && sres(res)
                == stdout_result(o),
    {
        run_invocation(Invocation::Single(self.duplicate()), runner)
    }

    /// Runs the command with `runner` and returns its trimmed standard output.
    pub fn run_trim<F: Fn(&Invocation) -> Result<CommandOutput, RunError>>(&self, runner: &mut Runner<F>) -> (res:
        Result<String, Error>)
        requires
            accepts_all(old(runner).fun()),
        ensures
            final(runner).fun() == old(runner).fun(),
            final(runner).log() == old(runner).log().push(InvocationView::Single(self@)),
            exists|o| #[trigger] ran(old(runner).fun(), InvocationView::Single(self@), o) && sres(res)
                == trimmed_result(o),
    {
        run_invocation_trim(Invocation::Single(self.duplicate()), runner)
    }

    /// Runs the command with `runner` and returns all it produced, with the
    /// time it took.
    pub fn run_and_time<F: Fn(&Invocation) -> Result<CommandOutput, RunError>>(&self, runner: &mut Runner<F>) -> (res:
        Result<CommandOutput, Error>)
        requires
            accepts_all(old(runner).fun()),
        ensures
            final(runner).fun() == old(runner).fun(),
            final(runner).log() == old(runner).log().push(InvocationView::Single(self@)),
            exists|o| #[trigger] ran(old(runner).fun(), InvocationView::Single(self@), o) && res == output_result(o),
    {
        run_invocation_output(Invocation::Single(self.duplicate()), runner)
    }

    /// Runs the command with `runner`, which streams its output as it comes,
    /// and returns all it produced.
    pub fn run_and_stream<F: Fn(&Invocation) -> Result<CommandOutput, RunError>>(&self, runner: &mut Runner<F>) -> (res:
        Result<CommandOutput, Error>)
        requires
            accepts_all(old(runner).fun()),
        ensures
            final(runner).fun() == old(runner).fun(),
            final(runner).log() == old(runner).log().push(InvocationView::Single(self@)),
            exists|o| #[trigger] ran(old(runner).fun(), InvocationView::Single(self@), o) && res == output_result(o),
    {
        run_invocation_output(Invocation::Single(self.duplicate()), runner)
    }
}

} // verus!
