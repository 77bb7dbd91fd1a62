//! A wrapped command read into its parts: the binary, its directory, and its arguments
//! as gcc's or ar's.

use vstd::prelude::*;
use crate::error::{Error, ErrorView};
use crate::parse_ar::{ArArgs, ArArgsView, spec_ar_to_args, spec_parse_ar};
use crate::parse_gcc::{GCCArgs, GccArgsView, spec_parse_gcc, spec_to_args};
use crate::path_utils::is_absolute;
use crate::text::copy_string;
use crate::wrapped_binary::WrappedBinary;

verus! {

/// The arguments of a command, read as those of its binary.
#[derive(Debug, Clone)]
pub enum CommandArgs {
    Ar(ArArgs),
    Gcc(GCCArgs),
}

/// [`CommandArgs`] as values of specifications.
pub enum CommandArgsView {
    Ar(ArArgsView),
    Gcc(GccArgsView),
}

/// A command: its binary, the directory it runs in, and its arguments.
#[derive(Debug, Clone)]
pub struct Command {
    pub binary: WrappedBinary,
    pub cwd: String,
    pub args: CommandArgs,
}

/// A [`Command`] as a value of specifications.
pub struct CommandView {
    pub binary: WrappedBinary,
    pub cwd: Seq<char>,
    pub args: CommandArgsView,
}

impl View for Command {
    type V = CommandView;

    open spec fn view(&self) -> CommandView {
        CommandView {
            binary: self.binary,
            cwd: self.cwd@,
            args: match self.args {
                CommandArgs::Ar(a) => CommandArgsView::Ar(a@),
                CommandArgs::Gcc(g) => CommandArgsView::Gcc(g@),
            },
        }
    }
}

/// The command of `binary` run in `cwd` with `args`: its arguments read as `ar`'s for the
/// archiver and as gcc's otherwise.
pub open spec fn spec_command(binary: WrappedBinary, cwd: Seq<char>, args: Seq<Seq<char>>) -> Result<
    CommandView,
    ErrorView,
> {
    match binary {
        WrappedBinary::Ar => match spec_parse_ar(cwd, args) {
            Ok(a) => Ok(CommandView { binary, cwd, args: CommandArgsView::Ar(a) }),
            Err(e) => Err(e),
        },
        _ => match spec_parse_gcc(cwd, args) {
            Ok(g) => Ok(CommandView { binary, cwd, args: CommandArgsView::Gcc(g) }),
            Err(e) => Err(e),
        },
    }
}

/// The arguments that the command's parts are written back as.
pub open spec fn spec_command_args(a: CommandArgsView) -> Seq<Seq<char>> {
    match a {
        CommandArgsView::Ar(a) => spec_ar_to_args(a),
        CommandArgsView::Gcc(g) => spec_to_args(g),
    }
}

/// The main output of the command: the archive, or the output of the compiler.
pub open spec fn spec_primary_output(a: CommandArgsView) -> Option<Seq<char>> {
    match a {
        CommandArgsView::Ar(a) => a.output,
        CommandArgsView::Gcc(g) => g.primary_output,
    }
}

impl Command {
    /// Reads the arguments of a command of `binary` run in `cwd`.
    pub fn new(binary: WrappedBinary, cwd: &str, raw_args: &[String]) -> (res: Result<
        Command,
        Error,
    >)
        ensures
            match res {
                Ok(c) => spec_command(binary, cwd@, raw_args.deep_view()) == Ok::<
                    CommandView,
                    ErrorView,
                >(c@),
                Err(e) => spec_command(binary, cwd@, raw_args.deep_view()) == Err::<
                    CommandView,
                    ErrorView,
                >(e@),
            },
    {
        match binary {
            WrappedBinary::Ar => match ArArgs::parse(cwd, raw_args) {
                Ok(a) => Ok(
                    Command { binary, cwd: cwd.to_owned(), args: CommandArgs::Ar(a) },
                ),
                Err(e) => Err(e),
            },
            _ => match GCCArgs::parse(cwd, raw_args) {
                Ok(g) => Ok(
                    Command {
                        binary,
                        cwd: cwd.to_owned(),
                        args: CommandArgs::Gcc(g),
                    },
                ),
                Err(e) => Err(e),
            },
        }
    }

    /// The main output of the command, if it names one.
    pub fn primary_output_path(&self) -> (res: Option<String>)
        ensures
            res.deep_view() == spec_primary_output(self@.args),
    {
        match &self.args {
            CommandArgs::Ar(a) => match &a.output {
                Some(o) => Some(copy_string(o)),
                None => None,
            },
            CommandArgs::Gcc(g) => match &g.primary_output {
                Some(o) => Some(copy_string(o)),
                None => None,
            },
        }
    }

    /// The arguments that the command's parts are written back as.
    pub fn to_args(&self) -> (res: Vec<String>)
        ensures
            res.deep_view() == spec_command_args(self@.args),
    {
        match &self.args {
            CommandArgs::Ar(a) => a.to_args(),
            CommandArgs::Gcc(g) => g.to_args(),
        }
    }
}

/// Reading back, in any directory, the arguments that a command read in an absolute
/// directory is written back as gives the same parts again.
pub proof fn lemma_command_round_trip(
    binary: WrappedBinary,
    cwd1: Seq<char>,
    cwd2: Seq<char>,
    args: Seq<Seq<char>>,
)
    requires
        is_absolute(cwd1),
        spec_command(binary, cwd1, args) is Ok,
    ensures
        spec_command(binary, cwd2, spec_command_args(spec_command(binary, cwd1, args)->Ok_0.args))
            is Ok,
        spec_command(
            binary,
            cwd2,
            spec_command_args(spec_command(binary, cwd1, args)->Ok_0.args),
        )->Ok_0.args == spec_command(binary, cwd1, args)->Ok_0.args,
{
    match binary {
        WrappedBinary::Ar => crate::parse_ar::lemma_ar_args_round_trip(cwd1, cwd2, args),
        _ => crate::gcc_round_trip::lemma_gcc_args_round_trip(cwd1, cwd2, args),
    }
}

} // verus!
