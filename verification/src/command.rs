//! From a command line to what the program is asked to do.

use crate::cli::{strings_view, Cli, CliError, CliView};
use crate::github::{GitHubRepoId, RepoIdError};
use crate::text::{split_once_spec, str_eq};
use vstd::prelude::*;
use vstd::string::StringExecFns;

verus! {

/// What the program can be asked to fetch, and of which repository.
#[derive(Debug)]
pub enum Command {
    Traffic(GitHubRepoId),
    Clones(GitHubRepoId),
    Repo(GitHubRepoId),
}

/// Input that names no command.
#[derive(Debug)]
pub enum InputError {
    /// The command line does not have the expected shape.
    Cli(CliError),
    /// The repository is not of the form `owner/name`.
    Repo(RepoIdError),
}

/// What one invocation asks for.
#[derive(Debug)]
pub enum Invocation {
    /// To print the usage.
    Help,
    /// To print the version.
    Version,
    /// To run `command` and store what it fetches under `out_dir`.
    Run { out_dir: String, command: Command },
}

/// The mathematical value of a [`Command`]: owner and name of the repository.
pub enum CommandView {
    Traffic(Seq<char>, Seq<char>),
    Clones(Seq<char>, Seq<char>),
    Repo(Seq<char>, Seq<char>),
}

/// The mathematical value of an [`InputError`]: the sentence of a malformed
/// command line, or the text that is no repository.
pub enum InputErrorView {
    Cli(Seq<char>),
    Repo(Seq<char>),
}

/// The mathematical value of an [`Invocation`].
pub enum InvocationView {
    Help,
    Version,
    Run { out_dir: Seq<char>, command: CommandView },
}

impl View for Command {
    type V = CommandView;

    open spec fn view(&self) -> CommandView {
        match self {
            Command::Traffic(id) => CommandView::Traffic(id.owner@, id.repo@),
            Command::Clones(id) => CommandView::Clones(id.owner@, id.repo@),
            Command::Repo(id) => CommandView::Repo(id.owner@, id.repo@),
        }
    }
}

impl View for InputError {
    type V = InputErrorView;

    open spec fn view(&self) -> InputErrorView {
        match self {
            InputError::Cli(e) => InputErrorView::Cli(e@),
            InputError::Repo(e) => InputErrorView::Repo(e.input@),
        }
    }
}

impl View for Invocation {
    type V = InvocationView;

    open spec fn view(&self) -> InvocationView {
        match self {
            Invocation::Help => InvocationView::Help,
            Invocation::Version => InvocationView::Version,
            Invocation::Run { out_dir, command } => InvocationView::Run {
                out_dir: out_dir@,
                command: command@,
            },
        }
    }
}

/// The sentence that refuses a command line without a command.
pub open spec fn no_command() -> Seq<char> {
    "No command provided."@
}

/// The sentence that refuses a command without a repository.
pub open spec fn no_repository() -> Seq<char> {
    "No repository provided."@
}

/// The sentence that refuses the unknown command `name`.
pub open spec fn unknown_command(name: Seq<char>) -> Seq<char> {
    "Command "@ + name + " does not exist."@
}

/// The sentence that refuses a command line without the option `out-dir`.
pub open spec fn no_out_dir() -> Seq<char> {
    "Missing --out-dir option."@
}

/// Owner and name of the repository that the argument `argument` names.
pub open spec fn repo_of(argument: Option<Seq<char>>) -> Result<
    (Seq<char>, Seq<char>),
    InputErrorView,
> {
    match argument {
        None => Err(InputErrorView::Cli(no_repository())),
        Some(text) => match split_once_spec(text, '/') {
            Some((owner, repo)) => Ok((owner, repo)),
            None => Err(InputErrorView::Repo(text)),
        },
    }
}

/// The command that the plain arguments `commands` name: the first is the name
/// of the command, the second its repository, the others do not count. The
/// name is looked at before the repository.
pub open spec fn command_of(commands: Seq<Seq<char>>) -> Result<CommandView, InputErrorView> {
    if commands.len() == 0 {
        Err(InputErrorView::Cli(no_command()))
    } else {
        let name = commands[0];
        let argument = if commands.len() > 1 {
            Some(commands[1])
        } else {
            None
        };
        if name == "traffic"@ {
            match repo_of(argument) {
                Ok((owner, repo)) => Ok(CommandView::Traffic(owner, repo)),
                Err(e) => Err(e),
            }
        } else if name == "clones"@ {
            match repo_of(argument) {
                Ok((owner, repo)) => Ok(CommandView::Clones(owner, repo)),
                Err(e) => Err(e),
            }
        } else if name == "repo"@ {
            match repo_of(argument) {
                Ok((owner, repo)) => Ok(CommandView::Repo(owner, repo)),
                Err(e) => Err(e),
            }
        } else {
            Err(InputErrorView::Cli(unknown_command(name)))
        }
    }
}

/// What the command line `cli` asks for. A request for help goes before one
/// for the version, and both before anything else; then the output directory is
/// looked for, and the command last.
pub open spec fn invocation_of(cli: CliView) -> Result<InvocationView, InputErrorView> {
    if cli.flags.contains("h"@) || cli.options.contains_key("help"@) {
        Ok(InvocationView::Help)
    } else if cli.flags.contains("v"@) || cli.options.contains_key("version"@) {
        Ok(InvocationView::Version)
    } else if !cli.options.contains_key("out-dir"@) {
        Err(InputErrorView::Cli(no_out_dir()))
    } else {
        match command_of(cli.commands) {
            Ok(command) => Ok(InvocationView::Run { out_dir: cli.options["out-dir"@], command }),
            Err(e) => Err(e),
        }
    }
}

/// The repository that an argument names, if there is an argument.
pub fn parse_repo_from_arg(argument: Option<&String>) -> (r: Result<GitHubRepoId, InputError>)
    ensures
        match r {
            Ok(id) => repo_of(
                match argument {
                    Some(text) => Some(text@),
                    None => None,
                },
            ) == Ok::<(Seq<char>, Seq<char>), InputErrorView>((id.owner@, id.repo@)),
            Err(e) => repo_of(
                match argument {
                    Some(text) => Some(text@),
                    None => None,
                },
            ) == Err::<(Seq<char>, Seq<char>), InputErrorView>(e@),
        },
{
    match argument {
        None => Err(InputError::Cli(CliError::BadInput(String::from_str("No repository provided.")))),
        Some(text) => match GitHubRepoId::from_str(text.as_str()) {
            Ok(id) => Ok(id),
            Err(e) => Err(InputError::Repo(e)),
        },
    }
}

impl Command {
    /// The command that the plain arguments of a command line name.
    pub fn try_from(commands: &Vec<String>) -> (r: Result<Command, InputError>)
        ensures
            match r {
                Ok(command) => command_of(strings_view(commands@)) == Ok::<
                    CommandView,
                    InputErrorView,
                >(command@),
                Err(e) => command_of(strings_view(commands@)) == Err::<CommandView, InputErrorView>(
                    e@,
                ),
            },
    {
        if commands.len() == 0 {
            return Err(
                InputError::Cli(CliError::BadInput(String::from_str("No command provided."))),
            );
        }
        let name = commands[0].as_str();
        let argument = if commands.len() > 1 {
            Some(&commands[1])
        } else {
            None
        };
        if str_eq(name, "traffic") {
            match parse_repo_from_arg(argument) {
                Ok(id) => Ok(Command::Traffic(id)),
                Err(e) => Err(e),
            }
        } else if str_eq(name, "clones") {
            match parse_repo_from_arg(argument) {
                Ok(id) => Ok(Command::Clones(id)),
                Err(e) => Err(e),
            }
        } else if str_eq(name, "repo") {
            match parse_repo_from_arg(argument) {
                Ok(id) => Ok(Command::Repo(id)),
                Err(e) => Err(e),
            }
        } else {
            let mut text = String::from_str("Command ");
            text.append(name);
            text.append(" does not exist.");
            Err(InputError::Cli(CliError::BadInput(text)))
        }
    }

    /// The repository that the command is about.
    pub fn repo(&self) -> (id: &GitHubRepoId)
        ensures
            match self {
                Command::Traffic(r) => id == r,
                Command::Clones(r) => id == r,
                Command::Repo(r) => id == r,
            },
    {
        match self {
            Command::Traffic(r) => r,
            Command::Clones(r) => r,
            Command::Repo(r) => r,
        }
    }
}

impl InputError {
    /// The sentence with which the error is reported.
    pub fn message(&self) -> (m: String)
        ensures
            m@ == match self@ {
                InputErrorView::Cli(text) => text,
                InputErrorView::Repo(input) => RepoIdError::message_spec(input),
            },
    {
        match self {
            InputError::Cli(e) => e.message(),
            InputError::Repo(e) => e.message(),
        }
    }
}

/// Decides what a command line asks for.
pub fn resolve(cli: &Cli) -> (r: Result<Invocation, InputError>)
    ensures
        match r {
            Ok(invocation) => invocation_of(cli@) == Ok::<InvocationView, InputErrorView>(
                invocation@,
            ),
            Err(e) => invocation_of(cli@) == Err::<InvocationView, InputErrorView>(e@),
        },
{
    if cli.has_flag("h") || cli.has_option("help") {
        return Ok(Invocation::Help);
    }
    if cli.has_flag("v") || cli.has_option("version") {
        return Ok(Invocation::Version);
    }
    let out_dir = match cli.option("out-dir") {
        Some(dir) => dir.clone(),
        None => {
            return Err(
                InputError::Cli(
                    CliError::BadInput(String::from_str("Missing --out-dir option.")),
                ),
            );
        },
    };
    match Command::try_from(&cli.commands) {
        Ok(command) => Ok(Invocation::Run { out_dir, command }),
        Err(e) => Err(e),
    }
}

} // verus!
