//! Script commands: from the text of a command to the program and its
//! arguments, and from the way a process ended to the build's verdict.

use vstd::prelude::*;

verus! {

/// `shell_words::ParseError`, the error of a command line whose quote is
/// not closed. It carries nothing.
#[verifier::external_type_specification]
#[verifier::external_body]
pub struct ExParseError(shell_words::ParseError);

/// The words into which a shell splits a command line, quotes and escapes
/// resolved; `None` where a quote is left open.
pub uninterp spec fn shell_split(command: Seq<char>) -> Option<Seq<Seq<char>>>;

/// `shell_words::split`: the words of `command`, or its error for a quote
/// that is not closed; the result is what [`shell_split`] names.
#[verifier::external_body]
fn split_words(command: &str) -> (result: Result<Vec<String>, shell_words::ParseError>)
    ensures
        match result {
            Ok(words) => shell_split(command@) == Some(words.deep_view()),
            Err(_) => shell_split(command@) is None,
        },
{
    shell_words::split(command)
}

/// The exit code reported for a process that ended without one.
pub const NO_EXIT_CODE: i32 = 80085;

/// Why the build of an action failed, as a mathematical value.
pub enum BuildFailure {
    /// A command has a quote that is not closed.
    Parse,
    /// The filesystem or the start of a process failed; the message.
    Io(Seq<char>),
    /// The command is no command; the reason.
    InvalidCommand(Seq<char>, Seq<char>),
    /// The command ended badly; its exit code and what it wrote to standard
    /// error.
    CommandFail(Seq<char>, int, Seq<char>),
    /// What was reported does not answer the step that was handed out.
    UnexpectedEvent,
}

/// The build of an action failed.
#[derive(Debug, PartialEq)]
pub enum BuildError {
    /// A command has a quote that is not closed.
    Parse(shell_words::ParseError),
    /// The filesystem or the start of a process failed; the message.
    IO(String),
    /// The command is no command; the reason.
    InvalidCommand(String, String),
    /// The command ended badly; its exit code and what it wrote to standard
    /// error.
    CommandFail(String, i32, String),
    /// What was reported does not answer the step that was handed out.
    UnexpectedEvent,
}

impl View for BuildError {
    type V = BuildFailure;

    open spec fn view(&self) -> BuildFailure {
        match self {
            BuildError::Parse(_) => BuildFailure::Parse,
            BuildError::IO(message) => BuildFailure::Io(message@),
            BuildError::InvalidCommand(command, reason) => BuildFailure::InvalidCommand(
                command@,
                reason@,
            ),
            BuildError::CommandFail(command, code, stderr) => BuildFailure::CommandFail(
                command@,
                *code as int,
                stderr@,
            ),
            BuildError::UnexpectedEvent => BuildFailure::UnexpectedEvent,
        }
    }
}

/// A command ready to run: the program and its arguments.
#[derive(Debug, PartialEq, Eq)]
pub struct CommandLine {
    pub program: String,
    pub arguments: Vec<String>,
}

/// Mathematical model of a [`CommandLine`].
pub struct CommandLineView {
    pub program: Seq<char>,
    pub arguments: Seq<Seq<char>>,
}

impl View for CommandLine {
    type V = CommandLineView;

    open spec fn view(&self) -> CommandLineView {
        CommandLineView { program: self.program@, arguments: self.arguments.deep_view() }
    }
}

/// What the words of a command make: the first is the program, the others
/// are its arguments; no word at all is no command.
pub open spec fn command_of_words(command: Seq<char>, words: Seq<Seq<char>>) -> Result<
    CommandLineView,
    BuildFailure,
> {
    if words.len() == 0 {
        Err(BuildFailure::InvalidCommand(command, "Cannot have 0 arguments"@))
    } else {
        Ok(CommandLineView { program: words[0], arguments: words.subrange(1, words.len() as int) })
    }
}

/// What the text of a command makes.
pub open spec fn command_line(command: Seq<char>) -> Result<CommandLineView, BuildFailure> {
    match shell_split(command) {
        None => Err(BuildFailure::Parse),
        Some(words) => command_of_words(command, words),
    }
}

/// Whether `result` is the command line, or the failure, that `expected`
/// names.
pub open spec fn command_agrees(
    result: Result<CommandLine, BuildError>,
    expected: Result<CommandLineView, BuildFailure>,
) -> bool {
    match result {
        Ok(line) => expected == Ok::<CommandLineView, BuildFailure>(line@),
        Err(error) => expected == Err::<CommandLineView, BuildFailure>(error@),
    }
}

/// Takes the program and its arguments from the words of a command.
pub fn command_from_words(command: &str, words: Vec<String>) -> (result: Result<
    CommandLine,
    BuildError,
>)
    ensures
        command_agrees(result, command_of_words(command@, words.deep_view())),
{
    let ghost all = words.deep_view();
    let mut words = words;
    if words.len() == 0 {
        return Err(
            BuildError::InvalidCommand(
                String::from_str(command),
                String::from_str("Cannot have 0 arguments"),
            ),
        );
    }
    let program = words.remove(0);
    assert(words.deep_view() =~= all.subrange(1, all.len() as int));
    assert(program@ == all[0]);
    Ok(CommandLine { program, arguments: words })
}

/// Splits the text of a command into the program and its arguments.
pub fn parse_command(command: &str) -> (result: Result<CommandLine, BuildError>)
    ensures
        command_agrees(result, command_line(command@)),
{
    match split_words(command) {
        Ok(words) => command_from_words(command, words),
        Err(error) => Err(BuildError::Parse(error)),
    }
}

/// The failure that the end of a process means, if it means one: a process
/// that did not succeed fails the command with its exit code and what it
/// wrote to standard error, or with [`NO_EXIT_CODE`] and a fixed message
/// where it has no exit code.
pub open spec fn exit_failure(
    command: Seq<char>,
    success: bool,
    code: Option<i32>,
    stderr: Seq<char>,
) -> Option<BuildFailure> {
    if success {
        None
    } else {
        match code {
            Some(code) => Some(BuildFailure::CommandFail(command, code as int, stderr)),
            None => Some(
                BuildFailure::CommandFail(
                    command,
                    NO_EXIT_CODE as int,
                    "Command failed but could not get the status code."@,
                ),
            ),
        }
    }
}

/// Judges the end of a process that ran `command`: the two outputs where it
/// succeeded, else the failure of the command.
pub fn check_exit(
    command: &str,
    success: bool,
    code: Option<i32>,
    stdout: String,
    stderr: String,
) -> (result: Result<(String, String), BuildError>)
    ensures
        match result {
            Ok(outputs) => exit_failure(command@, success, code, stderr@) is None && outputs.0@
                == stdout@ && outputs.1@ == stderr@,
            Err(error) => exit_failure(command@, success, code, stderr@) == Some(error@),
        },
{
    if success {
        return Ok((stdout, stderr));
    }
    match code {
        Some(code) => Err(BuildError::CommandFail(String::from_str(command), code, stderr)),
        None => Err(
            BuildError::CommandFail(
                String::from_str(command),
                NO_EXIT_CODE,
                String::from_str("Command failed but could not get the status code."),
            ),
        ),
    }
}

} // verus!
