use vstd::prelude::*;

use crate::model::{opt_text, texts, ExecutionConfig, ExecutionView};
use crate::shell::{shell_split, split_words};
use crate::text::{trim_text, trimmed};

verus! {

/// The arguments of the `add` subcommand.
#[derive(Debug, PartialEq, Eq)]
pub struct AddRequest {
    pub name: Option<String>,
    pub group: Option<String>,
    pub description: Option<String>,
    pub executable: Option<String>,
    pub args: Vec<String>,
    pub shell: Option<String>,
    pub confirm: bool,
    pub enabled: bool,
}

/// A subcommand given on the command line.
#[derive(Debug, PartialEq, Eq)]
pub enum CliCommand {
    Init,
    Add(AddRequest),
    Remove { name: Option<String>, group: Option<String> },
}

/// The parsed command line.
#[derive(Debug, PartialEq, Eq)]
pub struct CliArgs {
    /// The configuration path given, as the bytes of a Unix path.
    pub config: Option<Vec<u8>>,
    pub group: Option<String>,
    pub group_name: Option<String>,
    pub command: Option<CliCommand>,
}

/// What the program is asked to do.
#[derive(Debug, PartialEq, Eq)]
pub enum Action {
    /// Write the starter configuration.
    Init,
    /// Add a command.
    Add(AddRequest),
    /// Remove a command.
    Remove { name: Option<String>, group: Option<String> },
    /// Pick a command (of one group, when given) and run it.
    Select { group: Option<String> },
}

/// An action on the configuration file at `path` (the bytes of a Unix path).
#[derive(Debug, PartialEq, Eq)]
pub struct Task {
    pub path: Vec<u8>,
    pub action: Action,
}

/// Why the command line cannot be served.
#[derive(Debug, PartialEq, Eq)]
pub enum RunError {
    /// No configuration path was given and `HOME` is not set.
    HomeNotSet,
}

/// The bytes of an optional path.
pub open spec fn opt_bytes(o: Option<Vec<u8>>) -> Option<Seq<u8>> {
    match o {
        Some(v) => Some(v@),
        None => None,
    }
}

/// The name of the configuration file in the home directory, `.honoko.json`.
pub open spec fn config_file_name() -> Seq<u8> {
    seq![0x2eu8, 0x68u8, 0x6fu8, 0x6eu8, 0x6fu8, 0x6bu8, 0x6fu8, 0x2eu8, 0x6au8, 0x73u8, 0x6fu8, 0x6eu8]
}

/// The path separator `/`.
pub open spec fn separator() -> u8 {
    0x2fu8
}

/// `home` joined with the configuration file name, as a path: a separator
/// is added unless `home` is empty or already ends with one.
pub open spec fn config_file_in(home: Seq<u8>) -> Seq<u8> {
    if home.len() == 0 {
        config_file_name()
    } else if home.last() == separator() {
        home + config_file_name()
    } else {
        home.push(separator()) + config_file_name()
    }
}

/// The configuration path: the one given, or the file in the home directory.
pub open spec fn resolved_path(config: Option<Seq<u8>>, home: Option<Seq<u8>>) -> Option<Seq<u8>> {
    match config {
        Some(p) => Some(p),
        None => match home {
            Some(h) => Some(config_file_in(h)),
            None => None,
        },
    }
}

/// The configuration path, as the bytes of a Unix path: `config` when given,
/// otherwise `.honoko.json` in the home directory `home`; an error when
/// neither is known.
pub fn resolve_config_path(config: Option<Vec<u8>>, home: Option<Vec<u8>>) -> (r: Result<
    Vec<u8>,
    RunError,
>)
    ensures
        match r {
            Ok(p) => resolved_path(opt_bytes(config), opt_bytes(home)) == Some(p@),
            Err(_) => resolved_path(opt_bytes(config), opt_bytes(home)) is None,
        },
{
    match config {
        Some(p) => Ok(p),
        None => match home {
            Some(h) => {
                let ghost h0 = h@;
                let mut path = h;
                if path.len() > 0 && path[path.len() - 1] != 0x2fu8 {
                    path.push(0x2fu8);
                }
                let ghost base = path@;
                let name: [u8; 12] = [
                    0x2eu8,
                    0x68u8,
                    0x6fu8,
                    0x6eu8,
                    0x6fu8,
                    0x6bu8,
                    0x6fu8,
                    0x2eu8,
                    0x6au8,
                    0x73u8,
                    0x6fu8,
                    0x6eu8,
                ];
                assert(name@ =~= config_file_name());
                for i in 0..12usize
                    invariant
                        name@ == config_file_name(),
                        path@ == base + name@.take(i as int),
                {
                    path.push(name[i]);
                    assert(base + name@.take(i + 1) =~= (base + name@.take(i as int)).push(
                        name@[i as int],
                    ));
                }
                assert(name@.take(12) =~= name@);
                Ok(path)
            },
            None => Err(RunError::HomeNotSet),
        },
    }
}

/// The first of two optional values that is present.
pub open spec fn first_of<T>(a: Option<T>, b: Option<T>) -> Option<T> {
    match a {
        Some(x) => Some(x),
        None => b,
    }
}

/// The action that a command line asks for: its subcommand, or, without
/// one, picking a command of the group given by `--group` or by position.
pub open spec fn action_of(cli: CliArgs) -> Action {
    match cli.command {
        Some(CliCommand::Init) => Action::Init,
        Some(CliCommand::Add(request)) => Action::Add(request),
        Some(CliCommand::Remove { name, group }) => Action::Remove { name, group },
        None => Action::Select { group: first_of(cli.group, cli.group_name) },
    }
}

/// Turns a parsed command line, and the home directory when known, into the
/// task to perform.
pub fn run(cli: CliArgs, home: Option<Vec<u8>>) -> (r: Result<Task, RunError>)
    ensures
        match r {
            Ok(t) => resolved_path(opt_bytes(cli.config), opt_bytes(home)) == Some(t.path@)
                && t.action == action_of(cli),
            Err(_) => resolved_path(opt_bytes(cli.config), opt_bytes(home)) is None,
        },
        (match (r, cli.command) {
            (Ok(t), Some(CliCommand::Add(req))) => t.action == Action::Add(req),
            (Ok(t), Some(CliCommand::Remove { name, group })) => t.action == (Action::Remove {
                name,
                group,
            }),
            (Ok(t), Some(CliCommand::Init)) => t.action == Action::Init,
            _ => true,
        }),
{
    let ghost given = cli;
    let path = resolve_config_path(cli.config, home)?;
    let action = match cli.command {
        Some(CliCommand::Init) => Action::Init,
        Some(CliCommand::Add(request)) => Action::Add(request),
        Some(CliCommand::Remove { name, group }) => Action::Remove { name, group },
        None => Action::Select {
            group: match cli.group {
                Some(g) => Some(g),
                None => cli.group_name,
            },
        },
    };
    Ok(Task { path, action })
}

/// Why an execution setting cannot be formed.
#[derive(Debug, PartialEq, Eq)]
pub enum ExecutionError {
    /// Both a program and a shell script were given.
    ProgramAndShell,
    /// Arguments were given together with a shell script.
    ArgsWithShell,
    /// The arguments typed in could not be split into words.
    UnparsableArguments,
}

/// The execution setting given by the `--executable`, `--args` and `--shell`
/// flags; `Ok(None)` when neither a program nor a script was given, so that
/// it has to be asked for.
pub fn execution_from_flags(
    executable: Option<String>,
    args: Vec<String>,
    shell: Option<String>,
) -> (r: Result<Option<ExecutionConfig>, ExecutionError>)
    ensures
        match (executable, shell) {
            (Some(_), Some(_)) => r == Err::<Option<ExecutionConfig>, _>(
                ExecutionError::ProgramAndShell,
            ),
            (Some(e), None) => r == Ok::<_, ExecutionError>(
                Some(ExecutionConfig::Program { executable: e, args }),
            ),
            (None, Some(s)) => if args@.len() > 0 {
                r == Err::<Option<ExecutionConfig>, _>(ExecutionError::ArgsWithShell)
            } else {
                r == Ok::<_, ExecutionError>(Some(ExecutionConfig::Shell { shell: s }))
            },
            (None, None) => r == Ok::<Option<ExecutionConfig>, ExecutionError>(None),
        },
{
    match (executable, shell) {
        (Some(_), Some(_)) => Err(ExecutionError::ProgramAndShell),
        (Some(executable), None) => Ok(Some(ExecutionConfig::Program { executable, args })),
        (None, Some(shell)) => {
            if args.len() > 0 {
                Err(ExecutionError::ArgsWithShell)
            } else {
                Ok(Some(ExecutionConfig::Shell { shell }))
            }
        },
        (None, None) => Ok(None),
    }
}

/// An optional answer: the text without surrounding white space, or `None`
/// when nothing is left.
pub open spec fn optional_answer(input: Seq<char>) -> Option<Seq<char>> {
    if trimmed(input).len() == 0 {
        None
    } else {
        Some(trimmed(input))
    }
}

/// An optional answer typed in (or given by a flag): trimmed, and `None` when
/// it is blank.
pub fn optional_text(input: &str) -> (r: Option<String>)
    ensures
        opt_text(r) == optional_answer(input@),
{
    let t = trim_text(input);
    if t.as_str().is_empty() {
        None
    } else {
        Some(t)
    }
}

/// The argument list typed in for a program: none when the answer was blank,
/// otherwise the words of the answer as a shell splits them.
pub fn parse_arguments(raw: Option<String>) -> (r: Result<Vec<String>, ExecutionError>)
    ensures
        match raw {
            None => r matches Ok(v) && v@.len() == 0,
            Some(line) => match shell_split(line@) {
                Some(words) => r matches Ok(v) && texts(v@) == words,
                None => r == Err::<Vec<String>, _>(ExecutionError::UnparsableArguments),
            },
        },
{
    match raw {
        None => Ok(Vec::new()),
        Some(line) => match split_words(line.as_str()) {
            Ok(words) => Ok(words),
            Err(_) => Err(ExecutionError::UnparsableArguments),
        },
    }
}

/// The execution setting from interactive answers: a shell script when shell
/// mode was chosen, otherwise a program with the arguments typed in.
pub fn execution_from_answers(use_shell: bool, command: String, raw_args: Option<String>) -> (r:
    Result<ExecutionConfig, ExecutionError>)
    ensures
        use_shell ==> r == Ok::<_, ExecutionError>(ExecutionConfig::Shell { shell: command }),
        !use_shell ==> match raw_args {
            None => r matches Ok(x) && x@ == (ExecutionView::Program {
                executable: command@,
                args: Seq::empty(),
            }),
            Some(line) => match shell_split(line@) {
                Some(words) => r matches Ok(x) && x@ == (ExecutionView::Program {
                    executable: command@,
                    args: words,
                }),
                None => r == Err::<ExecutionConfig, _>(ExecutionError::UnparsableArguments),
            },
        },
{
    if use_shell {
        Ok(ExecutionConfig::Shell { shell: command })
    } else {
        let args = parse_arguments(raw_args)?;
        let x = ExecutionConfig::Program { executable: command, args };
        assert(raw_args is None ==> texts(args@) =~= Seq::<Seq<char>>::empty());
        Ok(x)
    }
}

} // verus!
