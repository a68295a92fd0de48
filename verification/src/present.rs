use vstd::prelude::*;

use crate::model::{command_views, texts, CommandEntry, CommandView, ExecutionConfig, ExecutionView};
use crate::shell::{join_words, plain_word, shell_join, shell_split};

verus! {

/// The label of a command in a selection list: its name, then ` [group]`
/// when it has a group, then ` - description` when it has one.
pub open spec fn label_of(c: CommandView) -> Seq<char> {
    c.name + match c.group {
        Some(g) => " ["@ + g + "]"@,
        None => Seq::empty(),
    } + match c.description {
        Some(d) => " - "@ + d,
        None => Seq::empty(),
    }
}

/// The label of one command.
pub fn command_label(command: &CommandEntry) -> (label: String)
    ensures
        label@ == label_of(command@),
{
    let mut label = command.name.clone();
    let ghost name = label@;
    match &command.group {
        Some(g) => {
            label.append(" [");
            label.append(g.as_str());
            label.append("]");
        },
        None => {},
    }
    let ghost with_group = label@;
    assert(with_group =~= name + match command@.group {
        Some(g) => " ["@ + g + "]"@,
        None => Seq::empty(),
    });
    match &command.description {
        Some(d) => {
            label.append(" - ");
            label.append(d.as_str());
        },
        None => {},
    }
    assert(label@ =~= label_of(command@));
    label
}

/// The labels of `commands`, in their order.
pub fn build_labels(commands: &[CommandEntry]) -> (labels: Vec<String>)
    ensures
        texts(labels@) == command_views(commands@).map_values(|c: CommandView| label_of(c)),
{
    let mut labels: Vec<String> = Vec::new();
    for i in 0..commands.len()
        invariant
            labels@.len() == i,
            forall|k: int| 0 <= k < i ==> (#[trigger] labels@[k])@ == label_of(commands@[k]@),
    {
        let label = command_label(&commands[i]);
        labels.push(label);
    }
    assert(texts(labels@) =~= command_views(commands@).map_values(|c: CommandView| label_of(c)));
    labels
}

/// How a command is shown before it runs: the shell script, or the program
/// followed by its arguments quoted for a shell.
pub open spec fn preview_of(c: CommandView) -> Seq<char> {
    match c.execution {
        ExecutionView::Program { executable, args } => if args.len() == 0 {
            executable
        } else {
            executable + " "@ + shell_join(args)
        },
        ExecutionView::Shell { shell } => shell,
    }
}

/// The text shown before a command runs. For a program with arguments, what
/// follows the program and a space splits back into the arguments; when the
/// program is a plain word, the whole text splits into the program followed
/// by the arguments.
pub fn command_preview(command: &CommandEntry) -> (preview: String)
    ensures
        preview@ == preview_of(command@),
        match command@.execution {
            ExecutionView::Program { executable, args } => args.len() > 0 ==> {
                &&& shell_split(preview@.skip(executable.len() + 1int)) == Some(args)
                &&& plain_word(executable) ==> shell_split(preview@) == Some(
                    seq![executable] + args,
                )
            },
            ExecutionView::Shell { .. } => true,
        },
{
    match &command.execution {
        ExecutionConfig::Program { executable, args } => {
            if args.len() == 0 {
                executable.clone()
            } else {
                let mut line = executable.clone();
                line.append(" ");
                let joined = join_words(args);
                line.append(joined.as_str());
                proof {
                    reveal_strlit(" ");
                }
                assert(" "@ =~= seq![' ']);
                assert(line@ == executable@ + seq![' '] + joined@);
                assert(line@.skip(executable@.len() + 1int) =~= joined@);
                line
            }
        },
        ExecutionConfig::Shell { shell } => shell.clone(),
    }
}

/// A program to start and its arguments.
#[derive(Debug, PartialEq, Eq)]
pub struct Invocation {
    pub program: String,
    pub args: Vec<String>,
}

/// The program and arguments that run a command: the program itself, or
/// `sh -c` with the script.
pub open spec fn invocation_of(c: CommandView) -> (Seq<char>, Seq<Seq<char>>) {
    match c.execution {
        ExecutionView::Program { executable, args } => (executable, args),
        ExecutionView::Shell { shell } => ("sh"@, seq!["-c"@, shell]),
    }
}

/// What to start to run `command`.
pub fn command_invocation(command: &CommandEntry) -> (inv: Invocation)
    ensures
        (inv.program@, texts(inv.args@)) == invocation_of(command@),
        match &command.execution {
            ExecutionConfig::Program { executable, args } => {
                &&& inv.program@ == executable@
                &&& inv.args@.len() == args@.len()
                &&& forall|i: int| 0 <= i < args@.len() ==> (#[trigger] inv.args@[i])@ == args@[i]@
            },
            ExecutionConfig::Shell { shell } => {
                &&& inv.args@.len() == 2
                &&& inv.args@[1]@ == shell@
            },
        },
{
    match &command.execution {
        ExecutionConfig::Program { executable, args } => {
            let copied = crate::model::copy_texts(args);
            assert(texts(copied@).len() == copied@.len() && texts(args@).len() == args@.len());
            assert forall|i: int| 0 <= i < args@.len() implies (#[trigger] copied@[i])@
                == args@[i]@ by {
                assert(texts(copied@)[i] == texts(args@)[i]);
            }
            Invocation { program: executable.clone(), args: copied }
        },
        ExecutionConfig::Shell { shell } => {
            let mut args: Vec<String> = Vec::new();
            args.push("-c".to_owned());
            args.push(shell.clone());
            assert(texts(args@) =~= seq!["-c"@, shell@]);
            Invocation { program: "sh".to_owned(), args }
        },
    }
}

/// The exit code reported for a finished command: its own code, or 1 when it
/// has none (ended by a signal).
pub fn exit_code(code: Option<i32>) -> (c: i32)
    ensures
        c == match code {
            Some(k) => k,
            None => 1,
        },
{
    match code {
        Some(k) => k,
        None => 1,
    }
}

} // verus!
