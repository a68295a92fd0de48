use vstd::prelude::*;

use crate::config::{
    all_commands, enabled_commands, explains_refusal, flatten_commands, opt_str, remove_stored_command,
    selected_by, starter_config, starter_view, Config, ConfigView, RemoveError,
};
use crate::model::{command_views, opt_text, texts, CommandEntry, CommandView};
use crate::present::{
    build_labels, command_invocation, command_preview, exit_code, invocation_of, label_of,
    preview_of, Invocation,
};
use crate::text::same_text;

verus! {

/// Why the starter configuration is not written.
#[derive(Debug, PartialEq, Eq)]
pub enum InitError {
    /// A configuration file exists already.
    AlreadyExists,
}

/// What to write when initialising: nothing when a configuration exists
/// (an error when that was asked to be refused), otherwise the starter one.
pub fn init_config(exists: bool, fail_if_exists: bool) -> (r: Result<Option<Config>, InitError>)
    ensures
        exists && fail_if_exists ==> r == Err::<Option<Config>, _>(InitError::AlreadyExists),
        exists && !fail_if_exists ==> r == Ok::<Option<Config>, InitError>(None),
        !exists ==> (r matches Ok(Some(c)) && c@ == starter_view() && c@.wf()),
{
    if exists {
        if fail_if_exists {
            return Err(InitError::AlreadyExists);
        }
        return Ok(None);
    }
    Ok(Some(starter_config()))
}

/// Whether a command is called `name` and belongs to the group `group`
/// (any group, or none, when `group` is `None`).
pub open spec fn named_in(name: Seq<char>, group: Option<Seq<char>>) -> spec_fn(CommandView) -> bool {
    |c: CommandView|
        c.name == name && match group {
            Some(g) => c.group == Some(g),
            None => true,
        }
}

/// The outcome of looking for the command to remove.
#[derive(Debug, PartialEq, Eq)]
pub enum Removal {
    /// Exactly one command matches.
    Found(CommandEntry),
    /// Several commands match; one has to be chosen.
    Ambiguous(Vec<CommandEntry>),
}

/// Why no command can be removed.
#[derive(Debug, PartialEq, Eq)]
pub enum RemovalError {
    /// The configuration holds no command at all.
    NoCommands,
    /// No command of that name (in that group, when one is given).
    NotFound { name: String, group: Option<String> },
    /// The chosen command, called `name`, could not be removed from the
    /// configuration.
    Missing { name: String, cause: RemoveError },
    /// An event that does not answer the last action.
    OutOfOrder,
}

/// The commands called `name` (in the group `group`, when given); the one
/// command when there is exactly one, all of them when there are several.
pub fn select_command_for_removal(commands: &[CommandEntry], name: &str, group: Option<&str>) -> (r:
    Result<Removal, RemovalError>)
    ensures
        ({
            let found = command_views(commands@).filter(named_in(name@, opt_str(group)));
            match r {
                Ok(Removal::Found(c)) => found.len() == 1 && c@ == found[0],
                Ok(Removal::Ambiguous(v)) => found.len() > 1 && command_views(v@) == found,
                Err(RemovalError::NotFound { name: n, group: g }) => found.len() == 0 && n@
                    == name@ && opt_text(g) == opt_str(group),
                Err(_) => false,
            }
        }),
{
    let ghost pred = named_in(name@, opt_str(group));
    let ghost s = command_views(commands@);
    let mut matches: Vec<CommandEntry> = Vec::new();
    for i in 0..commands.len()
        invariant
            s == command_views(commands@),
            pred == named_in(name@, opt_str(group)),
            command_views(matches@) == s.take(i as int).filter(pred),
    {
        let cmd = &commands[i];
        let keep = same_text(cmd.name.as_str(), name) && match group {
            Some(g) => match &cmd.group {
                Some(cg) => same_text(cg.as_str(), g),
                None => false,
            },
            None => true,
        };
        assert(s[i as int] == cmd@);
        assert(keep == pred(s[i as int]));
        proof {
            reveal(Seq::filter);
            assert(s.take(i + 1).drop_last() =~= s.take(i as int));
            assert(s.take(i + 1).last() == s[i as int]);
        }
        if keep {
            let copy = cmd.duplicate();
            let ghost prev = matches@;
            matches.push(copy);
            proof {
                crate::model::lemma_command_views_push(prev, copy);
            }
        }
    }
    assert(s.take(commands.len() as int) =~= s);
    if matches.len() == 0 {
        Err(
            RemovalError::NotFound {
                name: name.to_owned(),
                group: match group {
                    Some(g) => Some(g.to_owned()),
                    None => None,
                },
            },
        )
    } else if matches.len() == 1 {
        let c = matches.remove(0);
        Ok(Removal::Found(c))
    } else {
        Ok(Removal::Ambiguous(matches))
    }
}


/// Where the command picker stands.
#[derive(Debug, PartialEq, Eq)]
pub enum SelectorState {
    /// Waiting to learn whether the configuration file exists.
    Checking,
    /// Asked whether to create the starter configuration.
    AskingCreate,
    /// Asked to write the starter configuration.
    Creating,
    /// Asked to load the configuration.
    Loading,
    /// Asked to choose one of `commands`.
    Choosing { commands: Vec<CommandEntry> },
    /// Asked to confirm running `command`.
    Confirming { command: CommandEntry },
    /// Asked to run a command.
    Running,
    /// Nothing left to do.
    Done,
}

/// What happened since the last step.
#[derive(Debug, PartialEq, Eq)]
pub enum SelectorEvent {
    /// Whether the configuration file exists.
    ConfigExists(bool),
    /// The answer to the offer to create the starter configuration.
    CreateAnswer(bool),
    /// The starter configuration was written.
    StarterWritten,
    /// The configuration was loaded.
    Loaded(Config),
    /// The index of the chosen command.
    Chosen(usize),
    /// The answer to the confirmation.
    Confirmed(bool),
    /// The command ended, with its exit code when it had one.
    Exited(Option<i32>),
}

/// Why the picker stops without running a command.
#[derive(Debug, PartialEq, Eq)]
pub enum SelectorError {
    /// The offer to create the starter configuration was declined.
    NotCreated,
    /// No enabled command (in the group, when one was asked for).
    NoEnabledCommands { group: Option<String> },
    /// An event that does not answer the last action.
    OutOfOrder,
}

/// What the picker asks to be done next.
#[derive(Debug, PartialEq, Eq)]
pub enum SelectorAction {
    /// Ask whether to create the starter configuration (default: yes).
    AskCreate,
    /// Write this configuration.
    WriteStarter(Config),
    /// Load the configuration.
    LoadConfig,
    /// Ask to choose among these labels (default: the first).
    Choose { labels: Vec<String> },
    /// Ask whether to run the command called `name` (default: no).
    Confirm { name: String },
    /// Show `preview`, then start `invocation`, the command called `name`.
    Run { name: String, preview: String, invocation: Invocation },
    /// Report that nothing was run and end successfully.
    Cancel,
    /// End with this exit code.
    Exit(i32),
    /// Stop with an error.
    Fail(SelectorError),
}

/// `action` runs `c`: it shows its preview and starts its invocation.
pub open spec fn runs(action: SelectorAction, c: CommandView) -> bool {
    action matches SelectorAction::Run { name, preview, invocation } && name@ == c.name && preview@
        == preview_of(c) && (invocation.program@, texts(invocation.args@)) == invocation_of(c)
}

/// The step that follows a chosen or confirmed command.
pub open spec fn after_choice(c: CommandEntry, next: SelectorState, action: SelectorAction) -> bool {
    if c@.confirm {
        &&& next matches SelectorState::Confirming { command } && command@ == c@
        &&& action matches SelectorAction::Confirm { name } && name@ == c@.name
    } else {
        next == SelectorState::Running && runs(action, c@)
    }
}

/// The transitions of the command picker.
pub open spec fn selector_transition(
    group: Option<String>,
    state: SelectorState,
    event: SelectorEvent,
    next: SelectorState,
    action: SelectorAction,
) -> bool {
    match (state, event) {
        (SelectorState::Checking, SelectorEvent::ConfigExists(true)) => next
            == SelectorState::Loading && action == SelectorAction::LoadConfig,
        (SelectorState::Checking, SelectorEvent::ConfigExists(false)) => next
            == SelectorState::AskingCreate && action == SelectorAction::AskCreate,
        (SelectorState::AskingCreate, SelectorEvent::CreateAnswer(true)) => {
            &&& next == SelectorState::Creating
            &&& action matches SelectorAction::WriteStarter(c) && c@ == starter_view() && c@.wf()
        },
        (SelectorState::AskingCreate, SelectorEvent::CreateAnswer(false)) => next
            == SelectorState::Done && action == SelectorAction::Fail(SelectorError::NotCreated),
        (SelectorState::Creating, SelectorEvent::StarterWritten) => next == SelectorState::Loading
            && action == SelectorAction::LoadConfig,
        (SelectorState::Loading, SelectorEvent::Loaded(config)) => {
            let found = all_commands(config@).filter(selected_by(opt_text(group)));
            if found.len() == 0 {
                next == SelectorState::Done && action == SelectorAction::Fail(
                    SelectorError::NoEnabledCommands { group },
                )
            } else {
                &&& next matches SelectorState::Choosing { commands } && command_views(commands@)
                    == found
                &&& action matches SelectorAction::Choose { labels } && texts(labels@)
                    == found.map_values(|c: CommandView| label_of(c))
            }
        },
        (SelectorState::Choosing { commands }, SelectorEvent::Chosen(i)) => if i < commands@.len() {
            after_choice(commands@[i as int], next, action)
        } else {
            next == SelectorState::Done && action == SelectorAction::Fail(SelectorError::OutOfOrder)
        },
        (SelectorState::Confirming { command }, SelectorEvent::Confirmed(true)) => next
            == SelectorState::Running && runs(action, command@),
        (SelectorState::Confirming { command }, SelectorEvent::Confirmed(false)) => next
            == SelectorState::Done && action == SelectorAction::Cancel,
        (SelectorState::Running, SelectorEvent::Exited(code)) => next == SelectorState::Done
            && action == SelectorAction::Exit(
            match code {
                Some(k) => k,
                None => 1,
            },
        ),
        _ => next == SelectorState::Done && action == SelectorAction::Fail(
            SelectorError::OutOfOrder,
        ),
    }
}

/// The action that runs `c`.
fn run_action(c: &CommandEntry) -> (a: SelectorAction)
    ensures
        runs(a, c@),
{
    SelectorAction::Run {
        name: c.name.clone(),
        preview: command_preview(c),
        invocation: command_invocation(c),
    }
}

/// The step after `c` was chosen.
fn choice_step(c: CommandEntry) -> (r: (SelectorState, SelectorAction))
    ensures
        after_choice(c, r.0, r.1),
{
    if c.confirm {
        let name = c.name.clone();
        (SelectorState::Confirming { command: c }, SelectorAction::Confirm { name })
    } else {
        let a = run_action(&c);
        (SelectorState::Running, a)
    }
}

/// One step of picking and running a command: from the current state and
/// what just happened, the next state and what to do. `group` restricts the
/// choice to one group.
pub fn selector_step(group: Option<String>, state: SelectorState, event: SelectorEvent) -> (r: (
    SelectorState,
    SelectorAction,
))
    ensures
        selector_transition(group, state, event, r.0, r.1),
{
    match (state, event) {
        (SelectorState::Checking, SelectorEvent::ConfigExists(exists)) => {
            if exists {
                (SelectorState::Loading, SelectorAction::LoadConfig)
            } else {
                (SelectorState::AskingCreate, SelectorAction::AskCreate)
            }
        },
        (SelectorState::AskingCreate, SelectorEvent::CreateAnswer(yes)) => {
            if yes {
                (SelectorState::Creating, SelectorAction::WriteStarter(starter_config()))
            } else {
                (SelectorState::Done, SelectorAction::Fail(SelectorError::NotCreated))
            }
        },
        (SelectorState::Creating, SelectorEvent::StarterWritten) => (
            SelectorState::Loading,
            SelectorAction::LoadConfig,
        ),
        (SelectorState::Loading, SelectorEvent::Loaded(config)) => {
            let g: Option<&str> = match &group {
                Some(s) => Some(s.as_str()),
                None => None,
            };
            let commands = enabled_commands(config, g);
            if commands.len() == 0 {
                (
                    SelectorState::Done,
                    SelectorAction::Fail(SelectorError::NoEnabledCommands { group }),
                )
            } else {
                let labels = build_labels(commands.as_slice());
                (SelectorState::Choosing { commands }, SelectorAction::Choose { labels })
            }
        },
        (SelectorState::Choosing { commands }, SelectorEvent::Chosen(i)) => {
            if i < commands.len() {
                let mut commands = commands;
                let c = commands.remove(i);
                choice_step(c)
            } else {
                (SelectorState::Done, SelectorAction::Fail(SelectorError::OutOfOrder))
            }
        },
        (SelectorState::Confirming { command }, SelectorEvent::Confirmed(yes)) => {
            if yes {
                let a = run_action(&command);
                (SelectorState::Running, a)
            } else {
                (SelectorState::Done, SelectorAction::Cancel)
            }
        },
        (SelectorState::Running, SelectorEvent::Exited(code)) => (
            SelectorState::Done,
            SelectorAction::Exit(exit_code(code)),
        ),
        _ => (SelectorState::Done, SelectorAction::Fail(SelectorError::OutOfOrder)),
    }
}


/// Where the removal of a command stands.
#[derive(Debug, PartialEq, Eq)]
pub enum RemovalState {
    /// Asked to load the configuration.
    Loading,
    /// Asked to choose one of `candidates` to remove from `config`.
    Choosing { config: Config, candidates: Vec<CommandEntry> },
    /// Asked to confirm removing `command` from `config`.
    Confirming { config: Config, command: CommandEntry },
    /// Asked to save the configuration without the command called `name`.
    Saving { name: String },
    /// Nothing left to do.
    Done,
}

/// What happened since the last step of a removal.
#[derive(Debug, PartialEq, Eq)]
pub enum RemovalEvent {
    /// The configuration was loaded.
    Loaded(Config),
    /// The index of the chosen command.
    Chosen(usize),
    /// The answer to the confirmation.
    Confirmed(bool),
    /// The configuration was saved.
    Saved,
}

/// What the removal asks to be done next.
#[derive(Debug, PartialEq, Eq)]
pub enum RemovalAction {
    /// Ask to choose among these labels (default: the first).
    Choose { labels: Vec<String> },
    /// Ask whether to remove the command called `name` (default: no).
    Confirm { name: String },
    /// Save this configuration.
    Save(Config),
    /// Report that the command called `name` was removed, and end.
    Removed { name: String },
    /// Report that nothing was removed and end successfully.
    Cancel,
    /// Stop with an error.
    Fail(RemovalError),
}

/// The step that asks to confirm the removal of `c` from `config`.
pub open spec fn confirms(
    config: ConfigView,
    c: CommandView,
    next: RemovalState,
    action: RemovalAction,
) -> bool {
    &&& next matches RemovalState::Confirming { config: kept, command } && kept@ == config
        && command@ == c
    &&& action matches RemovalAction::Confirm { name } && name@ == c.name
}

/// The step that asks to choose among `found`, commands of `config`.
pub open spec fn offers(
    config: ConfigView,
    found: Seq<CommandView>,
    next: RemovalState,
    action: RemovalAction,
) -> bool {
    &&& next matches RemovalState::Choosing { config: kept, candidates } && kept@ == config
        && command_views(candidates@) == found
    &&& action matches RemovalAction::Choose { labels } && texts(labels@) == found.map_values(
        |c: CommandView| label_of(c),
    )
}

/// The transitions of a removal; `name` and `group` are those given on the
/// command line.
pub open spec fn removal_transition(
    name: Option<String>,
    group: Option<String>,
    state: RemovalState,
    event: RemovalEvent,
    next: RemovalState,
    action: RemovalAction,
) -> bool {
    match (state, event) {
        (RemovalState::Loading, RemovalEvent::Loaded(config)) => {
            let all = all_commands(config@);
            if all.len() == 0 {
                next == RemovalState::Done && action == RemovalAction::Fail(
                    RemovalError::NoCommands,
                )
            } else {
                match name {
                    None => offers(config@, all, next, action),
                    Some(n) => {
                        let found = all.filter(named_in(n@, opt_text(group)));
                        if found.len() == 0 {
                            &&& next == RemovalState::Done
                            &&& action matches RemovalAction::Fail(
                                RemovalError::NotFound { name: n2, group: g2 },
                            ) && n2@ == n@ && opt_text(g2) == opt_text(group)
                        } else if found.len() == 1 {
                            confirms(config@, found[0], next, action)
                        } else {
                            offers(config@, found, next, action)
                        }
                    },
                }
            }
        },
        (RemovalState::Choosing { config, candidates }, RemovalEvent::Chosen(i)) => if i
            < candidates@.len() {
            confirms(config@, candidates@[i as int]@, next, action)
        } else {
            next == RemovalState::Done && action == RemovalAction::Fail(RemovalError::OutOfOrder)
        },
        (RemovalState::Confirming { config, command }, RemovalEvent::Confirmed(true)) => match config@.without_command(
            command@.name,
            command@.group,
        ) {
            Some(rest) => {
                &&& next matches RemovalState::Saving { name } && name@ == command@.name
                &&& action matches RemovalAction::Save(saved) && saved@ == rest
            },
            None => {
                &&& next == RemovalState::Done
                &&& action matches RemovalAction::Fail(RemovalError::Missing { name, cause })
                    && name@ == command@.name && explains_refusal(
                    config@,
                    command@.name,
                    command@.group,
                    cause,
                )
            },
        },
        (RemovalState::Confirming { config, command }, RemovalEvent::Confirmed(false)) => next
            == RemovalState::Done && action == RemovalAction::Cancel,
        (RemovalState::Saving { name }, RemovalEvent::Saved) => next == RemovalState::Done
            && action == RemovalAction::Removed { name },
        _ => next == RemovalState::Done && action == RemovalAction::Fail(RemovalError::OutOfOrder),
    }
}

/// The step that offers `candidates` of `config`.
fn offer(config: Config, candidates: Vec<CommandEntry>) -> (r: (RemovalState, RemovalAction))
    ensures
        offers(config@, command_views(candidates@), r.0, r.1),
{
    let labels = build_labels(candidates.as_slice());
    (RemovalState::Choosing { config, candidates }, RemovalAction::Choose { labels })
}

/// The step that asks to confirm removing `command` from `config`.
fn confirm(config: Config, command: CommandEntry) -> (r: (RemovalState, RemovalAction))
    ensures
        confirms(config@, command@, r.0, r.1),
{
    let name = command.name.clone();
    (RemovalState::Confirming { config, command }, RemovalAction::Confirm { name })
}

/// One step of removing a command: from the current state and what just
/// happened, the next state and what to do.
pub fn removal_step(
    name: Option<String>,
    group: Option<String>,
    state: RemovalState,
    event: RemovalEvent,
) -> (r: (RemovalState, RemovalAction))
    ensures
        removal_transition(name, group, state, event, r.0, r.1),
{
    match (state, event) {
        (RemovalState::Loading, RemovalEvent::Loaded(config)) => {
            let commands = flatten_commands(config.duplicate());
            if commands.len() == 0 {
                return (RemovalState::Done, RemovalAction::Fail(RemovalError::NoCommands));
            }
            match &name {
                None => offer(config, commands),
                Some(n) => {
                    let g: Option<&str> = match &group {
                        Some(s) => Some(s.as_str()),
                        None => None,
                    };
                    match select_command_for_removal(commands.as_slice(), n.as_str(), g) {
                        Ok(Removal::Found(c)) => confirm(config, c),
                        Ok(Removal::Ambiguous(v)) => offer(config, v),
                        Err(e) => (RemovalState::Done, RemovalAction::Fail(e)),
                    }
                },
            }
        },
        (RemovalState::Choosing { config, candidates }, RemovalEvent::Chosen(i)) => {
            if i < candidates.len() {
                let mut candidates = candidates;
                let c = candidates.remove(i);
                confirm(config, c)
            } else {
                (RemovalState::Done, RemovalAction::Fail(RemovalError::OutOfOrder))
            }
        },
        (RemovalState::Confirming { config, command }, RemovalEvent::Confirmed(yes)) => {
            if !yes {
                return (RemovalState::Done, RemovalAction::Cancel);
            }
            let mut config = config;
            let g: Option<&str> = match &command.group {
                Some(s) => Some(s.as_str()),
                None => None,
            };
            match remove_stored_command(&mut config, command.name.as_str(), g) {
                Ok(()) => (
                    RemovalState::Saving { name: command.name },
                    RemovalAction::Save(config),
                ),
                Err(e) => (
                    RemovalState::Done,
                    RemovalAction::Fail(RemovalError::Missing { name: command.name, cause: e }),
                ),
            }
        },
        (RemovalState::Saving { name: removed }, RemovalEvent::Saved) => (
            RemovalState::Done,
            RemovalAction::Removed { name: removed },
        ),
        _ => (RemovalState::Done, RemovalAction::Fail(RemovalError::OutOfOrder)),
    }
}

} // verus!
