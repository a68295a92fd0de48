use honoko::cli::{
    execution_from_answers, execution_from_flags, optional_text, parse_arguments,
    resolve_config_path, run, Action, AddRequest, CliArgs, CliCommand, ExecutionError, RunError,
};
use honoko::config::{
    add_command, command_exists_in_group, enabled_commands, flatten_commands,
    load_or_default_config, remove_stored_command, starter_config, AddError, CommandGroup, Config,
    RemoveError,
};
use honoko::flow::{
    init_config, removal_step, select_command_for_removal, selector_step, InitError, Removal,
    RemovalAction, RemovalError, RemovalEvent, RemovalState, SelectorAction, SelectorError,
    SelectorEvent, SelectorState,
};
use honoko::model::{default_true, is_false, is_true, CommandEntry, ExecutionConfig, StoredCommandEntry};
use honoko::permissions::{check_permissions, secure_mode, PermissionError};
use honoko::present::{build_labels, command_invocation, command_label, command_preview, exit_code};
use honoko::text::{key_less, same_text, trim_text, white_space};

fn s(x: &str) -> String {
    x.to_string()
}

fn shell_entry(name: &str, script: &str) -> StoredCommandEntry {
    StoredCommandEntry {
        name: s(name),
        execution: ExecutionConfig::Shell { shell: s(script) },
        description: None,
        confirm: false,
        enabled: true,
    }
}

fn names(commands: &[CommandEntry]) -> Vec<(String, Option<String>)> {
    commands.iter().map(|c| (c.name.clone(), c.group.clone())).collect()
}

#[test]
fn serde_default_helpers() {
    assert!(default_true());
    assert!(is_true(&default_true()));
    assert!(is_false(&false));
    assert!(!is_false(&true));
    assert!(!is_true(&false));
}

#[test]
fn starter_config_lists_commands_in_order() {
    let commands = flatten_commands(starter_config());
    assert_eq!(
        names(&commands),
        vec![
            (s("Open Logs"), None),
            (s("Deploy"), Some(s("ops"))),
            (s("Build"), Some(s("rust"))),
            (s("Test"), Some(s("rust"))),
        ]
    );
    assert!(commands[1].confirm);
    assert_eq!(
        commands[2].execution,
        ExecutionConfig::Program { executable: s("cargo"), args: vec![s("build")] }
    );
    assert_eq!(commands[0].description, Some(s("Tail the shared log file")));
}

#[test]
fn starter_config_groups_sorted() {
    let c = starter_config();
    let group_names: Vec<String> = c.groups().iter().map(|g| g.name.clone()).collect();
    assert_eq!(group_names, vec![s("ops"), s("rust")]);
    assert_eq!(c.ungrouped().len(), 1);
}

#[test]
fn enabled_commands_filters_group_and_disabled() {
    let mut c = starter_config();
    let mut off = shell_entry("Off", "true");
    off.enabled = false;
    add_command(&mut c, Some(s("rust")), off).unwrap();
    let rust = enabled_commands(c.duplicate(), Some("rust"));
    assert_eq!(names(&rust), vec![(s("Build"), Some(s("rust"))), (s("Test"), Some(s("rust")))]);
    let all = enabled_commands(c.duplicate(), None);
    assert_eq!(all.len(), 4);
    assert!(enabled_commands(c, Some("missing")).is_empty());
}

#[test]
fn command_exists_per_section() {
    let c = starter_config();
    assert!(command_exists_in_group(&c, "Build", Some("rust")));
    assert!(!command_exists_in_group(&c, "Build", Some("ops")));
    assert!(!command_exists_in_group(&c, "Build", None));
    assert!(command_exists_in_group(&c, "Open Logs", None));
    assert!(!command_exists_in_group(&c, "Build", Some("nope")));
}

#[test]
fn labels_show_group_and_description() {
    let labels = build_labels(&flatten_commands(starter_config()));
    assert_eq!(
        labels,
        vec![
            s("Open Logs - Tail the shared log file"),
            s("Deploy [ops] - Run the deploy script"),
            s("Build [rust] - Compile the project"),
            s("Test [rust] - Run the test suite"),
        ]
    );
    let bare = CommandEntry {
        name: s("x"),
        execution: ExecutionConfig::Shell { shell: s("y") },
        group: None,
        description: None,
        confirm: false,
        enabled: true,
    };
    assert_eq!(command_label(&bare), "x");
}

#[test]
fn add_creates_group_in_name_order() {
    let mut c = starter_config();
    add_command(&mut c, Some(s("alpha")), shell_entry("A", "a")).unwrap();
    add_command(&mut c, Some(s("zeta")), shell_entry("Z", "z")).unwrap();
    add_command(&mut c, Some(s("ops")), shell_entry("B", "b")).unwrap();
    add_command(&mut c, None, shell_entry("U", "u")).unwrap();
    let group_names: Vec<String> = c.groups().iter().map(|g| g.name.clone()).collect();
    assert_eq!(group_names, vec![s("alpha"), s("ops"), s("rust"), s("zeta")]);
    assert_eq!(
        names(&flatten_commands(c)),
        vec![
            (s("Open Logs"), None),
            (s("U"), None),
            (s("A"), Some(s("alpha"))),
            (s("Deploy"), Some(s("ops"))),
            (s("B"), Some(s("ops"))),
            (s("Build"), Some(s("rust"))),
            (s("Test"), Some(s("rust"))),
            (s("Z"), Some(s("zeta"))),
        ]
    );
}

#[test]
fn add_refuses_duplicate_in_section() {
    let mut c = starter_config();
    let before = c.duplicate();
    assert_eq!(
        add_command(&mut c, Some(s("rust")), shell_entry("Build", "x")),
        Err(AddError::AlreadyExists { name: s("Build"), group: Some(s("rust")) })
    );
    assert_eq!(
        add_command(&mut c, None, shell_entry("Open Logs", "x")),
        Err(AddError::AlreadyExists { name: s("Open Logs"), group: None })
    );
    assert_eq!(c, before);
    assert_eq!(add_command(&mut c, Some(s("ops")), shell_entry("Build", "x")), Ok(()));
    assert!(command_exists_in_group(&c, "Build", Some("ops")));
}

#[test]
fn remove_errors_and_group_cleanup() {
    let mut c = starter_config();
    assert_eq!(
        remove_stored_command(&mut c, "Build", Some("nope")),
        Err(RemoveError::GroupNotFound { group: s("nope") })
    );
    assert_eq!(
        remove_stored_command(&mut c, "Nope", Some("rust")),
        Err(RemoveError::CommandNotFound { name: s("Nope") })
    );
    assert_eq!(
        remove_stored_command(&mut c, "Nope", None),
        Err(RemoveError::CommandNotFound { name: s("Nope") })
    );
    assert_eq!(c, starter_config());
    remove_stored_command(&mut c, "Deploy", Some("ops")).unwrap();
    let group_names: Vec<String> = c.groups().iter().map(|g| g.name.clone()).collect();
    assert_eq!(group_names, vec![s("rust")]);
    remove_stored_command(&mut c, "Build", Some("rust")).unwrap();
    assert_eq!(c.groups()[0].entries.len(), 1);
    remove_stored_command(&mut c, "Open Logs", None).unwrap();
    assert!(c.ungrouped().is_empty());
}

#[test]
fn remove_takes_first_of_duplicates() {
    let mut c = Config::new(vec![shell_entry("D", "first"), shell_entry("D", "second")]);
    remove_stored_command(&mut c, "D", None).unwrap();
    assert_eq!(c.ungrouped().len(), 1);
    assert_eq!(c.ungrouped()[0].execution, ExecutionConfig::Shell { shell: s("second") });
}

#[test]
fn remove_undoes_add() {
    for group in [None, Some(s("rust")), Some(s("new"))] {
        let mut c = starter_config();
        add_command(&mut c, group.clone(), shell_entry("Fresh", "f")).unwrap();
        remove_stored_command(&mut c, "Fresh", group.as_deref()).unwrap();
        assert_eq!(c, starter_config());
    }
}

#[test]
fn insert_group_replaces_or_inserts() {
    let mut c = Config::new(vec![]);
    c.insert_group(s("b"), vec![shell_entry("x", "x")]);
    c.insert_group(s("a"), vec![]);
    c.insert_group(s("b"), vec![shell_entry("y", "y")]);
    assert_eq!(
        c.groups(),
        &vec![
            CommandGroup { name: s("a"), entries: vec![] },
            CommandGroup { name: s("b"), entries: vec![shell_entry("y", "y")] },
        ]
    );
}

#[test]
fn load_or_default_uses_stored_or_empty() {
    assert_eq!(load_or_default_config(None), Config::new(vec![]));
    assert_eq!(load_or_default_config(Some(starter_config())), starter_config());
}

#[test]
fn permissions_owner_only() {
    assert_eq!(check_permissions(0o100600), Ok(()));
    assert_eq!(check_permissions(0o100400), Ok(()));
    assert_eq!(check_permissions(0o100644), Err(PermissionError::Insecure { mode: 0o644 }));
    assert_eq!(check_permissions(0o100660), Err(PermissionError::Insecure { mode: 0o660 }));
    assert_eq!(check_permissions(secure_mode()), Ok(()));
}

fn b(x: &str) -> Vec<u8> {
    x.as_bytes().to_vec()
}

#[test]
fn config_path_resolution() {
    assert_eq!(resolve_config_path(None, Some(b("/home/u"))), Ok(b("/home/u/.honoko.json")));
    assert_eq!(resolve_config_path(None, Some(b("/home/u/"))), Ok(b("/home/u/.honoko.json")));
    assert_eq!(resolve_config_path(None, Some(b(""))), Ok(b(".honoko.json")));
    assert_eq!(resolve_config_path(Some(b("./h.json")), None), Ok(b("./h.json")));
    assert_eq!(
        resolve_config_path(None, Some(vec![0x2f, 0xff, 0xfe])),
        Ok([vec![0x2f, 0xff, 0xfe, 0x2f], b(".honoko.json")].concat())
    );
    assert_eq!(resolve_config_path(None, None), Err(RunError::HomeNotSet));
}

fn cli(group: Option<&str>, group_name: Option<&str>, command: Option<CliCommand>) -> CliArgs {
    CliArgs {
        config: None,
        group: group.map(s),
        group_name: group_name.map(s),
        command,
    }
}

#[test]
fn run_dispatches_subcommands() {
    let home = Some(b("/h"));
    let t = run(cli(None, Some("rust"), None), home.clone()).unwrap();
    assert_eq!(t.path, b("/h/.honoko.json"));
    assert_eq!(t.action, Action::Select { group: Some(s("rust")) });
    let t = run(cli(Some("rust"), None, None), home.clone()).unwrap();
    assert_eq!(t.action, Action::Select { group: Some(s("rust")) });
    let t = run(cli(None, None, Some(CliCommand::Init)), home.clone()).unwrap();
    assert_eq!(t.action, Action::Init);
    let t = run(
        cli(None, None, Some(CliCommand::Remove { name: Some(s("x")), group: None })),
        home.clone(),
    )
    .unwrap();
    assert_eq!(t.action, Action::Remove { name: Some(s("x")), group: None });
    let req = AddRequest {
        name: Some(s("n")),
        group: None,
        description: None,
        executable: Some(s("e")),
        args: vec![],
        shell: None,
        confirm: false,
        enabled: true,
    };
    let t = run(cli(None, None, Some(CliCommand::Add(req))), home).unwrap();
    assert!(matches!(t.action, Action::Add(_)));
    assert_eq!(run(cli(None, None, None), None), Err(RunError::HomeNotSet));
}

#[test]
fn execution_flags() {
    assert_eq!(
        execution_from_flags(Some(s("e")), vec![], Some(s("s"))),
        Err(ExecutionError::ProgramAndShell)
    );
    assert_eq!(
        execution_from_flags(Some(s("cargo")), vec![s("test")], None),
        Ok(Some(ExecutionConfig::Program { executable: s("cargo"), args: vec![s("test")] }))
    );
    assert_eq!(
        execution_from_flags(None, vec![s("x")], Some(s("s"))),
        Err(ExecutionError::ArgsWithShell)
    );
    assert_eq!(
        execution_from_flags(None, vec![], Some(s("s"))),
        Ok(Some(ExecutionConfig::Shell { shell: s("s") }))
    );
    assert_eq!(execution_from_flags(None, vec![], None), Ok(None));
}

#[test]
fn execution_answers_and_arguments() {
    assert_eq!(
        execution_from_answers(true, s("ls | wc"), None),
        Ok(ExecutionConfig::Shell { shell: s("ls | wc") })
    );
    assert_eq!(
        execution_from_answers(false, s("cargo"), Some(s("test --lib 'a b'"))),
        Ok(ExecutionConfig::Program {
            executable: s("cargo"),
            args: vec![s("test"), s("--lib"), s("a b")]
        })
    );
    assert_eq!(
        execution_from_answers(false, s("cargo"), None),
        Ok(ExecutionConfig::Program { executable: s("cargo"), args: vec![] })
    );
    assert_eq!(parse_arguments(Some(s("'abc"))), Err(ExecutionError::UnparsableArguments));
    assert_eq!(parse_arguments(None), Ok(vec![]));
}

#[test]
fn optional_answers_are_trimmed() {
    assert_eq!(optional_text("  rust  "), Some(s("rust")));
    assert_eq!(optional_text(" \t\n "), None);
    assert_eq!(optional_text(""), None);
    assert_eq!(optional_text("\u{3000}a b\u{a0}"), Some(s("a b")));
    assert_eq!(trim_text("  x y "), "x y");
    assert!(white_space('\u{2028}'));
    assert!(!white_space('x'));
}

#[test]
fn text_order_and_equality() {
    assert!(key_less("ops", "rust"));
    assert!(key_less("a", "ab"));
    assert!(!key_less("ab", "a"));
    assert!(!key_less("a", "a"));
    assert!(key_less("Z", "a"));
    assert!(same_text("x", "x"));
    assert!(!same_text("x", "y"));
}

fn command(execution: ExecutionConfig) -> CommandEntry {
    CommandEntry {
        name: s("c"),
        execution,
        group: None,
        description: None,
        confirm: false,
        enabled: true,
    }
}

#[test]
fn preview_quotes_arguments() {
    let p = command(ExecutionConfig::Program { executable: s("cargo"), args: vec![] });
    assert_eq!(command_preview(&p), "cargo");
    let p = command(ExecutionConfig::Program {
        executable: s("echo"),
        args: vec![s("a b"), s("c"), s("")],
    });
    let preview = command_preview(&p);
    assert_eq!(preview, "echo 'a b' c ''");
    assert_eq!(
        shell_words::split(&preview["echo ".len()..]).unwrap(),
        vec![s("a b"), s("c"), s("")]
    );
    let p = command(ExecutionConfig::Shell { shell: s("ls | wc -l") });
    assert_eq!(command_preview(&p), "ls | wc -l");
}

#[test]
fn invocation_of_program_and_shell() {
    let inv = command_invocation(&command(ExecutionConfig::Shell { shell: s("echo hi") }));
    assert_eq!(inv.program, "sh");
    assert_eq!(inv.args, vec![s("-c"), s("echo hi")]);
    let inv = command_invocation(&command(ExecutionConfig::Program {
        executable: s("cargo"),
        args: vec![s("build")],
    }));
    assert_eq!(inv.program, "cargo");
    assert_eq!(inv.args, vec![s("build")]);
    assert_eq!(exit_code(Some(3)), 3);
    assert_eq!(exit_code(None), 1);
}

#[test]
fn init_config_cases() {
    assert_eq!(init_config(true, true), Err(InitError::AlreadyExists));
    assert_eq!(init_config(true, false), Ok(None));
    assert_eq!(init_config(false, true), Ok(Some(starter_config())));
}

#[test]
fn selector_creates_then_runs_confirmed_command() {
    let g = Some(s("ops"));
    let (st, a) = selector_step(g.clone(), SelectorState::Checking, SelectorEvent::ConfigExists(false));
    assert_eq!(a, SelectorAction::AskCreate);
    let (st, a) = selector_step(g.clone(), st, SelectorEvent::CreateAnswer(true));
    assert_eq!(a, SelectorAction::WriteStarter(starter_config()));
    let (st, a) = selector_step(g.clone(), st, SelectorEvent::StarterWritten);
    assert_eq!(a, SelectorAction::LoadConfig);
    let (st, a) = selector_step(g.clone(), st, SelectorEvent::Loaded(starter_config()));
    assert_eq!(a, SelectorAction::Choose { labels: vec![s("Deploy [ops] - Run the deploy script")] });
    let (st, a) = selector_step(g.clone(), st, SelectorEvent::Chosen(0));
    assert_eq!(a, SelectorAction::Confirm { name: s("Deploy") });
    let (st, a) = selector_step(g.clone(), st, SelectorEvent::Confirmed(true));
    match a {
        SelectorAction::Run { preview, invocation, .. } => {
            assert_eq!(preview, "./deploy.sh\n./notify.sh");
            assert_eq!(invocation.program, "sh");
        }
        other => panic!("unexpected {:?}", other),
    }
    let (st, a) = selector_step(g, st, SelectorEvent::Exited(None));
    assert_eq!(a, SelectorAction::Exit(1));
    assert_eq!(st, SelectorState::Done);
}

#[test]
fn selector_runs_unconfirmed_command_directly() {
    let (st, _) = selector_step(None, SelectorState::Checking, SelectorEvent::ConfigExists(true));
    let (st, _) = selector_step(None, st, SelectorEvent::Loaded(starter_config()));
    let (st, a) = selector_step(None, st, SelectorEvent::Chosen(2));
    assert_eq!(st, SelectorState::Running);
    match a {
        SelectorAction::Run { preview, .. } => assert_eq!(preview, "cargo build"),
        other => panic!("unexpected {:?}", other),
    }
}

#[test]
fn selector_declines_and_cancels() {
    let (_, a) = selector_step(None, SelectorState::AskingCreate, SelectorEvent::CreateAnswer(false));
    assert_eq!(a, SelectorAction::Fail(SelectorError::NotCreated));
    let (_, a) = selector_step(
        Some(s("none")),
        SelectorState::Loading,
        SelectorEvent::Loaded(starter_config()),
    );
    assert_eq!(a, SelectorAction::Fail(SelectorError::NoEnabledCommands { group: Some(s("none")) }));
    let (st, _) = selector_step(Some(s("ops")), SelectorState::Loading, SelectorEvent::Loaded(starter_config()));
    let (st, _) = selector_step(Some(s("ops")), st, SelectorEvent::Chosen(0));
    let (_, a) = selector_step(Some(s("ops")), st, SelectorEvent::Confirmed(false));
    assert_eq!(a, SelectorAction::Cancel);
    let (_, a) = selector_step(None, SelectorState::Running, SelectorEvent::StarterWritten);
    assert_eq!(a, SelectorAction::Fail(SelectorError::OutOfOrder));
}

#[test]
fn select_for_removal_cases() {
    let mut c = starter_config();
    add_command(&mut c, Some(s("ops")), shell_entry("Build", "b")).unwrap();
    let commands = flatten_commands(c);
    match select_command_for_removal(&commands, "Build", None) {
        Ok(Removal::Ambiguous(v)) => assert_eq!(v.len(), 2),
        other => panic!("unexpected {:?}", other),
    }
    match select_command_for_removal(&commands, "Build", Some("rust")) {
        Ok(Removal::Found(c)) => assert_eq!(c.group, Some(s("rust"))),
        other => panic!("unexpected {:?}", other),
    }
    assert_eq!(
        select_command_for_removal(&commands, "Nope", Some("ops")),
        Err(RemovalError::NotFound { name: s("Nope"), group: Some(s("ops")) })
    );
}

#[test]
fn removal_flow_removes_and_saves() {
    let name = Some(s("Build"));
    let (st, a) = removal_step(name.clone(), None, RemovalState::Loading, RemovalEvent::Loaded(starter_config()));
    assert_eq!(a, RemovalAction::Confirm { name: s("Build") });
    let (st, a) = removal_step(name.clone(), None, st, RemovalEvent::Confirmed(true));
    let mut expected = starter_config();
    remove_stored_command(&mut expected, "Build", Some("rust")).unwrap();
    assert_eq!(a, RemovalAction::Save(expected));
    let (st, a) = removal_step(name, None, st, RemovalEvent::Saved);
    assert_eq!(a, RemovalAction::Removed { name: s("Build") });
    assert_eq!(st, RemovalState::Done);
}

#[test]
fn removal_flow_choice_and_errors() {
    let (st, a) = removal_step(None, None, RemovalState::Loading, RemovalEvent::Loaded(starter_config()));
    match a {
        RemovalAction::Choose { labels } => assert_eq!(labels.len(), 4),
        other => panic!("unexpected {:?}", other),
    }
    let (st, a) = removal_step(None, None, st, RemovalEvent::Chosen(1));
    assert_eq!(a, RemovalAction::Confirm { name: s("Deploy") });
    let (_, a) = removal_step(None, None, st, RemovalEvent::Confirmed(false));
    assert_eq!(a, RemovalAction::Cancel);
    let (_, a) = removal_step(None, None, RemovalState::Loading, RemovalEvent::Loaded(Config::new(vec![])));
    assert_eq!(a, RemovalAction::Fail(RemovalError::NoCommands));
    let (_, a) = removal_step(
        Some(s("x")),
        Some(s("ops")),
        RemovalState::Loading,
        RemovalEvent::Loaded(starter_config()),
    );
    assert_eq!(a, RemovalAction::Fail(RemovalError::NotFound { name: s("x"), group: Some(s("ops")) }));
}

#[test]
fn group_flag_disambiguates_removal() {
    let mut c = starter_config();
    add_command(&mut c, Some(s("ops")), shell_entry("Build", "b")).unwrap();
    let (_, a) = removal_step(
        Some(s("Build")),
        None,
        RemovalState::Loading,
        RemovalEvent::Loaded(c.duplicate()),
    );
    assert_eq!(
        a,
        RemovalAction::Choose {
            labels: vec![s("Build [ops]"), s("Build [rust] - Compile the project")]
        }
    );
    let (st, a) = removal_step(
        Some(s("Build")),
        Some(s("ops")),
        RemovalState::Loading,
        RemovalEvent::Loaded(c),
    );
    assert_eq!(a, RemovalAction::Confirm { name: s("Build") });
    let (_, a) = removal_step(Some(s("Build")), Some(s("ops")), st, RemovalEvent::Confirmed(true));
    assert_eq!(a, RemovalAction::Save(starter_config()));
}

#[test]
fn trimming_twice_is_trimming_once() {
    for text in ["  a b  ", "\u{2003}x\u{2003}", "   ", "", "y"] {
        let once = trim_text(text);
        assert_eq!(trim_text(&once), once);
    }
}

#[test]
fn existence_check_matches_listing() {
    let c = starter_config();
    let commands = flatten_commands(c.duplicate());
    for (name, group) in [
        ("Build", Some("rust")),
        ("Build", None),
        ("Deploy", Some("ops")),
        ("Deploy", Some("rust")),
        ("Open Logs", None),
        ("Open Logs", Some("ops")),
    ] {
        let listed = commands
            .iter()
            .any(|e| e.name == name && e.group.as_deref() == group);
        assert_eq!(command_exists_in_group(&c, name, group), listed);
    }
}

#[test]
fn added_command_can_be_found() {
    let mut c = Config::new(vec![]);
    add_command(&mut c, Some(s("g")), shell_entry("n", "x")).unwrap();
    assert!(command_exists_in_group(&c, "n", Some("g")));
    assert!(!command_exists_in_group(&c, "n", None));
}

#[test]
fn whole_preview_splits_into_program_and_arguments() {
    let p = command(ExecutionConfig::Program {
        executable: s("echo"),
        args: vec![s("hello world"), s("it's"), s("$HOME")],
    });
    let preview = command_preview(&p);
    assert_eq!(preview, "echo 'hello world' 'it'\\''s' '$HOME'");
    assert_eq!(
        shell_words::split(&preview).unwrap(),
        vec![s("echo"), s("hello world"), s("it's"), s("$HOME")]
    );
}
