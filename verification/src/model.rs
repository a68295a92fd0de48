use vstd::prelude::*;

verus! {

/// The texts held by a vector of strings.
pub open spec fn texts(v: Seq<String>) -> Seq<Seq<char>> {
    v.map_values(|s: String| s@)
}

/// The text held by an optional string.
pub open spec fn opt_text(o: Option<String>) -> Option<Seq<char>> {
    match o {
        Some(s) => Some(s@),
        None => None,
    }
}

/// Default of the `enabled` flag of a stored command.
pub fn default_true() -> (b: bool)
    ensures
        b,
{
    true
}

/// Whether a flag is unset (a `confirm` flag equal to its default).
pub fn is_false(value: &bool) -> (b: bool)
    ensures
        b == !*value,
{
    !*value
}

/// Whether a flag is set (an `enabled` flag equal to its default).
pub fn is_true(value: &bool) -> (b: bool)
    ensures
        b == *value,
{
    *value
}

/// How a command is run: a program with its arguments, or a shell script.
#[derive(Debug, PartialEq, Eq)]
pub enum ExecutionConfig {
    Program { executable: String, args: Vec<String> },
    Shell { shell: String },
}

/// Mathematical model of [`ExecutionConfig`].
pub enum ExecutionView {
    Program { executable: Seq<char>, args: Seq<Seq<char>> },
    Shell { shell: Seq<char> },
}

impl View for ExecutionConfig {
    type V = ExecutionView;

    open spec fn view(&self) -> ExecutionView {
        match self {
            ExecutionConfig::Program { executable, args } => ExecutionView::Program {
                executable: executable@,
                args: texts(args@),
            },
            ExecutionConfig::Shell { shell } => ExecutionView::Shell { shell: shell@ },
        }
    }
}

/// A copy of a vector of strings.
pub fn copy_texts(v: &Vec<String>) -> (out: Vec<String>)
    ensures
        texts(out@) == texts(v@),
{
    let mut out: Vec<String> = Vec::new();
    for i in 0..v.len()
        invariant
            out@.len() == i,
            forall|k: int| 0 <= k < i ==> (#[trigger] out@[k])@ == v@[k]@,
    {
        let s = v[i].clone();
        out.push(s);
    }
    assert(texts(out@) =~= texts(v@));
    out
}

/// A copy of an optional string.
pub fn copy_opt_text(o: &Option<String>) -> (out: Option<String>)
    ensures
        opt_text(out) == opt_text(*o),
{
    match o {
        Some(s) => Some(s.clone()),
        None => None,
    }
}

impl ExecutionConfig {
    /// A copy of this execution setting.
    pub fn duplicate(&self) -> (out: ExecutionConfig)
        ensures
            out@ == self@,
    {
        match self {
            ExecutionConfig::Program { executable, args } => ExecutionConfig::Program {
                executable: executable.clone(),
                args: copy_texts(args),
            },
            ExecutionConfig::Shell { shell } => ExecutionConfig::Shell { shell: shell.clone() },
        }
    }
}

/// A command as it is stored in the configuration.
#[derive(Debug, PartialEq, Eq)]
pub struct StoredCommandEntry {
    pub name: String,
    pub execution: ExecutionConfig,
    pub description: Option<String>,
    pub confirm: bool,
    pub enabled: bool,
}

/// Mathematical model of [`StoredCommandEntry`].
pub struct StoredEntryView {
    pub name: Seq<char>,
    pub execution: ExecutionView,
    pub description: Option<Seq<char>>,
    pub confirm: bool,
    pub enabled: bool,
}

impl View for StoredCommandEntry {
    type V = StoredEntryView;

    open spec fn view(&self) -> StoredEntryView {
        StoredEntryView {
            name: self.name@,
            execution: self.execution@,
            description: opt_text(self.description),
            confirm: self.confirm,
            enabled: self.enabled,
        }
    }
}

/// The models of a sequence of stored entries.
pub open spec fn stored_views(v: Seq<StoredCommandEntry>) -> Seq<StoredEntryView> {
    v.map_values(|e: StoredCommandEntry| e@)
}

impl StoredEntryView {
    /// This entry as a command of the given group (`None`: ungrouped).
    pub open spec fn in_group(self, group: Option<Seq<char>>) -> CommandView {
        CommandView {
            name: self.name,
            execution: self.execution,
            group: group,
            description: self.description,
            confirm: self.confirm,
            enabled: self.enabled,
        }
    }
}

impl StoredCommandEntry {
    /// A copy of this entry.
    pub fn duplicate(&self) -> (out: StoredCommandEntry)
        ensures
            out@ == self@,
    {
        StoredCommandEntry {
            name: self.name.clone(),
            execution: self.execution.duplicate(),
            description: copy_opt_text(&self.description),
            confirm: self.confirm,
            enabled: self.enabled,
        }
    }
}

/// A command together with the group it belongs to.
#[derive(Debug, PartialEq, Eq)]
pub struct CommandEntry {
    pub name: String,
    pub execution: ExecutionConfig,
    pub group: Option<String>,
    pub description: Option<String>,
    pub confirm: bool,
    pub enabled: bool,
}

/// Mathematical model of [`CommandEntry`].
pub struct CommandView {
    pub name: Seq<char>,
    pub execution: ExecutionView,
    pub group: Option<Seq<char>>,
    pub description: Option<Seq<char>>,
    pub confirm: bool,
    pub enabled: bool,
}

impl View for CommandEntry {
    type V = CommandView;

    open spec fn view(&self) -> CommandView {
        CommandView {
            name: self.name@,
            execution: self.execution@,
            group: opt_text(self.group),
            description: opt_text(self.description),
            confirm: self.confirm,
            enabled: self.enabled,
        }
    }
}

/// The models of a sequence of commands.
pub open spec fn command_views(v: Seq<CommandEntry>) -> Seq<CommandView> {
    v.map_values(|e: CommandEntry| e@)
}

/// Pushing a command pushes its model.
pub proof fn lemma_command_views_push(s: Seq<CommandEntry>, x: CommandEntry)
    ensures
        command_views(s.push(x)) == command_views(s).push(x@),
{
    assert(command_views(s.push(x)) =~= command_views(s).push(x@));
}

/// Pushing an entry pushes its model.
pub proof fn lemma_stored_views_push(s: Seq<StoredCommandEntry>, x: StoredCommandEntry)
    ensures
        stored_views(s.push(x)) == stored_views(s).push(x@),
{
    assert(stored_views(s.push(x)) =~= stored_views(s).push(x@));
}

impl CommandEntry {
    /// A copy of this command.
    pub fn duplicate(&self) -> (out: CommandEntry)
        ensures
            out@ == self@,
    {
        CommandEntry {
            name: self.name.clone(),
            execution: self.execution.duplicate(),
            group: copy_opt_text(&self.group),
            description: copy_opt_text(&self.description),
            confirm: self.confirm,
            enabled: self.enabled,
        }
    }
}

} // verus!
