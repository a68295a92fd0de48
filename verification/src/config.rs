use vstd::prelude::*;

use crate::model::{
    command_views, copy_opt_text, lemma_command_views_push, lemma_stored_views_push, opt_text,
    stored_views, texts, CommandEntry, CommandView, ExecutionConfig, ExecutionView,
    StoredCommandEntry, StoredEntryView,
};
use crate::text::{
    key_less, key_lt, lemma_key_lt_asymmetric, lemma_key_lt_irreflexive, lemma_key_lt_total,
    lemma_key_lt_transitive, same_text,
};

verus! {

/// A named group of stored commands.
#[derive(Debug, PartialEq, Eq)]
pub struct CommandGroup {
    pub name: String,
    pub entries: Vec<StoredCommandEntry>,
}

impl View for CommandGroup {
    type V = (Seq<char>, Seq<StoredEntryView>);

    open spec fn view(&self) -> (Seq<char>, Seq<StoredEntryView>) {
        (self.name@, stored_views(self.entries@))
    }
}

/// The models of a sequence of groups.
pub open spec fn group_views(v: Seq<CommandGroup>) -> Seq<(Seq<char>, Seq<StoredEntryView>)> {
    v.map_values(|g: CommandGroup| g@)
}

/// The command palette: commands outside any group, and named groups of
/// commands kept in increasing order of their names.
#[derive(Debug, PartialEq, Eq)]
pub struct Config {
    ungrouped: Vec<StoredCommandEntry>,
    groups: Vec<CommandGroup>,
}

/// Mathematical model of [`Config`].
pub struct ConfigView {
    pub ungrouped: Seq<StoredEntryView>,
    pub groups: Seq<(Seq<char>, Seq<StoredEntryView>)>,
}

impl View for Config {
    type V = ConfigView;

    closed spec fn view(&self) -> ConfigView {
        ConfigView { ungrouped: stored_views(self.ungrouped@), groups: group_views(self.groups@) }
    }
}

/// The groups are sorted by name, each name occurring once.
pub open spec fn sorted_keys(gs: Seq<(Seq<char>, Seq<StoredEntryView>)>) -> bool {
    forall|i: int, j: int| 0 <= i < j < gs.len() ==> key_lt(#[trigger] gs[i].0, #[trigger] gs[j].0)
}

/// Whether some group is called `key`.
pub open spec fn has_key(gs: Seq<(Seq<char>, Seq<StoredEntryView>)>, key: Seq<char>) -> bool {
    exists|i: int| 0 <= i < gs.len() && #[trigger] gs[i].0 == key
}

/// The index of the first group called `key` (meaningful when [`has_key`]).
pub open spec fn key_position(gs: Seq<(Seq<char>, Seq<StoredEntryView>)>, key: Seq<char>) -> int {
    choose|i: int|
        0 <= i < gs.len() && gs[i].0 == key && forall|j: int| 0 <= j < i ==> #[trigger] gs[j].0 != key
}

/// Whether some entry is called `name`.
pub open spec fn has_name(es: Seq<StoredEntryView>, name: Seq<char>) -> bool {
    exists|k: int| 0 <= k < es.len() && #[trigger] es[k].name == name
}

/// The index of the first entry called `name` (meaningful when [`has_name`]).
pub open spec fn name_position(es: Seq<StoredEntryView>, name: Seq<char>) -> int {
    choose|k: int|
        0 <= k < es.len() && es[k].name == name && forall|j: int| 0 <= j < k ==> #[trigger] es[j].name
            != name
}

/// Groups before `p` sort before `key`, those from `p` on sort after it.
pub open spec fn is_insertion_point(
    gs: Seq<(Seq<char>, Seq<StoredEntryView>)>,
    key: Seq<char>,
    p: int,
) -> bool {
    &&& 0 <= p <= gs.len()
    &&& forall|i: int| 0 <= i < p ==> key_lt(#[trigger] gs[i].0, key)
    &&& forall|i: int| p <= i < gs.len() ==> key_lt(key, #[trigger] gs[i].0)
}

/// The index at which a group called `key`, absent from sorted groups, belongs.
pub open spec fn insertion_position(gs: Seq<(Seq<char>, Seq<StoredEntryView>)>, key: Seq<char>) -> int {
    choose|p: int| is_insertion_point(gs, key, p)
}

/// The first group called `key`, when there is one, is where [`key_position`] says.
pub proof fn lemma_key_position(gs: Seq<(Seq<char>, Seq<StoredEntryView>)>, key: Seq<char>)
    requires
        has_key(gs, key),
    ensures
        0 <= key_position(gs, key) < gs.len(),
        gs[key_position(gs, key)].0 == key,
        forall|j: int| 0 <= j < key_position(gs, key) ==> #[trigger] gs[j].0 != key,
    decreases gs.len(),
{
    if gs.last().0 == key && !has_key(gs.drop_last(), key) {
        let p: int = (gs.len() - 1) as int;
        assert forall|j: int| 0 <= j < p implies #[trigger] gs[j].0 != key by {
            if gs[j].0 == key {
                assert(gs.drop_last()[j].0 == key);
            }
        }
    } else {
        if !has_key(gs.drop_last(), key) {
            let i: int = choose|i: int| 0 <= i < gs.len() && #[trigger] gs[i].0 == key;
            if i < gs.len() - 1 {
                assert(gs.drop_last()[i].0 == key);
            }
        }
        lemma_key_position(gs.drop_last(), key);
        let p: int = key_position(gs.drop_last(), key);
        assert(gs[p].0 == key);
        assert forall|j: int| 0 <= j < p implies #[trigger] gs[j].0 != key by {
            assert(gs.drop_last()[j] == gs[j]);
        }
    }
}

/// The first entry called `name`, when there is one, is where [`name_position`] says.
pub proof fn lemma_name_position(es: Seq<StoredEntryView>, name: Seq<char>)
    requires
        has_name(es, name),
    ensures
        0 <= name_position(es, name) < es.len(),
        es[name_position(es, name)].name == name,
        forall|j: int| 0 <= j < name_position(es, name) ==> #[trigger] es[j].name != name,
    decreases es.len(),
{
    if es.last().name == name && !has_name(es.drop_last(), name) {
        let p: int = (es.len() - 1) as int;
        assert forall|j: int| 0 <= j < p implies #[trigger] es[j].name != name by {
            if es[j].name == name {
                assert(es.drop_last()[j].name == name);
            }
        }
    } else {
        if !has_name(es.drop_last(), name) {
            let i: int = choose|i: int| 0 <= i < es.len() && #[trigger] es[i].name == name;
            if i < es.len() - 1 {
                assert(es.drop_last()[i].name == name);
            }
        }
        lemma_name_position(es.drop_last(), name);
        let p: int = name_position(es.drop_last(), name);
        assert(es[p].name == name);
        assert forall|j: int| 0 <= j < p implies #[trigger] es[j].name != name by {
            assert(es.drop_last()[j] == es[j]);
        }
    }
}

/// The optional text held by an optional string slice.
pub open spec fn opt_str(o: Option<&str>) -> Option<Seq<char>> {
    match o {
        Some(s) => Some(s@),
        None => None,
    }
}

impl ConfigView {
    /// The configuration with no command.
    pub open spec fn empty() -> ConfigView {
        ConfigView { ungrouped: Seq::empty(), groups: Seq::empty() }
    }

    /// Well-formedness: group names sorted and unique.
    pub open spec fn wf(self) -> bool {
        sorted_keys(self.groups)
    }

    /// The entries of a section: the ungrouped ones (`None`) or those of a group.
    pub open spec fn section(self, group: Option<Seq<char>>) -> Option<Seq<StoredEntryView>> {
        match group {
            None => Some(self.ungrouped),
            Some(g) => if has_key(self.groups, g) {
                Some(self.groups[key_position(self.groups, g)].1)
            } else {
                None
            },
        }
    }

    /// Whether a command called `name` is stored in the given section.
    pub open spec fn command_exists(self, name: Seq<char>, group: Option<Seq<char>>) -> bool {
        match self.section(group) {
            Some(es) => has_name(es, name),
            None => false,
        }
    }

    /// The configuration with group `key` set to `es` (replaced when present,
    /// otherwise inserted in name order).
    pub open spec fn with_group(self, key: Seq<char>, es: Seq<StoredEntryView>) -> ConfigView {
        if has_key(self.groups, key) {
            ConfigView {
                groups: self.groups.update(key_position(self.groups, key), (key, es)),
                ..self
            }
        } else {
            ConfigView {
                groups: self.groups.insert(insertion_position(self.groups, key), (key, es)),
                ..self
            }
        }
    }

    /// The configuration without the first command called `name` of the
    /// section `group`; a group left empty is dropped. `None` when the
    /// section holds no such command.
    pub open spec fn without_command(self, name: Seq<char>, group: Option<Seq<char>>) -> Option<
        ConfigView,
    > {
        match group {
            None => if has_name(self.ungrouped, name) {
                Some(
                    ConfigView {
                        ungrouped: self.ungrouped.remove(name_position(self.ungrouped, name)),
                        ..self
                    },
                )
            } else {
                None
            },
            Some(g) => if has_key(self.groups, g) {
                let p: int = key_position(self.groups, g);
                let es = self.groups[p].1;
                if has_name(es, name) {
                    let rest = es.remove(name_position(es, name));
                    if rest.len() == 0 {
                        Some(ConfigView { groups: self.groups.remove(p), ..self })
                    } else {
                        Some(ConfigView { groups: self.groups.update(p, (g, rest)), ..self })
                    }
                } else {
                    None
                }
            } else {
                None
            },
        }
    }

    /// The configuration with `entry` appended to a section, the group being
    /// created when missing.
    pub open spec fn with_entry(self, group: Option<Seq<char>>, entry: StoredEntryView) -> ConfigView {
        match group {
            None => ConfigView { ungrouped: self.ungrouped.push(entry), ..self },
            Some(g) => {
                let es = match self.section(group) {
                    Some(es) => es,
                    None => Seq::empty(),
                };
                self.with_group(g, es.push(entry))
            },
        }
    }
}

/// The commands of one group.
pub open spec fn group_commands(g: (Seq<char>, Seq<StoredEntryView>)) -> Seq<CommandView> {
    g.1.map_values(|e: StoredEntryView| e.in_group(Some(g.0)))
}

/// The commands of a sequence of groups, group after group.
pub open spec fn grouped_commands(gs: Seq<(Seq<char>, Seq<StoredEntryView>)>) -> Seq<CommandView>
    decreases gs.len(),
{
    if gs.len() == 0 {
        Seq::empty()
    } else {
        grouped_commands(gs.drop_last()) + group_commands(gs.last())
    }
}

/// Every command of a configuration: the ungrouped ones first, then the
/// groups in their order.
pub open spec fn all_commands(c: ConfigView) -> Seq<CommandView> {
    c.ungrouped.map_values(|e: StoredEntryView| e.in_group(None)) + grouped_commands(c.groups)
}

/// Whether a command is enabled and belongs to the requested group (any
/// group when `None`).
pub open spec fn selected_by(group: Option<Seq<char>>) -> spec_fn(CommandView) -> bool {
    |c: CommandView|
        c.enabled && match group {
            Some(g) => c.group == Some(g),
            None => true,
        }
}

/// The index of the first group called `key` in `groups`.
fn find_group(groups: &Vec<CommandGroup>, key: &str) -> (r: Option<usize>)
    ensures
        match r {
            Some(i) => i < groups@.len() && has_key(group_views(groups@), key@) && i == key_position(
                group_views(groups@),
                key@,
            ),
            None => !has_key(group_views(groups@), key@),
        },
{
    let ghost gs = group_views(groups@);
    for i in 0..groups.len()
        invariant
            gs == group_views(groups@),
            forall|j: int| 0 <= j < i ==> #[trigger] gs[j].0 != key@,
    {
        if same_text(groups[i].name.as_str(), key) {
            assert(gs[i as int].0 == key@);
            let ghost p: int = key_position(gs, key@);
            assert(0 <= p < gs.len() && gs[p].0 == key@ && forall|j: int|
                0 <= j < p ==> #[trigger] gs[j].0 != key@);
            assert(p == i);
            return Some(i);
        }
    }
    None
}

/// The index of the first entry called `name` in `entries`.
fn find_name(entries: &Vec<StoredCommandEntry>, name: &str) -> (r: Option<usize>)
    ensures
        match r {
            Some(k) => k < entries@.len() && has_name(stored_views(entries@), name@) && k == name_position(
                stored_views(entries@),
                name@,
            ),
            None => !has_name(stored_views(entries@), name@),
        },
{
    let ghost es = stored_views(entries@);
    for k in 0..entries.len()
        invariant
            es == stored_views(entries@),
            forall|j: int| 0 <= j < k ==> #[trigger] es[j].name != name@,
    {
        if same_text(entries[k].name.as_str(), name) {
            assert(es[k as int].name == name@);
            let ghost p: int = name_position(es, name@);
            assert(0 <= p < es.len() && es[p].name == name@ && forall|j: int|
                0 <= j < p ==> #[trigger] es[j].name != name@);
            assert(p == k);
            return Some(k);
        }
    }
    None
}


impl Config {
    /// The groups are sorted by name, each name occurring once.
    #[verifier::type_invariant]
    spec fn groups_sorted(self) -> bool {
        sorted_keys(group_views(self.groups@))
    }

    /// A configuration with the given ungrouped commands and no group.
    pub fn new(ungrouped: Vec<StoredCommandEntry>) -> (c: Config)
        ensures
            c@.ungrouped == stored_views(ungrouped@),
            c@.groups == Seq::<(Seq<char>, Seq<StoredEntryView>)>::empty(),
            c@.wf(),
    {
        let groups: Vec<CommandGroup> = Vec::new();
        assert(group_views(groups@) =~= Seq::<(Seq<char>, Seq<StoredEntryView>)>::empty());
        Config { ungrouped, groups }
    }

    /// A copy of this configuration.
    pub fn duplicate(&self) -> (c: Config)
        ensures
            c@ == self@,
    {
        proof {
            use_type_invariant(self);
        }
        let mut ungrouped: Vec<StoredCommandEntry> = Vec::new();
        for k in 0..self.ungrouped.len()
            invariant
                ungrouped@.len() == k,
                forall|j: int| 0 <= j < k ==> (#[trigger] ungrouped@[j])@ == self.ungrouped@[j]@,
        {
            ungrouped.push(self.ungrouped[k].duplicate());
        }
        let mut groups: Vec<CommandGroup> = Vec::new();
        for i in 0..self.groups.len()
            invariant
                groups@.len() == i,
                forall|j: int| 0 <= j < i ==> (#[trigger] groups@[j])@ == self.groups@[j]@,
        {
            let g = &self.groups[i];
            let mut entries: Vec<StoredCommandEntry> = Vec::new();
            for k in 0..g.entries.len()
                invariant
                    entries@.len() == k,
                    forall|j: int| 0 <= j < k ==> (#[trigger] entries@[j])@ == g.entries@[j]@,
            {
                entries.push(g.entries[k].duplicate());
            }
            assert(stored_views(entries@) =~= stored_views(g.entries@));
            groups.push(CommandGroup { name: g.name.clone(), entries });
        }
        assert(stored_views(ungrouped@) =~= self@.ungrouped);
        assert(group_views(groups@) =~= self@.groups);
        Config { ungrouped, groups }
    }

    /// The commands outside any group.
    pub fn ungrouped(&self) -> (r: &Vec<StoredCommandEntry>)
        ensures
            stored_views(r@) == self@.ungrouped,
    {
        &self.ungrouped
    }

    /// The groups, in increasing order of their names.
    pub fn groups(&self) -> (r: &Vec<CommandGroup>)
        ensures
            group_views(r@) == self@.groups,
            self@.wf(),
    {
        proof {
            use_type_invariant(self);
        }
        &self.groups
    }
}

/// A command of the configuration, tagged with its group.
fn tagged(e: &StoredCommandEntry, group: &Option<String>) -> (c: CommandEntry)
    ensures
        c@ == e@.in_group(opt_text(*group)),
{
    CommandEntry {
        name: e.name.clone(),
        execution: e.execution.duplicate(),
        group: copy_opt_text(group),
        description: copy_opt_text(&e.description),
        confirm: e.confirm,
        enabled: e.enabled,
    }
}

/// Every command of the configuration, each with its group: the ungrouped
/// commands first, then each group in increasing order of its name.
pub fn flatten_commands(config: Config) -> (commands: Vec<CommandEntry>)
    ensures
        command_views(commands@) == all_commands(config@),
{
    let ghost c = config@;
    let mut commands: Vec<CommandEntry> = Vec::new();
    let ghost head = c.ungrouped.map_values(|e: StoredEntryView| e.in_group(None));
    let none: Option<String> = None;
    for k in 0..config.ungrouped.len()
        invariant
            c == config@,
            head == c.ungrouped.map_values(|e: StoredEntryView| e.in_group(None)),
            opt_text(none) == None::<Seq<char>>,
            command_views(commands@) == head.take(k as int),
    {
        let cmd = tagged(&config.ungrouped[k], &none);
        let ghost prev = commands@;
        commands.push(cmd);
        proof {
            lemma_command_views_push(prev, cmd);
        }
        assert(command_views(commands@) =~= head.take(k + 1));
    }
    assert(head.take(config.ungrouped.len() as int) =~= head);
    assert(c.groups.take(0) =~= Seq::<(Seq<char>, Seq<StoredEntryView>)>::empty());
    assert(head =~= head + grouped_commands(c.groups.take(0)));
    for i in 0..config.groups.len()
        invariant
            c == config@,
            head == c.ungrouped.map_values(|e: StoredEntryView| e.in_group(None)),
            command_views(commands@) == head + grouped_commands(c.groups.take(i as int)),
    {
        let group = &config.groups[i];
        let tag: Option<String> = Some(group.name.clone());
        let ghost g = c.groups[i as int];
        let ghost before = command_views(commands@);
        assert(g == group@);
        for k in 0..group.entries.len()
            invariant
                g == group@,
                opt_text(tag) == Some(g.0),
                command_views(commands@) == before + group_commands(g).take(k as int),
        {
            let cmd = tagged(&group.entries[k], &tag);
            let ghost prev = commands@;
            commands.push(cmd);
            proof {
                lemma_command_views_push(prev, cmd);
            }
            assert(command_views(commands@) =~= before + group_commands(g).take(k + 1));
        }
        assert(group_commands(g).take(group.entries.len() as int) =~= group_commands(g));
        assert(c.groups.take(i + 1).drop_last() =~= c.groups.take(i as int));
        assert(command_views(commands@) =~= head + grouped_commands(c.groups.take(i + 1)));
    }
    assert(c.groups.take(config.groups.len() as int) =~= c.groups);
    commands
}


/// Whether `command` is in the group `group`.
fn in_group(command: &CommandEntry, group: &str) -> (b: bool)
    ensures
        b == (command@.group == Some(group@)),
{
    match &command.group {
        Some(g) => same_text(g.as_str(), group),
        None => false,
    }
}

/// The enabled commands of the configuration, restricted to one group when
/// `group` names one, in the order of [`flatten_commands`].
pub fn enabled_commands(config: Config, group: Option<&str>) -> (commands: Vec<CommandEntry>)
    ensures
        command_views(commands@) == all_commands(config@).filter(selected_by(opt_str(group))),
        forall|i: int|
            0 <= i < commands@.len() ==> (#[trigger] commands@[i]).enabled && match group {
                Some(g) => opt_text(commands@[i].group) == Some(g@),
                None => true,
            },
{
    let ghost c = config@;
    let ghost pred = selected_by(opt_str(group));
    let all = flatten_commands(config);
    let ghost s = command_views(all@);
    let mut commands: Vec<CommandEntry> = Vec::new();
    for i in 0..all.len()
        invariant
            s == command_views(all@),
            pred == selected_by(opt_str(group)),
            command_views(commands@) == s.take(i as int).filter(pred),
    {
        let cmd = &all[i];
        let keep = cmd.enabled && match group {
            Some(g) => in_group(cmd, g),
            None => true,
        };
        assert(s[i as int] == cmd@);
        assert(keep == pred(s[i as int]));
        proof {
            reveal(Seq::filter);
            assert(s.take(i + 1).drop_last() =~= s.take(i as int));
            assert(s.take(i + 1).last() == s[i as int]);
        }
        if keep {
            let copy = cmd.duplicate();
            let ghost prev = commands@;
            commands.push(copy);
            proof {
                lemma_command_views_push(prev, copy);
            }
        }
    }
    assert(s.take(all.len() as int) =~= s);
    proof {
        crate::laws::law_group_selection_is_exact(c, opt_str(group));
        assert forall|i: int| 0 <= i < commands@.len() implies (#[trigger] commands@[i]).enabled
            && match group {
            Some(g) => opt_text(commands@[i].group) == Some(g@),
            None => true,
        } by {
            assert(command_views(commands@)[i] == commands@[i]@);
        }
    }
    commands
}

/// Whether a command called `name` is stored in the section `group`
/// (the ungrouped commands when `None`).
pub fn command_exists_in_group(config: &Config, name: &str, group: Option<&str>) -> (b: bool)
    ensures
        b == config@.command_exists(name@, opt_str(group)),
{
    match group {
        Some(g) => match find_group(&config.groups, g) {
            Some(i) => {
                let found = find_name(&config.groups[i].entries, name);
                assert(config@.groups[i as int] == config.groups@[i as int]@);
                found.is_some()
            },
            None => false,
        },
        None => find_name(&config.ungrouped, name).is_some(),
    }
}


/// There is one place where an absent group belongs.
pub proof fn lemma_insertion_point_unique(
    gs: Seq<(Seq<char>, Seq<StoredEntryView>)>,
    key: Seq<char>,
    p: int,
    q: int,
)
    requires
        is_insertion_point(gs, key, p),
        is_insertion_point(gs, key, q),
    ensures
        p == q,
{
    if p < q {
        lemma_key_lt_asymmetric(gs[p].0, key);
    } else if q < p {
        lemma_key_lt_asymmetric(gs[q].0, key);
    }
}

/// Inserting a group where it belongs keeps the groups sorted.
pub proof fn lemma_sorted_insert(
    gs: Seq<(Seq<char>, Seq<StoredEntryView>)>,
    key: Seq<char>,
    p: int,
    es: Seq<StoredEntryView>,
)
    requires
        sorted_keys(gs),
        is_insertion_point(gs, key, p),
    ensures
        sorted_keys(gs.insert(p, (key, es))),
{
    let hs = gs.insert(p, (key, es));
    assert forall|i: int, j: int| 0 <= i < j < hs.len() implies key_lt(
        #[trigger] hs[i].0,
        #[trigger] hs[j].0,
    ) by {
        if i < p && j > p {
            lemma_key_lt_transitive(gs[i].0, key, gs[j - 1].0);
        } else if i < p && j < p {
        } else if i > p {
            assert(key_lt(gs[i - 1].0, gs[j - 1].0));
        }
    }
}

/// Replacing the entries of a group keeps the groups sorted.
pub proof fn lemma_sorted_update(
    gs: Seq<(Seq<char>, Seq<StoredEntryView>)>,
    i: int,
    es: Seq<StoredEntryView>,
)
    requires
        sorted_keys(gs),
        0 <= i < gs.len(),
    ensures
        sorted_keys(gs.update(i, (gs[i].0, es))),
{
    let hs = gs.update(i, (gs[i].0, es));
    assert forall|a: int, b: int| 0 <= a < b < hs.len() implies key_lt(
        #[trigger] hs[a].0,
        #[trigger] hs[b].0,
    ) by {
        assert(hs[a].0 == gs[a].0);
        assert(hs[b].0 == gs[b].0);
    }
}

/// Sorted groups have a place for any absent name.
pub proof fn lemma_insertion_exists(gs: Seq<(Seq<char>, Seq<StoredEntryView>)>, key: Seq<char>)
    requires
        sorted_keys(gs),
        !has_key(gs, key),
    ensures
        is_insertion_point(gs, key, insertion_position(gs, key)),
    decreases gs.len(),
{
    if gs.len() == 0 {
        assert(is_insertion_point(gs, key, 0));
    } else {
        let n: int = gs.len() - 1;
        let last = gs[n].0;
        assert(last != key);
        lemma_key_lt_total(last, key);
        if key_lt(last, key) {
            assert forall|i: int| 0 <= i < gs.len() implies key_lt(#[trigger] gs[i].0, key) by {
                if i < n {
                    lemma_key_lt_transitive(gs[i].0, last, key);
                }
            }
            assert(is_insertion_point(gs, key, gs.len() as int));
        } else {
            let hs = gs.drop_last();
            assert(sorted_keys(hs));
            assert(!has_key(hs, key)) by {
                if has_key(hs, key) {
                    let i: int = choose|i: int| 0 <= i < hs.len() && #[trigger] hs[i].0 == key;
                    assert(gs[i].0 == key);
                }
            }
            lemma_insertion_exists(hs, key);
            let p: int = insertion_position(hs, key);
            assert(key_lt(key, last));
            assert forall|i: int| 0 <= i < p implies key_lt(#[trigger] gs[i].0, key) by {
                assert(hs[i].0 == gs[i].0);
            }
            assert forall|i: int| p <= i < gs.len() implies key_lt(key, #[trigger] gs[i].0) by {
                if i < n {
                    assert(hs[i].0 == gs[i].0);
                }
            }
            assert(is_insertion_point(gs, key, p));
        }
    }
}

/// Where the group `key` is (`Ok`), or where it belongs (`Err`).
fn locate(groups: &Vec<CommandGroup>, key: &str) -> (r: Result<usize, usize>)
    requires
        sorted_keys(group_views(groups@)),
    ensures
        match r {
            Ok(i) => i < groups@.len() && has_key(group_views(groups@), key@) && i == key_position(
                group_views(groups@),
                key@,
            ),
            Err(p) => !has_key(group_views(groups@), key@) && p == insertion_position(
                group_views(groups@),
                key@,
            ) && is_insertion_point(group_views(groups@), key@, p as int),
        },
{
    let ghost gs = group_views(groups@);
    let mut i: usize = 0;
    while i < groups.len() && key_less(groups[i].name.as_str(), key)
        invariant
            gs == group_views(groups@),
            i <= groups@.len(),
            forall|k: int| 0 <= k < i ==> key_lt(#[trigger] gs[k].0, key@),
        decreases groups@.len() - i,
    {
        assert(gs[i as int].0 == groups@[i as int].name@);
        i = i + 1;
    }
    if i < groups.len() {
        assert(gs[i as int].0 == groups@[i as int].name@);
    }
    assert forall|k: int| 0 <= k < i implies #[trigger] gs[k].0 != key@ by {
        lemma_key_lt_irreflexive(key@);
    }
    if i < groups.len() && same_text(groups[i].name.as_str(), key) {
        let ghost p: int = key_position(gs, key@);
        assert(0 <= p < gs.len() && gs[p].0 == key@ && forall|j: int|
            0 <= j < p ==> #[trigger] gs[j].0 != key@);
        assert(p == i);
        Ok(i)
    } else {
        proof {
            if i < groups.len() {
                lemma_key_lt_total(gs[i as int].0, key@);
            }
        }
        assert forall|k: int| i <= k < gs.len() implies key_lt(key@, #[trigger] gs[k].0) by {
            if k > i {
                lemma_key_lt_transitive(key@, gs[i as int].0, gs[k].0);
            }
        }
        assert forall|k: int| 0 <= k < gs.len() implies #[trigger] gs[k].0 != key@ by {
            lemma_key_lt_irreflexive(key@);
        }
        assert(is_insertion_point(gs, key@, i as int));
        proof {
            lemma_insertion_point_unique(gs, key@, i as int, insertion_position(gs, key@));
        }
        Err(i)
    }
}

proof fn lemma_group_views_insert(s: Seq<CommandGroup>, i: int, g: CommandGroup)
    requires
        0 <= i <= s.len(),
    ensures
        group_views(s.insert(i, g)) == group_views(s).insert(i, g@),
{
    assert(group_views(s.insert(i, g)) =~= group_views(s).insert(i, g@));
}

proof fn lemma_group_views_remove(s: Seq<CommandGroup>, i: int)
    requires
        0 <= i < s.len(),
    ensures
        group_views(s.remove(i)) == group_views(s).remove(i),
{
    assert(group_views(s.remove(i)) =~= group_views(s).remove(i));
}

impl Config {
    /// Sets the group called `name` to `entries`: replaced when the group is
    /// present, otherwise inserted in name order.
    pub fn insert_group(&mut self, name: String, entries: Vec<StoredCommandEntry>)
        ensures
            final(self)@ == old(self)@.with_group(name@, stored_views(entries@)),
            final(self)@.wf(),
    {
        proof {
            use_type_invariant(&*self);
        }
        let ghost old_groups = self.groups@;
        let ghost gs = group_views(old_groups);
        let ghost es = stored_views(entries@);
        let ghost key = name@;
        let g = CommandGroup { name, entries };
        assert(g@ == (key, es));
        let mut groups: Vec<CommandGroup> = Vec::new();
        std::mem::swap(&mut groups, &mut self.groups);
        match locate(&groups, g.name.as_str()) {
            Ok(i) => {
                let _ = groups.remove(i);
                groups.insert(i, g);
                proof {
                    lemma_key_position(gs, key);
                    lemma_group_views_remove(old_groups, i as int);
                    lemma_group_views_insert(old_groups.remove(i as int), i as int, g);
                    assert(gs.remove(i as int).insert(i as int, (key, es)) =~= gs.update(
                        i as int,
                        (key, es),
                    ));
                    lemma_sorted_update(gs, i as int, es);
                }
            },
            Err(p) => {
                groups.insert(p, g);
                proof {
                    lemma_group_views_insert(old_groups, p as int, g);
                    lemma_sorted_insert(gs, key, p as int, es);
                }
            },
        }
        self.groups = groups;
    }
}


/// Why a command could not be added.
#[derive(Debug, PartialEq, Eq)]
pub enum AddError {
    /// A command of that name is already in the section (`group` is `None`
    /// for the ungrouped section).
    AlreadyExists { name: String, group: Option<String> },
}

/// The optional string slice of an optional string.
fn as_opt_str(o: &Option<String>) -> (r: Option<&str>)
    ensures
        opt_str(r) == opt_text(*o),
{
    match o {
        Some(s) => Some(s.as_str()),
        None => None,
    }
}

/// Adds `entry` to the section `group` (the ungrouped commands when `None`),
/// creating the group when it is missing; refused when the section already
/// holds a command of the same name.
pub fn add_command(config: &mut Config, group: Option<String>, entry: StoredCommandEntry) -> (r:
    Result<(), AddError>)
    ensures
        final(config)@.wf(),
        r is Err <==> old(config)@.command_exists(entry@.name, opt_text(group)),
        match r {
            Ok(()) => final(config)@ == old(config)@.with_entry(opt_text(group), entry@),
            Err(AddError::AlreadyExists { name, group: g }) => {
                &&& final(config)@ == old(config)@
                &&& name@ == entry@.name
                &&& opt_text(g) == opt_text(group)
            },
        },
{
    proof {
        use_type_invariant(&*config);
    }
    let ghost c = config@;
    let exists = command_exists_in_group(config, entry.name.as_str(), as_opt_str(&group));
    if exists {
        return Err(AddError::AlreadyExists { name: entry.name, group });
    }
    let ghost e = entry@;
    match group {
        None => {
            let ghost prev = config.ungrouped@;
            let mut ungrouped: Vec<StoredCommandEntry> = Vec::new();
            std::mem::swap(&mut ungrouped, &mut config.ungrouped);
            ungrouped.push(entry);
            config.ungrouped = ungrouped;
            proof {
                lemma_stored_views_push(prev, entry);
            }
            assert(config@ == c.with_entry(None, e));
            Ok(())
        },
        Some(g) => {
            let ghost key = g@;
            let ghost old_groups = config.groups@;
            let ghost gs = group_views(old_groups);
            let mut groups: Vec<CommandGroup> = Vec::new();
            std::mem::swap(&mut groups, &mut config.groups);
            match locate(&groups, g.as_str()) {
                Ok(i) => {
                    proof {
                        lemma_key_position(gs, key);
                    }
                    let mut grp = groups.remove(i);
                    let ghost es = stored_views(grp.entries@);
                    assert(es == gs[i as int].1);
                    let ghost prev = grp.entries@;
                    grp.entries.push(entry);
                    proof {
                        lemma_stored_views_push(prev, entry);
                    }
                    assert(grp@ == (key, es.push(e)));
                    groups.insert(i, grp);
                    proof {
                        lemma_group_views_remove(old_groups, i as int);
                        lemma_group_views_insert(old_groups.remove(i as int), i as int, grp);
                        assert(gs.remove(i as int).insert(i as int, (key, es.push(e))) =~= gs.update(
                            i as int,
                            (key, es.push(e)),
                        ));
                        lemma_sorted_update(gs, i as int, es.push(e));
                    }
                    config.groups = groups;
                    assert(config@ == c.with_entry(Some(key), e));
                    Ok(())
                },
                Err(p) => {
                    let mut entries: Vec<StoredCommandEntry> = Vec::new();
                    entries.push(entry);
                    assert(stored_views(entries@) =~= Seq::<StoredEntryView>::empty().push(e));
                    let grp = CommandGroup { name: g, entries };
                    groups.insert(p, grp);
                    proof {
                        lemma_group_views_insert(old_groups, p as int, grp);
                        lemma_sorted_insert(gs, key, p as int, Seq::<StoredEntryView>::empty().push(e));
                    }
                    config.groups = groups;
                    assert(config@ == c.with_entry(Some(key), e));
                    Ok(())
                },
            }
        },
    }
}


/// Why a command could not be removed.
#[derive(Debug, PartialEq, Eq)]
pub enum RemoveError {
    /// No group has that name.
    GroupNotFound { group: String },
    /// The section holds no command of that name.
    CommandNotFound { name: String },
}

/// `e` says why no command called `name` can be removed from the section
/// `group` of `c`: the group is missing, or the section has no such command.
pub open spec fn explains_refusal(
    c: ConfigView,
    name: Seq<char>,
    group: Option<Seq<char>>,
    e: RemoveError,
) -> bool {
    match e {
        RemoveError::GroupNotFound { group: g } => group == Some(g@) && c.section(group) is None,
        RemoveError::CommandNotFound { name: n } => n@ == name && c.section(group) is Some,
    }
}

proof fn lemma_sorted_remove(gs: Seq<(Seq<char>, Seq<StoredEntryView>)>, p: int)
    requires
        sorted_keys(gs),
        0 <= p < gs.len(),
    ensures
        sorted_keys(gs.remove(p)),
{
    let hs = gs.remove(p);
    assert forall|i: int, j: int| 0 <= i < j < hs.len() implies key_lt(
        #[trigger] hs[i].0,
        #[trigger] hs[j].0,
    ) by {
        let a: int = if i < p { i } else { i + 1 };
        let b: int = if j < p { j } else { j + 1 };
        assert(hs[i] == gs[a] && hs[j] == gs[b]);
    }
}

proof fn lemma_stored_views_remove(s: Seq<StoredCommandEntry>, i: int)
    requires
        0 <= i < s.len(),
    ensures
        stored_views(s.remove(i)) == stored_views(s).remove(i),
{
    assert(stored_views(s.remove(i)) =~= stored_views(s).remove(i));
}

/// Removes the first command called `name` from the section `group` (the
/// ungrouped commands when `None`); a group left empty is removed with it.
#[verifier::rlimit(40)]
pub fn remove_stored_command(config: &mut Config, name: &str, group: Option<&str>) -> (r: Result<
    (),
    RemoveError,
>)
    ensures
        r is Ok <==> old(config)@.command_exists(name@, opt_str(group)),
        final(config)@.wf(),
        match r {
            Ok(()) => old(config)@.without_command(name@, opt_str(group)) == Some(final(config)@),
            Err(e) => final(config)@ == old(config)@ && explains_refusal(
                old(config)@,
                name@,
                opt_str(group),
                e,
            ),
        },
{
    proof {
        use_type_invariant(&*config);
    }
    let ghost c = config@;
    match group {
        Some(g) => {
            let ghost old_groups = config.groups@;
            let ghost gs = group_views(old_groups);
            let i: usize = match find_group(&config.groups, g) {
                Some(i) => i,
                None => {
                    return Err(RemoveError::GroupNotFound { group: g.to_owned() });
                },
            };
            proof {
                lemma_key_position(gs, g@);
            }
            let ghost es = gs[i as int].1;
            assert(es == stored_views(config.groups@[i as int].entries@));
            let k: usize = match find_name(&config.groups[i].entries, name) {
                Some(k) => k,
                None => {
                    return Err(RemoveError::CommandNotFound { name: name.to_owned() });
                },
            };
            let mut groups: Vec<CommandGroup> = Vec::new();
            std::mem::swap(&mut groups, &mut config.groups);
            let mut grp = groups.remove(i);
            let ghost prev = grp.entries@;
            let _ = grp.entries.remove(k);
            proof {
                lemma_stored_views_remove(prev, k as int);
                lemma_group_views_remove(old_groups, i as int);
                lemma_sorted_remove(gs, i as int);
            }
            let ghost rest = es.remove(k as int);
            assert(stored_views(grp.entries@) == rest);
            if grp.entries.is_empty() {
                config.groups = groups;
                assert(config@ == (ConfigView { groups: gs.remove(i as int), ..c }));
            } else {
                groups.insert(i, grp);
                proof {
                    lemma_group_views_insert(old_groups.remove(i as int), i as int, grp);
                    assert(gs.remove(i as int).insert(i as int, (g@, rest)) =~= gs.update(
                        i as int,
                        (g@, rest),
                    ));
                    lemma_sorted_update(gs, i as int, rest);
                }
                config.groups = groups;
                assert(config@ == (ConfigView { groups: gs.update(i as int, (g@, rest)), ..c }));
            }
            Ok(())
        },
        None => {
            let k: usize = match find_name(&config.ungrouped, name) {
                Some(k) => k,
                None => {
                    return Err(RemoveError::CommandNotFound { name: name.to_owned() });
                },
            };
            let ghost prev = config.ungrouped@;
            let mut ungrouped: Vec<StoredCommandEntry> = Vec::new();
            std::mem::swap(&mut ungrouped, &mut config.ungrouped);
            let _ = ungrouped.remove(k);
            config.ungrouped = ungrouped;
            proof {
                lemma_stored_views_remove(prev, k as int);
            }
            Ok(())
        },
    }
}


/// The model of a stored command that is enabled and asks no confirmation.
pub open spec fn plain_entry(
    name: Seq<char>,
    execution: ExecutionView,
    description: Seq<char>,
    confirm: bool,
) -> StoredEntryView {
    StoredEntryView { name, execution, description: Some(description), confirm, enabled: true }
}

/// The configuration written when none exists yet.
pub open spec fn starter_view() -> ConfigView {
    ConfigView {
        ungrouped: seq![
            plain_entry(
                "Open Logs"@,
                ExecutionView::Shell { shell: "tail -f /tmp/app.log"@ },
                "Tail the shared log file"@,
                false,
            ),
        ],
        groups: seq![
            (
                "ops"@,
                seq![
                    plain_entry(
                        "Deploy"@,
                        ExecutionView::Shell { shell: "./deploy.sh\n./notify.sh"@ },
                        "Run the deploy script"@,
                        true,
                    ),
                ],
            ),
            (
                "rust"@,
                seq![
                    plain_entry(
                        "Build"@,
                        ExecutionView::Program { executable: "cargo"@, args: seq!["build"@] },
                        "Compile the project"@,
                        false,
                    ),
                    plain_entry(
                        "Test"@,
                        ExecutionView::Program { executable: "cargo"@, args: seq!["test"@] },
                        "Run the test suite"@,
                        false,
                    ),
                ],
            ),
        ],
    }
}

/// A stored command with a description, enabled.
fn described(name: &str, execution: ExecutionConfig, description: &str, confirm: bool) -> (e:
    StoredCommandEntry)
    ensures
        e@ == plain_entry(name@, execution@, description@, confirm),
{
    StoredCommandEntry {
        name: name.to_owned(),
        execution,
        description: Some(description.to_owned()),
        confirm,
        enabled: true,
    }
}

/// `cargo` with one argument.
fn cargo(arg: &str) -> (x: ExecutionConfig)
    ensures
        x@ == (ExecutionView::Program { executable: "cargo"@, args: seq![arg@] }),
{
    let mut args: Vec<String> = Vec::new();
    args.push(arg.to_owned());
    let x = ExecutionConfig::Program { executable: "cargo".to_owned(), args };
    assert(texts(args@) =~= seq![arg@]);
    x
}

/// The configuration written when none exists yet.
pub fn starter_config() -> (c: Config)
    ensures
        c@ == starter_view(),
        c@.wf(),
{
    let mut ungrouped: Vec<StoredCommandEntry> = Vec::new();
    ungrouped.push(
        described(
            "Open Logs",
            ExecutionConfig::Shell { shell: "tail -f /tmp/app.log".to_owned() },
            "Tail the shared log file",
            false,
        ),
    );
    let mut config = Config::new(ungrouped);
    let mut rust: Vec<StoredCommandEntry> = Vec::new();
    rust.push(described("Build", cargo("build"), "Compile the project", false));
    rust.push(described("Test", cargo("test"), "Run the test suite", false));
    let ghost rust_view = stored_views(rust@);
    assert(rust_view =~= starter_view().groups[1].1);
    proof {
        assert(!has_key(config@.groups, "rust"@));
        assert(is_insertion_point(config@.groups, "rust"@, 0));
        lemma_insertion_point_unique(
            config@.groups,
            "rust"@,
            0,
            insertion_position(config@.groups, "rust"@),
        );
    }
    config.insert_group("rust".to_owned(), rust);
    let mut ops: Vec<StoredCommandEntry> = Vec::new();
    ops.push(
        described(
            "Deploy",
            ExecutionConfig::Shell { shell: "./deploy.sh\n./notify.sh".to_owned() },
            "Run the deploy script",
            true,
        ),
    );
    assert(stored_views(ops@) =~= starter_view().groups[0].1);
    proof {
        reveal_strlit("ops");
        reveal_strlit("rust");
        assert(config@.groups =~= seq![("rust"@, rust_view)]);
        assert("ops"@.len() == 3 && "rust"@.len() == 4);
        assert("ops"@ != "rust"@);
        assert("ops"@[0] == 'o' && "rust"@[0] == 'r');
        assert(!has_key(config@.groups, "ops"@));
        assert(key_lt("ops"@, "rust"@));
        assert(is_insertion_point(config@.groups, "ops"@, 0));
        lemma_insertion_point_unique(
            config@.groups,
            "ops"@,
            0,
            insertion_position(config@.groups, "ops"@),
        );
    }
    config.insert_group("ops".to_owned(), ops);
    assert(config@.ungrouped =~= starter_view().ungrouped);
    assert(config@.groups =~= starter_view().groups);
    config
}

/// The stored configuration when there is one, otherwise the empty one.
pub fn load_or_default_config(stored: Option<Config>) -> (c: Config)
    ensures
        match stored {
            Some(s) => c == s,
            None => c@ == ConfigView::empty() && c@.wf(),
        },
{
    match stored {
        Some(s) => s,
        None => {
            let c = Config::new(Vec::new());
            assert(c@.ungrouped =~= Seq::<StoredEntryView>::empty());
            c
        },
    }
}

} // verus!
