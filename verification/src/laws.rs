use vstd::prelude::*;

use crate::cli::{action_of, Action, CliArgs, CliCommand};
use crate::config::{
    all_commands, group_commands, grouped_commands, has_key, has_name, insertion_position,
    key_position, lemma_key_position, lemma_name_position, name_position, selected_by,
    sorted_keys, starter_view, ConfigView,
};
use crate::flow::{
    named_in, removal_transition, selector_transition, RemovalAction, RemovalEvent, RemovalState,
    SelectorAction, SelectorEvent, SelectorState,
};
use crate::model::CommandEntry;
use crate::model::{command_views, texts, CommandView, ExecutionView, StoredEntryView};
use crate::present::invocation_of;
use crate::permissions::shared_with_others;
use crate::text::lemma_key_lt_irreflexive;

verus! {

/// In sorted groups, the group at index `p` is the first one with its name.
proof fn lemma_sorted_position(gs: Seq<(Seq<char>, Seq<StoredEntryView>)>, p: int)
    requires
        sorted_keys(gs),
        0 <= p < gs.len(),
    ensures
        has_key(gs, gs[p].0),
        key_position(gs, gs[p].0) == p,
{
    let key = gs[p].0;
    assert(gs[p].0 == key);
    lemma_key_position(gs, key);
    let q: int = key_position(gs, key);
    if q < p {
        assert(crate::text::key_lt(gs[q].0, gs[p].0));
        lemma_key_lt_irreflexive(key);
    }
}

/// In a section holding no command called `e.name`, an appended `e` is the
/// first command of that name.
proof fn lemma_appended_position(es: Seq<StoredEntryView>, e: StoredEntryView)
    requires
        !has_name(es, e.name),
    ensures
        has_name(es.push(e), e.name),
        name_position(es.push(e), e.name) == es.len(),
{
    let fs = es.push(e);
    assert(fs[es.len() as int].name == e.name);
    lemma_name_position(fs, e.name);
    let k: int = name_position(fs, e.name);
    if k < es.len() {
        assert(es[k].name == e.name);
    }
}

/// Once a command is added to a section, the section holds a command of
/// that name.
pub proof fn law_added_command_exists(c: ConfigView, group: Option<Seq<char>>, e: StoredEntryView)
    requires
        c.wf(),
        !c.command_exists(e.name, group),
    ensures
        c.with_entry(group, e).command_exists(e.name, group),
{
    let d = c.with_entry(group, e);
    match group {
        None => {
            assert(d.ungrouped[c.ungrouped.len() as int].name == e.name);
        },
        Some(g) => {
            let es = match c.section(group) {
                Some(es) => es,
                None => Seq::empty(),
            };
            if has_key(c.groups, g) {
                lemma_key_position(c.groups, g);
                let p: int = key_position(c.groups, g);
                crate::config::lemma_sorted_update(c.groups, p, es.push(e));
                lemma_sorted_position(d.groups, p);
                assert(d.groups[p].1[es.len() as int].name == e.name);
            } else {
                let q: int = insertion_position(c.groups, g);
                crate::config::lemma_insertion_exists(c.groups, g);
                crate::config::lemma_sorted_insert(c.groups, g, q, es.push(e));
                lemma_sorted_position(d.groups, q);
                assert(d.groups[q].1[es.len() as int].name == e.name);
            }
        },
    }
}

/// Removing the command just added gives back the configuration, provided
/// the target group, when it is present, is not empty.
pub proof fn law_remove_undoes_add(c: ConfigView, group: Option<Seq<char>>, e: StoredEntryView)
    requires
        c.wf(),
        !c.command_exists(e.name, group),
        match c.section(group) {
            Some(es) => group is None || es.len() > 0,
            None => true,
        },
    ensures
        c.with_entry(group, e).without_command(e.name, group) == Some(c),
{
    let d = c.with_entry(group, e);
    match group {
        None => {
            lemma_appended_position(c.ungrouped, e);
            assert(d.ungrouped.remove(c.ungrouped.len() as int) =~= c.ungrouped);
        },
        Some(g) => {
            if has_key(c.groups, g) {
                lemma_key_position(c.groups, g);
                let p: int = key_position(c.groups, g);
                let es = c.groups[p].1;
                crate::config::lemma_sorted_update(c.groups, p, es.push(e));
                lemma_sorted_position(d.groups, p);
                lemma_appended_position(es, e);
                assert(es.push(e).remove(es.len() as int) =~= es);
                assert(d.groups.update(p, (g, es)) =~= c.groups);
            } else {
                let q: int = insertion_position(c.groups, g);
                let es = Seq::<StoredEntryView>::empty();
                crate::config::lemma_insertion_exists(c.groups, g);
                crate::config::lemma_sorted_insert(c.groups, g, q, es.push(e));
                lemma_sorted_position(d.groups, q);
                lemma_appended_position(es, e);
                assert(es.push(e).remove(0) =~= es);
                assert(d.groups.remove(q) =~= c.groups);
            }
        },
    }
}

/// A command can be removed from a section exactly when the section holds a
/// command of that name.
pub proof fn law_removable_iff_exists(c: ConfigView, name: Seq<char>, group: Option<Seq<char>>)
    ensures
        c.without_command(name, group) is Some <==> c.command_exists(name, group),
{
}

/// The mode given to a saved configuration file passes the permission check
/// made when it is loaded.
pub proof fn law_saved_mode_is_accepted()
    ensures
        !shared_with_others(0o600u32),
{
    assert((0o600u32 & 0o777u32) & 0o077u32 == 0) by (bit_vector);
}

/// Naming the group by position or with `--group` asks for the same thing.
pub proof fn law_group_by_position_or_flag(
    config: Option<Vec<u8>>,
    g: String,
)
    ensures
        action_of(CliArgs { config, group: Some(g), group_name: None, command: None })
            == action_of(CliArgs { config, group: None, group_name: Some(g), command: None }),
{
}


/// Some command of `s` is called `name` and belongs to `group`.
pub open spec fn lists(s: Seq<CommandView>, name: Seq<char>, group: Option<Seq<char>>) -> bool {
    exists|i: int| 0 <= i < s.len() && (#[trigger] s[i]).name == name && s[i].group == group
}

/// Some group called `key` holds a command called `name`.
pub open spec fn holds(
    gs: Seq<(Seq<char>, Seq<StoredEntryView>)>,
    name: Seq<char>,
    key: Seq<char>,
) -> bool {
    exists|j: int| 0 <= j < gs.len() && (#[trigger] gs[j]).0 == key && has_name(gs[j].1, name)
}

proof fn lemma_lists_concat(a: Seq<CommandView>, b: Seq<CommandView>, name: Seq<char>, group: Option<Seq<char>>)
    ensures
        lists(a + b, name, group) <==> lists(a, name, group) || lists(b, name, group),
{
    if lists(a + b, name, group) {
        let i: int = choose|i: int| 0 <= i < (a + b).len() && (#[trigger] (a + b)[i]).name == name && (a + b)[i].group == group;
        if i < a.len() {
            assert(a[i] == (a + b)[i]);
        } else {
            assert(b[i - a.len()] == (a + b)[i]);
        }
    }
    if lists(a, name, group) {
        let i: int = choose|i: int| 0 <= i < a.len() && (#[trigger] a[i]).name == name && a[i].group == group;
        assert((a + b)[i] == a[i]);
    }
    if lists(b, name, group) {
        let i: int = choose|i: int| 0 <= i < b.len() && (#[trigger] b[i]).name == name && b[i].group == group;
        assert((a + b)[i + a.len()] == b[i]);
    }
}

proof fn lemma_group_commands_lists(g: (Seq<char>, Seq<StoredEntryView>), name: Seq<char>, group: Option<Seq<char>>)
    ensures
        lists(group_commands(g), name, group) <==> group == Some(g.0) && has_name(g.1, name),
{
    let s = group_commands(g);
    if lists(s, name, group) {
        let i: int = choose|i: int| 0 <= i < s.len() && (#[trigger] s[i]).name == name && s[i].group == group;
        assert(g.1[i].name == name);
    }
    if group == Some(g.0) && has_name(g.1, name) {
        let k: int = choose|k: int| 0 <= k < g.1.len() && #[trigger] g.1[k].name == name;
        assert(s[k].name == name);
    }
}

proof fn lemma_grouped_lists(gs: Seq<(Seq<char>, Seq<StoredEntryView>)>, name: Seq<char>, group: Option<Seq<char>>)
    ensures
        lists(grouped_commands(gs), name, group) <==> match group {
            Some(x) => holds(gs, name, x),
            None => false,
        },
    decreases gs.len(),
{
    if gs.len() > 0 {
        let hs = gs.drop_last();
        lemma_grouped_lists(hs, name, group);
        lemma_lists_concat(grouped_commands(hs), group_commands(gs.last()), name, group);
        lemma_group_commands_lists(gs.last(), name, group);
        if let Some(x) = group {
            if holds(gs, name, x) {
                let j: int = choose|j: int| 0 <= j < gs.len() && (#[trigger] gs[j]).0 == x && has_name(gs[j].1, name);
                if j < hs.len() {
                    assert(hs[j] == gs[j]);
                }
            }
            if holds(hs, name, x) {
                let j: int = choose|j: int| 0 <= j < hs.len() && (#[trigger] hs[j]).0 == x && has_name(hs[j].1, name);
                assert(gs[j] == hs[j]);
            }
            if gs.last().0 == x && has_name(gs.last().1, name) {
                assert(gs[gs.len() - 1] == gs.last());
            }
        }
    }
}

proof fn lemma_ungrouped_lists(es: Seq<StoredEntryView>, name: Seq<char>, group: Option<Seq<char>>)
    ensures
        lists(es.map_values(|e: StoredEntryView| e.in_group(None)), name, group) <==> group is None
            && has_name(es, name),
{
    let s = es.map_values(|e: StoredEntryView| e.in_group(None));
    if lists(s, name, group) {
        let i: int = choose|i: int| 0 <= i < s.len() && (#[trigger] s[i]).name == name && s[i].group == group;
        assert(es[i].name == name);
    }
    if group is None && has_name(es, name) {
        let k: int = choose|k: int| 0 <= k < es.len() && #[trigger] es[k].name == name;
        assert(s[k].name == name);
    }
}

/// The check made before adding agrees with the list of all commands: a
/// section holds a command called `name` exactly when the commands of the
/// configuration include one with that name and that group.
pub proof fn law_exists_iff_listed(c: ConfigView, name: Seq<char>, group: Option<Seq<char>>)
    requires
        c.wf(),
    ensures
        c.command_exists(name, group) <==> lists(all_commands(c), name, group),
{
    let head = c.ungrouped.map_values(|e: StoredEntryView| e.in_group(None));
    lemma_lists_concat(head, grouped_commands(c.groups), name, group);
    lemma_ungrouped_lists(c.ungrouped, name, group);
    lemma_grouped_lists(c.groups, name, group);
    if let Some(x) = group {
        if holds(c.groups, name, x) {
            let j: int = choose|j: int| 0 <= j < c.groups.len() && (#[trigger] c.groups[j]).0 == x && has_name(c.groups[j].1, name);
            lemma_sorted_position(c.groups, j);
        }
        if has_key(c.groups, x) {
            lemma_key_position(c.groups, x);
            let p: int = key_position(c.groups, x);
            if has_name(c.groups[p].1, name) {
                assert(c.groups[p].0 == x);
            }
        }
    }
}

/// The command picker offers every enabled command of the requested group,
/// and nothing else.
pub proof fn law_offered_iff_selected(c: ConfigView, group: Option<Seq<char>>)
    ensures
        ({
            let all = all_commands(c);
            let offered = all.filter(selected_by(group));
            &&& forall|i: int| 0 <= i < offered.len() ==> #[trigger] selected_by(group)(offered[i])
            &&& forall|i: int| 0 <= i < all.len() && selected_by(group)(all[i]) ==> #[trigger] offered.contains(all[i])
        }),
{
    broadcast use vstd::seq_lib::group_filter_ensures;
}


/// No two entries of a section share a name.
pub open spec fn unique_names(es: Seq<StoredEntryView>) -> bool {
    forall|i: int, j: int| 0 <= i < j < es.len() ==> (#[trigger] es[i]).name != (#[trigger] es[j]).name
}

/// No section of the configuration holds two commands of the same name.
pub open spec fn unique_in_sections(c: ConfigView) -> bool {
    &&& unique_names(c.ungrouped)
    &&& forall|i: int| 0 <= i < c.groups.len() ==> unique_names(#[trigger] c.groups[i].1)
}

proof fn lemma_unique_push(es: Seq<StoredEntryView>, e: StoredEntryView)
    requires
        unique_names(es),
        !has_name(es, e.name),
    ensures
        unique_names(es.push(e)),
{
    let fs = es.push(e);
    assert forall|i: int, j: int| 0 <= i < j < fs.len() implies (#[trigger] fs[i]).name != (
    #[trigger] fs[j]).name by {
        if j == es.len() {
            assert(fs[i] == es[i]);
        } else {
            assert(fs[i] == es[i] && fs[j] == es[j]);
        }
    }
}

/// Adding a command keeps names unique within each section: the addition is
/// refused when the section already has the name.
pub proof fn law_add_keeps_names_unique(c: ConfigView, group: Option<Seq<char>>, e: StoredEntryView)
    requires
        c.wf(),
        unique_in_sections(c),
        !c.command_exists(e.name, group),
    ensures
        unique_in_sections(c.with_entry(group, e)),
{
    let d = c.with_entry(group, e);
    match group {
        None => {
            lemma_unique_push(c.ungrouped, e);
        },
        Some(g) => {
            if has_key(c.groups, g) {
                lemma_key_position(c.groups, g);
                let p: int = key_position(c.groups, g);
                assert(unique_names(c.groups[p].1));
                lemma_unique_push(c.groups[p].1, e);
                assert forall|i: int| 0 <= i < d.groups.len() implies unique_names(
                    #[trigger] d.groups[i].1,
                ) by {
                    if i != p {
                        assert(d.groups[i] == c.groups[i]);
                    }
                }
            } else {
                let q: int = insertion_position(c.groups, g);
                crate::config::lemma_insertion_exists(c.groups, g);
                let es = Seq::<StoredEntryView>::empty();
                assert(unique_names(es));
                lemma_unique_push(es, e);
                assert forall|i: int| 0 <= i < d.groups.len() implies unique_names(
                    #[trigger] d.groups[i].1,
                ) by {
                    if i < q {
                        assert(d.groups[i] == c.groups[i]);
                    } else if i > q {
                        assert(d.groups[i] == c.groups[i - 1]);
                    }
                }
            }
        },
    }
}

proof fn lemma_unique_remove(es: Seq<StoredEntryView>, k: int)
    requires
        unique_names(es),
        0 <= k < es.len(),
    ensures
        unique_names(es.remove(k)),
{
    let fs = es.remove(k);
    assert forall|i: int, j: int| 0 <= i < j < fs.len() implies (#[trigger] fs[i]).name != (
    #[trigger] fs[j]).name by {
        let a: int = if i < k { i } else { i + 1 };
        let b: int = if j < k { j } else { j + 1 };
        assert(fs[i] == es[a] && fs[j] == es[b]);
    }
}

/// Removing a command keeps names unique within each section.
pub proof fn law_remove_keeps_names_unique(c: ConfigView, name: Seq<char>, group: Option<Seq<char>>)
    requires
        unique_in_sections(c),
        c.without_command(name, group) is Some,
    ensures
        unique_in_sections(c.without_command(name, group).unwrap()),
{
    let d = c.without_command(name, group).unwrap();
    match group {
        None => {
            lemma_name_position(c.ungrouped, name);
            lemma_unique_remove(c.ungrouped, name_position(c.ungrouped, name));
        },
        Some(g) => {
            lemma_key_position(c.groups, g);
            let p: int = key_position(c.groups, g);
            let es = c.groups[p].1;
            assert(unique_names(es));
            lemma_name_position(es, name);
            lemma_unique_remove(es, name_position(es, name));
            assert forall|i: int| 0 <= i < d.groups.len() implies unique_names(
                #[trigger] d.groups[i].1,
            ) by {
                if es.remove(name_position(es, name)).len() == 0 {
                    if i < p {
                        assert(d.groups[i] == c.groups[i]);
                    } else {
                        assert(d.groups[i] == c.groups[i + 1]);
                    }
                } else if i != p {
                    assert(d.groups[i] == c.groups[i]);
                }
            }
        },
    }
}

proof fn lemma_filter_none(s: Seq<CommandView>, pred: spec_fn(CommandView) -> bool)
    requires
        forall|i: int| 0 <= i < s.len() ==> !pred(#[trigger] s[i]),
    ensures
        s.filter(pred).len() == 0,
    decreases s.len(),
{
    reveal(Seq::filter);
    if s.len() > 0 {
        assert(!pred(s[s.len() - 1]));
        lemma_filter_none(s.drop_last(), pred);
    }
}

proof fn lemma_filter_at_most_one(s: Seq<CommandView>, pred: spec_fn(CommandView) -> bool)
    requires
        forall|i: int, j: int| 0 <= i < j < s.len() ==> !(pred(#[trigger] s[i]) && pred(
            #[trigger] s[j],
        )),
    ensures
        s.filter(pred).len() <= 1,
    decreases s.len(),
{
    reveal(Seq::filter);
    if s.len() > 0 {
        let hs = s.drop_last();
        if pred(s.last()) {
            assert forall|i: int| 0 <= i < hs.len() implies !pred(#[trigger] hs[i]) by {
                assert(hs[i] == s[i]);
                assert(s[s.len() - 1] == s.last());
            }
            lemma_filter_none(hs, pred);
        } else {
            assert forall|i: int, j: int| 0 <= i < j < hs.len() implies !(pred(#[trigger] hs[i])
                && pred(#[trigger] hs[j])) by {
                assert(hs[i] == s[i] && hs[j] == s[j]);
            }
            lemma_filter_at_most_one(hs, pred);
        }
    }
}

proof fn lemma_group_filter(g: (Seq<char>, Seq<StoredEntryView>), name: Seq<char>, key: Seq<char>)
    ensures
        g.0 != key ==> group_commands(g).filter(named_in(name, Some(key))).len() == 0,
        unique_names(g.1) ==> group_commands(g).filter(named_in(name, Some(key))).len() <= 1,
{
    let s = group_commands(g);
    let pred = named_in(name, Some(key));
    if g.0 != key {
        assert forall|i: int| 0 <= i < s.len() implies !pred(#[trigger] s[i]) by {}
        lemma_filter_none(s, pred);
    }
    if unique_names(g.1) {
        assert forall|i: int, j: int| 0 <= i < j < s.len() implies !(pred(#[trigger] s[i]) && pred(
            #[trigger] s[j],
        )) by {
            assert(g.1[i].name != g.1[j].name);
        }
        lemma_filter_at_most_one(s, pred);
    }
}

proof fn lemma_grouped_filter(gs: Seq<(Seq<char>, Seq<StoredEntryView>)>, name: Seq<char>, key: Seq<char>)
    requires
        sorted_keys(gs),
        forall|i: int| 0 <= i < gs.len() ==> unique_names(#[trigger] gs[i].1),
    ensures
        !has_key(gs, key) ==> grouped_commands(gs).filter(named_in(name, Some(key))).len() == 0,
        grouped_commands(gs).filter(named_in(name, Some(key))).len() <= 1,
    decreases gs.len(),
{
    if gs.len() > 0 {
        let hs = gs.drop_last();
        let last = gs.last();
        assert(last == gs[gs.len() - 1]);
        assert(sorted_keys(hs));
        assert forall|i: int| 0 <= i < hs.len() implies unique_names(#[trigger] hs[i].1) by {
            assert(hs[i] == gs[i]);
        }
        lemma_grouped_filter(hs, name, key);
        lemma_group_filter(last, name, key);
        Seq::filter_distributes_over_add(
            grouped_commands(hs),
            group_commands(last),
            named_in(name, Some(key)),
        );
        if has_key(hs, key) {
            let i: int = choose|i: int| 0 <= i < hs.len() && #[trigger] hs[i].0 == key;
            assert(gs[i].0 == key);
            if last.0 == key {
                assert(crate::text::key_lt(gs[i].0, gs[gs.len() - 1].0));
                lemma_key_lt_irreflexive(key);
            }
        }
        if !has_key(gs, key) {
            assert(last.0 != key);
            assert(!has_key(hs, key)) by {
                if has_key(hs, key) {
                    let i: int = choose|i: int| 0 <= i < hs.len() && #[trigger] hs[i].0 == key;
                    assert(gs[i].0 == key);
                }
            }
        }
    }
}

/// When each section holds distinct names, naming the group picks at most
/// one command to remove, so no choice has to be offered.
pub proof fn law_group_disambiguates(c: ConfigView, name: Seq<char>, group: Seq<char>)
    requires
        c.wf(),
        unique_in_sections(c),
    ensures
        all_commands(c).filter(named_in(name, Some(group))).len() <= 1,
{
    let head = c.ungrouped.map_values(|e: StoredEntryView| e.in_group(None));
    let pred = named_in(name, Some(group));
    assert forall|i: int| 0 <= i < head.len() implies !pred(#[trigger] head[i]) by {}
    lemma_filter_none(head, pred);
    lemma_grouped_filter(c.groups, name, group);
    Seq::filter_distributes_over_add(head, grouped_commands(c.groups), pred);
}


/// A command that asks for confirmation is never run straight from the
/// choice: choosing it leads to the confirmation question.
pub proof fn law_confirmation_before_run(
    group: Option<String>,
    commands: Vec<CommandEntry>,
    i: usize,
    next: SelectorState,
    action: SelectorAction,
)
    requires
        selector_transition(
            group,
            SelectorState::Choosing { commands },
            SelectorEvent::Chosen(i),
            next,
            action,
        ),
        action is Run,
    ensures
        i < commands@.len() && !commands@[i as int].confirm,
{
}


/// Selecting by group keeps exactly the enabled commands whose group is the
/// requested name itself (any group when none is requested): every offered
/// command is enabled and, when a group is requested, belongs to exactly
/// that group; every such command of the configuration is offered.
pub proof fn law_group_selection_is_exact(c: ConfigView, group: Option<Seq<char>>)
    ensures
        ({
            let all = all_commands(c);
            let found = all.filter(selected_by(group));
            &&& forall|i: int|
                0 <= i < found.len() ==> (#[trigger] found[i]).enabled && match group {
                    Some(g) => found[i].group == Some(g),
                    None => true,
                }
            &&& forall|i: int|
                0 <= i < all.len() && (#[trigger] all[i]).enabled && match group {
                    Some(g) => all[i].group == Some(g),
                    None => true,
                } ==> found.contains(all[i])
        }),
{
    broadcast use vstd::seq_lib::group_filter_ensures;

    let all = all_commands(c);
    let found = all.filter(selected_by(group));
    assert forall|i: int| 0 <= i < found.len() implies (#[trigger] found[i]).enabled && match group {
        Some(g) => found[i].group == Some(g),
        None => true,
    } by {
        assert(selected_by(group)(found[i]));
    }
    assert forall|i: int|
        0 <= i < all.len() && (#[trigger] all[i]).enabled && match group {
            Some(g) => all[i].group == Some(g),
            None => true,
        } implies found.contains(all[i]) by {
        assert(selected_by(group)(all[i]));
    }
}

/// A program command is started with its own executable and exactly its
/// stored arguments, one for one; a shell command is started as `sh -c`
/// with its script as the one argument after `-c`.
pub proof fn law_invocation_keeps_arguments(c: CommandView)
    ensures
        match c.execution {
            ExecutionView::Program { executable, args } => {
                &&& invocation_of(c).0 == executable
                &&& invocation_of(c).1.len() == args.len()
                &&& forall|i: int| 0 <= i < args.len() ==> #[trigger] invocation_of(c).1[i] == args[i]
            },
            ExecutionView::Shell { shell } => {
                &&& invocation_of(c).1.len() == 2
                &&& invocation_of(c).1[1] == shell
            },
        },
{
}

/// The task for an `add` subcommand carries the parsed request unchanged,
/// its `--confirm` and `--enabled` flags included; a `remove` subcommand
/// carries its name and group.
pub proof fn law_subcommand_carried(cli: CliArgs)
    ensures
        (match cli.command {
            Some(CliCommand::Add(req)) => {
                &&& action_of(cli) == Action::Add(req)
                &&& (action_of(cli) matches Action::Add(r) && r.confirm == req.confirm && r.enabled
                    == req.enabled && r.name == req.name && r.group == req.group)
            },
            Some(CliCommand::Remove { name, group }) => action_of(cli) == (Action::Remove {
                name,
                group,
            }),
            Some(CliCommand::Init) => action_of(cli) == Action::Init,
            None => true,
        }),
{
}

/// The candidates of a removal state (empty for any other state).
pub open spec fn candidates_of(s: RemovalState) -> Seq<CommandView> {
    match s {
        RemovalState::Choosing { candidates, config: _ } => command_views(candidates@),
        _ => Seq::empty(),
    }
}

/// The number of labels a removal action asks to choose among.
pub open spec fn label_count(a: RemovalAction) -> int {
    match a {
        RemovalAction::Choose { labels } => labels@.len() as int,
        _ => -1,
    }
}

/// Without a name, removal offers every stored command of the loaded
/// configuration, enabled or not, each with its label.
pub proof fn law_removal_offers_every_command(
    group: Option<String>,
    config: crate::config::Config,
    next: RemovalState,
    action: RemovalAction,
)
    requires
        removal_transition(
            None,
            group,
            RemovalState::Loading,
            RemovalEvent::Loaded(config),
            next,
            action,
        ),
        all_commands(config@).len() > 0,
    ensures
        next is Choosing,
        candidates_of(next) == all_commands(config@),
        forall|i: int|
            0 <= i < all_commands(config@).len() ==> candidates_of(next).contains(
                #[trigger] all_commands(config@)[i],
            ),
        label_count(action) == all_commands(config@).len(),
{
    let all = all_commands(config@);
    assert forall|i: int| 0 <= i < all.len() implies candidates_of(next).contains(
        #[trigger] all[i],
    ) by {
        assert(candidates_of(next)[i] == all[i]);
    }
    if let RemovalAction::Choose { labels } = action {
        assert(texts(labels@).len() == labels@.len());
    }
}


/// The starter configuration holds four commands with four different names
/// and four different ways of running; its `Test` command, in group `rust`,
/// runs `cargo test`, and its `Build` command runs `cargo build`.
pub proof fn law_starter_commands()
    ensures
        ({
            let all = all_commands(starter_view());
            &&& all.len() == 4
            &&& forall|i: int, j: int|
                0 <= i < j < all.len() ==> (#[trigger] all[i]).name != (#[trigger] all[j]).name
                    && all[i].execution != all[j].execution
            &&& all[3].name == "Test"@ && all[3].group == Some("rust"@) && all[3].execution
                == (ExecutionView::Program { executable: "cargo"@, args: seq!["test"@] })
            &&& all[2].name == "Build"@ && all[2].group == Some("rust"@) && all[2].execution
                == (ExecutionView::Program { executable: "cargo"@, args: seq!["build"@] })
        }),
{
    let c = starter_view();
    let gs = c.groups;
    assert(gs.drop_last() =~= seq![gs[0]]);
    assert(seq![gs[0]].drop_last() =~= Seq::<(Seq<char>, Seq<StoredEntryView>)>::empty());
    assert(seq![gs[0]].last() == gs[0]);
    let one = seq![gs[0]];
    assert(grouped_commands(one.drop_last()) =~= Seq::<CommandView>::empty());
    assert(grouped_commands(one) =~= group_commands(gs[0]));
    assert(gs.last() == gs[1]);
    assert(grouped_commands(gs) == grouped_commands(one) + group_commands(gs[1]));
    assert(group_commands(gs[0]) =~= seq![gs[0].1[0].in_group(Some(gs[0].0))]);
    assert(group_commands(gs[1]) =~= seq![
        gs[1].1[0].in_group(Some(gs[1].0)),
        gs[1].1[1].in_group(Some(gs[1].0)),
    ]);
    assert(c.ungrouped.map_values(|e: StoredEntryView| e.in_group(None)) =~= seq![
        c.ungrouped[0].in_group(None),
    ]);
    let all = all_commands(c);
    reveal_strlit("Open Logs");
    reveal_strlit("Deploy");
    reveal_strlit("Build");
    reveal_strlit("Test");
    reveal_strlit("build");
    reveal_strlit("test");
    reveal_strlit("tail -f /tmp/app.log");
    reveal_strlit("./deploy.sh\n./notify.sh");
    assert(all =~= seq![
        c.ungrouped[0].in_group(None),
        gs[0].1[0].in_group(Some(gs[0].0)),
        gs[1].1[0].in_group(Some(gs[1].0)),
        gs[1].1[1].in_group(Some(gs[1].0)),
    ]);
    assert("build"@.len() != "test"@.len());
    assert(seq!["build"@] != seq!["test"@]) by {
        assert(seq!["build"@][0] != seq!["test"@][0]);
    }
    assert("tail -f /tmp/app.log"@.len() != "./deploy.sh\n./notify.sh"@.len());
    assert("Open Logs"@.len() == 9 && "Deploy"@.len() == 6 && "Build"@.len() == 5
        && "Test"@.len() == 4);
    assert(all[0].name == "Open Logs"@ && all[1].name == "Deploy"@ && all[2].name == "Build"@
        && all[3].name == "Test"@);
    assert(all[0].execution != all[1].execution);
    assert(all[2].execution != all[3].execution);
    assert forall|i: int, j: int| 0 <= i < j < all.len() implies (#[trigger] all[i]).name != (
    #[trigger] all[j]).name && all[i].execution != all[j].execution by {
        assert(all[i].name.len() != all[j].name.len());
    }
}

} // verus!
