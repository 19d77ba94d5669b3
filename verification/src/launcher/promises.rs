//! What the launcher promises of the files it reads and the programs it starts.

use vstd::prelude::*;
use vstd::utf8::encode_utf8;

use crate::error::{ErrorKind, Fault};
use crate::launcher::entry::{
    actions_of, assignments_from, assignments_in, described, has_group, is_true, launchable,
    members, nonempty, offered, value_of, visible, without_returns, ActionView, AssignmentView,
    EntryView, Tries,
};
use crate::launcher::exec::{
    checked_resources, expanded, expanded_argument, expanded_arguments, is_resource,
    quoted_arguments_are_read_back, quoted_line, resource_fault, substituted, substitution,
    EntryFields, ResourcesView,
};
use crate::launcher::index::{
    entry_id, file_by, first_with, in_order, place_for, with_entry, with_file, FileView, ScanView,
};
use crate::launcher::walk::{
    application_roots, data_directories, data_home, desktops_in, is_desktop_file, may_enter,
    with_found, FoundKind, WalkView,
};
use crate::paths::{is_absolute, joined};
use crate::text::{
    byte_len, first_index_is, lex_less, lex_less_total, lex_less_transitive, lines, split, upper,
};

verus! {

// ---------------------------------------------------------------------------
// Desktop Entries
// ---------------------------------------------------------------------------

/// The last assignment to a key counts, and it counts for its own group and key alone.
pub proof fn the_last_assignment_counts(
    found: Seq<AssignmentView>,
    assignment: AssignmentView,
    group: Seq<char>,
    key: Seq<char>,
)
    ensures
        value_of(found.push(assignment), assignment.group, assignment.key) == Some(
            assignment.value,
        ),
        group != assignment.group || key != assignment.key ==> value_of(
            found.push(assignment),
            group,
            key,
        ) == value_of(found, group, key),
        value_of(Seq::empty(), group, key) is None,
{
    assert(found.push(assignment).drop_last() =~= found);
}

/// A line is read as it is written: the key before the first sign of equality, the value
/// behind it, in the group that was opened last.
pub proof fn assignments_are_read(
    key: Seq<char>,
    value: Seq<char>,
    rows: Seq<Seq<char>>,
    group: Seq<char>,
    found: Seq<AssignmentView>,
)
    requires
        key.len() > 0,
        key[0] != '[',
        key[0] != '#',
        !key.contains('='),
        value.len() > 0 ==> value.last() != '\r',
    ensures
        assignments_from(seq![key + seq!['='] + value] + rows, group, found) == assignments_from(
            rows,
            group,
            found.push(AssignmentView { group, key, value }),
        ),
{
    let line = key + seq!['='] + value;
    let all = seq![line] + rows;
    let at = key.len() as int;
    assert(line.last() != '\r');
    assert(without_returns(line) == line);
    assert forall|i: int| 0 <= i < at implies line[i] != '=' by {
        assert(key.contains(key[i]));
    }
    first_index_is(line, '=', at);
    assert(line.take(at) =~= key);
    assert(line.skip(at + 1) =~= value);
    assert(all.skip(1) =~= rows);
    assert(line[0] == key[0]);
}

/// A line in brackets opens the group of its name; comments and empty lines say nothing.
pub proof fn groups_are_opened(
    name: Seq<char>,
    comment: Seq<char>,
    rows: Seq<Seq<char>>,
    group: Seq<char>,
    found: Seq<AssignmentView>,
)
    requires
        comment.len() > 0 ==> comment.last() != '\r',
    ensures
        assignments_from(seq![seq!['['] + name + seq![']']] + rows, group, found)
            == assignments_from(rows, name, found),
        assignments_from(seq![seq!['#'] + comment] + rows, group, found) == assignments_from(
            rows,
            group,
            found,
        ),
        assignments_from(seq![Seq::empty()] + rows, group, found) == assignments_from(
            rows,
            group,
            found,
        ),
{
    let header = seq!['['] + name + seq![']'];
    assert((seq![header] + rows).skip(1) =~= rows);
    assert(header.subrange(1, header.len() - 1) =~= name);
    assert(without_returns(header) == header);
    let remark = seq!['#'] + comment;
    assert((seq![remark] + rows).skip(1) =~= rows);
    assert(without_returns(remark) == remark);
    let nothing = Seq::<char>::empty();
    assert((seq![nothing] + rows).skip(1) =~= rows);
    assert(without_returns(nothing) == nothing);
}

/// Only the word for truth is true, however its letters are written.
pub proof fn only_the_word_is_true(value: Seq<char>)
    ensures
        is_true(Some("true"@)),
        is_true(Some("TRUE"@)),
        is_true(Some("True"@)),
        !is_true(Some("false"@)),
        !is_true(Some(Seq::empty())),
        !is_true(None),
        is_true(Some(value)) ==> value.len() == 4,
{
    reveal_strlit("true");
    reveal_strlit("TRUE");
    reveal_strlit("True");
    reveal_strlit("false");
    assert(upper("true"@) =~= "TRUE"@);
    assert(upper("TRUE"@) =~= "TRUE"@);
    assert(upper("True"@) =~= "TRUE"@);
    assert(upper("false"@).len() == 5);
    assert("TRUE"@.len() == 4);
    assert(upper(value).len() == value.len());
}

proof fn nonempty_keeps_what_is_not_empty(list: Seq<Seq<char>>, one: Seq<char>)
    ensures
        nonempty(list).contains(one) <==> list.contains(one) && one.len() > 0,
    decreases list.len(),
{
    if list.len() > 0 {
        let shorter = list.drop_last();
        let kept = nonempty(shorter);
        let all = nonempty(list);
        nonempty_keeps_what_is_not_empty(shorter, one);
        if list.contains(one) && one.len() > 0 {
            let i = choose|i: int| 0 <= i < list.len() && list[i] == one;
            if i < shorter.len() {
                assert(shorter[i] == one);
                let k = choose|k: int| 0 <= k < kept.len() && kept[k] == one;
                assert(all[k] == one);
            } else {
                assert(all[kept.len() as int] == one);
            }
        }
        if all.contains(one) {
            let k = choose|k: int| 0 <= k < all.len() && all[k] == one;
            if k < kept.len() {
                assert(kept[k] == one);
                let i = choose|i: int| 0 <= i < shorter.len() && shorter[i] == one;
                assert(list[i] == one);
            } else {
                assert(list[list.len() - 1] == one);
            }
        }
    }
}

/// The members of a list are what stands between its semicolons, without what is empty.
pub proof fn members_stand_between_semicolons(value: Seq<char>, one: Seq<char>)
    ensures
        members(Some(value)).contains(one) <==> split(value, ';').contains(one) && one.len() > 0,
        members(None).len() == 0,
{
    nonempty_keeps_what_is_not_empty(split(value, ';'), one);
}

/// Where an entry is shown: in the desktops that it is only for, or in all where it names
/// none; never in one that it excludes.
pub proof fn where_entries_are_shown(
    only: Option<Seq<char>>,
    excluded: Option<Seq<char>>,
    desktops: Seq<Seq<char>>,
    one: Seq<char>,
)
    ensures
        members(excluded).contains(one) && desktops.contains(one) ==> !visible(
            only,
            excluded,
            desktops,
        ),
        visible(only, excluded, desktops) && members(only).len() > 0 ==> exists|i: int|
            0 <= i < members(only).len() && desktops.contains(#[trigger] members(only)[i]),
        members(excluded).len() == 0 && members(only).contains(one) && desktops.contains(one)
            ==> visible(only, excluded, desktops),
        visible(None, None, desktops),
{
    if members(excluded).contains(one) && desktops.contains(one) {
        let i = choose|i: int| 0 <= i < members(excluded).len() && members(excluded)[i] == one;
        assert(desktops.contains(members(excluded)[i]));
    }
    if members(only).contains(one) && desktops.contains(one) {
        let i = choose|i: int| 0 <= i < members(only).len() && members(only)[i] == one;
        assert(desktops.contains(members(only)[i]));
    }
}

/// What is offered is an application with a name and a command line, and neither hidden
/// nor without display.
pub proof fn what_is_offered(found: Seq<AssignmentView>, desktops: Seq<Seq<char>>)
    requires
        offered(found, desktops),
    ensures
        value_of(found, "Desktop Entry"@, "Type"@) == Some("Application"@),
        value_of(found, "Desktop Entry"@, "Hidden"@) != Some("true"@),
        value_of(found, "Desktop Entry"@, "NoDisplay"@) != Some("true"@),
        value_of(found, "Desktop Entry"@, "Name"@) matches Some(name) && name.len() > 0,
        value_of(found, "Desktop Entry"@, "Exec"@) matches Some(exec) && exec.len() > 0,
        visible(
            value_of(found, "Desktop Entry"@, "OnlyShowIn"@),
            value_of(found, "Desktop Entry"@, "NotShowIn"@),
            desktops,
        ),
{
    only_the_word_is_true("true"@);
}

/// Such an entry is offered.
pub proof fn what_is_not_left_out(found: Seq<AssignmentView>, desktops: Seq<Seq<char>>)
    requires
        has_group(found, "Desktop Entry"@),
        value_of(found, "Desktop Entry"@, "Type"@) == Some("Application"@),
        value_of(found, "Desktop Entry"@, "Hidden"@) is None,
        value_of(found, "Desktop Entry"@, "NoDisplay"@) is None,
        value_of(found, "Desktop Entry"@, "OnlyShowIn"@) is None,
        value_of(found, "Desktop Entry"@, "NotShowIn"@) is None,
        value_of(found, "Desktop Entry"@, "Name"@) matches Some(name) && name.len() > 0,
        value_of(found, "Desktop Entry"@, "Exec"@) matches Some(exec) && exec.len() > 0,
    ensures
        offered(found, desktops),
{
    where_entries_are_shown(None, None, desktops, Seq::empty());
}

/// An entry is described by its own keys.
pub proof fn how_entries_are_described(
    path: Seq<char>,
    desktop_id: Seq<char>,
    found: Seq<AssignmentView>,
)
    ensures
        ({
            let entry = described(path, desktop_id, found);
            &&& entry.desktop_id == desktop_id
            &&& entry.path == path
            &&& entry.icon == value_of(found, "Desktop Entry"@, "Icon"@)
            &&& value_of(found, "Desktop Entry"@, "Name"@) matches Some(name) ==> entry.name == name
            &&& value_of(found, "Desktop Entry"@, "Exec"@) matches Some(exec) ==> entry.exec_line
                == exec
        }),
{
}

/// An action is described in the group of its own identifier.
pub proof fn how_actions_are_described(
    found: Seq<AssignmentView>,
    ids: Seq<Seq<char>>,
    i: int,
)
    requires
        0 <= i < actions_of(found, ids).len(),
    ensures
        ({
            let action = actions_of(found, ids)[i];
            &&& ids.contains(action.id)
            &&& !action.id.contains('/')
            &&& value_of(found, "Desktop Action "@ + action.id, "Name"@) == Some(action.name)
            &&& value_of(found, "Desktop Action "@ + action.id, "Exec"@) == Some(action.exec_line)
        }),
    decreases ids.len(),
{
    let shorter = ids.drop_last();
    let earlier = actions_of(found, shorter);
    let action = actions_of(found, ids)[i];
    if i < earlier.len() {
        how_actions_are_described(found, shorter, i);
        let k = choose|k: int| 0 <= k < shorter.len() && shorter[k] == action.id;
        assert(ids[k] == action.id);
    } else {
        assert(ids[ids.len() - 1] == action.id);
    }
}

/// An entry whose program cannot be tried is not launched.
pub proof fn what_cannot_run_is_not_launched(entry: EntryView)
    ensures
        crate::launcher::entry::launched(entry, false) is None,
        crate::launcher::entry::launched(entry, true) is Some <==> launchable(entry),
        crate::launcher::entry::launched(entry, true) is Some
            ==> crate::launcher::entry::launched(entry, true) == Some(entry),
{
}

// ---------------------------------------------------------------------------
// Command lines
// ---------------------------------------------------------------------------

/// What each field code stands for.
pub proof fn what_field_codes_stand_for(entry: EntryFields, resources: ResourcesView)
    ensures
        substitution('%', entry, resources) == Ok::<Seq<char>, Fault>(seq!['%']),
        substitution('c', entry, resources) == Ok::<Seq<char>, Fault>(entry.name),
        substitution('k', entry, resources) == Ok::<Seq<char>, Fault>(entry.path),
        resources.files.len() > 0 ==> substitution('f', entry, resources) == Ok::<
            Seq<char>,
            Fault,
        >(resources.files[0]),
        resources.files.len() == 0 ==> substitution('f', entry, resources) == Ok::<
            Seq<char>,
            Fault,
        >(Seq::empty()),
        resources.urls.len() > 0 ==> substitution('u', entry, resources) == Ok::<Seq<char>, Fault>(
            resources.urls[0],
        ),
        resources.urls.len() == 0 ==> substitution('u', entry, resources) == Ok::<
            Seq<char>,
            Fault,
        >(Seq::empty()),
        substitution('F', entry, resources) is Err,
        substitution('U', entry, resources) is Err,
        substitution('i', entry, resources) is Err,
        substitution('z', entry, resources) is Err,
        expanded_argument("%F"@, entry, resources) == Ok::<Seq<Seq<char>>, Fault>(resources.files),
        expanded_argument("%U"@, entry, resources) == Ok::<Seq<Seq<char>>, Fault>(resources.urls),
        entry.icon is Some ==> expanded_argument("%i"@, entry, resources) == Ok::<
            Seq<Seq<char>>,
            Fault,
        >(seq!["--icon"@, entry.icon->Some_0]),
        entry.icon is None ==> expanded_argument("%i"@, entry, resources) == Ok::<
            Seq<Seq<char>>,
            Fault,
        >(Seq::empty()),
{
    reveal_strlit("%F");
    reveal_strlit("%U");
    reveal_strlit("%i");
    assert("%F"@[1] == 'F' && "%U"@[1] == 'U' && "%i"@[1] == 'i');
}

/// A text without field codes stands for itself.
pub proof fn plain_texts_stand_for_themselves(
    text: Seq<char>,
    done: Seq<char>,
    entry: EntryFields,
    resources: ResourcesView,
)
    requires
        !text.contains('%'),
    ensures
        substituted(text, done, entry, resources) == Ok::<Seq<char>, Fault>(done + text),
    decreases text.len(),
{
    if text.len() > 0 {
        let rest = text.skip(1);
        assert(text.contains(text[0]));
        assert forall|i: int| 0 <= i < rest.len() implies rest[i] != '%' by {
            assert(text.contains(text[i + 1]));
        }
        plain_texts_stand_for_themselves(rest, done.push(text[0]), entry, resources);
        assert(done.push(text[0]) + rest =~= done + text);
    } else {
        assert(done + text =~= done);
    }
}

/// A field code inside an argument is replaced where it stands.
pub proof fn field_codes_are_replaced_in_place(
    before: Seq<char>,
    code: char,
    after: Seq<char>,
    entry: EntryFields,
    resources: ResourcesView,
)
    requires
        !before.contains('%'),
        !after.contains('%'),
        substitution(code, entry, resources) is Ok,
    ensures
        substituted(before + seq!['%', code] + after, Seq::empty(), entry, resources) == Ok::<
            Seq<char>,
            Fault,
        >(before + substitution(code, entry, resources)->Ok_0 + after),
{
    let text = substitution(code, entry, resources)->Ok_0;
    let rest = seq!['%', code] + after;
    plain_head_is_passed(before, rest, Seq::empty(), entry, resources);
    assert(before + rest =~= before + seq!['%', code] + after);
    assert(Seq::<char>::empty() + before =~= before);
    assert(rest.skip(2) =~= after);
    plain_texts_stand_for_themselves(after, before + text, entry, resources);
}

proof fn plain_head_is_passed(
    head: Seq<char>,
    rest: Seq<char>,
    done: Seq<char>,
    entry: EntryFields,
    resources: ResourcesView,
)
    requires
        !head.contains('%'),
    ensures
        substituted(head + rest, done, entry, resources) == substituted(
            rest,
            done + head,
            entry,
            resources,
        ),
    decreases head.len(),
{
    let whole = head + rest;
    if head.len() > 0 {
        let shorter = head.skip(1);
        assert(head.contains(head[0]));
        assert forall|i: int| 0 <= i < shorter.len() implies shorter[i] != '%' by {
            assert(head.contains(head[i + 1]));
        }
        assert(whole.skip(1) =~= shorter + rest);
        plain_head_is_passed(shorter, rest, done.push(head[0]), entry, resources);
        assert(done.push(head[0]) + shorter =~= done + head);
    } else {
        assert(whole =~= rest);
        assert(done + head =~= done);
    }
}

/// A program with a file is started with just that file behind it.
pub proof fn programs_are_started_with_their_file(
    program: Seq<char>,
    file: Seq<char>,
    entry: EntryFields,
    resources: ResourcesView,
)
    requires
        program.len() > 0,
        !program.contains('%'),
        resources.files.len() > 0,
        resources.files[0] == file,
        file.len() > 0,
    ensures
        expanded(quoted_line(seq![program, "%f"@]), entry, resources) == Ok::<
            Seq<Seq<char>>,
            Fault,
        >(seq![program, file]),
{
    let tokens = seq![program, "%f"@];
    quoted_arguments_are_read_back(tokens);
    reveal_strlit("%f");
    reveal_strlit("%F");
    reveal_strlit("%U");
    reveal_strlit("%i");
    assert("%f"@[1] == 'f' && "%F"@[1] == 'F' && "%U"@[1] == 'U' && "%i"@[1] == 'i');
    assert("%F"@[0] == '%' && "%U"@[0] == '%' && "%i"@[0] == '%');
    assert(!("%f"@ == "%F"@) && !("%f"@ == "%U"@) && !("%f"@ == "%i"@));
    assert(program.contains(program[0]));
    plain_texts_stand_for_themselves(program, Seq::empty(), entry, resources);
    assert(Seq::<char>::empty() + program =~= program);
    let nothing = Seq::<char>::empty();
    field_codes_are_replaced_in_place(nothing, 'f', nothing, entry, resources);
    assert(nothing + seq!['%', 'f'] + nothing =~= "%f"@);
    assert(nothing + file + nothing =~= file);
    assert(tokens.skip(1) =~= seq!["%f"@]);
    assert(seq!["%f"@].skip(1) =~= Seq::<Seq<char>>::empty());
    reveal_with_fuel(expanded_arguments, 3);
    let first = Seq::<Seq<char>>::empty() + seq![program];
    assert(first =~= seq![program]);
    assert(first + seq![file] =~= seq![program, file]);
}

/// Which resources a program can be started with.
pub proof fn which_resources_are_accepted(resources: ResourcesView, i: int)
    requires
        checked_resources(resources) is Ok,
    ensures
        resources.files.len() + resources.urls.len() <= 256,
        0 <= i < resources.files.len() ==> {
            &&& resources.files[i].len() > 0
            &&& !resources.files[i].contains('\0')
            &&& byte_len(resources.files[i]) <= 16_384
        },
        0 <= i < resources.urls.len() ==> {
            &&& resources.urls[i].len() > 0
            &&& !resources.urls[i].contains('\0')
            &&& byte_len(resources.urls[i]) <= 16_384
        },
        checked_resources(ResourcesView { files: Seq::empty(), urls: Seq::empty() }) is Ok,
{
    let all = resources.files + resources.urls;
    if 0 <= i < resources.files.len() {
        accepted_resources_are_sound(all, 0, i);
    }
    if 0 <= i < resources.urls.len() {
        accepted_resources_are_sound(all, 0, resources.files.len() + i);
        assert(all[resources.files.len() + i] == resources.urls[i]);
    }
    assert((Seq::<Seq<char>>::empty() + Seq::<Seq<char>>::empty()).len() == 0);
}

proof fn accepted_resources_are_sound(list: Seq<Seq<char>>, total: int, i: int)
    requires
        resource_fault(list, total) is None,
        0 <= i < list.len(),
    ensures
        is_resource(list[i]),
    decreases list.len(),
{
    if i > 0 {
        accepted_resources_are_sound(list.skip(1), total + byte_len(list[0]), i - 1);
    }
}

// ---------------------------------------------------------------------------
// The index
// ---------------------------------------------------------------------------

/// The identifier of an entry is its path with hyphens for separators.
pub proof fn how_entries_are_named(file: FileView, i: int)
    requires
        0 <= i < file.relative.len(),
    ensures
        entry_id(file).len() == file.relative.len(),
        file.relative[i] == '/' ==> entry_id(file)[i] == '-',
        file.relative[i] != '/' ==> entry_id(file)[i] == file.relative[i],
{
}

proof fn place_for_facts(entries: Seq<EntryView>, id: Seq<char>)
    ensures
        0 <= place_for(entries, id) <= entries.len(),
        forall|i: int|
            0 <= i < place_for(entries, id) ==> lex_less((#[trigger] entries[i]).desktop_id, id),
        place_for(entries, id) < entries.len() ==> !lex_less(
            entries[place_for(entries, id)].desktop_id,
            id,
        ),
    decreases entries.len(),
{
    if entries.len() > 0 && lex_less(entries[0].desktop_id, id) {
        let rest = entries.skip(1);
        place_for_facts(rest, id);
        assert forall|i: int| 0 <= i < place_for(entries, id) implies lex_less(
            (#[trigger] entries[i]).desktop_id,
            id,
        ) by {
            if i > 0 {
                assert(rest[i - 1] == entries[i]);
            }
        }
    }
}

/// An entry that is added is there, the others stay, and they stand in the order of their
/// identifiers.
pub proof fn entries_stay_in_order(entries: Seq<EntryView>, entry: EntryView, other: EntryView)
    requires
        in_order(entries),
        forall|i: int|
            0 <= i < entries.len() ==> (#[trigger] entries[i]).desktop_id != entry.desktop_id,
    ensures
        in_order(with_entry(entries, entry)),
        with_entry(entries, entry).contains(entry),
        entries.contains(other) ==> with_entry(entries, entry).contains(other),
        with_entry(entries, entry).len() == entries.len() + 1,
{
    let id = entry.desktop_id;
    place_for_facts(entries, id);
    let at = place_for(entries, id);
    let all = with_entry(entries, entry);
    assert(all[at] == entry);
    if entries.contains(other) {
        let i = choose|i: int| 0 <= i < entries.len() && entries[i] == other;
        if i < at {
            assert(all[i] == other);
        } else {
            assert(all[i + 1] == other);
        }
    }
    assert forall|i: int, j: int|
        #![trigger all[i], all[j]]
        0 <= i < j < all.len() implies lex_less(all[i].desktop_id, all[j].desktop_id) by {
        let old_i = if i < at {
            i
        } else {
            i - 1
        };
        let old_j = if j < at {
            j
        } else {
            j - 1
        };
        if i != at && j != at {
            assert(all[i] == entries[old_i] && all[j] == entries[old_j]);
        } else if j == at {
            assert(all[i] == entries[i]);
        } else {
            assert(all[j] == entries[j - 1]);
            lex_less_total(entries[at].desktop_id, id);
            if j - 1 > at {
                assert(lex_less(entries[at].desktop_id, entries[j - 1].desktop_id));
                lex_less_transitive(id, entries[at].desktop_id, entries[j - 1].desktop_id);
            }
        }
    }
}

/// An entry is launched by its own command line, an action by its own.
pub proof fn entries_are_launched_by_their_own_lines(
    entries: Seq<EntryView>,
    at: int,
    action: int,
    resources: ResourcesView,
)
    requires
        0 <= at < entries.len(),
        forall|i: int|
            0 <= i < at ==> (#[trigger] entries[i]).desktop_id != entries[at].desktop_id,
        checked_resources(resources) is Ok,
    ensures
        crate::launcher::index::launched(entries, entries[at].desktop_id, None, resources)
            == expanded(
            entries[at].exec_line,
            EntryFields {
                name: entries[at].name,
                icon: entries[at].icon,
                path: entries[at].path,
            },
            resources,
        ),
        0 <= action < entries[at].actions.len() && (forall|i: int|
            0 <= i < action ==> (#[trigger] entries[at].actions[i]).id
                != entries[at].actions[action].id) ==> crate::launcher::index::launched(
            entries,
            entries[at].desktop_id,
            Some(entries[at].actions[action].id),
            resources,
        ) == expanded(
            entries[at].actions[action].exec_line,
            EntryFields {
                name: entries[at].name,
                icon: entries[at].icon,
                path: entries[at].path,
            },
            resources,
        ),
{
    first_entries_are_found(entries, at);
    if 0 <= action < entries[at].actions.len() && (forall|i: int|
        0 <= i < action ==> (#[trigger] entries[at].actions[i]).id
            != entries[at].actions[action].id) {
        first_actions_are_found(entries[at].actions, action);
    }
}

proof fn first_entries_are_found(entries: Seq<EntryView>, at: int)
    requires
        0 <= at < entries.len(),
        forall|i: int|
            0 <= i < at ==> (#[trigger] entries[i]).desktop_id != entries[at].desktop_id,
    ensures
        first_with(entries, entries[at].desktop_id) == at,
    decreases entries.len(),
{
    if at > 0 {
        assert(entries[0].desktop_id != entries[at].desktop_id);
        let rest = entries.skip(1);
        assert forall|i: int| 0 <= i < at - 1 implies (#[trigger] rest[i]).desktop_id != rest[at
            - 1].desktop_id by {
            assert(rest[i] == entries[i + 1]);
        }
        first_entries_are_found(rest, at - 1);
    }
}

proof fn first_actions_are_found(actions: Seq<ActionView>, at: int)
    requires
        0 <= at < actions.len(),
        forall|i: int| 0 <= i < at ==> (#[trigger] actions[i]).id != actions[at].id,
    ensures
        crate::launcher::index::first_action(actions, actions[at].id) == at,
    decreases actions.len(),
{
    if at > 0 {
        assert(actions[0].id != actions[at].id);
        let rest = actions.skip(1);
        assert forall|i: int| 0 <= i < at - 1 implies (#[trigger] rest[i]).id != rest[at - 1].id by {
            assert(rest[i] == actions[i + 1]);
        }
        first_actions_are_found(rest, at - 1);
    }
}

/// What is not indexed cannot be launched.
pub proof fn what_is_not_indexed_is_not_launched(
    entries: Seq<EntryView>,
    desktop_id: Seq<char>,
    resources: ResourcesView,
)
    requires
        forall|i: int| 0 <= i < entries.len() ==> (#[trigger] entries[i]).desktop_id != desktop_id,
        checked_resources(resources) is Ok,
    ensures
        crate::launcher::index::launched(entries, desktop_id, None, resources) == Err::<
            Seq<Seq<char>>,
            Fault,
        >((ErrorKind::NotFound, "Desktop Entry is not indexed"@)),
{
    nothing_is_found(entries, desktop_id);
}

proof fn nothing_is_found(entries: Seq<EntryView>, desktop_id: Seq<char>)
    requires
        forall|i: int| 0 <= i < entries.len() ==> (#[trigger] entries[i]).desktop_id != desktop_id,
    ensures
        first_with(entries, desktop_id) == entries.len(),
    decreases entries.len(),
{
    if entries.len() > 0 {
        assert(entries[0].desktop_id != desktop_id);
        let rest = entries.skip(1);
        assert forall|i: int| 0 <= i < rest.len() implies (#[trigger] rest[i]).desktop_id
            != desktop_id by {
            assert(rest[i] == entries[i + 1]);
        }
        nothing_is_found(rest, desktop_id);
    }
}

// ---------------------------------------------------------------------------
// Where entries are looked for
// ---------------------------------------------------------------------------

/// The user's own directory comes first; without one it is below the home directory.
pub proof fn where_entries_are_looked_for(
    home: Seq<u8>,
    user: Seq<u8>,
    list: Option<Seq<u8>>,
    i: int,
)
    ensures
        data_home(Some(home), Some(user)) == Some(user),
        data_home(Some(home), None) == Some(joined(home, encode_utf8(".local/share"@))),
        data_home(None, None) is None,
        application_roots(None, None, list) is Err,
        data_directories(None) == seq![
            encode_utf8("/usr/local/share"@),
            encode_utf8("/usr/share"@),
        ],
        application_roots(Some(home), Some(user), list) matches Ok(roots) ==> {
            &&& roots.len() == data_directories(list).len() + 1
            &&& roots[0] == joined(user, encode_utf8("applications"@))
            &&& 0 <= i < data_directories(list).len() ==> roots[i + 1] == joined(
                data_directories(list)[i],
                encode_utf8("applications"@),
            )
            &&& 0 <= i < roots.len() ==> roots[i].len() > 0 && roots[i][0] == 0x2f
        },
{
    if application_roots(Some(home), Some(user), list) is Ok {
        let roots = application_roots(Some(home), Some(user), list)->Ok_0;
        if 0 <= i < roots.len() {
            assert(is_absolute(roots[i]));
        }
    }
}

/// What a walk takes: the files with the ending of a Desktop Entry; directories are
/// entered, one level deeper, and links are not followed.
pub proof fn what_a_walk_takes(walk: WalkView, path: Seq<u8>, name: Seq<u8>)
    ensures
        is_desktop_file(name) ==> with_found(walk, path, name, FoundKind::File).output
            == walk.output.push(path),
        !is_desktop_file(name) ==> with_found(walk, path, name, FoundKind::File) == walk,
        with_found(walk, path, name, FoundKind::Directory).pending == walk.pending.push(
            (path, walk.depth + 1),
        ),
        with_found(walk, path, name, FoundKind::Directory).output == walk.output,
        with_found(walk, path, name, FoundKind::Link) == walk,
        with_found(walk, path, name, FoundKind::Other) == walk,
        is_desktop_file(name) <==> name.len() > 8 && name.skip(name.len() - 8) == encode_utf8(
            ".desktop"@,
        ),
        walk.pending.len() > 0 ==> (may_enter(walk) is Ok <==> walk.directories < 4_096
            && walk.pending.last().1 <= 32),
{
}

/// What is taken from a file is what the file says: an entry that is offered, described by
/// its keys and launchable.
pub proof fn what_is_taken_from_a_file(
    tries: Tries,
    path: Seq<char>,
    desktop_id: Seq<char>,
    input: Seq<char>,
    desktops: Seq<Seq<char>>,
    entry: EntryView,
)
    requires
        crate::launcher::entry::entry_by(tries, path, desktop_id, input, desktops, Some(entry)),
    ensures
        !input.contains('\0'),
        lines(input).len() <= 8_192,
        assignments_in(input) is Some,
        offered(assignments_in(input)->Some_0, desktops),
        entry == described(path, desktop_id, assignments_in(input)->Some_0),
        launchable(entry),
        value_of(assignments_in(input)->Some_0, "Desktop Entry"@, "TryExec"@) matches Some(program)
            ==> tries(program, true),
{
}

/// A file that is offered and needs no trial is taken.
pub proof fn what_is_offered_is_taken(
    tries: Tries,
    path: Seq<char>,
    desktop_id: Seq<char>,
    input: Seq<char>,
    desktops: Seq<Seq<char>>,
    entry: Option<EntryView>,
)
    requires
        crate::launcher::entry::entry_by(tries, path, desktop_id, input, desktops, entry),
        !input.contains('\0'),
        lines(input).len() <= 8_192,
        assignments_in(input) is Some,
        offered(assignments_in(input)->Some_0, desktops),
        value_of(assignments_in(input)->Some_0, "Desktop Entry"@, "TryExec"@) is None,
        launchable(described(path, desktop_id, assignments_in(input)->Some_0)),
    ensures
        entry == Some(described(path, desktop_id, assignments_in(input)->Some_0)),
{
}

/// A file whose identifier is new takes it, whether or not it is shown.
pub proof fn what_a_file_adds(scan: ScanView, id: Seq<char>, entry: EntryView)
    ensures
        with_file(scan, id, None).taken == scan.taken.push(id),
        with_file(scan, id, None).entries == scan.entries,
        with_file(scan, id, Some(entry)).taken == scan.taken.push(id),
        with_file(scan, id, Some(entry)).entries == with_entry(scan.entries, entry),
{
}

/// The desktops of a session: the names that are not empty, in their order.
pub proof fn which_desktops_there_are(names: Seq<Seq<char>>, one: Seq<char>)
    ensures
        desktops_in(names).contains(one) <==> names.contains(one) && one.len() > 0,
    decreases names.len(),
{
    if names.len() > 0 {
        let shorter = names.drop_last();
        let kept = desktops_in(shorter);
        let all = desktops_in(names);
        which_desktops_there_are(shorter, one);
        if names.contains(one) && one.len() > 0 {
            let i = choose|i: int| 0 <= i < names.len() && names[i] == one;
            if i < shorter.len() {
                assert(shorter[i] == one);
                let k = choose|k: int| 0 <= k < kept.len() && kept[k] == one;
                assert(all[k] == one);
            } else {
                assert(all[kept.len() as int] == one);
            }
        }
        if all.contains(one) {
            let k = choose|k: int| 0 <= k < all.len() && all[k] == one;
            if k < kept.len() {
                assert(kept[k] == one);
                let i = choose|i: int| 0 <= i < shorter.len() && shorter[i] == one;
                assert(names[i] == one);
            } else {
                assert(names[names.len() - 1] == one);
            }
        }
    }
}

/// An entry can be launched when its own line and the line of each action can be expanded.
pub proof fn what_can_be_launched(entry: EntryView, i: int)
    requires
        launchable(entry),
    ensures
        expanded(
            entry.exec_line,
            EntryFields { name: entry.name, icon: entry.icon, path: entry.path },
            ResourcesView { files: Seq::empty(), urls: Seq::empty() },
        ) is Ok,
        0 <= i < entry.actions.len() ==> expanded(
            entry.actions[i].exec_line,
            EntryFields { name: entry.name, icon: entry.icon, path: entry.path },
            ResourcesView { files: Seq::empty(), urls: Seq::empty() },
        ) is Ok,
{
}

/// A file is looked at while there is room for its identifier.
pub proof fn when_a_file_is_looked_at(
    tries: Tries,
    desktops: Seq<Seq<char>>,
    scan: ScanView,
    file: FileView,
    next: Result<ScanView, Fault>,
)
    requires
        file_by(tries, desktops, scan, file, next),
    ensures
        next is Ok <==> scan.taken.len() < 16_384,
        next is Ok && !scan.taken.contains(entry_id(file)) ==> next->Ok_0.taken == scan.taken.push(
            entry_id(file),
        ),
{
}

} // verus!
