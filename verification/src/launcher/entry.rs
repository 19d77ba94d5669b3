//! Desktop entries as they are written in files.

use vstd::prelude::*;

use crate::rows::{views, views_of_push};
use crate::text::{
    chars_of, contains_char, copy_chars, find_char, first_index, first_index_facts, is_text, lines,
    lines_of, pieces, same_chars, split, split_chars, string_of, texts, upper, upper_chars,
};

use super::exec::{
    expand_exec, expanded, no_resources, EntryFields, ExecFields, LaunchResources,
};

verus! {

/// The largest file that is read, in bytes.
pub const MAX_ENTRY_BYTES: usize = 256 * 1024;

/// The most lines of a file.
pub const MAX_LINES: usize = 8_192;

pub struct DesktopAction {
    pub id: String,
    pub name: String,
    pub exec_line: String,
}

pub struct ActionView {
    pub id: Seq<char>,
    pub name: Seq<char>,
    pub exec_line: Seq<char>,
}

impl View for DesktopAction {
    type V = ActionView;

    open spec fn view(&self) -> ActionView {
        ActionView { id: self.id@, name: self.name@, exec_line: self.exec_line@ }
    }
}

pub struct DesktopEntry {
    pub desktop_id: String,
    pub name: String,
    pub icon: Option<String>,
    pub actions: Vec<DesktopAction>,
    pub path: String,
    pub exec_line: String,
}

pub struct EntryView {
    pub desktop_id: Seq<char>,
    pub name: Seq<char>,
    pub icon: Option<Seq<char>>,
    pub actions: Seq<ActionView>,
    pub path: Seq<char>,
    pub exec_line: Seq<char>,
}

impl View for DesktopEntry {
    type V = EntryView;

    open spec fn view(&self) -> EntryView {
        EntryView {
            desktop_id: self.desktop_id@,
            name: self.name@,
            icon: crate::desktop::wire::optional_text(self.icon),
            actions: views(self.actions@),
            path: self.path@,
            exec_line: self.exec_line@,
        }
    }
}

impl EntryView {
    /// The fields that command lines of the entry may use.
    pub open spec fn fields(self) -> EntryFields {
        EntryFields { name: self.name, icon: self.icon, path: self.path }
    }
}

impl DesktopEntry {
    /// The fields that command lines of the entry may use.
    pub fn fields(&self) -> (fields: ExecFields<'_>)
        ensures
            fields@ == self@.fields(),
    {
        ExecFields {
            name: self.name.as_str(),
            icon: match &self.icon {
                Some(icon) => Some(icon.as_str()),
                None => None,
            },
            path: self.path.as_str(),
        }
    }
}

// ---------------------------------------------------------------------------
// Groups and keys
// ---------------------------------------------------------------------------

/// A key with its value, in a group.
pub struct Assignment {
    pub group: Vec<char>,
    pub key: Vec<char>,
    pub value: Vec<char>,
}

pub struct AssignmentView {
    pub group: Seq<char>,
    pub key: Seq<char>,
    pub value: Seq<char>,
}

impl View for Assignment {
    type V = AssignmentView;

    open spec fn view(&self) -> AssignmentView {
        AssignmentView { group: self.group@, key: self.key@, value: self.value@ }
    }
}

/// A line without carriage returns at its end.
pub open spec fn without_returns(s: Seq<char>) -> Seq<char>
    decreases s.len(),
{
    if s.len() > 0 && s.last() == '\r' {
        without_returns(s.drop_last())
    } else {
        s
    }
}

fn strip_returns(s: &[char]) -> (rest: &[char])
    ensures
        rest@ == without_returns(s@),
{
    let mut end: usize = s.len();
    assert(s@.take(s@.len() as int) =~= s@);
    while end > 0 && s[end - 1] == '\r'
        invariant
            end <= s@.len(),
            without_returns(s@.take(end as int)) == without_returns(s@),
        decreases end,
    {
        assert(s@.take(end as int).drop_last() =~= s@.take(end - 1));
        end = end - 1;
    }
    let rest = vstd::slice::slice_subrange(s, 0, end);
    assert(rest@ =~= s@.take(end as int));
    rest
}

/// Whether a line heads a group.
pub open spec fn heads_group(line: Seq<char>) -> bool {
    line.len() > 0 && line[0] == '[' && line.last() == ']'
}

/// The assignments in the rest of a file, if every line of it can be read.
pub open spec fn assignments_from(
    rows: Seq<Seq<char>>,
    group: Seq<char>,
    found: Seq<AssignmentView>,
) -> Option<Seq<AssignmentView>>
    decreases rows.len(),
{
    if rows.len() == 0 {
        Some(found)
    } else {
        let line = without_returns(rows[0]);
        let rest = rows.skip(1);
        if heads_group(line) {
            assignments_from(rest, line.subrange(1, line.len() - 1), found)
        } else if line.len() == 0 || line[0] == '#' {
            assignments_from(rest, group, found)
        } else {
            let at = first_index(line, '=');
            if at >= line.len() {
                None
            } else {
                assignments_from(
                    rest,
                    group,
                    found.push(
                        AssignmentView { group, key: line.take(at), value: line.skip(at + 1) },
                    ),
                )
            }
        }
    }
}

/// The assignments in a file.
pub open spec fn assignments_in(input: Seq<char>) -> Option<Seq<AssignmentView>> {
    assignments_from(lines(input), Seq::empty(), Seq::empty())
}

fn read_assignments(rows: &Vec<Vec<char>>) -> (found: Option<Vec<Assignment>>)
    ensures
        match found {
            Some(found) => assignments_from(pieces(rows@), Seq::empty(), Seq::empty()) == Some(
                views(found@),
            ),
            None => assignments_from(pieces(rows@), Seq::empty(), Seq::empty()) is None,
        },
{
    let ghost all = pieces(rows@);
    let mut group: Vec<char> = Vec::new();
    let mut found: Vec<Assignment> = Vec::new();
    assert(group@ =~= Seq::empty());
    assert(views(found@) =~= Seq::empty());
    assert(all.skip(0) =~= all);
    for i in 0..rows.len()
        invariant
            all == pieces(rows@),
            assignments_from(all, Seq::empty(), Seq::empty()) == assignments_from(
                all.skip(i as int),
                group@,
                views(found@),
            ),
    {
        proof {
            assert(all.skip(i as int)[0] == rows@[i as int]@);
            assert(all.skip(i as int).skip(1) =~= all.skip(i + 1));
        }
        let line = strip_returns(rows[i].as_slice());
        if line.len() > 0 && line[0] == '[' && line[line.len() - 1] == ']' {
            proof {
                assert(line@.len() > 1);
            }
            let name = vstd::slice::slice_subrange(line, 1, line.len() - 1);
            group = copy_chars(name);
        } else if line.len() > 0 && line[0] != '#' {
            proof {
                first_index_facts(line@, '=');
            }
            let at: usize = find_char(line, '=');
            if at >= line.len() {
                return None;
            }
            let key = vstd::slice::slice_subrange(line, 0, at);
            let value = vstd::slice::slice_subrange(line, at + 1, line.len());
            assert(key@ =~= line@.take(at as int));
            assert(value@ =~= line@.skip(at + 1));
            let assignment = Assignment {
                group: copy_chars(group.as_slice()),
                key: copy_chars(key),
                value: copy_chars(value),
            };
            proof {
                views_of_push(found@, assignment);
            }
            found.push(assignment);
        }
    }
    assert(all.skip(rows@.len() as int) =~= Seq::empty());
    Some(found)
}

/// Whether a group has a key.
pub open spec fn has_group(found: Seq<AssignmentView>, group: Seq<char>) -> bool {
    exists|i: int| 0 <= i < found.len() && (#[trigger] found[i]).group == group
}

/// The last value of a key in a group.
pub open spec fn value_of(
    found: Seq<AssignmentView>,
    group: Seq<char>,
    key: Seq<char>,
) -> Option<Seq<char>>
    decreases found.len(),
{
    if found.len() == 0 {
        None
    } else if found.last().group == group && found.last().key == key {
        Some(found.last().value)
    } else {
        value_of(found.drop_last(), group, key)
    }
}

fn find_value<'a>(found: &'a Vec<Assignment>, group: &[char], key: &str) -> (value: Option<
    &'a Vec<char>,
>)
    ensures
        match value {
            Some(value) => value_of(views(found@), group@, key@) == Some(value@),
            None => value_of(views(found@), group@, key@) is None,
        },
{
    let ghost all = views(found@);
    let mut i: usize = found.len();
    assert(all.take(found@.len() as int) =~= all);
    while i > 0
        invariant
            i <= found@.len(),
            all == views(found@),
            value_of(all, group@, key@) == value_of(all.take(i as int), group@, key@),
        decreases i,
    {
        proof {
            assert(all.take(i as int).last() == found@[i - 1]@);
            assert(all.take(i as int).drop_last() =~= all.take(i - 1));
        }
        let assignment = &found[i - 1];
        if same_chars(assignment.group.as_slice(), group) && is_text(
            assignment.key.as_slice(),
            key,
        ) {
            return Some(&assignment.value);
        }
        i = i - 1;
    }
    None
}

fn knows_group(found: &Vec<Assignment>, group: &[char]) -> (known: bool)
    ensures
        known == has_group(views(found@), group@),
{
    for i in 0..found.len()
        invariant
            forall|j: int| 0 <= j < i ==> (#[trigger] views(found@)[j]).group != group@,
    {
        assert(views(found@)[i as int] == found@[i as int]@);
        if same_chars(found[i].group.as_slice(), group) {
            return true;
        }
    }
    false
}

// ---------------------------------------------------------------------------
// Values
// ---------------------------------------------------------------------------

/// Whether a value says yes.
pub open spec fn is_true(value: Option<Seq<char>>) -> bool {
    value is Some && upper(value->Some_0) == "TRUE"@
}

fn says_true(value: Option<&Vec<char>>) -> (yes: bool)
    ensures
        yes == is_true(
            match value {
                Some(value) => Some(value@),
                None => None,
            },
        ),
{
    match value {
        Some(value) => is_text(upper_chars(value.as_slice()).as_slice(), "TRUE"),
        None => false,
    }
}

/// The parts of a list that are not empty.
pub open spec fn nonempty(list: Seq<Seq<char>>) -> Seq<Seq<char>>
    decreases list.len(),
{
    if list.len() == 0 {
        Seq::empty()
    } else if list.last().len() == 0 {
        nonempty(list.drop_last())
    } else {
        nonempty(list.drop_last()).push(list.last())
    }
}

/// The members of a list value.
pub open spec fn members(value: Option<Seq<char>>) -> Seq<Seq<char>> {
    match value {
        Some(value) => nonempty(split(value, ';')),
        None => Seq::empty(),
    }
}

fn list_members(value: Option<&Vec<char>>) -> (list: Vec<Vec<char>>)
    ensures
        pieces(list@) == members(
            match value {
                Some(value) => Some(value@),
                None => None,
            },
        ),
{
    let mut list: Vec<Vec<char>> = Vec::new();
    assert(pieces(list@) =~= Seq::empty());
    let value = match value {
        Some(value) => value,
        None => return list,
    };
    let parts = split_chars(value.as_slice(), ';');
    let ghost all = pieces(parts@);
    assert(all.take(0) =~= Seq::empty());
    for i in 0..parts.len()
        invariant
            all == pieces(parts@),
            pieces(list@) == nonempty(all.take(i as int)),
    {
        proof {
            assert(all.take(i + 1).drop_last() =~= all.take(i as int));
            assert(all[i as int] == parts@[i as int]@);
        }
        if parts[i].len() > 0 {
            let ghost before = list@;
            list.push(copy_chars(parts[i].as_slice()));
            assert(pieces(list@) =~= pieces(before).push(parts@[i as int]@));
        }
    }
    assert(all.take(parts@.len() as int) =~= all);
    list
}

/// Whether two lists have a member in common.
pub open spec fn overlap(left: Seq<Seq<char>>, right: Seq<Seq<char>>) -> bool {
    exists|i: int| 0 <= i < left.len() && right.contains(#[trigger] left[i])
}

fn lists_overlap(left: &Vec<Vec<char>>, right: &Vec<String>) -> (common: bool)
    ensures
        common == overlap(pieces(left@), texts(right@)),
{
    for i in 0..left.len()
        invariant
            forall|k: int| 0 <= k < i ==> !texts(right@).contains(#[trigger] pieces(left@)[k]),
    {
        for j in 0..right.len()
            invariant
                i < left@.len(),
                forall|k: int|
                    0 <= k < j ==> #[trigger] texts(right@)[k] != pieces(left@)[i as int],
        {
            assert(pieces(left@)[i as int] == left@[i as int]@);
            assert(texts(right@)[j as int] == right@[j as int]@);
            if is_text(left[i].as_slice(), right[j].as_str()) {
                assert(texts(right@).contains(pieces(left@)[i as int]));
                return true;
            }
        }
    }
    false
}

/// Whether an entry is shown on one of the desktops.
pub open spec fn visible(
    only: Option<Seq<char>>,
    excluded: Option<Seq<char>>,
    desktops: Seq<Seq<char>>,
) -> bool {
    &&& members(only).len() == 0 || overlap(members(only), desktops)
    &&& !overlap(members(excluded), desktops)
}

fn desktop_visible(only: Option<&Vec<char>>, excluded: Option<&Vec<char>>, desktops: &Vec<String>) -> (shown:
    bool)
    ensures
        shown == visible(
            match only {
                Some(value) => Some(value@),
                None => None,
            },
            match excluded {
                Some(value) => Some(value@),
                None => None,
            },
            texts(desktops@),
        ),
{
    let only = list_members(only);
    assert(pieces(only@).len() == only@.len());
    if only.len() > 0 && !lists_overlap(&only, desktops) {
        return false;
    }
    let excluded = list_members(excluded);
    !lists_overlap(&excluded, desktops)
}

// ---------------------------------------------------------------------------
// Entries
// ---------------------------------------------------------------------------

/// Which answers can be given to whether a program can be run.
pub type Tries = spec_fn(Seq<char>, bool) -> bool;

/// The answers that a function can give.
pub open spec fn tries_of<F: Fn(&str) -> bool>(try_exec: F) -> Tries {
    |program: Seq<char>, runs: bool|
        exists|name: &str| #[trigger] call_ensures(try_exec, (name,), runs) && name@ == program
}

pub open spec fn can_try<F: Fn(&str) -> bool>(try_exec: F) -> bool {
    forall|program: &str| #[trigger] call_requires(try_exec, (program,))
}

/// The group of the entry itself.
pub open spec fn main_group() -> Seq<char> {
    "Desktop Entry"@
}

pub open spec fn action_group(id: Seq<char>) -> Seq<char> {
    "Desktop Action "@ + id
}

/// The actions that are named and described.
pub open spec fn actions_of(found: Seq<AssignmentView>, ids: Seq<Seq<char>>) -> Seq<ActionView>
    decreases ids.len(),
{
    if ids.len() == 0 {
        Seq::empty()
    } else {
        let earlier = actions_of(found, ids.drop_last());
        let id = ids.last();
        let name = value_of(found, action_group(id), "Name"@);
        let exec = value_of(found, action_group(id), "Exec"@);
        if id.contains('/') || name is None || exec is None {
            earlier
        } else {
            earlier.push(ActionView { id, name: name->Some_0, exec_line: exec->Some_0 })
        }
    }
}

/// Whether an entry is to be offered, if its program can be run.
pub open spec fn offered(found: Seq<AssignmentView>, desktops: Seq<Seq<char>>) -> bool {
    let main = main_group();
    &&& has_group(found, main)
    &&& value_of(found, main, "Type"@) == Some("Application"@)
    &&& !is_true(value_of(found, main, "Hidden"@))
    &&& !is_true(value_of(found, main, "NoDisplay"@))
    &&& visible(
        value_of(found, main, "OnlyShowIn"@),
        value_of(found, main, "NotShowIn"@),
        desktops,
    )
    &&& value_of(found, main, "Name"@) is Some
    &&& value_of(found, main, "Exec"@) is Some
    &&& value_of(found, main, "Name"@)->Some_0.len() > 0
    &&& value_of(found, main, "Exec"@)->Some_0.len() > 0
}

/// The entry that assignments describe.
pub open spec fn described(
    path: Seq<char>,
    desktop_id: Seq<char>,
    found: Seq<AssignmentView>,
) -> EntryView {
    let main = main_group();
    EntryView {
        desktop_id,
        name: value_of(found, main, "Name"@)->Some_0,
        icon: value_of(found, main, "Icon"@),
        actions: actions_of(found, members(value_of(found, main, "Actions"@))),
        path,
        exec_line: value_of(found, main, "Exec"@)->Some_0,
    }
}

/// Whether the entry and each of its actions can be launched.
pub open spec fn launchable(entry: EntryView) -> bool {
    &&& expanded(entry.exec_line, entry.fields(), no_resources()) is Ok
    &&& forall|i: int|
        0 <= i < entry.actions.len() ==> expanded(
            (#[trigger] entry.actions[i]).exec_line,
            entry.fields(),
            no_resources(),
        ) is Ok
}

/// Whether reading a file leads to its entry: there is one if it is to be offered,
/// its program can be run and it can be launched. Whether the program can be run is
/// asked only of an entry that is otherwise to be offered.
pub open spec fn entry_by(
    tries: Tries,
    path: Seq<char>,
    desktop_id: Seq<char>,
    input: Seq<char>,
    desktops: Seq<Seq<char>>,
    entry: Option<EntryView>,
) -> bool {
    if input.contains('\0') || lines(input).len() > MAX_LINES {
        entry is None
    } else {
        match assignments_in(input) {
            None => entry is None,
            Some(found) => if !offered(found, desktops) {
                entry is None
            } else {
                let whole = described(path, desktop_id, found);
                match value_of(found, main_group(), "TryExec"@) {
                    None => entry == launched(whole, true),
                    Some(program) => tried_by(tries, program, whole, entry),
                }
            },
        }
    }
}

/// Whether asking for a program leads to the entry.
pub open spec fn tried_by(
    tries: Tries,
    program: Seq<char>,
    whole: EntryView,
    entry: Option<EntryView>,
) -> bool {
    exists|runs: bool| #[trigger] tries(program, runs) && entry == launched(whole, runs)
}

/// An entry that can be launched, where its program can be run.
pub open spec fn launched(entry: EntryView, runs: bool) -> Option<EntryView> {
    if runs && launchable(entry) {
        Some(entry)
    } else {
        None
    }
}

/// What was read of an entry.
pub open spec fn entry_seen(entry: Option<DesktopEntry>) -> Option<EntryView> {
    match entry {
        Some(entry) => Some(entry@),
        None => None,
    }
}

fn read_actions(found: &Vec<Assignment>, ids: &Vec<Vec<char>>) -> (actions: Vec<DesktopAction>)
    ensures
        views(actions@) == actions_of(views(found@), pieces(ids@)),
{
    let ghost all = pieces(ids@);
    let ghost known = views(found@);
    let mut actions: Vec<DesktopAction> = Vec::new();
    assert(views(actions@) =~= Seq::empty());
    assert(all.take(0) =~= Seq::empty());
    for i in 0..ids.len()
        invariant
            all == pieces(ids@),
            known == views(found@),
            views(actions@) == actions_of(known, all.take(i as int)),
    {
        proof {
            assert(all.take(i + 1).drop_last() =~= all.take(i as int));
            assert(all[i as int] == ids@[i as int]@);
        }
        let id = string_of(ids[i].as_slice());
        let mut group = "Desktop Action ".to_owned();
        group.append(id.as_str());
        let group = chars_of(group.as_str());
        let name = find_value(found, group.as_slice(), "Name");
        let exec = find_value(found, group.as_slice(), "Exec");
        if !contains_char(ids[i].as_slice(), '/') {
            match (name, exec) {
                (Some(name), Some(exec)) => {
                    let action = DesktopAction {
                        id,
                        name: string_of(name.as_slice()),
                        exec_line: string_of(exec.as_slice()),
                    };
                    proof {
                        views_of_push(actions@, action);
                    }
                    actions.push(action);
                },
                _ => {},
            }
        }
    }
    assert(all.take(ids@.len() as int) =~= all);
    actions
}

fn can_launch(entry: &DesktopEntry) -> (fine: bool)
    ensures
        fine == launchable(entry@),
{
    let fields = entry.fields();
    let none = LaunchResources::none();
    if expand_exec(entry.exec_line.as_str(), &fields, &none).is_err() {
        return false;
    }
    for i in 0..entry.actions.len()
        invariant
            fields@ == entry@.fields(),
            none@ == no_resources(),
            expanded(entry@.exec_line, entry@.fields(), no_resources()) is Ok,
            forall|j: int|
                0 <= j < i ==> expanded(
                    (#[trigger] entry@.actions[j]).exec_line,
                    entry@.fields(),
                    no_resources(),
                ) is Ok,
    {
        assert(entry@.actions[i as int] == entry.actions@[i as int]@);
        if expand_exec(entry.actions[i].exec_line.as_str(), &fields, &none).is_err() {
            return false;
        }
    }
    assert(entry@.actions.len() == entry.actions@.len());
    true
}

/// Reads the entry in a file. There is none where the entry is not to be offered
/// or cannot be launched.
pub fn parse_entry<F: Fn(&str) -> bool>(
    path: &str,
    desktop_id: String,
    input: &str,
    desktops: &Vec<String>,
    try_exec: &F,
) -> (entry: Option<DesktopEntry>)
    requires
        can_try(*try_exec),
    ensures
        entry_by(
            tries_of(*try_exec),
            path@,
            desktop_id@,
            input@,
            texts(desktops@),
            entry_seen(entry),
        ),
        entry is Some ==> launchable(entry->Some_0@) && entry->Some_0@.desktop_id == desktop_id@
            && entry->Some_0@.path == path@,
{
    let letters = chars_of(input);
    if contains_char(letters.as_slice(), '\0') {
        return None;
    }
    let rows = lines_of(letters.as_slice());
    assert(lines(input@).len() == rows@.len());
    if rows.len() > MAX_LINES {
        return None;
    }
    let found = match read_assignments(&rows) {
        Some(found) => found,
        None => return None,
    };
    let main = chars_of("Desktop Entry");
    let main = main.as_slice();
    if !knows_group(&found, main) {
        return None;
    }
    let application = match find_value(&found, main, "Type") {
        Some(kind) => is_text(kind.as_slice(), "Application"),
        None => false,
    };
    if !application || says_true(find_value(&found, main, "Hidden")) || says_true(
        find_value(&found, main, "NoDisplay"),
    ) || !desktop_visible(
        find_value(&found, main, "OnlyShowIn"),
        find_value(&found, main, "NotShowIn"),
        desktops,
    ) {
        return None;
    }
    let name = match find_value(&found, main, "Name") {
        Some(name) => name,
        None => return None,
    };
    let exec = match find_value(&found, main, "Exec") {
        Some(exec) => exec,
        None => return None,
    };
    if name.len() == 0 || exec.len() == 0 {
        return None;
    }
    match find_value(&found, main, "TryExec") {
        Some(program) => {
            let program = string_of(program.as_slice());
            let runs = try_exec(program.as_str());
            assert(tries_of(*try_exec)(program@, runs));
            assert(value_of(views(found@), main_group(), "TryExec"@) == Some(program@));
            if !runs {
                assert(tried_by(
                    tries_of(*try_exec),
                    program@,
                    described(path@, desktop_id@, views(found@)),
                    None,
                ));
                return None;
            }
        },
        None => {},
    }
    let ids = list_members(find_value(&found, main, "Actions"));
    let actions = read_actions(&found, &ids);
    let icon = match find_value(&found, main, "Icon") {
        Some(icon) => Some(string_of(icon.as_slice())),
        None => None,
    };
    let entry = DesktopEntry {
        desktop_id,
        name: string_of(name.as_slice()),
        icon,
        actions,
        path: path.to_owned(),
        exec_line: string_of(exec.as_slice()),
    };
    assert(entry@ == described(path@, desktop_id@, views(found@)));
    if !can_launch(&entry) {
        assert(launched(entry@, true) is None);
        return None;
    }
    Some(entry)
}

} // verus!
