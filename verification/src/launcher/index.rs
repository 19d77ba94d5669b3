//! The index of the desktop entries that are offered.

use vstd::prelude::*;

use crate::error::{fault_of, invalid, malformed, ErrorKind, Fault, SessionError};
use crate::rows::views;
use crate::text::{
    chars_of, lex_less, lex_less_total, lex_less_transitive, replace_char, replaced, same_text,
    string_of, text_before, texts,
};

use super::entry::{
    can_try, entry_by, entry_seen, launchable, parse_entry, tries_of, DesktopAction, DesktopEntry,
    EntryView, Tries,
};
use super::exec::{
    checked_resources, expand_exec, expanded, listed, no_resources, validate_resources,
    LaunchResources, ResourcesView,
};

verus! {

/// The most files that are looked at.
pub const MAX_ENTRIES: usize = 16_384;

/// A file below an application root: its path, its path below the root, and its
/// contents where they could be read as a text within the limit.
pub struct ScannedFile {
    pub path: String,
    pub relative: String,
    pub contents: Option<String>,
}

pub struct FileView {
    pub path: Seq<char>,
    pub relative: Seq<char>,
    pub contents: Option<Seq<char>>,
}

impl View for ScannedFile {
    type V = FileView;

    open spec fn view(&self) -> FileView {
        FileView {
            path: self.path@,
            relative: self.relative@,
            contents: crate::desktop::wire::optional_text(self.contents),
        }
    }
}

/// The identifier of the entry in a file: its path below the root, with dashes.
pub open spec fn entry_id(file: FileView) -> Seq<char> {
    replaced(file.relative, '/', '-')
}

/// Whether reading a file leads to its entry.
pub open spec fn entry_of(
    tries: Tries,
    file: FileView,
    desktops: Seq<Seq<char>>,
    entry: Option<EntryView>,
) -> bool {
    match file.contents {
        Some(input) => entry_by(tries, file.path, entry_id(file), input, desktops, entry),
        None => entry is None,
    }
}

/// How many entries come before an identifier.
pub open spec fn place_for(entries: Seq<EntryView>, id: Seq<char>) -> int
    decreases entries.len(),
{
    if entries.len() == 0 || !lex_less(entries[0].desktop_id, id) {
        0
    } else {
        1 + place_for(entries.skip(1), id)
    }
}

/// The entries are in the order of their identifiers, none twice.
pub open spec fn in_order(entries: Seq<EntryView>) -> bool {
    forall|i: int, j: int|
        #![trigger entries[i], entries[j]]
        0 <= i < j < entries.len() ==> lex_less(entries[i].desktop_id, entries[j].desktop_id)
}

/// The entries with one more, in its place.
pub open spec fn with_entry(entries: Seq<EntryView>, entry: EntryView) -> Seq<EntryView> {
    entries.insert(place_for(entries, entry.desktop_id), entry)
}

/// What is known after some files: which identifiers are taken, and the entries.
pub struct ScanView {
    pub taken: Seq<Seq<char>>,
    pub entries: Seq<EntryView>,
}

/// What an entry adds; a file without one still takes its identifier.
pub open spec fn with_file(scan: ScanView, id: Seq<char>, entry: Option<EntryView>) -> ScanView {
    ScanView {
        taken: scan.taken.push(id),
        entries: match entry {
            Some(entry) => with_entry(scan.entries, entry),
            None => scan.entries,
        },
    }
}

/// Whether a file leads from what is known to what is known after it. The first
/// file with an identifier takes it, whether its entry is offered or not.
pub open spec fn file_by(
    tries: Tries,
    desktops: Seq<Seq<char>>,
    scan: ScanView,
    file: FileView,
    next: Result<ScanView, Fault>,
) -> bool {
    let id = entry_id(file);
    if scan.taken.len() >= MAX_ENTRIES {
        next == malformed::<ScanView>("too many Desktop Entries"@)
    } else if scan.taken.contains(id) {
        next == Ok::<ScanView, Fault>(scan)
    } else {
        exists|entry: Option<EntryView>| #[trigger]
            entry_of(tries, file, desktops, entry) && next == Ok::<ScanView, Fault>(
                with_file(scan, id, entry),
            )
    }
}

/// Whether files, one after the other, lead to what is known after them.
pub open spec fn files_by(
    tries: Tries,
    desktops: Seq<Seq<char>>,
    files: Seq<FileView>,
    scan: Result<ScanView, Fault>,
) -> bool
    decreases files.len(),
{
    if files.len() == 0 {
        scan == Ok::<ScanView, Fault>(ScanView { taken: Seq::empty(), entries: Seq::empty() })
    } else {
        exists|before: Result<ScanView, Fault>|
            files_by(tries, desktops, files.drop_last(), before) && #[trigger] then_by(
                tries,
                desktops,
                before,
                files.last(),
                scan,
            )
    }
}

/// Whether one more file leads on; after a failure nothing does.
pub open spec fn then_by(
    tries: Tries,
    desktops: Seq<Seq<char>>,
    before: Result<ScanView, Fault>,
    file: FileView,
    next: Result<ScanView, Fault>,
) -> bool {
    match before {
        Err(fault) => next == Err::<ScanView, Fault>(fault),
        Ok(before) => file_by(tries, desktops, before, file, next),
    }
}

/// Whether scanning files leads to their entries, in the order of their
/// identifiers.
pub open spec fn scanned_by(
    tries: Tries,
    desktops: Seq<Seq<char>>,
    files: Seq<FileView>,
    entries: Result<Seq<EntryView>, Fault>,
) -> bool {
    exists|scan: Result<ScanView, Fault>| #[trigger]
        files_by(tries, desktops, files, scan) && entries == match scan {
            Ok(scan) => Ok(scan.entries),
            Err(fault) => Err(fault),
        }
}

/// Files that cannot be scanned cannot be scanned with more files either.
proof fn failed_scans_stay_failed(
    tries: Tries,
    desktops: Seq<Seq<char>>,
    files: Seq<FileView>,
    at: int,
    fault: Fault,
)
    requires
        0 <= at <= files.len(),
        files_by(tries, desktops, files.take(at), Err::<ScanView, Fault>(fault)),
    ensures
        files_by(tries, desktops, files, Err::<ScanView, Fault>(fault)),
    decreases files.len() - at,
{
    if at == files.len() {
        assert(files.take(at) =~= files);
    } else {
        let failed = Err::<ScanView, Fault>(fault);
        assert(files.take(at + 1).drop_last() =~= files.take(at));
        assert(then_by(tries, desktops, failed, files.take(at + 1).last(), failed));
        assert(files_by(tries, desktops, files.take(at + 1), Err::<ScanView, Fault>(fault)));
        failed_scans_stay_failed(tries, desktops, files, at + 1, fault);
    }
}

/// Every entry has an identifier that is taken.
pub open spec fn entries_are_taken(scan: ScanView) -> bool {
    forall|i: int|
        0 <= i < scan.entries.len() ==> scan.taken.contains(
            (#[trigger] scan.entries[i]).desktop_id,
        )
}

proof fn place_for_facts(entries: Seq<EntryView>, id: Seq<char>)
    requires
        in_order(entries),
    ensures
        0 <= place_for(entries, id) <= entries.len(),
        forall|i: int|
            0 <= i < place_for(entries, id) ==> lex_less((#[trigger] entries[i]).desktop_id, id),
        forall|i: int|
            place_for(entries, id) <= i < entries.len() ==> !lex_less(
                (#[trigger] entries[i]).desktop_id,
                id,
            ),
    decreases entries.len(),
{
    if entries.len() > 0 {
        if lex_less(entries[0].desktop_id, id) {
            let rest = entries.skip(1);
            assert forall|i: int, j: int|
                #![trigger rest[i], rest[j]]
                0 <= i < j < rest.len() implies lex_less(
                rest[i].desktop_id,
                rest[j].desktop_id,
            ) by {
                assert(rest[i] == entries[i + 1] && rest[j] == entries[j + 1]);
            }
            place_for_facts(rest, id);
            assert forall|i: int| 0 <= i < place_for(entries, id) implies lex_less(
                (#[trigger] entries[i]).desktop_id,
                id,
            ) by {
                if i > 0 {
                    assert(rest[i - 1] == entries[i]);
                }
            }
            assert forall|i: int| place_for(entries, id) <= i < entries.len() implies !lex_less(
                (#[trigger] entries[i]).desktop_id,
                id,
            ) by {
                assert(rest[i - 1] == entries[i]);
            }
        } else {
            assert forall|i: int| 0 <= i < entries.len() implies !lex_less(
                (#[trigger] entries[i]).desktop_id,
                id,
            ) by {
                if i > 0 && lex_less(entries[i].desktop_id, id) {
                    lex_less_transitive(entries[0].desktop_id, entries[i].desktop_id, id);
                }
            }
        }
    }
}

proof fn with_entry_stays_in_order(entries: Seq<EntryView>, entry: EntryView)
    requires
        in_order(entries),
        forall|i: int|
            0 <= i < entries.len() ==> (#[trigger] entries[i]).desktop_id != entry.desktop_id,
    ensures
        in_order(with_entry(entries, entry)),
{
    place_for_facts(entries, entry.desktop_id);
    let at = place_for(entries, entry.desktop_id);
    let more = with_entry(entries, entry);
    assert forall|i: int, j: int|
        #![trigger more[i], more[j]]
        0 <= i < j < more.len() implies lex_less(more[i].desktop_id, more[j].desktop_id) by {
        if j == at {
            assert(more[i] == entries[i]);
        } else if i == at {
            assert(more[j] == entries[j - 1]);
            lex_less_total(entry.desktop_id, entries[j - 1].desktop_id);
        } else {
            let a = if i < at {
                i
            } else {
                i - 1
            };
            let b = if j < at {
                j
            } else {
                j - 1
            };
            assert(more[i] == entries[a] && more[j] == entries[b]);
        }
    }
}

/// A file whose identifier is taken changes nothing: the first file counts.
pub proof fn the_first_file_counts(
    tries: Tries,
    desktops: Seq<Seq<char>>,
    scan: ScanView,
    file: FileView,
    next: Result<ScanView, Fault>,
)
    requires
        scan.taken.len() < MAX_ENTRIES,
        scan.taken.contains(entry_id(file)),
        file_by(tries, desktops, scan, file, next),
    ensures
        next == Ok::<ScanView, Fault>(scan),
{
}

/// The index of the desktop entries that are offered.
pub struct DesktopEntryIndex {
    entries: Vec<DesktopEntry>,
}

impl DesktopEntryIndex {
    pub closed spec fn indexed(&self) -> Seq<EntryView> {
        views(self.entries@)
    }

    pub open spec fn wf(&self) -> bool {
        in_order(self.indexed())
    }

    /// Indexes the entries of files. Roots come in the order of their precedence,
    /// the files below a root in the order of their paths.
    #[verifier::loop_isolation(false)]
    pub fn scan<F: Fn(&str) -> bool>(
        files: &Vec<ScannedFile>,
        desktops: &Vec<String>,
        try_exec: F,
    ) -> (index: Result<DesktopEntryIndex, SessionError>)
        requires
            can_try(try_exec),
        ensures
            scanned_by(
                tries_of(try_exec),
                texts(desktops@),
                views(files@),
                match index {
                    Ok(index) => Ok::<Seq<EntryView>, Fault>(index.indexed()),
                    Err(error) => Err(fault_of(error)),
                },
            ),
            index is Ok ==> index->Ok_0.wf(),
    {
        let ghost all = views(files@);
        let ghost shown = texts(desktops@);
        let ghost tries = tries_of(try_exec);
        let mut taken: Vec<String> = Vec::new();
        let mut entries: Vec<DesktopEntry> = Vec::new();
        assert(texts(taken@) =~= Seq::empty());
        assert(views(entries@) =~= Seq::empty());
        assert(all.take(0).len() == 0);
        for i in 0..files.len()
            invariant
                in_order(views(entries@)),
                entries_are_taken(
                    ScanView { taken: texts(taken@), entries: views(entries@) },
                ),
                files_by(
                    tries,
                    shown,
                    all.take(i as int),
                    Ok::<ScanView, Fault>(
                        ScanView { taken: texts(taken@), entries: views(entries@) },
                    ),
                ),
        {
            let ghost scan = ScanView { taken: texts(taken@), entries: views(entries@) };
            let file = &files[i];
            proof {
                assert(all[i as int] == file@);
                assert(all.take(i + 1).drop_last() =~= all.take(i as int));
                assert(all.take(i + 1).last() == file@);
                assert(texts(taken@).len() == taken@.len());
            }
            if taken.len() >= MAX_ENTRIES {
                proof {
                    let fault = (ErrorKind::InvalidData, "too many Desktop Entries"@);
                    let failed = Err::<ScanView, Fault>(fault);
                    assert(then_by(
                        tries,
                        shown,
                        Ok::<ScanView, Fault>(scan),
                        all.take(i + 1).last(),
                        failed,
                    ));
                    assert(files_by(tries, shown, all.take(i + 1), failed));
                    failed_scans_stay_failed(tries, shown, all, i + 1, fault);
                }
                return invalid("too many Desktop Entries");
            }
            let id = string_of(
                replace_char(chars_of(file.relative.as_str()).as_slice(), '/', '-').as_slice(),
            );
            if !has_text(&taken, id.as_str()) {
                let parsed = match &file.contents {
                    Some(input) => parse_entry(
                        file.path.as_str(),
                        id.clone(),
                        input.as_str(),
                        desktops,
                        &try_exec,
                    ),
                    None => None,
                };
                let ghost read = entry_seen(parsed);
                assert(entry_of(tries, file@, shown, read));
                let ghost before = taken@;
                taken.push(id);
                proof {
                    assert(texts(taken@) =~= texts(before).push(id@));
                    assert forall|k: int| 0 <= k < scan.entries.len() implies texts(
                        taken@,
                    ).contains((#[trigger] scan.entries[k]).desktop_id)
                        && scan.entries[k].desktop_id != id@ by {
                        let at = choose|at: int|
                            0 <= at < scan.taken.len() && scan.taken[at]
                                == scan.entries[k].desktop_id;
                        assert(texts(taken@)[at] == scan.entries[k].desktop_id);
                    }
                }
                match parsed {
                    Some(entry) => {
                        let ghost view = entry@;
                        proof {
                            with_entry_stays_in_order(scan.entries, view);
                            place_for_facts(scan.entries, view.desktop_id);
                        }
                        insert_entry(&mut entries, entry);
                        proof {
                            let at = place_for(scan.entries, view.desktop_id);
                            assert forall|k: int| 0 <= k < views(entries@).len() implies texts(
                                taken@,
                            ).contains((#[trigger] views(entries@)[k]).desktop_id) by {
                                if k < at {
                                    assert(views(entries@)[k] == scan.entries[k]);
                                } else if k == at {
                                    assert(texts(taken@)[before.len() as int] == id@);
                                } else {
                                    assert(views(entries@)[k] == scan.entries[k - 1]);
                                }
                            }
                        }
                    },
                    None => {},
                }
                assert(ScanView { taken: texts(taken@), entries: views(entries@) } == with_file(
                    scan,
                    id@,
                    read,
                ));
            }
            assert(then_by(
                tries,
                shown,
                Ok::<ScanView, Fault>(scan),
                all.take(i + 1).last(),
                Ok::<ScanView, Fault>(
                    ScanView { taken: texts(taken@), entries: views(entries@) },
                ),
            ));
        }
        assert(all.take(files@.len() as int) =~= all);
        Ok(DesktopEntryIndex { entries })
    }

    /// The entries, in the order of their identifiers.
    pub fn entries(&self) -> (entries: &Vec<DesktopEntry>)
        ensures
            views(entries@) == self.indexed(),
    {
        &self.entries
    }

    /// The place of an entry, or the number of entries.
    fn find(&self, desktop_id: &str) -> (at: usize)
        ensures
            at <= self.entries@.len(),
            at < self.entries@.len() ==> self.indexed()[at as int].desktop_id == desktop_id@,
            forall|i: int|
                0 <= i < at ==> (#[trigger] self.indexed()[i]).desktop_id != desktop_id@,
    {
        let mut at: usize = 0;
        while at < self.entries.len()
            invariant
                at <= self.entries@.len(),
                forall|i: int|
                    0 <= i < at ==> (#[trigger] self.indexed()[i]).desktop_id != desktop_id@,
            decreases self.entries.len() - at,
        {
            assert(self.indexed()[at as int] == self.entries@[at as int]@);
            if same_text(self.entries[at].desktop_id.as_str(), desktop_id) {
                return at;
            }
            at = at + 1;
        }
        at
    }

    /// The entry with an identifier.
    pub fn get(&self, desktop_id: &str) -> (entry: Option<&DesktopEntry>)
        ensures
            match entry {
                Some(entry) => entry@.desktop_id == desktop_id@ && self.indexed().contains(entry@),
                None => forall|i: int|
                    0 <= i < self.indexed().len() ==> (#[trigger] self.indexed()[i]).desktop_id
                        != desktop_id@,
            },
    {
        let at: usize = self.find(desktop_id);
        if at < self.entries.len() {
            assert(self.indexed()[at as int] == self.entries@[at as int]@);
            Some(&self.entries[at])
        } else {
            assert(self.indexed().len() == self.entries@.len());
            None
        }
    }

    /// The program and the arguments that launch an entry or one of its actions.
    pub fn launch_argv(
        &self,
        desktop_id: &str,
        action_id: Option<&str>,
        resources: &LaunchResources,
    ) -> (argv: Result<Vec<String>, SessionError>)
        ensures
            listed(argv) == launched(
                self.indexed(),
                desktop_id@,
                match action_id {
                    Some(id) => Some(id@),
                    None => None,
                },
                resources@,
            ),
    {
        match validate_resources(resources) {
            Ok(()) => {},
            Err(error) => return Err(error),
        }
        let at: usize = self.find(desktop_id);
        assert(self.indexed().len() == self.entries@.len());
        proof {
            first_with_is(self.indexed(), desktop_id@, at as int);
        }
        if at >= self.entries.len() {
            return Err(SessionError::new(ErrorKind::NotFound, "Desktop Entry is not indexed"));
        }
        let entry = &self.entries[at];
        assert(self.indexed()[at as int] == entry@);
        match action_id {
            None => expand_exec(entry.exec_line.as_str(), &entry.fields(), resources),
            Some(id) => {
                let i: usize = find_action(&entry.actions, id);
                assert(entry@.actions.len() == entry.actions@.len());
                if i >= entry.actions.len() {
                    return Err(
                        SessionError::new(ErrorKind::NotFound, "Desktop Action is not indexed"),
                    );
                }
                assert(entry@.actions[i as int] == entry.actions@[i as int]@);
                expand_exec(entry.actions[i].exec_line.as_str(), &entry.fields(), resources)
            },
        }
    }
}

/// The place of the first entry with an identifier, or the number of entries.
pub open spec fn first_with(entries: Seq<EntryView>, id: Seq<char>) -> int
    decreases entries.len(),
{
    if entries.len() == 0 || entries[0].desktop_id == id {
        0
    } else {
        1 + first_with(entries.skip(1), id)
    }
}

proof fn first_with_is(entries: Seq<EntryView>, id: Seq<char>, at: int)
    requires
        0 <= at <= entries.len(),
        at < entries.len() ==> entries[at].desktop_id == id,
        forall|i: int| 0 <= i < at ==> (#[trigger] entries[i]).desktop_id != id,
    ensures
        first_with(entries, id) == at,
    decreases entries.len(),
{
    if at > 0 {
        assert(entries[0].desktop_id != id);
        let rest = entries.skip(1);
        assert forall|i: int| 0 <= i < at - 1 implies (#[trigger] rest[i]).desktop_id != id by {
            assert(rest[i] == entries[i + 1]);
        }
        first_with_is(rest, id, at - 1);
    }
}

/// The place of the first action with an identifier, or the number of actions.
pub open spec fn first_action(actions: Seq<super::entry::ActionView>, id: Seq<char>) -> int
    decreases actions.len(),
{
    if actions.len() == 0 || actions[0].id == id {
        0
    } else {
        1 + first_action(actions.skip(1), id)
    }
}

proof fn first_action_is(actions: Seq<super::entry::ActionView>, id: Seq<char>, at: int)
    requires
        0 <= at <= actions.len(),
        at < actions.len() ==> actions[at].id == id,
        forall|i: int| 0 <= i < at ==> (#[trigger] actions[i]).id != id,
    ensures
        first_action(actions, id) == at,
    decreases actions.len(),
{
    if at > 0 {
        assert(actions[0].id != id);
        let rest = actions.skip(1);
        assert forall|i: int| 0 <= i < at - 1 implies (#[trigger] rest[i]).id != id by {
            assert(rest[i] == actions[i + 1]);
        }
        first_action_is(rest, id, at - 1);
    }
}

fn find_action(actions: &Vec<DesktopAction>, id: &str) -> (at: usize)
    ensures
        at == first_action(views(actions@), id@),
        at <= actions@.len(),
{
    let ghost all = views(actions@);
    let mut at: usize = 0;
    while at < actions.len()
        invariant
            at <= actions@.len(),
            all == views(actions@),
            forall|j: int| 0 <= j < at ==> (#[trigger] all[j]).id != id@,
        decreases actions.len() - at,
    {
        assert(all[at as int] == actions@[at as int]@);
        if same_text(actions[at].id.as_str(), id) {
            proof {
                first_action_is(all, id@, at as int);
            }
            return at;
        }
        at = at + 1;
    }
    proof {
        assert(all.len() == actions@.len());
        first_action_is(all, id@, at as int);
    }
    at
}

/// The program and the arguments that launch an entry or one of its actions.
pub open spec fn launched(
    entries: Seq<EntryView>,
    desktop_id: Seq<char>,
    action_id: Option<Seq<char>>,
    resources: ResourcesView,
) -> Result<Seq<Seq<char>>, Fault> {
    match checked_resources(resources) {
        Err(fault) => Err(fault),
        Ok(()) => {
            let at = first_with(entries, desktop_id);
            if at >= entries.len() {
                Err((ErrorKind::NotFound, "Desktop Entry is not indexed"@))
            } else {
                let entry = entries[at];
                match action_id {
                    None => expanded(entry.exec_line, entry.fields(), resources),
                    Some(id) => {
                        let action = first_action(entry.actions, id);
                        if action >= entry.actions.len() {
                            Err((ErrorKind::NotFound, "Desktop Action is not indexed"@))
                        } else {
                            expanded(
                                entry.actions[action].exec_line,
                                entry.fields(),
                                resources,
                            )
                        }
                    },
                }
            }
        },
    }
}

proof fn place_for_is_a_place(entries: Seq<EntryView>, id: Seq<char>)
    ensures
        0 <= place_for(entries, id) <= entries.len(),
    decreases entries.len(),
{
    if entries.len() > 0 {
        place_for_is_a_place(entries.skip(1), id);
    }
}

/// Whether each of the entries, and each of its actions, can be launched.
pub open spec fn all_launchable(entries: Seq<EntryView>) -> bool {
    forall|i: int| 0 <= i < entries.len() ==> launchable(#[trigger] entries[i])
}

proof fn scans_are_launchable(
    tries: Tries,
    desktops: Seq<Seq<char>>,
    files: Seq<FileView>,
    scan: ScanView,
)
    requires
        files_by(tries, desktops, files, Ok::<ScanView, Fault>(scan)),
    ensures
        all_launchable(scan.entries),
    decreases files.len(),
{
    if files.len() > 0 {
        let next = Ok::<ScanView, Fault>(scan);
        let before = choose|before: Result<ScanView, Fault>|
            files_by(tries, desktops, files.drop_last(), before) && #[trigger] then_by(
                tries,
                desktops,
                before,
                files.last(),
                next,
            );
        let earlier = before->Ok_0;
        let file = files.last();
        scans_are_launchable(tries, desktops, files.drop_last(), earlier);
        if !earlier.taken.contains(entry_id(file)) {
            let entry = choose|entry: Option<EntryView>| #[trigger]
                entry_of(tries, file, desktops, entry) && next == Ok::<ScanView, Fault>(
                    with_file(earlier, entry_id(file), entry),
                );
            if let Some(entry) = entry {
                assert(launchable(entry));
                let at = place_for(earlier.entries, entry.desktop_id);
                place_for_is_a_place(earlier.entries, entry.desktop_id);
                assert forall|i: int| 0 <= i < scan.entries.len() implies launchable(
                    #[trigger] scan.entries[i],
                ) by {
                    if i < at {
                        assert(scan.entries[i] == earlier.entries[i]);
                    } else if i > at {
                        assert(scan.entries[i] == earlier.entries[i - 1]);
                    }
                }
            }
        }
    }
}

/// Every entry that was indexed can be launched, and so can each of its actions: the
/// first one with its identifier, where an entry has several.
pub proof fn whatever_is_indexed_can_be_launched(
    tries: Tries,
    desktops: Seq<Seq<char>>,
    files: Seq<FileView>,
    entries: Seq<EntryView>,
    at: int,
    action: int,
)
    requires
        scanned_by(tries, desktops, files, Ok::<Seq<EntryView>, Fault>(entries)),
        in_order(entries),
        0 <= at < entries.len(),
    ensures
        launched(entries, entries[at].desktop_id, None, no_resources()) is Ok,
        0 <= action < entries[at].actions.len() ==> launched(
            entries,
            entries[at].desktop_id,
            Some(entries[at].actions[action].id),
            no_resources(),
        ) is Ok,
{
    let scan = choose|scan: Result<ScanView, Fault>| #[trigger]
        files_by(tries, desktops, files, scan) && scan is Ok && scan->Ok_0.entries == entries;
    scans_are_launchable(tries, desktops, files, scan->Ok_0);
    let id = entries[at].desktop_id;
    assert forall|i: int| 0 <= i < at implies (#[trigger] entries[i]).desktop_id != id by {
        assert(lex_less(entries[i].desktop_id, entries[at].desktop_id));
        lex_less_total(entries[i].desktop_id, id);
    }
    first_with_is(entries, id, at);
    assert(launchable(entries[at]));
    if 0 <= action < entries[at].actions.len() {
        first_action_is_found(entries[at].actions, action);
    }
}

proof fn first_action_is_found(actions: Seq<super::entry::ActionView>, at: int)
    requires
        0 <= at < actions.len(),
    ensures
        0 <= first_action(actions, actions[at].id) < actions.len(),
    decreases actions.len(),
{
    if actions[0].id != actions[at].id {
        assert(actions.skip(1)[at - 1] == actions[at]);
        first_action_is_found(actions.skip(1), at - 1);
    }
}

fn has_text(list: &Vec<String>, text: &str) -> (found: bool)
    ensures
        found == texts(list@).contains(text@),
{
    for i in 0..list.len()
        invariant
            forall|j: int| 0 <= j < i ==> #[trigger] texts(list@)[j] != text@,
    {
        assert(texts(list@)[i as int] == list@[i as int]@);
        if same_text(list[i].as_str(), text) {
            return true;
        }
    }
    false
}

fn insert_entry(entries: &mut Vec<DesktopEntry>, entry: DesktopEntry)
    requires
        in_order(views(old(entries)@)),
    ensures
        views(final(entries)@) == with_entry(views(old(entries)@), entry@),
{
    let ghost all = views(entries@);
    let mut at: usize = 0;
    assert(all.skip(0) =~= all);
    while at < entries.len() && text_before(
        entries[at].desktop_id.as_str(),
        entry.desktop_id.as_str(),
    )
        invariant
            at <= entries@.len(),
            all == views(entries@),
            place_for(all, entry@.desktop_id) == at + place_for(
                all.skip(at as int),
                entry@.desktop_id,
            ),
        decreases entries.len() - at,
    {
        assert(all.skip(at as int)[0] == entries@[at as int]@);
        assert(all.skip(at as int).skip(1) =~= all.skip(at + 1));
        at = at + 1;
    }
    proof {
        if at < entries@.len() {
            assert(all.skip(at as int)[0] == entries@[at as int]@);
        }
        assert(all.len() == entries@.len());
    }
    entries.insert(at, entry);
    assert(views(entries@) =~= all.insert(at as int, entry@));
}

} // verus!
