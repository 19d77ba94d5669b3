//! Where desktop entries are looked for.

use vstd::prelude::*;
use vstd::utf8::encode_utf8;

use crate::error::{fault_of, malformed, told, ErrorKind, Fault, SessionError};
use crate::paths::{
    absolute_path, in_path_order, is_absolute, join_path, joined, listed_paths, name_views,
    sort_paths, split_paths,
};
use crate::text::{chars_of, pieces, split, split_chars, string_of, texts};

verus! {

/// How many desktop entries there may be below a root.
pub const MAX_ENTRIES: usize = 16_384;

/// How many directories are entered below a root.
pub const MAX_DIRECTORIES: usize = 4_096;

/// How deep the directories below a root may be nested.
pub const MAX_DEPTH: usize = 32;

// ---------------------------------------------------------------------------
// Roots
// ---------------------------------------------------------------------------

/// Where the data of the user is.
pub open spec fn data_home(home: Option<Seq<u8>>, data_home: Option<Seq<u8>>) -> Option<Seq<u8>> {
    match data_home {
        Some(path) => Some(path),
        None => match home {
            Some(home) => Some(joined(home, encode_utf8(".local/share"@))),
            None => None,
        },
    }
}

/// Where the data of the system is.
pub open spec fn data_directories(list: Option<Seq<u8>>) -> Seq<Seq<u8>> {
    match list {
        Some(list) => listed_paths(list),
        None => seq![encode_utf8("/usr/local/share"@), encode_utf8("/usr/share"@)],
    }
}

pub open spec fn applications_below(paths: Seq<Seq<u8>>) -> Seq<Seq<u8>> {
    paths.map_values(|path: Seq<u8>| joined(path, encode_utf8("applications"@)))
}

/// The directories in which desktop entries are looked for, the first of which
/// is that of the user.
pub open spec fn application_roots(
    home: Option<Seq<u8>>,
    user: Option<Seq<u8>>,
    list: Option<Seq<u8>>,
) -> Result<Seq<Seq<u8>>, Fault> {
    match data_home(home, user) {
        None => Err((ErrorKind::NotFound, "XDG data home is unavailable"@)),
        Some(first) => {
            let roots = applications_below(seq![first] + data_directories(list));
            if exists|i: int| 0 <= i < roots.len() && !is_absolute(#[trigger] roots[i]) {
                Err((ErrorKind::InvalidInput, "XDG application roots must be absolute"@))
            } else {
                Ok(roots)
            }
        },
    }
}

pub open spec fn slice_bytes(value: Option<&[u8]>) -> Option<Seq<u8>> {
    match value {
        Some(value) => Some(value@),
        None => None,
    }
}

fn bytes_in(text: &str) -> (bytes: Vec<u8>)
    ensures
        bytes@ == encode_utf8(text@),
{
    let mut bytes: Vec<u8> = Vec::new();
    bytes.extend_from_slice(text.as_bytes());
    assert(bytes@ =~= encode_utf8(text@));
    bytes
}

fn system_directories(list: Option<&[u8]>) -> (paths: Vec<Vec<u8>>)
    ensures
        name_views(paths@) == data_directories(slice_bytes(list)),
{
    match list {
        Some(list) => split_paths(list),
        None => {
            let paths = vec![bytes_in("/usr/local/share"), bytes_in("/usr/share")];
            assert(name_views(paths@) =~= data_directories(None));
            paths
        },
    }
}

/// The directories in which desktop entries are looked for, from what the
/// environment says of the home of the user and of the data directories.
pub fn xdg_roots(home: Option<&[u8]>, user: Option<&[u8]>, list: Option<&[u8]>) -> (roots: Result<
    Vec<Vec<u8>>,
    SessionError,
>)
    ensures
        match roots {
            Ok(roots) => application_roots(
                slice_bytes(home),
                slice_bytes(user),
                slice_bytes(list),
            ) == Ok::<Seq<Seq<u8>>, Fault>(name_views(roots@)),
            Err(error) => application_roots(
                slice_bytes(home),
                slice_bytes(user),
                slice_bytes(list),
            ) == Err::<Seq<Seq<u8>>, Fault>(fault_of(error)),
        },
{
    let first = match user {
        Some(path) => {
            let mut copy: Vec<u8> = Vec::new();
            copy.extend_from_slice(path);
            assert(copy@ =~= path@);
            copy
        },
        None => match home {
            Some(home) => join_path(home, ".local/share".as_bytes()),
            None => {
                return Err(
                    SessionError::new(ErrorKind::NotFound, "XDG data home is unavailable"),
                );
            },
        },
    };
    let system = system_directories(list);
    let ghost all = seq![first@] + name_views(system@);
    let ghost wanted = applications_below(all);
    let below = bytes_in("applications");
    let mut roots: Vec<Vec<u8>> = Vec::new();
    roots.push(join_path(first.as_slice(), below.as_slice()));
    assert(all[0] == first@);
    assert(name_views(roots@) =~= wanted.take(1));
    for i in 0..system.len()
        invariant
            all == seq![first@] + name_views(system@),
            wanted == applications_below(all),
            below@ == encode_utf8("applications"@),
            name_views(roots@) == wanted.take(i + 1),
    {
        let ghost before = roots@;
        let root = join_path(system[i].as_slice(), below.as_slice());
        let ghost shown = root@;
        roots.push(root);
        proof {
            assert(all[i + 1] == system@[i as int]@);
            assert(name_views(roots@) =~= name_views(before).push(shown));
            assert(wanted.take(i + 2) =~= wanted.take(i + 1).push(shown));
        }
    }
    assert(name_views(roots@) =~= wanted);
    for i in 0..roots.len()
        invariant
            name_views(roots@) == wanted,
            application_roots(slice_bytes(home), slice_bytes(user), slice_bytes(list)) == (
            if exists|i: int| 0 <= i < wanted.len() && !is_absolute(#[trigger] wanted[i]) {
                Err::<Seq<Seq<u8>>, Fault>(
                    (ErrorKind::InvalidInput, "XDG application roots must be absolute"@),
                )
            } else {
                Ok::<Seq<Seq<u8>>, Fault>(wanted)
            }),
            forall|j: int| 0 <= j < i ==> is_absolute(#[trigger] wanted[j]),
    {
        assert(wanted[i as int] == roots@[i as int]@);
        if !absolute_path(roots[i].as_slice()) {
            return Err(
                SessionError::new(
                    ErrorKind::InvalidInput,
                    "XDG application roots must be absolute",
                ),
            );
        }
    }
    Ok(roots)
}

/// The desktops that the environment names, without empty names.
pub open spec fn desktops_in(names: Seq<Seq<char>>) -> Seq<Seq<char>>
    decreases names.len(),
{
    if names.len() == 0 {
        Seq::empty()
    } else if names.last().len() == 0 {
        desktops_in(names.drop_last())
    } else {
        desktops_in(names.drop_last()).push(names.last())
    }
}

/// The desktops that the environment names.
pub fn current_desktops(value: &str) -> (desktops: Vec<String>)
    ensures
        texts(desktops@) == desktops_in(split(value@, ':')),
{
    let chars = chars_of(value);
    let names = split_chars(chars.as_slice(), ':');
    let ghost all = split(value@, ':');
    let mut desktops: Vec<String> = Vec::new();
    assert(texts(desktops@) =~= desktops_in(all.take(0)));
    for i in 0..names.len()
        invariant
            all == pieces(names@),
            texts(desktops@) == desktops_in(all.take(i as int)),
    {
        proof {
            assert(all.take(i + 1).drop_last() =~= all.take(i as int));
            assert(all.take(i + 1).last() == names@[i as int]@);
        }
        if names[i].len() > 0 {
            let ghost before = desktops@;
            let name = string_of(names[i].as_slice());
            desktops.push(name);
            assert(texts(desktops@) =~= texts(before).push(names@[i as int]@));
        }
    }
    assert(all.take(all.len() as int) =~= all);
    desktops
}

// ---------------------------------------------------------------------------
// Directories
// ---------------------------------------------------------------------------

/// What an entry of a directory is.
#[derive(Debug, Clone, Copy, PartialEq, Eq, Structural)]
pub enum FoundKind {
    Directory,
    File,
    /// A link, which is not followed.
    Link,
    Other,
}

/// Whether a name is that of a desktop entry: something, and then `.desktop`.
pub open spec fn is_desktop_file(name: Seq<u8>) -> bool {
    name.len() > 8 && name.skip(name.len() - 8) == encode_utf8(".desktop"@)
}

/// A walk through the directories below a root.
pub struct DesktopWalk {
    /// How the root is shown.
    root: String,
    pending: Vec<(Vec<u8>, usize)>,
    directories: usize,
    depth: usize,
    output: Vec<Vec<u8>>,
}

pub struct WalkView {
    pub root: Seq<char>,
    /// The directories that are still to be entered, with their depths.
    pub pending: Seq<(Seq<u8>, int)>,
    /// How many directories were entered.
    pub directories: int,
    /// The depth of the one that was entered last.
    pub depth: int,
    pub output: Seq<Seq<u8>>,
}

pub open spec fn pending_views(pending: Seq<(Vec<u8>, usize)>) -> Seq<(Seq<u8>, int)> {
    pending.map_values(|entry: (Vec<u8>, usize)| (entry.0@, entry.1 as int))
}

impl View for DesktopWalk {
    type V = WalkView;

    closed spec fn view(&self) -> WalkView {
        WalkView {
            root: self.root@,
            pending: pending_views(self.pending@),
            directories: self.directories as int,
            depth: self.depth as int,
            output: name_views(self.output@),
        }
    }
}

/// Whether a walk may enter one more directory.
pub open spec fn may_enter(walk: WalkView) -> Result<(), Fault> {
    if walk.directories + 1 > MAX_DIRECTORIES || walk.pending.last().1 > MAX_DEPTH {
        malformed("Desktop Entry traversal exceeded limits below "@ + walk.root)
    } else {
        Ok(())
    }
}

/// A walk after an entry of the directory that was entered last. Links are left
/// alone, directories entered later, desktop entries kept.
pub open spec fn with_found(walk: WalkView, path: Seq<u8>, name: Seq<u8>, kind: FoundKind) -> WalkView {
    match kind {
        FoundKind::Directory => WalkView {
            pending: walk.pending.push((path, walk.depth + 1)),
            ..walk
        },
        FoundKind::File => if is_desktop_file(name) {
            WalkView { output: walk.output.push(path), ..walk }
        } else {
            walk
        },
        _ => walk,
    }
}

fn desktop_file(name: &[u8]) -> (is: bool)
    ensures
        is == is_desktop_file(name@),
{
    if name.len() <= 8 {
        return false;
    }
    let suffix = bytes_in(".desktop");
    let tail = vstd::slice::slice_subrange(name, name.len() - 8, name.len());
    assert(tail@ =~= name@.skip(name@.len() - 8));
    crate::paths::same_name(tail, suffix.as_slice())
}

impl DesktopWalk {
    /// Whether no depth is beyond the limit by more than one.
    pub closed spec fn wf(&self) -> bool {
        self.depth <= MAX_DEPTH && self.directories <= MAX_DIRECTORIES
    }

    /// Begins at a root, which is shown as a text.
    pub fn begin(root: Vec<u8>, shown: String) -> (walk: DesktopWalk)
        ensures
            walk.wf(),
            walk@ == (WalkView {
                root: shown@,
                pending: seq![(root@, 0int)],
                directories: 0,
                depth: 0,
                output: Seq::empty(),
            }),
    {
        let ghost start = root@;
        let mut pending: Vec<(Vec<u8>, usize)> = Vec::new();
        pending.push((root, 0));
        let walk = DesktopWalk { root: shown, pending, directories: 0, depth: 0, output: Vec::new() };
        assert(walk@.pending =~= seq![(start, 0int)]);
        assert(walk@.output =~= Seq::<Seq<u8>>::empty());
        walk
    }

    /// The directory that is entered next; nothing when all were.
    pub fn enter(&mut self) -> (directory: Result<Option<Vec<u8>>, SessionError>)
        requires
            old(self).wf(),
        ensures
            final(self).wf(),
            match directory {
                Ok(None) => old(self)@.pending.len() == 0 && final(self)@ == old(self)@,
                Ok(Some(path)) => {
                    &&& old(self)@.pending.len() > 0
                    &&& may_enter(old(self)@) is Ok
                    &&& path@ == old(self)@.pending.last().0
                    &&& final(self)@ == (WalkView {
                        pending: old(self)@.pending.drop_last(),
                        directories: old(self)@.directories + 1,
                        depth: old(self)@.pending.last().1,
                        ..old(self)@
                    })
                },
                Err(error) => {
                    &&& old(self)@.pending.len() > 0
                    &&& may_enter(old(self)@) == Err::<(), Fault>(fault_of(error))
                },
            },
    {
        let ghost before = self.pending@;
        match self.pending.pop() {
            None => Ok(None),
            Some((path, depth)) => {
                proof {
                    assert(pending_views(before).last() == (path@, depth as int));
                    assert(pending_views(self.pending@) =~= pending_views(before).drop_last());
                }
                if self.directories >= MAX_DIRECTORIES || depth > MAX_DEPTH {
                    let mut message = "Desktop Entry traversal exceeded limits below ".to_owned();
                    message.append(self.root.as_str());
                    return Err(SessionError { kind: ErrorKind::InvalidData, message });
                }
                self.directories = self.directories + 1;
                self.depth = depth;
                Ok(Some(path))
            },
        }
    }

    /// Takes up an entry of the directory that was entered last.
    pub fn found(&mut self, path: Vec<u8>, name: &[u8], kind: FoundKind) -> (taken: Result<
        (),
        SessionError,
    >)
        requires
            old(self).wf(),
        ensures
            final(self).wf(),
            final(self)@ == with_found(old(self)@, path@, name@, kind),
            told(taken) == if kind != FoundKind::Link && final(self)@.output.len() > MAX_ENTRIES {
                malformed("too many entries below "@ + old(self)@.root)
            } else {
                Ok(())
            },
    {
        let ghost shown = path@;
        match kind {
            FoundKind::Link => {
                return Ok(());
            },
            FoundKind::Directory => {
                let ghost before = self.pending@;
                let depth: usize = self.depth + 1;
                self.pending.push((path, depth));
                assert(pending_views(self.pending@) =~= pending_views(before).push(
                    (shown, depth as int),
                ));
            },
            FoundKind::File => {
                if desktop_file(name) {
                    let ghost before = self.output@;
                    self.output.push(path);
                    assert(name_views(self.output@) =~= name_views(before).push(shown));
                }
            },
            FoundKind::Other => {},
        }
        assert(name_views(self.output@).len() == self.output@.len());
        if self.output.len() > MAX_ENTRIES {
            let mut message = "too many entries below ".to_owned();
            message.append(self.root.as_str());
            return Err(SessionError { kind: ErrorKind::InvalidData, message });
        }
        Ok(())
    }

    /// The desktop entries that were found, in the order of their paths.
    pub fn finish(self) -> (paths: Vec<Vec<u8>>)
        ensures
            name_views(paths@) == in_path_order(self@.output),
    {
        sort_paths(self.output)
    }
}

/// How many directories may still be entered.
pub open spec fn directories_left(walk: WalkView) -> int {
    MAX_DIRECTORIES - walk.directories
}

/// A walk ends: each directory that is entered leaves fewer that may be, and
/// what is found in one leaves as many.
pub proof fn a_walk_ends(walk: WalkView, path: Seq<u8>, name: Seq<u8>, kind: FoundKind)
    requires
        walk.pending.len() > 0,
        may_enter(walk) is Ok,
    ensures
        ({
            let entered = WalkView {
                pending: walk.pending.drop_last(),
                directories: walk.directories + 1,
                depth: walk.pending.last().1,
                ..walk
            };
            &&& 0 <= directories_left(entered) < directories_left(walk)
            &&& directories_left(with_found(entered, path, name, kind)) == directories_left(
                entered,
            )
        }),
{
}

} // verus!
