//! Paths of the file system, as bytes.

use vstd::prelude::*;

verus! {

/// The byte that separates the parts of a path.
pub const SEPARATOR: u8 = 0x2f;

pub open spec fn is_absolute(path: Seq<u8>) -> bool {
    path.len() > 0 && path[0] == SEPARATOR
}

pub fn absolute_path(path: &[u8]) -> (absolute: bool)
    ensures
        absolute == is_absolute(path@),
{
    path.len() > 0 && path[0] == SEPARATOR
}

pub fn has_zero(path: &[u8]) -> (found: bool)
    ensures
        found == path@.contains(0u8),
{
    for i in 0..path.len()
        invariant
            forall|j: int| 0 <= j < i ==> path@[j] != 0u8,
    {
        if path[i] == 0 {
            assert(path@[i as int] == 0u8);
            return true;
        }
    }
    false
}

/// A path below another.
pub open spec fn joined(base: Seq<u8>, rest: Seq<u8>) -> Seq<u8> {
    if base.len() == 0 || base.last() == SEPARATOR {
        base + rest
    } else {
        base.push(SEPARATOR) + rest
    }
}

/// A path below another; `rest` is taken as relative.
pub fn join_path(base: &[u8], rest: &[u8]) -> (path: Vec<u8>)
    ensures
        path@ == joined(base@, rest@),
{
    let mut path: Vec<u8> = Vec::new();
    path.extend_from_slice(base);
    assert(path@ =~= base@);
    if base.len() > 0 && base[base.len() - 1] != SEPARATOR {
        path.push(SEPARATOR);
    }
    path.extend_from_slice(rest);
    assert(path@ =~= joined(base@, rest@));
    path
}

/// The names on a path from the root, with a part that is still being read.
/// Empty parts and single dots name nothing.
pub open spec fn named(names: Seq<Seq<u8>>, part: Seq<u8>) -> Seq<Seq<u8>> {
    if part.len() == 0 || part == seq![0x2eu8] {
        names
    } else {
        names.push(part)
    }
}

/// The names before the last separator, and what follows it.
pub open spec fn parts(path: Seq<u8>) -> (Seq<Seq<u8>>, Seq<u8>)
    decreases path.len(),
{
    if path.len() == 0 {
        (Seq::empty(), Seq::empty())
    } else {
        let (names, part) = parts(path.drop_last());
        if path.last() == SEPARATOR {
            (named(names, part), Seq::empty())
        } else {
            (names, part.push(path.last()))
        }
    }
}

/// The names on a path.
pub open spec fn components(path: Seq<u8>) -> Seq<Seq<u8>> {
    named(parts(path).0, parts(path).1)
}

pub open spec fn name_views(names: Seq<Vec<u8>>) -> Seq<Seq<u8>> {
    names.map_values(|name: Vec<u8>| name@)
}

fn add_name(names: Vec<Vec<u8>>, part: Vec<u8>) -> (out: Vec<Vec<u8>>)
    ensures
        name_views(out@) == named(name_views(names@), part@),
{
    if part.len() == 0 {
        return names;
    }
    if part.len() == 1 && part[0] == 0x2e {
        assert(part@ =~= seq![0x2eu8]);
        return names;
    }
    let mut out = names;
    out.push(part);
    assert(name_views(out@) =~= name_views(names@).push(part@));
    out
}

/// The names on a path.
pub fn path_components(path: &[u8]) -> (names: Vec<Vec<u8>>)
    ensures
        name_views(names@) == components(path@),
{
    let mut names: Vec<Vec<u8>> = Vec::new();
    let mut part: Vec<u8> = Vec::new();
    assert(name_views(names@) =~= Seq::<Seq<u8>>::empty());
    assert(path@.take(0).len() == 0);
    for i in 0..path.len()
        invariant
            parts(path@.take(i as int)) == (name_views(names@), part@),
    {
        assert(path@.take(i + 1).drop_last() =~= path@.take(i as int));
        assert(path@.take(i + 1).last() == path@[i as int]);
        if path[i] == SEPARATOR {
            names = add_name(names, part);
            part = Vec::new();
        } else {
            part.push(path[i]);
        }
    }
    assert(path@.take(path@.len() as int) =~= path@);
    add_name(names, part)
}

/// Whether a path is absolute and leads nowhere but down, without a zero byte.
pub open spec fn is_clean(path: Seq<u8>) -> bool {
    &&& is_absolute(path)
    &&& !components(path).contains(seq![0x2eu8, 0x2eu8])
    &&& !path.contains(0u8)
}

pub fn clean_absolute(path: &[u8]) -> (clean: bool)
    ensures
        clean == is_clean(path@),
{
    if !absolute_path(path) || has_zero(path) {
        return false;
    }
    let names = path_components(path);
    for i in 0..names.len()
        invariant
            name_views(names@) == components(path@),
            forall|j: int| 0 <= j < i ==> components(path@)[j] != seq![0x2eu8, 0x2eu8],
    {
        assert(components(path@)[i as int] == names@[i as int]@);
        if names[i].len() == 2 && names[i][0] == 0x2e && names[i][1] == 0x2e {
            assert(names@[i as int]@ =~= seq![0x2eu8, 0x2eu8]);
            return false;
        }
    }
    true
}

/// Whether two names are the same.
pub fn same_name(left: &[u8], right: &[u8]) -> (same: bool)
    ensures
        same == (left@ == right@),
{
    if left.len() != right.len() {
        return false;
    }
    for i in 0..left.len()
        invariant
            left@.len() == right@.len(),
            forall|j: int| 0 <= j < i ==> left@[j] == right@[j],
    {
        if left[i] != right[i] {
            return false;
        }
    }
    assert(left@ =~= right@);
    true
}

/// The path from the root through names.
pub open spec fn from_root(names: Seq<Seq<u8>>) -> Seq<u8>
    decreases names.len(),
{
    if names.len() == 0 {
        seq![SEPARATOR]
    } else {
        joined(from_root(names.drop_last()), names.last())
    }
}

/// The path from the root through names.
pub fn path_from_root(names: &Vec<Vec<u8>>) -> (path: Vec<u8>)
    ensures
        path@ == from_root(name_views(names@)),
{
    let mut path: Vec<u8> = Vec::new();
    path.push(SEPARATOR);
    let ghost all = name_views(names@);
    assert(path@ =~= from_root(all.take(0)));
    for i in 0..names.len()
        invariant
            all == name_views(names@),
            path@ == from_root(all.take(i as int)),
    {
        assert(all.take(i + 1).drop_last() =~= all.take(i as int));
        assert(all.take(i + 1).last() == names@[i as int]@);
        path = join_path(path.as_slice(), names[i].as_slice());
    }
    assert(all.take(names@.len() as int) =~= all);
    path
}

/// Whether a path leads to an entry of a directory.
pub open spec fn is_entry_of(path: Seq<u8>, directory: Seq<u8>) -> bool {
    components(path).len() > 0 && components(path).drop_last() == components(directory)
}

pub fn entry_of(path: &[u8], directory: &[u8]) -> (entry: bool)
    ensures
        entry == is_entry_of(path@, directory@),
{
    let names = path_components(path);
    let above = path_components(directory);
    if names.len() == 0 || names.len() - 1 != above.len() {
        proof {
            assert(components(path@).len() == names@.len());
            assert(components(directory@).len() == above@.len());
        }
        return false;
    }
    let ghost inner = components(path@).drop_last();
    for i in 0..above.len()
        invariant
            name_views(names@) == components(path@),
            name_views(above@) == components(directory@),
            names@.len() == above@.len() + 1,
            inner == components(path@).drop_last(),
            forall|j: int| 0 <= j < i ==> inner[j] == components(directory@)[j],
    {
        assert(inner[i as int] == names@[i as int]@);
        assert(components(directory@)[i as int] == above@[i as int]@);
        if !same_name(names[i].as_slice(), above[i].as_slice()) {
            return false;
        }
    }
    assert(inner =~= components(directory@));
    true
}

/// The parts of a list of paths, which are separated by colons.
pub open spec fn listed_paths(list: Seq<u8>) -> Seq<Seq<u8>>
    decreases list.len(),
{
    if list.len() == 0 {
        seq![Seq::empty()]
    } else {
        let before = listed_paths(list.drop_last());
        if list.last() == 0x3a {
            before.push(Seq::empty())
        } else {
            before.update(before.len() - 1, before.last().push(list.last()))
        }
    }
}

/// The parts of a list of paths.
pub fn split_paths(list: &[u8]) -> (paths: Vec<Vec<u8>>)
    ensures
        name_views(paths@) == listed_paths(list@),
{
    let mut paths: Vec<Vec<u8>> = Vec::new();
    let mut part: Vec<u8> = Vec::new();
    assert(name_views(paths@).push(part@) =~= seq![Seq::<u8>::empty()]);
    assert(list@.take(0).len() == 0);
    for i in 0..list.len()
        invariant
            listed_paths(list@.take(i as int)) == name_views(paths@).push(part@),
    {
        let ghost shown = list@.take(i + 1);
        assert(shown.drop_last() =~= list@.take(i as int));
        assert(shown.last() == list@[i as int]);
        let ghost before = name_views(paths@).push(part@);
        if list[i] == 0x3a {
            let ghost whole = part@;
            let ghost earlier = paths@;
            paths.push(part);
            part = Vec::new();
            assert(name_views(paths@) =~= name_views(earlier).push(whole));
            assert(listed_paths(shown) =~= name_views(paths@).push(part@));
        } else {
            part.push(list[i]);
            assert(listed_paths(shown) =~= name_views(paths@).push(part@));
        }
    }
    assert(list@.take(list@.len() as int) =~= list@);
    let ghost earlier = paths@;
    let ghost last = part@;
    paths.push(part);
    assert(name_views(paths@) =~= name_views(earlier).push(last));
    paths
}

// ---------------------------------------------------------------------------
// The order of paths
// ---------------------------------------------------------------------------

/// Whether a name does not come after another, byte by byte.
pub open spec fn name_up_to(left: Seq<u8>, right: Seq<u8>) -> bool
    decreases left.len(),
{
    if left.len() == 0 {
        true
    } else if right.len() == 0 {
        false
    } else if left[0] != right[0] {
        left[0] < right[0]
    } else {
        name_up_to(left.skip(1), right.skip(1))
    }
}

/// Whether names do not come after others, name by name.
pub open spec fn names_up_to(left: Seq<Seq<u8>>, right: Seq<Seq<u8>>) -> bool
    decreases left.len(),
{
    if left.len() == 0 {
        true
    } else if right.len() == 0 {
        false
    } else if left[0] != right[0] {
        name_up_to(left[0], right[0])
    } else {
        names_up_to(left.skip(1), right.skip(1))
    }
}

/// Whether a path does not come after another.
pub open spec fn path_up_to(left: Seq<u8>, right: Seq<u8>) -> bool {
    names_up_to(components(left), components(right))
}

proof fn name_order_is_total(left: Seq<u8>, right: Seq<u8>)
    ensures
        name_up_to(left, right) || name_up_to(right, left),
        name_up_to(left, right) && name_up_to(right, left) ==> left == right,
    decreases left.len(),
{
    if left.len() == 0 || right.len() == 0 {
        if left.len() == 0 && right.len() == 0 {
            assert(left =~= right);
        }
    } else if left[0] == right[0] {
        name_order_is_total(left.skip(1), right.skip(1));
        assert(left =~= seq![left[0]] + left.skip(1));
        assert(right =~= seq![right[0]] + right.skip(1));
    }
}

proof fn name_order_is_transitive(left: Seq<u8>, middle: Seq<u8>, right: Seq<u8>)
    requires
        name_up_to(left, middle),
        name_up_to(middle, right),
    ensures
        name_up_to(left, right),
    decreases left.len(),
{
    if left.len() > 0 && left[0] == middle[0] && middle[0] == right[0] {
        name_order_is_transitive(left.skip(1), middle.skip(1), right.skip(1));
    }
}

proof fn names_order_is_total(left: Seq<Seq<u8>>, right: Seq<Seq<u8>>)
    ensures
        names_up_to(left, right) || names_up_to(right, left),
    decreases left.len(),
{
    if left.len() > 0 && right.len() > 0 {
        if left[0] == right[0] {
            names_order_is_total(left.skip(1), right.skip(1));
        } else {
            name_order_is_total(left[0], right[0]);
        }
    }
}

proof fn names_order_is_transitive(
    left: Seq<Seq<u8>>,
    middle: Seq<Seq<u8>>,
    right: Seq<Seq<u8>>,
)
    requires
        names_up_to(left, middle),
        names_up_to(middle, right),
    ensures
        names_up_to(left, right),
    decreases left.len(),
{
    if left.len() > 0 {
        if left[0] == middle[0] && middle[0] == right[0] {
            names_order_is_transitive(left.skip(1), middle.skip(1), right.skip(1));
        } else if left[0] != middle[0] && middle[0] != right[0] {
            name_order_is_transitive(left[0], middle[0], right[0]);
            if left[0] == right[0] {
                name_order_is_total(left[0], middle[0]);
            }
        }
    }
}

/// How many of a list of paths stand before a place where a path can be put: all
/// up to the last that does not come after it.
pub open spec fn place_among(list: Seq<Seq<u8>>, path: Seq<u8>) -> int
    decreases list.len(),
{
    if list.len() == 0 {
        0
    } else if path_up_to(list.last(), path) {
        list.len() as int
    } else {
        place_among(list.drop_last(), path)
    }
}

/// A list of paths in their order. Paths with the same names stay in the order in
/// which they were listed.
pub open spec fn in_path_order(list: Seq<Seq<u8>>) -> Seq<Seq<u8>>
    decreases list.len(),
{
    if list.len() == 0 {
        Seq::empty()
    } else {
        let earlier = in_path_order(list.drop_last());
        earlier.insert(place_among(earlier, list.last()), list.last())
    }
}

pub open spec fn paths_ascend(list: Seq<Seq<u8>>) -> bool {
    forall|i: int, j: int|
        0 <= i < j < list.len() ==> path_up_to(#[trigger] list[i], #[trigger] list[j])
}

proof fn place_among_facts(list: Seq<Seq<u8>>, path: Seq<u8>)
    ensures
        0 <= place_among(list, path) <= list.len(),
        place_among(list, path) > 0 ==> path_up_to(list[place_among(list, path) - 1], path),
        forall|i: int|
            place_among(list, path) <= i < list.len() ==> !path_up_to(#[trigger] list[i], path),
    decreases list.len(),
{
    if list.len() > 0 && !path_up_to(list.last(), path) {
        place_among_facts(list.drop_last(), path);
        assert forall|i: int| place_among(list, path) <= i < list.len() implies !path_up_to(
            #[trigger] list[i],
            path,
        ) by {
            if i < list.len() - 1 {
                assert(list.drop_last()[i] == list[i]);
            }
        }
    }
}

/// Putting paths in order keeps all of them, and leaves none before one that it
/// comes after.
pub proof fn ordered_paths_ascend(list: Seq<Seq<u8>>)
    ensures
        in_path_order(list).to_multiset() == list.to_multiset(),
        paths_ascend(in_path_order(list)),
    decreases list.len(),
{
    broadcast use vstd::seq_lib::group_to_multiset_ensures;

    if list.len() == 0 {
        assert(list =~= Seq::empty());
    } else {
        let path = list.last();
        let earlier = in_path_order(list.drop_last());
        let at = place_among(earlier, path);
        ordered_paths_ascend(list.drop_last());
        place_among_facts(earlier, path);
        assert(list =~= list.drop_last().push(path));
        vstd::seq_lib::to_multiset_insert(earlier, at, path);
        let now = in_path_order(list);
        assert forall|i: int, j: int| 0 <= i < j < now.len() implies path_up_to(
            #[trigger] now[i],
            #[trigger] now[j],
        ) by {
            if j == at {
                if i < at - 1 {
                    assert(path_up_to(earlier[i], earlier[at - 1]));
                    names_order_is_transitive(
                        components(earlier[i]),
                        components(earlier[at - 1]),
                        components(path),
                    );
                }
            } else if i == at {
                assert(!path_up_to(earlier[j - 1], path));
                names_order_is_total(components(path), components(earlier[j - 1]));
            } else {
                let from = if i < at { i } else { i - 1 };
                let to = if j < at { j } else { j - 1 };
                assert(path_up_to(earlier[from], earlier[to]));
            }
        }
    }
}

fn name_not_after(left: &[u8], right: &[u8]) -> (before: bool)
    ensures
        before == name_up_to(left@, right@),
{
    let mut i: usize = 0;
    assert(left@.skip(0) =~= left@);
    assert(right@.skip(0) =~= right@);
    while i < left.len() && i < right.len()
        invariant
            i <= left.len(),
            i <= right.len(),
            name_up_to(left@, right@) == name_up_to(left@.skip(i as int), right@.skip(i as int)),
        decreases left.len() - i,
    {
        let ghost rest_left = left@.skip(i as int);
        let ghost rest_right = right@.skip(i as int);
        assert(rest_left[0] == left@[i as int] && rest_right[0] == right@[i as int]);
        if left[i] != right[i] {
            return left[i] < right[i];
        }
        assert(rest_left.skip(1) =~= left@.skip(i + 1));
        assert(rest_right.skip(1) =~= right@.skip(i + 1));
        i += 1;
    }
    i == left.len()
}

fn names_not_after(left: &Vec<Vec<u8>>, right: &Vec<Vec<u8>>) -> (before: bool)
    ensures
        before == names_up_to(name_views(left@), name_views(right@)),
{
    let ghost lefts = name_views(left@);
    let ghost rights = name_views(right@);
    let mut i: usize = 0;
    assert(lefts.skip(0) =~= lefts);
    assert(rights.skip(0) =~= rights);
    while i < left.len() && i < right.len()
        invariant
            i <= left.len(),
            i <= right.len(),
            lefts == name_views(left@),
            rights == name_views(right@),
            names_up_to(lefts, rights) == names_up_to(lefts.skip(i as int), rights.skip(i as int)),
        decreases left.len() - i,
    {
        let ghost rest_left = lefts.skip(i as int);
        let ghost rest_right = rights.skip(i as int);
        assert(rest_left[0] == left@[i as int]@ && rest_right[0] == right@[i as int]@);
        if !same_name(left[i].as_slice(), right[i].as_slice()) {
            return name_not_after(left[i].as_slice(), right[i].as_slice());
        }
        assert(rest_left.skip(1) =~= lefts.skip(i + 1));
        assert(rest_right.skip(1) =~= rights.skip(i + 1));
        i += 1;
    }
    i == left.len()
}

/// Puts paths in their order.
pub fn sort_paths(paths: Vec<Vec<u8>>) -> (sorted: Vec<Vec<u8>>)
    ensures
        name_views(sorted@) == in_path_order(name_views(paths@)),
{
    let mut sorted: Vec<Vec<u8>> = Vec::new();
    let mut names: Vec<Vec<Vec<u8>>> = Vec::new();
    let ghost all = name_views(paths@);
    assert(name_views(sorted@) =~= in_path_order(all.take(0)));
    for path in it: paths
        invariant
            all == name_views(it.seq()),
            name_views(sorted@) == in_path_order(all.take(it.index() as int)),
            names@.len() == sorted@.len(),
            forall|k: int|
                0 <= k < names@.len() ==> name_views(#[trigger] names@[k]@) == components(
                    sorted@[k]@,
                ),
    {
        let ghost earlier = name_views(sorted@);
        let ghost done = all.take(it.index() + 1);
        assert(done.drop_last() =~= all.take(it.index() as int));
        assert(done.last() == path@);
        let own = path_components(path.as_slice());
        let mut at: usize = sorted.len();
        assert(earlier.take(at as int) =~= earlier);
        while at > 0 && !names_not_after(&names[at - 1], &own)
            invariant
                at <= sorted@.len(),
                names@.len() == sorted@.len(),
                earlier == name_views(sorted@),
                name_views(own@) == components(path@),
                forall|k: int|
                    0 <= k < names@.len() ==> name_views(#[trigger] names@[k]@) == components(
                        sorted@[k]@,
                    ),
                place_among(earlier, path@) == place_among(earlier.take(at as int), path@),
            decreases at,
        {
            let ghost rest = earlier.take(at as int);
            assert(rest.last() == sorted@[at - 1]@);
            assert(rest.drop_last() =~= earlier.take(at - 1));
            at -= 1;
        }
        proof {
            let rest = earlier.take(at as int);
            if at > 0 {
                assert(rest.last() == sorted@[at - 1]@);
            }
            assert(place_among(earlier, path@) == at);
            assert(name_views(sorted@.insert(at as int, path)) =~= earlier.insert(
                at as int,
                path@,
            ));
        }
        sorted.insert(at, path);
        names.insert(at, own);
    }
    assert(all.take(all.len() as int) =~= all);
    sorted
}

} // verus!
