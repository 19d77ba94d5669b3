//! The status area: registrations, menus and the invocation of their entries.

use vstd::prelude::*;
use vstd::utf8::encode_utf8;

use crate::command::RunState;
use crate::desktop::domain::{TrayItem, TrayMenuNode};
use crate::error::{
    error_is, fault_of, invalid, invalid_input, malformed, refused, seen, told, ErrorKind, Fault,
    SessionError,
};
use crate::text::{
    alphanumeric_char, blank_text, byte_len, chars_of, contains_char, contains_text, decimal,
    decimal_text, find_char, first_index, has_part, hex_digits, hex_text, is_ascii_alphanumeric,
    is_blank, pieces, same_text, split, split_chars, string_of, text_bytes, texts,
};
use crate::text_map::TextMap;

verus! {

/// How long one operation on the status area may take, in milliseconds.
pub const OPERATION_TIMEOUT: u64 = 1_750;

/// How many items may be registered.
pub const MAX_REGISTRATIONS: usize = 1_024;

/// How deep a menu may be nested.
pub const MAX_MENU_DEPTH: usize = 32;

/// How many nodes one menu may have.
pub const MAX_MENU_NODES: usize = 65_536;

// ---------------------------------------------------------------------------
// Registrations
// ---------------------------------------------------------------------------

pub open spec fn is_component_char(c: char) -> bool {
    is_ascii_alphanumeric(c) || c == '_' || c == '-'
}

/// Whether a text can stand between the dots of a bus name.
pub open spec fn is_component(s: Seq<char>) -> bool {
    &&& s.len() > 0
    &&& s[0] != '-'
    &&& forall|i: int| 0 <= i < s.len() ==> is_component_char(#[trigger] s[i])
}

fn component(s: &[char]) -> (valid: bool)
    ensures
        valid == is_component(s@),
{
    if s.len() == 0 || s[0] == '-' {
        return false;
    }
    for i in 0..s.len()
        invariant
            forall|j: int| 0 <= j < i ==> is_component_char(#[trigger] s@[j]),
    {
        let c: char = s[i];
        if !(alphanumeric_char(c) || c == '_' || c == '-') {
            assert(!is_component_char(s@[i as int]));
            return false;
        }
    }
    true
}

/// A text without the colons that it begins with.
pub open spec fn without_colons(s: Seq<char>) -> Seq<char>
    decreases s.len(),
{
    if s.len() > 0 && s[0] == ':' {
        without_colons(s.skip(1))
    } else {
        s
    }
}

/// Whether a text can name the service of an item: a unique name, which begins
/// with a colon, or a well-known one, which has a dot.
pub open spec fn is_service_name(s: Seq<char>) -> bool {
    &&& s.len() > 0
    &&& byte_len(s) <= 255
    &&& s[0] == ':' || s.contains('.')
    &&& forall|i: int|
        0 <= i < split(without_colons(s), '.').len() ==> is_component(
            #[trigger] split(without_colons(s), '.')[i],
        )
}

fn valid_bus_name(name: &str) -> (valid: bool)
    ensures
        valid == is_service_name(name@),
{
    let chars = chars_of(name);
    let s = chars.as_slice();
    if s.len() == 0 || text_bytes(name) > 255 || !(s[0] == ':' || contains_char(s, '.')) {
        return false;
    }
    let mut at: usize = 0;
    assert(s@.skip(0) =~= s@);
    while at < s.len() && s[at] == ':'
        invariant
            at <= s@.len(),
            without_colons(s@.skip(at as int)) == without_colons(s@),
        decreases s@.len() - at,
    {
        assert(s@.skip(at as int)[0] == s@[at as int]);
        assert(s@.skip(at as int).skip(1) =~= s@.skip(at + 1));
        at = at + 1;
    }
    let rest = vstd::slice::slice_subrange(s, at, s.len());
    assert(rest@ =~= s@.skip(at as int));
    assert(without_colons(s@) == rest@) by {
        if rest@.len() > 0 {
            assert(rest@[0] == s@[at as int]);
        }
    }
    let parts = split_chars(rest, '.');
    for i in 0..parts.len()
        invariant
            pieces(parts@) == split(without_colons(name@), '.'),
            forall|j: int| 0 <= j < i ==> is_component(#[trigger] pieces(parts@)[j]),
    {
        assert(pieces(parts@)[i as int] == parts@[i as int]@);
        if !component(parts[i].as_slice()) {
            return false;
        }
    }
    true
}

pub open spec fn is_path_char(c: char) -> bool {
    is_ascii_alphanumeric(c) || c == '/' || c == '_'
}

/// Whether a text can be the path of an object on the bus.
pub open spec fn is_object_path(s: Seq<char>) -> bool {
    &&& s.len() > 0
    &&& s[0] == '/'
    &&& !has_part(s, "//"@)
    &&& forall|i: int| 0 <= i < s.len() ==> is_path_char(#[trigger] s[i])
}

fn valid_object_path(s: &[char]) -> (valid: bool)
    ensures
        valid == is_object_path(s@),
{
    if s.len() == 0 || s[0] != '/' || contains_text(s, "//") {
        return false;
    }
    for i in 0..s.len()
        invariant
            forall|j: int| 0 <= j < i ==> is_path_char(#[trigger] s@[j]),
    {
        let c: char = s[i];
        if !(alphanumeric_char(c) || c == '/' || c == '_') {
            assert(!is_path_char(s@[i as int]));
            return false;
        }
    }
    true
}

/// The service of a registration: what comes before the first slash.
pub open spec fn service_of(value: Seq<char>) -> Seq<char> {
    value.take(first_index(value, '/'))
}

/// The path of a registration: what begins with the first slash, or else the
/// path that items have by convention.
pub open spec fn path_of(value: Seq<char>) -> Seq<char> {
    if value.contains('/') {
        value.skip(first_index(value, '/'))
    } else {
        "/StatusNotifierItem"@
    }
}

/// The service and the path of a registration.
pub open spec fn registration(value: Seq<char>) -> Result<(Seq<char>, Seq<char>), Fault> {
    if is_service_name(service_of(value)) && is_object_path(path_of(value)) {
        Ok((service_of(value), path_of(value)))
    } else {
        malformed("invalid StatusNotifierItem registration"@)
    }
}

/// What a pair of texts says.
pub open spec fn pair_seen(result: Result<(String, String), SessionError>) -> Result<
    (Seq<char>, Seq<char>),
    Fault,
> {
    match result {
        Ok(pair) => Ok((pair.0@, pair.1@)),
        Err(error) => Err(fault_of(error)),
    }
}

/// Splits what an item registered as into its service and its path.
pub fn split_registration(value: &str) -> (parts: Result<(String, String), SessionError>)
    ensures
        pair_seen(parts) == registration(value@),
{
    let chars = chars_of(value);
    let at: usize = find_char(chars.as_slice(), '/');
    let service = string_of(vstd::slice::slice_subrange(chars.as_slice(), 0, at));
    assert(service@ =~= service_of(value@));
    let path = if contains_char(chars.as_slice(), '/') {
        let rest = string_of(vstd::slice::slice_subrange(chars.as_slice(), at, chars.len()));
        assert(rest@ =~= value@.skip(at as int));
        rest
    } else {
        "/StatusNotifierItem".to_owned()
    };
    if !valid_bus_name(service.as_str()) || !valid_object_path(chars_of(path.as_str()).as_slice()) {
        return invalid("invalid StatusNotifierItem registration");
    }
    Ok((service, path))
}

// ---------------------------------------------------------------------------
// Identifiers
// ---------------------------------------------------------------------------

/// One step of the hash: a byte is mixed in, and the whole multiplied.
pub open spec fn hash_step(hash: u64, byte: u8) -> u64 {
    (hash ^ (byte as u64)).wrapping_mul(0x100000001b3)
}

/// The hash after a number of bytes.
pub open spec fn hashed(start: u64, bytes: Seq<u8>) -> u64
    decreases bytes.len(),
{
    if bytes.len() == 0 {
        start
    } else {
        hash_step(hashed(start, bytes.drop_last()), bytes.last())
    }
}

/// The hash of a service and a path, with a zero byte between them.
pub open spec fn item_hash(service: Seq<char>, path: Seq<char>) -> u64 {
    hashed(0xcbf29ce484222325, encode_utf8(service) + seq![0u8] + encode_utf8(path))
}

fn mix(start: u64, bytes: &[u8]) -> (hash: u64)
    ensures
        hash == hashed(start, bytes@),
{
    let mut hash: u64 = start;
    assert(bytes@.take(0).len() == 0);
    for i in 0..bytes.len()
        invariant
            hash == hashed(start, bytes@.take(i as int)),
    {
        assert(bytes@.take(i + 1).drop_last() =~= bytes@.take(i as int));
        hash = (hash ^ (bytes[i] as u64)).wrapping_mul(0x100000001b3);
    }
    assert(bytes@.take(bytes@.len() as int) =~= bytes@);
    hash
}

proof fn hashed_in_parts(start: u64, a: Seq<u8>, b: Seq<u8>)
    ensures
        hashed(start, a + b) == hashed(hashed(start, a), b),
    decreases b.len(),
{
    if b.len() == 0 {
        assert(a + b =~= a);
    } else {
        hashed_in_parts(start, a, b.drop_last());
        assert((a + b).drop_last() =~= a + b.drop_last());
    }
}

/// The hash by which an item is found again.
pub fn stable_hash(service: &str, path: &str) -> (hash: u64)
    ensures
        hash == item_hash(service@, path@),
{
    let first: u64 = mix(0xcbf29ce484222325, service.as_bytes());
    let second: u64 = (first ^ 0u64).wrapping_mul(0x100000001b3);
    proof {
        let head = encode_utf8(service@);
        assert((head + seq![0u8]).drop_last() =~= head);
        assert(second == hashed(0xcbf29ce484222325, head + seq![0u8]));
        hashed_in_parts(0xcbf29ce484222325, head + seq![0u8], encode_utf8(path@));
    }
    mix(second, path.as_bytes())
}

/// A number with its sign in decimal digits.
pub open spec fn signed_decimal(n: int) -> Seq<char> {
    if n < 0 {
        seq!['-'] + decimal((-n) as nat)
    } else {
        decimal(n as nat)
    }
}

pub open spec fn item_identifier(hash: u64) -> Seq<char> {
    "tray:"@ + hex_digits(hash as nat, 16)
}

pub open spec fn menu_prefix(hash: u64) -> Seq<char> {
    "tray-menu:"@ + hex_digits(hash as nat, 16) + seq![':']
}

/// The identifier of a node of a menu.
pub open spec fn node_identifier(hash: u64, node: i32) -> Seq<char> {
    menu_prefix(hash) + signed_decimal(node as int)
}

/// The identifier of the root of a menu.
pub open spec fn root_identifier(hash: u64) -> Seq<char> {
    menu_prefix(hash) + "root"@
}

/// The identifier of the only entry of an item without a menu.
pub open spec fn activate_identifier(hash: u64) -> Seq<char> {
    menu_prefix(hash) + "activate"@
}

fn item_id(hash: u64) -> (id: String)
    ensures
        id@ == item_identifier(hash),
{
    let mut id = "tray:".to_owned();
    id.append(hex_text(hash as u128, 16).as_str());
    id
}

fn menu_id(hash: u64, rest: &str) -> (id: String)
    ensures
        id@ == menu_prefix(hash) + rest@,
{
    let mut id = "tray-menu:".to_owned();
    id.append(hex_text(hash as u128, 16).as_str());
    id.push(':');
    assert(id@ =~= menu_prefix(hash));
    id.append(rest);
    id
}

fn node_id_text(node: i32) -> (text: String)
    ensures
        text@ == signed_decimal(node as int),
{
    if node < 0 {
        let mut text = String::new();
        text.push('-');
        assert(text@ =~= seq!['-']);
        let size: u64 = (-(node as i64)) as u64;
        text.append(decimal_text(size).as_str());
        text
    } else {
        decimal_text(node as u64)
    }
}

// ---------------------------------------------------------------------------
// Menus
// ---------------------------------------------------------------------------

/// A value that came over the bus, by what can be read of it: a number, a text
/// or members. A variant has one member, its content.
pub struct BusValue {
    pub number: Option<i64>,
    pub text: Option<String>,
    pub items: Option<Vec<BusValue>>,
}

/// The members of a value; a value without members has none.
pub open spec fn members_of(value: BusValue) -> Seq<BusValue> {
    match value.items {
        Some(items) => items@,
        None => Seq::empty(),
    }
}

/// The first member of a value.
pub open spec fn content_of(value: BusValue) -> Option<BusValue> {
    if members_of(value).len() > 0 {
        Some(members_of(value)[0])
    } else {
        None
    }
}

fn content(value: &BusValue) -> (first: Option<&BusValue>)
    ensures
        match first {
            Some(first) => content_of(*value) == Some(*first),
            None => content_of(*value) is None,
        },
{
    match &value.items {
        Some(items) => if items.len() > 0 {
            Some(&items[0])
        } else {
            None
        },
        None => None,
    }
}

/// The content of the first entry with a name. An entry that is not a pair with
/// a name ends the search.
pub open spec fn entry_named(entries: Seq<BusValue>, name: Seq<char>) -> Option<BusValue>
    decreases entries.len(),
{
    if entries.len() == 0 {
        None
    } else {
        let pair = members_of(entries[0]);
        if pair.len() == 0 || pair[0].text is None {
            None
        } else if pair[0].text->0@ != name {
            entry_named(entries.skip(1), name)
        } else if pair.len() < 2 {
            None
        } else {
            content_of(pair[1])
        }
    }
}

/// The property of a node with a name.
pub open spec fn property(properties: BusValue, name: Seq<char>) -> Option<BusValue> {
    entry_named(members_of(properties), name)
}

fn dynamic_property<'a>(properties: &'a BusValue, name: &str) -> (value: Option<&'a BusValue>)
    ensures
        match value {
            Some(value) => property(*properties, name@) == Some(*value),
            None => property(*properties, name@) is None,
        },
{
    let entries = match &properties.items {
        Some(entries) => entries,
        None => {
            return None;
        },
    };
    let mut at: usize = 0;
    assert(entries@.skip(0) =~= entries@);
    while at < entries.len()
        invariant
            at <= entries@.len(),
            entries@ == members_of(*properties),
            property(*properties, name@) == entry_named(entries@.skip(at as int), name@),
        decreases entries@.len() - at,
    {
        assert(entries@.skip(at as int)[0] == entries@[at as int]);
        assert(entries@.skip(at as int).skip(1) =~= entries@.skip(at + 1));
        let pair = match &entries[at].items {
            Some(pair) => pair,
            None => {
                return None;
            },
        };
        if pair.len() == 0 {
            return None;
        }
        match &pair[0].text {
            Some(key) => {
                if same_text(key.as_str(), name) {
                    if pair.len() < 2 {
                        return None;
                    }
                    return content(&pair[1]);
                }
            },
            None => {
                return None;
            },
        }
        at = at + 1;
    }
    None
}

/// A node of a menu as it is seen.
pub struct NodeView {
    pub id: Seq<char>,
    pub label: Seq<char>,
    pub enabled: bool,
    pub children: Seq<NodeView>,
}

pub open spec fn node_view(node: TrayMenuNode) -> NodeView
    decreases node, 0nat,
{
    NodeView {
        id: node.id@,
        label: node.label@,
        enabled: node.enabled,
        children: nodes_view(node.children@, node.children@.len()),
    }
}

/// The first nodes of a list.
pub open spec fn nodes_view(nodes: Seq<TrayMenuNode>, count: nat) -> Seq<NodeView>
    decreases nodes, count,
{
    if count == 0 || count > nodes.len() {
        Seq::empty()
    } else {
        nodes_view(nodes, (count - 1) as nat).push(node_view(nodes[count - 1]))
    }
}

/// All nodes of a list.
pub open spec fn menu_view(nodes: Seq<TrayMenuNode>) -> Seq<NodeView> {
    nodes_view(nodes, nodes.len())
}

proof fn same_first_nodes(nodes: Seq<TrayMenuNode>, more: Seq<TrayMenuNode>, count: nat)
    requires
        count <= nodes.len() <= more.len(),
        forall|i: int| 0 <= i < count ==> #[trigger] nodes[i] == more[i],
    ensures
        nodes_view(nodes, count) == nodes_view(more, count),
    decreases count,
{
    if count > 0 {
        same_first_nodes(nodes, more, (count - 1) as nat);
        assert(nodes[count - 1] == more[count - 1]);
    }
}

proof fn one_more_node(nodes: Seq<TrayMenuNode>, node: TrayMenuNode)
    ensures
        menu_view(nodes.push(node)) == menu_view(nodes).push(node_view(node)),
{
    let more = nodes.push(node);
    assert(more[more.len() - 1] == node);
    same_first_nodes(nodes, more, nodes.len());
}

/// What choosing an entry of a menu does.
#[derive(Debug, Clone)]
pub enum MenuAction {
    /// The item itself is activated.
    Activate,
    /// A node of the menu at a path is clicked.
    Menu { path: String, node_id: i32 },
}

pub enum ActionView {
    Activate,
    Menu { path: Seq<char>, node_id: i32 },
}

impl View for MenuAction {
    type V = ActionView;

    open spec fn view(&self) -> ActionView {
        match self {
            MenuAction::Activate => ActionView::Activate,
            MenuAction::Menu { path, node_id } => ActionView::Menu {
                path: path@,
                node_id: *node_id,
            },
        }
    }
}

/// What has been read of a menu so far: the actions and the number of nodes.
pub struct Walk {
    pub actions: Map<Seq<char>, ActionView>,
    pub count: int,
}

/// The nodes of a list and what has been read by then, or the first fault.
pub type Walked = Result<(Seq<NodeView>, Walk), Fault>;

/// The label of a node; a node without one has the empty label.
pub open spec fn label_of(properties: BusValue) -> Seq<char> {
    match property(properties, "label"@) {
        Some(value) => match value.text {
            Some(text) => text@,
            None => Seq::empty(),
        },
        None => Seq::empty(),
    }
}

/// Whether a node can be chosen; it can unless it says otherwise.
pub open spec fn enabled_of(properties: BusValue) -> bool {
    match property(properties, "enabled"@) {
        Some(value) => match value.number {
            Some(number) => number != 0,
            None => true,
        },
        None => true,
    }
}

pub open spec fn is_node_number(value: BusValue) -> bool {
    value.number is Some && i32::MIN <= value.number->0 <= i32::MAX
}

/// The menu that a list of variants describes.
pub open spec fn menu_of(
    values: Seq<BusValue>,
    hash: u64,
    path: Seq<char>,
    walk: Walk,
    depth: nat,
) -> Walked
    decreases MAX_MENU_DEPTH + 1 - depth, values.len() + 2,
{
    if depth > MAX_MENU_DEPTH {
        malformed("tray menu nesting exceeds 32 levels"@)
    } else {
        menu_of_first(values, values.len(), hash, path, walk, depth)
    }
}

/// The menu that the first variants of a list describe.
pub open spec fn menu_of_first(
    values: Seq<BusValue>,
    count: nat,
    hash: u64,
    path: Seq<char>,
    walk: Walk,
    depth: nat,
) -> Walked
    decreases MAX_MENU_DEPTH + 1 - depth, count + 1,
{
    if depth > MAX_MENU_DEPTH || count == 0 || count > values.len() {
        Ok((Seq::empty(), walk))
    } else {
        match menu_of_first(values, (count - 1) as nat, hash, path, walk, depth) {
            Err(fault) => Err(fault),
            Ok((nodes, walk)) => match content_of(values[count - 1]) {
                None => Ok((nodes, walk)),
                Some(child) => menu_with(child, nodes, hash, path, walk, depth),
            },
        }
    }
}

/// The nodes of a list with what one more child adds to them. A child without
/// a label adds nothing.
pub open spec fn menu_with(
    child: BusValue,
    nodes: Seq<NodeView>,
    hash: u64,
    path: Seq<char>,
    walk: Walk,
    depth: nat,
) -> Walked
    decreases MAX_MENU_DEPTH + 1 - depth, 0nat,
{
    let fields = members_of(child);
    if depth > MAX_MENU_DEPTH {
        Ok((nodes, walk))
    } else if child.items is None {
        malformed("tray menu node malformed"@)
    } else if fields.len() < 1 || !is_node_number(fields[0]) {
        malformed("tray menu node ID invalid"@)
    } else if fields.len() < 2 {
        malformed("tray menu properties omitted"@)
    } else if fields.len() < 3 {
        malformed("tray menu children omitted"@)
    } else if is_blank(label_of(fields[1])) {
        Ok((nodes, walk))
    } else if walk.count + 1 > MAX_MENU_NODES {
        malformed("tray menu node count exceeds 65536"@)
    } else {
        let number = fields[0].number->0 as i32;
        let entered = Walk { count: walk.count + 1, ..walk };
        match menu_of(members_of(fields[2]), hash, path, entered, depth + 1) {
            Err(fault) => Err(fault),
            Ok((children, left)) => {
                let id = node_identifier(hash, number);
                let node = NodeView {
                    id,
                    label: label_of(fields[1]),
                    enabled: enabled_of(fields[1]),
                    children,
                };
                let actions = if enabled_of(fields[1]) {
                    left.actions.insert(id, ActionView::Menu { path, node_id: number })
                } else {
                    left.actions
                };
                Ok((nodes.push(node), Walk { actions, count: left.count }))
            },
        }
    }
}

pub open spec fn walk_of(actions: Map<Seq<char>, ActionView>, count: usize) -> Walk {
    Walk { actions, count: count as int }
}

/// What a list of nodes says, with what has been read by then.
pub open spec fn walk_seen(
    result: Result<Vec<TrayMenuNode>, SessionError>,
    walk: Walk,
) -> Walked {
    match result {
        Ok(nodes) => Ok((menu_view(nodes@), walk)),
        Err(error) => Err(fault_of(error)),
    }
}

fn label_text(properties: &BusValue) -> (label: String)
    ensures
        label@ == label_of(*properties),
{
    match dynamic_property(properties, "label") {
        Some(value) => match &value.text {
            Some(label) => label.clone(),
            None => String::new(),
        },
        None => String::new(),
    }
}

fn enabled_flag(properties: &BusValue) -> (enabled: bool)
    ensures
        enabled == enabled_of(*properties),
{
    match dynamic_property(properties, "enabled") {
        Some(value) => match value.number {
            Some(number) => number != 0,
            None => true,
        },
        None => true,
    }
}

/// Reads the nodes that a list of variants describes, and keeps what choosing
/// an enabled one does.
fn parse_children(
    values: &[BusValue],
    hash: u64,
    path: &str,
    actions: &mut TextMap<MenuAction>,
    count: &mut usize,
    depth: usize,
) -> (nodes: Result<Vec<TrayMenuNode>, SessionError>)
    requires
        *old(count) <= MAX_MENU_NODES,
        depth <= MAX_MENU_DEPTH + 1,
    ensures
        nodes is Ok ==> *final(count) <= MAX_MENU_NODES,
        walk_seen(nodes, walk_of(final(actions)@, *final(count))) == menu_of(
            values@,
            hash,
            path@,
            walk_of(old(actions)@, *old(count)),
            depth as nat,
        ),
    decreases MAX_MENU_DEPTH + 1 - depth, 1nat,
{
    if depth > MAX_MENU_DEPTH {
        return invalid("tray menu nesting exceeds 32 levels");
    }
    let ghost start = walk_of(actions@, *count);
    let mut nodes: Vec<TrayMenuNode> = Vec::new();
    for i in 0..values.len()
        invariant
            *count <= MAX_MENU_NODES,
            depth <= MAX_MENU_DEPTH,
            start == walk_of(old(actions)@, *old(count)),
            menu_of_first(values@, i as nat, hash, path@, start, depth as nat) == Ok::<
                (Seq<NodeView>, Walk),
                Fault,
            >((menu_view(nodes@), walk_of(actions@, *count))),
    {
        if let Some(child) = content(&values[i]) {
            let ghost next = menu_of_first(
                values@,
                (i + 1) as nat,
                hash,
                path@,
                start,
                depth as nat,
            );
            if let Err(error) = parse_child(child, &mut nodes, hash, path, actions, count, depth) {
                proof {
                    assert(next is Err);
                    stays_faulty(
                        values@,
                        (i + 1) as nat,
                        values@.len(),
                        hash,
                        path@,
                        start,
                        depth as nat,
                    );
                }
                return Err(error);
            }
        }
    }
    Ok(nodes)
}

/// Reads one child of a menu into a list of nodes.
fn parse_child(
    child: &BusValue,
    nodes: &mut Vec<TrayMenuNode>,
    hash: u64,
    path: &str,
    actions: &mut TextMap<MenuAction>,
    count: &mut usize,
    depth: usize,
) -> (done: Result<(), SessionError>)
    requires
        *old(count) <= MAX_MENU_NODES,
        depth <= MAX_MENU_DEPTH,
    ensures
        done is Ok ==> *final(count) <= MAX_MENU_NODES,
        match done {
            Ok(()) => Ok((menu_view(final(nodes)@), walk_of(final(actions)@, *final(count)))),
            Err(error) => Err(fault_of(error)),
        } == menu_with(
            *child,
            menu_view(old(nodes)@),
            hash,
            path@,
            walk_of(old(actions)@, *old(count)),
            depth as nat,
        ),
    decreases MAX_MENU_DEPTH + 1 - depth, 0nat,
{
    let fields = match &child.items {
        Some(fields) => fields,
        None => {
            return invalid("tray menu node malformed");
        },
    };
    let node_id: i32 = match number_of(fields.as_slice()) {
        Some(number) => number,
        None => {
            return invalid("tray menu node ID invalid");
        },
    };
    if fields.len() < 2 {
        return invalid("tray menu properties omitted");
    }
    if fields.len() < 3 {
        return invalid("tray menu children omitted");
    }
    let label = label_text(&fields[1]);
    if blank_text(label.as_str()) {
        return Ok(());
    }
    if *count == MAX_MENU_NODES {
        return invalid("tray menu node count exceeds 65536");
    }
    *count = *count + 1;
    let id = menu_id(hash, node_id_text(node_id).as_str());
    let enabled = enabled_flag(&fields[1]);
    let none: Vec<BusValue> = Vec::new();
    let descendants = match &fields[2].items {
        Some(items) => items,
        None => &none,
    };
    assert(descendants@ =~= members_of(fields@[2]));
    let children = match parse_children(
        descendants.as_slice(),
        hash,
        path,
        actions,
        count,
        depth + 1,
    ) {
        Ok(children) => children,
        Err(error) => {
            return Err(error);
        },
    };
    if enabled {
        actions.insert(id.clone(), MenuAction::Menu { path: path.to_owned(), node_id });
    }
    let ghost earlier = nodes@;
    let node = TrayMenuNode { id, label, enabled, children };
    nodes.push(node);
    proof {
        one_more_node(earlier, node);
    }
    Ok(())
}

/// Once a fault has been met, the whole list is faulty.
proof fn stays_faulty(
    values: Seq<BusValue>,
    count: nat,
    more: nat,
    hash: u64,
    path: Seq<char>,
    walk: Walk,
    depth: nat,
)
    requires
        count <= more <= values.len(),
        menu_of_first(values, count, hash, path, walk, depth) is Err,
    ensures
        menu_of_first(values, more, hash, path, walk, depth) == menu_of_first(
            values,
            count,
            hash,
            path,
            walk,
            depth,
        ),
    decreases more,
{
    if count < more {
        stays_faulty(values, count, (more - 1) as nat, hash, path, walk, depth);
    }
}

/// The number of a node, where its first field has one.
fn number_of(fields: &[BusValue]) -> (number: Option<i32>)
    ensures
        match number {
            Some(number) => fields@.len() >= 1 && is_node_number(fields@[0]) && number
                == fields@[0].number->0 as i32,
            None => fields@.len() < 1 || !is_node_number(fields@[0]),
        },
{
    if fields.len() < 1 {
        return None;
    }
    match fields[0].number {
        Some(number) => if -2147483648 <= number && number <= 2147483647 {
            Some(number as i32)
        } else {
            None
        },
        None => None,
    }
}

// ---------------------------------------------------------------------------
// Items
// ---------------------------------------------------------------------------

/// What the menu of an item was read as: its path and its top level.
pub struct MenuLayout {
    pub path: String,
    pub children: Vec<BusValue>,
}

/// A menu and what choosing its entries does.
pub type MenuParts = (NodeView, Map<Seq<char>, ActionView>);

/// What an item without a menu shows: one entry that activates it.
pub open spec fn fallback_parts(hash: u64, title: Seq<char>) -> MenuParts {
    (
        NodeView {
            id: activate_identifier(hash),
            label: title,
            enabled: true,
            children: Seq::empty(),
        },
        Map::empty().insert(activate_identifier(hash), ActionView::Activate),
    )
}

/// The menu of an item whose layout was read. Its root activates the item.
pub open spec fn layout_parts(
    path: Seq<char>,
    children: Seq<BusValue>,
    hash: u64,
    title: Seq<char>,
) -> Result<MenuParts, Fault> {
    match menu_of(children, hash, path, Walk { actions: Map::empty(), count: 1 }, 0) {
        Err(fault) => Err(fault),
        Ok((nodes, walk)) => Ok(
            (
                NodeView {
                    id: root_identifier(hash),
                    label: title,
                    enabled: true,
                    children: nodes,
                },
                walk.actions.insert(root_identifier(hash), ActionView::Activate),
            ),
        ),
    }
}

/// The menu of an item. One whose menu was not found has the single entry.
pub open spec fn item_parts(
    layout: Result<MenuLayout, SessionError>,
    hash: u64,
    title: Seq<char>,
) -> Result<MenuParts, Fault> {
    match layout {
        Ok(layout) => layout_parts(layout.path@, layout.children@, hash, title),
        Err(error) => if error.kind == ErrorKind::NotFound {
            Ok(fallback_parts(hash, title))
        } else {
            Err(fault_of(error))
        },
    }
}

/// What a menu and its actions say.
pub open spec fn parts_seen(
    result: Result<(TrayMenuNode, TextMap<MenuAction>), SessionError>,
) -> Result<MenuParts, Fault> {
    match result {
        Ok(parts) => Ok((node_view(parts.0), parts.1@)),
        Err(error) => Err(fault_of(error)),
    }
}

fn fallback_menu(hash: u64, title: &str) -> (parts: (TrayMenuNode, TextMap<MenuAction>))
    ensures
        (node_view(parts.0), parts.1@) == fallback_parts(hash, title@),
{
    let id = menu_id(hash, "activate");
    let mut actions: TextMap<MenuAction> = TextMap::new();
    actions.insert(id.clone(), MenuAction::Activate);
    let node = TrayMenuNode { id, label: title.to_owned(), enabled: true, children: Vec::new() };
    (node, actions)
}

/// Refuses the path by which an item says that it has no menu.
pub fn check_menu_path(path: &str) -> (checked: Result<(), SessionError>)
    ensures
        told(checked) == if path@ == "/NO_DBUSMENU"@ {
            Err((ErrorKind::NotFound, "tray menu absent"@))
        } else {
            Ok(())
        },
{
    if same_text(path, "/NO_DBUSMENU") {
        return Err(SessionError::new(ErrorKind::NotFound, "tray menu absent"));
    }
    Ok(())
}

/// The menu of an item as its layout was read.
pub fn menu_for_item(
    layout: Result<MenuLayout, SessionError>,
    hash: u64,
    title: &str,
) -> (parts: Result<(TrayMenuNode, TextMap<MenuAction>), SessionError>)
    ensures
        parts_seen(parts) == item_parts(layout, hash, title@),
{
    let layout = match layout {
        Ok(layout) => layout,
        Err(error) => {
            if error.kind == ErrorKind::NotFound {
                return Ok(fallback_menu(hash, title));
            }
            return Err(error);
        },
    };
    let mut actions: TextMap<MenuAction> = TextMap::new();
    let mut count: usize = 1;
    let children = match parse_children(
        layout.children.as_slice(),
        hash,
        layout.path.as_str(),
        &mut actions,
        &mut count,
        0,
    ) {
        Ok(children) => children,
        Err(error) => {
            return Err(error);
        },
    };
    let id = menu_id(hash, "root");
    actions.insert(id.clone(), MenuAction::Activate);
    Ok((TrayMenuNode { id, label: title.to_owned(), enabled: true, children }, actions))
}

/// Where an item is, and what its menu does.
pub struct Target {
    pub service: String,
    pub path: String,
    pub actions: TextMap<MenuAction>,
}

pub struct TargetView {
    pub service: Seq<char>,
    pub path: Seq<char>,
    pub actions: Map<Seq<char>, ActionView>,
}

impl View for Target {
    type V = TargetView;

    open spec fn view(&self) -> TargetView {
        TargetView { service: self.service@, path: self.path@, actions: self.actions@ }
    }
}

pub struct ItemView {
    pub id: Seq<char>,
    pub title: Seq<char>,
    pub menu: NodeView,
}

pub open spec fn item_view(item: TrayItem) -> ItemView {
    ItemView { id: item.id@, title: item.title@, menu: node_view(item.menu) }
}

pub open spec fn items_view(items: Seq<TrayItem>) -> Seq<ItemView> {
    items.map_values(|item: TrayItem| item_view(item))
}

/// A reading of the status area, item by item.
pub struct TrayProbe {
    registrations: Vec<String>,
    at: usize,
    targets: TextMap<Target>,
    items: Vec<TrayItem>,
}

pub struct ProbeView {
    /// The registrations that are still to be read.
    pub left: Seq<Seq<char>>,
    pub targets: Map<Seq<char>, TargetView>,
    pub items: Seq<ItemView>,
}

impl View for TrayProbe {
    type V = ProbeView;

    closed spec fn view(&self) -> ProbeView {
        ProbeView {
            left: if self.at <= self.registrations@.len() {
                texts(self.registrations@).skip(self.at as int)
            } else {
                Seq::empty()
            },
            targets: self.targets@,
            items: items_view(self.items@),
        }
    }
}

/// Refuses a title that shows nothing.
pub fn check_title(title: &str) -> (checked: Result<(), SessionError>)
    ensures
        told(checked) == if is_blank(title@) {
            malformed("StatusNotifierItem title is empty"@)
        } else {
            Ok(())
        },
{
    if blank_text(title) {
        return invalid("StatusNotifierItem title is empty");
    }
    Ok(())
}

/// A reading with one more item, or why the item is refused.
pub open spec fn with_item(
    probe: ProbeView,
    service: Seq<char>,
    path: Seq<char>,
    title: Seq<char>,
    layout: Result<MenuLayout, SessionError>,
) -> Result<ProbeView, Fault> {
    let hash = item_hash(service, path);
    let id = item_identifier(hash);
    if is_blank(title) {
        malformed("StatusNotifierItem title is empty"@)
    } else {
        match item_parts(layout, hash, title) {
            Err(fault) => Err(fault),
            Ok((menu, actions)) => if probe.targets.contains_key(id) {
                malformed("StatusNotifierItem stable ID collision"@)
            } else {
                Ok(
                    ProbeView {
                        left: probe.left,
                        targets: probe.targets.insert(id, TargetView { service, path, actions }),
                        items: probe.items.push(ItemView { id, title, menu }),
                    },
                )
            },
        }
    }
}

impl TrayProbe {
    /// Begins to read the items that are registered.
    pub fn begin(registrations: Vec<String>) -> (probe: Result<TrayProbe, SessionError>)
        ensures
            seen(probe) == if registrations@.len() > MAX_REGISTRATIONS {
                malformed("too many StatusNotifierItem registrations"@)
            } else {
                Ok(
                    ProbeView {
                        left: texts(registrations@),
                        targets: Map::empty(),
                        items: Seq::empty(),
                    },
                )
            },
    {
        if registrations.len() > MAX_REGISTRATIONS {
            return invalid("too many StatusNotifierItem registrations");
        }
        let ghost all = texts(registrations@);
        let probe = TrayProbe { registrations, at: 0, targets: TextMap::new(), items: Vec::new() };
        assert(all.skip(0) =~= all);
        assert(items_view(probe.items@) =~= Seq::<ItemView>::empty());
        Ok(probe)
    }

    /// The service and the path of the next item; nothing after the last one.
    pub fn next(&mut self) -> (item: Result<Option<(String, String)>, SessionError>)
        ensures
            final(self)@ == (ProbeView {
                left: if old(self)@.left.len() == 0 {
                    old(self)@.left
                } else {
                    old(self)@.left.skip(1)
                },
                ..old(self)@
            }),
            match item {
                Ok(None) => old(self)@.left.len() == 0,
                Ok(Some(pair)) => old(self)@.left.len() > 0 && registration(old(self)@.left[0])
                    == Ok::<(Seq<char>, Seq<char>), Fault>((pair.0@, pair.1@)),
                Err(error) => old(self)@.left.len() > 0 && registration(old(self)@.left[0])
                    == Err::<(Seq<char>, Seq<char>), Fault>(fault_of(error)),
            },
    {
        if self.at >= self.registrations.len() {
            return Ok(None);
        }
        let ghost all = texts(self.registrations@);
        let at: usize = self.at;
        let ghost before = self@;
        self.at = at + 1;
        proof {
            assert(all.skip(at as int).skip(1) =~= all.skip(at + 1));
            assert(before.left[0] == self.registrations@[at as int]@);
        }
        match split_registration(self.registrations[at].as_str()) {
            Ok(pair) => Ok(Some(pair)),
            Err(error) => Err(error),
        }
    }

    /// Takes up an item with its title and its menu as they were read.
    pub fn record(
        &mut self,
        service: &str,
        path: &str,
        title: &str,
        layout: Result<MenuLayout, SessionError>,
    ) -> (done: Result<(), SessionError>)
        ensures
            match done {
                Ok(()) => with_item(old(self)@, service@, path@, title@, layout) == Ok::<
                    ProbeView,
                    Fault,
                >(final(self)@),
                Err(error) => with_item(old(self)@, service@, path@, title@, layout) == Err::<
                    ProbeView,
                    Fault,
                >(fault_of(error)) && final(self)@ == old(self)@,
            },
    {
        if let Err(error) = check_title(title) {
            return Err(error);
        }
        let hash: u64 = stable_hash(service, path);
        let (menu, actions) = match menu_for_item(layout, hash, title) {
            Ok(parts) => parts,
            Err(error) => {
                return Err(error);
            },
        };
        let id = item_id(hash);
        if self.targets.get(id.as_str()).is_some() {
            return invalid("StatusNotifierItem stable ID collision");
        }
        let target = Target { service: service.to_owned(), path: path.to_owned(), actions };
        let item = TrayItem { id: id.clone(), title: title.to_owned(), menu };
        let ghost before = self.items@;
        self.targets.insert(id, target);
        self.items.push(item);
        proof {
            assert(items_view(self.items@) =~= items_view(before).push(item_view(item)));
        }
        Ok(())
    }
}

// ---------------------------------------------------------------------------
// The service
// ---------------------------------------------------------------------------

/// What is sent to the bus when an entry is chosen.
#[derive(Debug, Clone, PartialEq, Eq)]
pub enum TrayInvocation {
    Activate { service: String, path: String },
    Menu { service: String, path: String, node_id: i32 },
}

pub enum InvocationView {
    Activate { service: Seq<char>, path: Seq<char> },
    Menu { service: Seq<char>, path: Seq<char>, node_id: i32 },
}

impl View for TrayInvocation {
    type V = InvocationView;

    open spec fn view(&self) -> InvocationView {
        match self {
            TrayInvocation::Activate { service, path } => InvocationView::Activate {
                service: service@,
                path: path@,
            },
            TrayInvocation::Menu { service, path, node_id } => InvocationView::Menu {
                service: service@,
                path: path@,
                node_id: *node_id,
            },
        }
    }
}

/// The targets of the last reading that succeeded.
pub struct TrayService {
    pub targets: TextMap<Target>,
}

impl View for TrayService {
    type V = Map<Seq<char>, TargetView>;

    open spec fn view(&self) -> Map<Seq<char>, TargetView> {
        self.targets@
    }
}

/// What is sent for an entry of an item.
pub open spec fn invocation_of(
    targets: Map<Seq<char>, TargetView>,
    item: Seq<char>,
    entry: Seq<char>,
) -> Result<InvocationView, Fault> {
    if targets.contains_key(item) && targets[item].actions.contains_key(entry) {
        Ok(
            match targets[item].actions[entry] {
                ActionView::Activate => InvocationView::Activate {
                    service: targets[item].service,
                    path: targets[item].path,
                },
                ActionView::Menu { path, node_id } => InvocationView::Menu {
                    service: targets[item].service,
                    path,
                    node_id,
                },
            },
        )
    } else {
        refused("unknown tray menu target"@)
    }
}

/// Whether a run may go on.
pub open spec fn still_active(state: Option<RunState>) -> Result<(), Fault> {
    match state {
        Some(state) => if state.cancelled {
            Err((ErrorKind::Interrupted, "tray probe was cancelled"@))
        } else if state.remaining == 0 {
            Err((ErrorKind::TimedOut, "tray probe exceeded its deadline"@))
        } else {
            Ok(())
        },
        None => Ok(()),
    }
}

pub fn ensure_active(state: Option<RunState>) -> (active: Result<(), SessionError>)
    ensures
        told(active) == still_active(state),
{
    match state {
        Some(state) => if state.cancelled {
            Err(SessionError::new(ErrorKind::Interrupted, "tray probe was cancelled"))
        } else if state.remaining == 0 {
            Err(SessionError::new(ErrorKind::TimedOut, "tray probe exceeded its deadline"))
        } else {
            Ok(())
        },
        None => Ok(()),
    }
}

/// The time that is left until a deadline, both in milliseconds.
pub fn remaining(deadline: u64, now: u64) -> (left: Result<u64, SessionError>)
    ensures
        match left {
            Ok(left) => now < deadline && left == deadline - now,
            Err(error) => deadline <= now && error_is(
                error,
                ErrorKind::TimedOut,
                "tray operation exceeded its total deadline"@,
            ),
        },
{
    if deadline <= now {
        return Err(
            SessionError::new(ErrorKind::TimedOut, "tray operation exceeded its total deadline"),
        );
    }
    Ok(deadline - now)
}

/// The class of a failure that the bus names.
pub open spec fn bus_failure(name: Option<Seq<char>>) -> ErrorKind {
    match name {
        Some(name) => if name == "org.freedesktop.DBus.Error.ServiceUnknown"@ || name
            == "org.freedesktop.DBus.Error.NameHasNoOwner"@ || name
            == "org.freedesktop.DBus.Error.UnknownProperty"@ || name
            == "org.freedesktop.DBus.Error.UnknownMethod"@ {
            ErrorKind::NotFound
        } else if name == "org.freedesktop.DBus.Error.AccessDenied"@ {
            ErrorKind::PermissionDenied
        } else if name == "org.freedesktop.DBus.Error.NoReply"@ {
            ErrorKind::TimedOut
        } else {
            ErrorKind::Other
        },
        None => ErrorKind::Other,
    }
}

/// The error for a failure that the bus names.
pub fn bus_error(name: Option<&str>) -> (error: SessionError)
    ensures
        error_is(
            error,
            bus_failure(
                match name {
                    Some(name) => Some(name@),
                    None => None,
                },
            ),
            "StatusNotifierItem D-Bus request failed"@,
        ),
{
    let kind = match name {
        Some(name) => if same_text(name, "org.freedesktop.DBus.Error.ServiceUnknown") || same_text(
            name,
            "org.freedesktop.DBus.Error.NameHasNoOwner",
        ) || same_text(name, "org.freedesktop.DBus.Error.UnknownProperty") || same_text(
            name,
            "org.freedesktop.DBus.Error.UnknownMethod",
        ) {
            ErrorKind::NotFound
        } else if same_text(name, "org.freedesktop.DBus.Error.AccessDenied") {
            ErrorKind::PermissionDenied
        } else if same_text(name, "org.freedesktop.DBus.Error.NoReply") {
            ErrorKind::TimedOut
        } else {
            ErrorKind::Other
        },
        None => ErrorKind::Other,
    };
    SessionError::new(kind, "StatusNotifierItem D-Bus request failed")
}

impl TrayService {
    pub fn new() -> (service: TrayService)
        ensures
            service@ == Map::<Seq<char>, TargetView>::empty(),
    {
        TrayService { targets: TextMap::new() }
    }

    /// How long a controlled reading may take.
    pub fn probe_controlled(state: RunState) -> (budget: Result<u64, SessionError>)
        ensures
            match budget {
                Ok(budget) => still_active(Some(state)) is Ok && budget == if state.remaining
                    < OPERATION_TIMEOUT {
                    state.remaining
                } else {
                    OPERATION_TIMEOUT
                },
                Err(error) => still_active(Some(state)) == Err::<(), Fault>(fault_of(error)),
            },
    {
        if let Err(error) = ensure_active(Some(state)) {
            return Err(error);
        }
        Ok(
            if state.remaining < OPERATION_TIMEOUT {
                state.remaining
            } else {
                OPERATION_TIMEOUT
            },
        )
    }

    /// Takes over what a reading found, unless its run has ended meanwhile.
    pub fn conclude(&mut self, probe: TrayProbe, state: Option<RunState>) -> (items: Result<
        Vec<TrayItem>,
        SessionError,
    >)
        ensures
            match items {
                Ok(items) => still_active(state) is Ok && final(self)@ == probe@.targets
                    && items_view(items@) == probe@.items,
                Err(error) => still_active(state) == Err::<(), Fault>(fault_of(error))
                    && final(self)@ == old(self)@,
            },
    {
        if let Err(error) = ensure_active(state) {
            return Err(error);
        }
        self.targets = probe.targets;
        Ok(probe.items)
    }

    /// What is sent for an entry of an item.
    pub fn invocation(&self, item_id: &str, menu_id: &str) -> (invocation: Result<
        TrayInvocation,
        SessionError,
    >)
        ensures
            seen(invocation) == invocation_of(self@, item_id@, menu_id@),
    {
        let target = match self.targets.get(item_id) {
            Some(target) => target,
            None => {
                return invalid_input("unknown tray menu target");
            },
        };
        let action = match target.actions.get(menu_id) {
            Some(action) => action,
            None => {
                return invalid_input("unknown tray menu target");
            },
        };
        Ok(
            match action {
                MenuAction::Activate => TrayInvocation::Activate {
                    service: target.service.clone(),
                    path: target.path.clone(),
                },
                MenuAction::Menu { path, node_id } => TrayInvocation::Menu {
                    service: target.service.clone(),
                    path: path.clone(),
                    node_id: *node_id,
                },
            },
        )
    }

    /// Sends what belongs to an entry and then reads the status area anew.
    /// Nothing is sent for an entry that is not known, and nothing is read
    /// where sending failed.
    pub fn invoke_with<
        T: FnOnce(TrayInvocation) -> Result<(), SessionError>,
        R: FnOnce() -> Result<Vec<TrayItem>, SessionError>,
    >(&self, item_id: &str, menu_id: &str, transport: T, refresh: R) -> (items: Result<
        Vec<TrayItem>,
        SessionError,
    >)
        requires
            forall|invocation: TrayInvocation|
                invocation_of(self@, item_id@, menu_id@) == Ok::<InvocationView, Fault>(
                    invocation@,
                ) ==> #[trigger] call_requires(transport, (invocation,)),
            (exists|invocation: TrayInvocation, reply: Result<(), SessionError>| #[trigger]
                call_ensures(transport, (invocation,), reply) && reply is Ok) ==> call_requires(
                refresh,
                (),
            ),
        ensures
            match invocation_of(self@, item_id@, menu_id@) {
                Err(fault) => items is Err && fault_of(items->Err_0) == fault,
                Ok(sent) => exists|invocation: TrayInvocation, reply: Result<(), SessionError>|
                    #[trigger]
                    call_ensures(transport, (invocation,), reply) && invocation@ == sent && (
                    match reply {
                        Err(error) => items == Err::<Vec<TrayItem>, SessionError>(error),
                        Ok(()) => call_ensures(refresh, (), items),
                    }),
            },
    {
        let invocation = match self.invocation(item_id, menu_id) {
            Ok(invocation) => invocation,
            Err(error) => {
                return Err(error);
            },
        };
        send_and_refresh(invocation, transport, refresh)
    }
}

/// Sends an invocation, once, and then reads the status area anew. Nothing is read
/// where sending failed.
pub fn send_and_refresh<
    T: FnOnce(TrayInvocation) -> Result<(), SessionError>,
    R: FnOnce() -> Result<Vec<TrayItem>, SessionError>,
>(invocation: TrayInvocation, transport: T, refresh: R) -> (items: Result<
    Vec<TrayItem>,
    SessionError,
>)
    requires
        call_requires(transport, (invocation,)),
        (exists|reply: Result<(), SessionError>| #[trigger]
            call_ensures(transport, (invocation,), reply) && reply is Ok) ==> call_requires(
            refresh,
            (),
        ),
    ensures
        exists|reply: Result<(), SessionError>| #[trigger]
            call_ensures(transport, (invocation,), reply) && match reply {
                Err(error) => items == Err::<Vec<TrayItem>, SessionError>(error),
                Ok(()) => call_ensures(refresh, (), items),
            },
{
    let reply = transport(invocation);
    match reply {
        Ok(()) => refresh(),
        Err(error) => Err(error),
    }
}

// ---------------------------------------------------------------------------
// Laws
// ---------------------------------------------------------------------------

/// Whether every action that is kept for a menu clicks the node that its
/// identifier names, in the menu at a path.
pub open spec fn actions_lead_back(
    actions: Map<Seq<char>, ActionView>,
    hash: u64,
    path: Seq<char>,
) -> bool {
    forall|id: Seq<char>| #[trigger]
        actions.contains_key(id) ==> exists|node: i32|
            id == #[trigger] node_identifier(hash, node) && actions[id] == (ActionView::Menu {
                path,
                node_id: node,
            })
}

/// Whether every node of a list that can be chosen has an action, at every level.
pub open spec fn all_offered(nodes: Seq<NodeView>, actions: Map<Seq<char>, ActionView>) -> bool
    decreases nodes,
{
    forall|i: int|
        0 <= i < nodes.len() ==> {
            &&& (#[trigger] nodes[i]).enabled ==> actions.contains_key(nodes[i].id)
            &&& all_offered(nodes[i].children, actions)
        }
}

proof fn offers_stay(
    nodes: Seq<NodeView>,
    actions: Map<Seq<char>, ActionView>,
    more: Map<Seq<char>, ActionView>,
)
    requires
        all_offered(nodes, actions),
        actions.dom().subset_of(more.dom()),
    ensures
        all_offered(nodes, more),
    decreases nodes,
{
    assert forall|i: int| 0 <= i < nodes.len() implies {
        &&& (#[trigger] nodes[i]).enabled ==> more.contains_key(nodes[i].id)
        &&& all_offered(nodes[i].children, more)
    } by {
        if nodes[i].enabled {
            assert(actions.dom().contains(nodes[i].id));
        }
        offers_stay(nodes[i].children, actions, more);
    }
}

proof fn walk_keeps_order(
    values: Seq<BusValue>,
    count: nat,
    hash: u64,
    path: Seq<char>,
    walk: Walk,
    depth: nat,
)
    requires
        depth <= MAX_MENU_DEPTH,
        count <= values.len(),
        actions_lead_back(walk.actions, hash, path),
    ensures
        match menu_of_first(values, count, hash, path, walk, depth) {
            Ok((nodes, left)) => actions_lead_back(left.actions, hash, path) && all_offered(
                nodes,
                left.actions,
            ) && walk.actions.dom().subset_of(left.actions.dom()),
            Err(_) => true,
        },
    decreases MAX_MENU_DEPTH + 1 - depth, count,
{
    if count > 0 {
        walk_keeps_order(values, (count - 1) as nat, hash, path, walk, depth);
        let before = menu_of_first(values, (count - 1) as nat, hash, path, walk, depth);
        let after = menu_of_first(values, count, hash, path, walk, depth);
        if before is Ok && after is Ok && content_of(values[count - 1]) is Some {
            let child = content_of(values[count - 1])->0;
            let nodes = before->Ok_0.0;
            let reached = before->Ok_0.1;
            let fields = members_of(child);
            assert(after == menu_with(child, nodes, hash, path, reached, depth));
            if !is_blank(label_of(fields[1])) {
                let entered = Walk { count: reached.count + 1, ..reached };
                let below = members_of(fields[2]);
                if depth + 1 <= MAX_MENU_DEPTH {
                    walk_keeps_order(below, below.len(), hash, path, entered, depth + 1);
                }
                let inner = menu_of(below, hash, path, entered, depth + 1);
                let children = inner->Ok_0.0;
                let left = inner->Ok_0.1;
                let more = after->Ok_0.1.actions;
                let number = fields[0].number->0 as i32;
                let id = node_identifier(hash, number);
                assert(left.actions.dom().subset_of(more.dom()));
                offers_stay(children, left.actions, more);
                offers_stay(nodes, reached.actions, more);
                assert forall|key: Seq<char>| #[trigger] more.contains_key(key) implies exists|
                    node: i32,
                |
                    key == #[trigger] node_identifier(hash, node) && more[key] == (
                    ActionView::Menu { path, node_id: node }) by {
                    if enabled_of(fields[1]) && key == id {
                        assert(key == node_identifier(hash, number));
                    } else {
                        assert(left.actions.contains_key(key));
                    }
                }
                let all = after->Ok_0.0;
                assert forall|i: int| 0 <= i < all.len() implies {
                    &&& (#[trigger] all[i]).enabled ==> more.contains_key(all[i].id)
                    &&& all_offered(all[i].children, more)
                } by {
                    if i < nodes.len() {
                        assert(all[i] == nodes[i]);
                    }
                }
            }
        }
    }
}

/// Choosing an entry of a menu clicks the node that its identifier names and no
/// other, and every entry that can be chosen does something.
pub proof fn entries_lead_back_to_their_nodes(
    path: Seq<char>,
    children: Seq<BusValue>,
    hash: u64,
    title: Seq<char>,
)
    requires
        layout_parts(path, children, hash, title) is Ok,
    ensures
        ({
            let (root, actions) = layout_parts(path, children, hash, title)->Ok_0;
            &&& actions_lead_back(actions.remove(root.id), hash, path)
            &&& actions.contains_key(root.id)
            &&& actions[root.id] == ActionView::Activate
            &&& all_offered(root.children, actions)
        }),
{
    let start = Walk { actions: Map::empty(), count: 1 };
    walk_keeps_order(children, children.len(), hash, path, start, 0);
    let walked = menu_of(children, hash, path, start, 0)->Ok_0;
    let actions = layout_parts(path, children, hash, title)->Ok_0.1;
    offers_stay(walked.0, walked.1.actions, actions);
    let root = root_identifier(hash);
    assert forall|id: Seq<char>| #[trigger] actions.remove(root).contains_key(id) implies exists|
        node: i32,
    |
        id == #[trigger] node_identifier(hash, node) && actions.remove(root)[id] == (
        ActionView::Menu { path, node_id: node }) by {
        assert(walked.1.actions.contains_key(id));
    }
}

/// What a reading recorded of an item is what choosing one of its entries
/// sends: to its service, and to no other.
pub proof fn recorded_items_are_invoked_as_recorded(
    probe: ProbeView,
    service: Seq<char>,
    path: Seq<char>,
    title: Seq<char>,
    layout: Result<MenuLayout, SessionError>,
    entry: Seq<char>,
)
    requires
        with_item(probe, service, path, title, layout) is Ok,
    ensures
        ({
            let after = with_item(probe, service, path, title, layout)->Ok_0;
            let hash = item_hash(service, path);
            let (menu, actions) = item_parts(layout, hash, title)->Ok_0;
            invocation_of(after.targets, item_identifier(hash), entry) == if actions.contains_key(
                entry,
            ) {
                Ok::<InvocationView, Fault>(
                    match actions[entry] {
                        ActionView::Activate => InvocationView::Activate { service, path },
                        ActionView::Menu { path, node_id } => InvocationView::Menu {
                            service,
                            path,
                            node_id,
                        },
                    },
                )
            } else {
                refused("unknown tray menu target"@)
            }
        }),
{
}

/// A reading that takes up an item leaves what it recorded of the others as it was.
pub proof fn other_items_stay_as_recorded(
    probe: ProbeView,
    service: Seq<char>,
    path: Seq<char>,
    title: Seq<char>,
    layout: Result<MenuLayout, SessionError>,
    item: Seq<char>,
    entry: Seq<char>,
)
    requires
        with_item(probe, service, path, title, layout) is Ok,
        probe.targets.contains_key(item),
    ensures
        invocation_of(
            with_item(probe, service, path, title, layout)->Ok_0.targets,
            item,
            entry,
        ) == invocation_of(probe.targets, item, entry),
{
}

} // verus!
