//! Notification documents and their durable JSON form.

use vstd::prelude::*;

use crate::text::{
    byte_len, decimal, decimal_is_one_line, decimal_text, hex_digits, hex_digits_are_one_line,
    one_line, one_line_of_two, same_text, text_bytes,
};

verus! {

/// The version of every durable record and document.
pub const DURABLE_SCHEMA_VERSION: u32 = 1;

/// The version of every document that crosses a socket.
pub const WIRE_SCHEMA_VERSION: u32 = 1;

/// The greatest size of one notification in bytes of JSON.
pub const MAX_NOTIFICATION_BYTES: usize = 65536;

#[derive(Debug, Clone, Copy, PartialEq, Eq, Structural)]
pub enum NotificationUrgency {
    Low,
    Normal,
    Critical,
}

#[derive(Debug, Clone, Copy, PartialEq, Eq, Structural)]
pub enum NotificationActionState {
    Available,
    Expired,
}

#[derive(Debug, Clone, PartialEq, Eq)]
pub struct NotificationAction {
    pub id: String,
    pub label: String,
    pub state: NotificationActionState,
}

#[derive(Debug, Clone, PartialEq, Eq)]
pub struct NotificationDocument {
    pub schema_version: u32,
    pub id: u64,
    pub application_id: String,
    pub summary: String,
    pub body: String,
    pub urgency: NotificationUrgency,
    pub created_at: String,
    pub timeout_ms: Option<u64>,
    pub read: bool,
    pub archived: bool,
    pub actions: Vec<NotificationAction>,
}

/// What the owner of the store has chosen, and the next free identifier.
#[derive(Debug, Clone, Copy, PartialEq, Eq, Structural)]
pub struct Preferences {
    pub schema_version: u32,
    pub dnd: bool,
    pub next_notification_id: u64,
}

/// An action as a mathematical value.
#[verifier::ext_equal]
pub struct ActionView {
    pub id: Seq<char>,
    pub label: Seq<char>,
    pub state: NotificationActionState,
}

/// A notification as a mathematical value.
#[verifier::ext_equal]
pub struct NotificationView {
    pub schema_version: u32,
    pub id: u64,
    pub application_id: Seq<char>,
    pub summary: Seq<char>,
    pub body: Seq<char>,
    pub urgency: NotificationUrgency,
    pub created_at: Seq<char>,
    pub timeout_ms: Option<u64>,
    pub read: bool,
    pub archived: bool,
    pub actions: Seq<ActionView>,
}

impl View for NotificationAction {
    type V = ActionView;

    open spec fn view(&self) -> ActionView {
        ActionView { id: self.id@, label: self.label@, state: self.state }
    }
}

impl View for NotificationDocument {
    type V = NotificationView;

    open spec fn view(&self) -> NotificationView {
        NotificationView {
            schema_version: self.schema_version,
            id: self.id,
            application_id: self.application_id@,
            summary: self.summary@,
            body: self.body@,
            urgency: self.urgency,
            created_at: self.created_at@,
            timeout_ms: self.timeout_ms,
            read: self.read,
            archived: self.archived,
            actions: action_views(self.actions@),
        }
    }
}

pub open spec fn action_views(actions: Seq<NotificationAction>) -> Seq<ActionView> {
    actions.map_values(|action: NotificationAction| action@)
}

pub open spec fn document_views(documents: Seq<NotificationDocument>) -> Seq<NotificationView> {
    documents.map_values(|document: NotificationDocument| document@)
}

impl NotificationView {
    /// The same notification with its archived mark set.
    pub open spec fn with_archived(self, archived: bool) -> NotificationView {
        NotificationView { archived, ..self }
    }

    /// The same notification with its read mark set.
    pub open spec fn with_read(self, read: bool) -> NotificationView {
        NotificationView { read, ..self }
    }

    /// The same notification with every action expired.
    pub open spec fn with_expired_actions(self) -> NotificationView {
        NotificationView {
            actions: self.actions.map_values(
                |action: ActionView| ActionView { state: NotificationActionState::Expired, ..action },
            ),
            ..self
        }
    }

    /// Whether one of the actions can still be invoked.
    pub open spec fn has_available_action(self) -> bool {
        exists|i: int|
            0 <= i < self.actions.len() && #[trigger] self.actions[i].state
                == NotificationActionState::Available
    }
}

impl NotificationAction {
    pub fn copy(&self) -> (copy: NotificationAction)
        ensures
            copy@ == self@,
            copy == *self,
    {
        NotificationAction { id: self.id.clone(), label: self.label.clone(), state: self.state }
    }
}

impl NotificationDocument {
    pub fn copy(&self) -> (copy: NotificationDocument)
        ensures
            copy@ == self@,
    {
        let mut actions: Vec<NotificationAction> = Vec::new();
        for i in 0..self.actions.len()
            invariant
                actions@ == self.actions@.take(i as int),
        {
            actions.push(self.actions[i].copy());
            assert(self.actions@.take(i as int).push(self.actions@[i as int])
                =~= self.actions@.take(i + 1));
        }
        assert(self.actions@.take(self.actions@.len() as int) =~= self.actions@);
        NotificationDocument {
            schema_version: self.schema_version,
            id: self.id,
            application_id: self.application_id.clone(),
            summary: self.summary.clone(),
            body: self.body.clone(),
            urgency: self.urgency,
            created_at: self.created_at.clone(),
            timeout_ms: self.timeout_ms,
            read: self.read,
            archived: self.archived,
            actions,
        }
    }

    /// A copy with every action expired.
    pub fn copy_expired(&self) -> (copy: NotificationDocument)
        ensures
            copy@ == self@.with_expired_actions(),
    {
        let mut copy = self.copy();
        let mut actions: Vec<NotificationAction> = Vec::new();
        for i in 0..copy.actions.len()
            invariant
                actions@.len() == i,
                forall|j: int|
                    0 <= j < i ==> #[trigger] actions@[j]@ == (ActionView {
                        state: NotificationActionState::Expired,
                        ..copy.actions@[j]@
                    }),
        {
            let action = &copy.actions[i];
            actions.push(
                NotificationAction {
                    id: action.id.clone(),
                    label: action.label.clone(),
                    state: NotificationActionState::Expired,
                },
            );
        }
        let ghost original = copy@;
        copy.actions = actions;
        assert(copy@.actions =~= original.with_expired_actions().actions);
        copy
    }

    /// Whether one of the actions can still be invoked.
    pub fn has_available_action(&self) -> (found: bool)
        ensures
            found == self@.has_available_action(),
    {
        for i in 0..self.actions.len()
            invariant
                forall|j: int|
                    0 <= j < i ==> #[trigger] self.actions@[j].state
                        != NotificationActionState::Available,
        {
            if matches!(self.actions[i].state, NotificationActionState::Available) {
                assert(self@.actions[i as int].state == NotificationActionState::Available);
                return true;
            }
        }
        assert forall|j: int| 0 <= j < self@.actions.len() implies #[trigger] self@.actions[j].state
            != NotificationActionState::Available by {
            assert(self@.actions[j].state == self.actions@[j].state);
        }
        false
    }

    /// The place of the action with an identifier, if there is one.
    pub fn action_index(&self, action_id: &str) -> (at: Option<usize>)
        ensures
            match at {
                Some(i) => {
                    &&& i < self.actions@.len()
                    &&& self@.actions[i as int].id == action_id@
                    &&& forall|j: int| 0 <= j < i ==> #[trigger] self@.actions[j].id != action_id@
                },
                None => forall|j: int|
                    0 <= j < self@.actions.len() ==> #[trigger] self@.actions[j].id != action_id@,
            },
    {
        for i in 0..self.actions.len()
            invariant
                forall|j: int| 0 <= j < i ==> #[trigger] self@.actions[j].id != action_id@,
        {
            assert(self@.actions[i as int].id == self.actions@[i as int].id@);
            if same_text(self.actions[i].id.as_str(), action_id) {
                return Some(i);
            }
        }
        None
    }
}

/// Copies a list of documents.
pub fn copy_documents(documents: &[NotificationDocument]) -> (copy: Vec<NotificationDocument>)
    ensures
        document_views(copy@) == document_views(documents@),
{
    let mut copy: Vec<NotificationDocument> = Vec::new();
    for i in 0..documents.len()
        invariant
            document_views(copy@) == document_views(documents@).take(i as int),
    {
        let ghost before = document_views(copy@);
        copy.push(documents[i].copy());
        assert(document_views(copy@) =~= before.push(documents@[i as int]@));
        assert(document_views(documents@).take(i + 1) =~= document_views(documents@).take(
            i as int,
        ).push(documents@[i as int]@));
    }
    assert(document_views(documents@).take(documents@.len() as int) =~= document_views(documents@));
    copy
}

// ---------------------------------------------------------------------------
// JSON
// ---------------------------------------------------------------------------

/// How a character stands in a JSON string: quotation marks, backslashes and control
/// characters are escaped, every other character stands for itself.
pub open spec fn json_escaped(c: char) -> Seq<char> {
    if c == '"' || c == '\\' {
        seq!['\\', c]
    } else if c == '\u{8}' {
        seq!['\\', 'b']
    } else if c == '\t' {
        seq!['\\', 't']
    } else if c == '\n' {
        seq!['\\', 'n']
    } else if c == '\u{c}' {
        seq!['\\', 'f']
    } else if c == '\r' {
        seq!['\\', 'r']
    } else if (c as u32) <= 31 {
        seq!['\\', 'u'] + hex_digits(c as nat, 4)
    } else {
        seq![c]
    }
}

pub open spec fn json_characters(text: Seq<char>) -> Seq<char>
    decreases text.len(),
{
    if text.len() == 0 {
        Seq::empty()
    } else {
        json_characters(text.drop_last()) + json_escaped(text.last())
    }
}

/// The JSON string literal of a text.
pub open spec fn json_string_literal(text: Seq<char>) -> Seq<char> {
    seq!['"'] + json_characters(text) + seq!['"']
}

/// Writes a text as a JSON string with `serde_json::Value`'s `Display`: between
/// quotation marks, with what has to be escaped in its shortest escape.
#[verifier::external_body]
fn json_display(text: &str) -> (literal: String)
    ensures
        literal@ == json_string_literal(text@),
{
    serde_json::Value::from(text).to_string()
}

proof fn json_characters_are_one_line(text: Seq<char>)
    ensures
        one_line(json_characters(text)),
    decreases text.len(),
{
    reveal(one_line);
    if text.len() > 0 {
        let c = text.last();
        json_characters_are_one_line(text.drop_last());
        hex_digits_are_one_line(c as nat, 4);
        one_line_of_two(seq!['\\', 'u'], hex_digits(c as nat, 4));
        one_line_of_two(json_characters(text.drop_last()), json_escaped(c));
    }
}

/// Writes a text as a JSON string. It holds no raw line feed, because control
/// characters are escaped.
pub(crate) fn json_string(text: &str) -> (literal: String)
    ensures
        literal@ == json_string_literal(text@),
        literal@.len() >= 2,
        one_line(literal@),
{
    proof {
        reveal(one_line);
        json_characters_are_one_line(text@);
        one_line_of_two(seq!['"'], json_characters(text@));
        one_line_of_two(seq!['"'] + json_characters(text@), seq!['"']);
    }
    json_display(text)
}

pub open spec fn json_bool(value: bool) -> Seq<char> {
    if value {
        "true"@
    } else {
        "false"@
    }
}

pub open spec fn json_optional_number(value: Option<u64>) -> Seq<char> {
    match value {
        Some(n) => decimal(n as nat),
        None => "null"@,
    }
}

pub open spec fn urgency_name(urgency: NotificationUrgency) -> Seq<char> {
    match urgency {
        NotificationUrgency::Low => "\"low\""@,
        NotificationUrgency::Normal => "\"normal\""@,
        NotificationUrgency::Critical => "\"critical\""@,
    }
}

pub open spec fn action_state_name(state: NotificationActionState) -> Seq<char> {
    match state {
        NotificationActionState::Available => "\"available\""@,
        NotificationActionState::Expired => "\"expired\""@,
    }
}

/// Items separated by commas.
pub open spec fn json_items(items: Seq<Seq<char>>) -> Seq<char>
    decreases items.len(),
{
    if items.len() == 0 {
        Seq::empty()
    } else if items.len() == 1 {
        items[0]
    } else {
        json_items(items.drop_last()) + ","@ + items.last()
    }
}

#[verifier::opaque]
pub open spec fn action_json(action: ActionView) -> Seq<char> {
    "{\"id\":"@ + json_string_literal(action.id) + ",\"label\":"@ + json_string_literal(
        action.label,
    ) + ",\"state\":"@ + action_state_name(action.state) + "}"@
}

pub open spec fn actions_json(actions: Seq<ActionView>) -> Seq<char> {
    json_items(actions.map_values(|action: ActionView| action_json(action)))
}

/// The durable JSON form of one notification.
#[verifier::opaque]
pub open spec fn document_json(document: NotificationView) -> Seq<char> {
    "{\"schemaVersion\":"@ + decimal(document.schema_version as nat) + ",\"id\":"@ + decimal(
        document.id as nat,
    ) + ",\"applicationId\":"@ + json_string_literal(document.application_id) + ",\"summary\":"@
        + json_string_literal(document.summary) + ",\"body\":"@ + json_string_literal(document.body)
        + ",\"urgency\":"@ + urgency_name(document.urgency) + ",\"createdAt\":"@
        + json_string_literal(document.created_at) + ",\"timeoutMs\":"@ + json_optional_number(
        document.timeout_ms,
    ) + ",\"read\":"@ + json_bool(document.read) + ",\"archived\":"@ + json_bool(document.archived)
        + ",\"actions\":["@ + actions_json(document.actions) + "]}"@
}

pub open spec fn documents_json(documents: Seq<NotificationView>) -> Seq<char> {
    json_items(documents.map_values(|document: NotificationView| document_json(document)))
}

#[verifier::opaque]
pub open spec fn preferences_json(preferences: Preferences) -> Seq<char> {
    "{\"schemaVersion\":"@ + decimal(preferences.schema_version as nat) + ",\"dnd\":"@ + json_bool(
        preferences.dnd,
    ) + ",\"nextNotificationId\":"@ + decimal(preferences.next_notification_id as nat) + "}"@
}

/// The whole durable state as one JSON document.
#[verifier::opaque]
pub open spec fn transaction_json(
    active: Seq<NotificationView>,
    archive: Seq<NotificationView>,
    preferences: Preferences,
) -> Seq<char> {
    "{\"schemaVersion\":1,\"active\":["@ + documents_json(active) + "],\"archive\":["@
        + documents_json(archive) + "],\"preferences\":"@ + preferences_json(preferences) + "}"@
}

/// The size of one notification in bytes of JSON.
pub open spec fn document_size(document: NotificationView) -> nat {
    byte_len(document_json(document))
}

/// The sizes of a list of notifications, added up.
pub open spec fn documents_size(documents: Seq<NotificationView>) -> nat
    decreases documents.len(),
{
    if documents.len() == 0 {
        0
    } else {
        documents_size(documents.drop_last()) + document_size(documents.last())
    }
}

/// The fixed parts of an action hold no line feed.
proof fn action_pieces_are_one_line()
    ensures
        one_line("{\"id\":"@),
        one_line(",\"label\":"@),
        one_line(",\"state\":"@),
        one_line("\"available\""@),
        one_line("\"expired\""@),
        one_line("}"@),
{
    reveal(one_line);
    reveal_strlit("{\"id\":");
    reveal_strlit(",\"label\":");
    reveal_strlit(",\"state\":");
    reveal_strlit("\"available\"");
    reveal_strlit("\"expired\"");
    reveal_strlit("}");
}

/// The fixed parts of a notification hold no line feed.
proof fn document_pieces_are_one_line()
    ensures
        one_line("{\"schemaVersion\":"@),
        one_line(",\"id\":"@),
        one_line(",\"applicationId\":"@),
        one_line(",\"summary\":"@),
        one_line(",\"body\":"@),
        one_line(",\"urgency\":"@),
        one_line("\"low\""@),
        one_line("\"normal\""@),
        one_line("\"critical\""@),
        one_line(",\"createdAt\":"@),
        one_line(",\"timeoutMs\":"@),
        one_line("null"@),
        one_line(",\"read\":"@),
        one_line(",\"archived\":"@),
        one_line(",\"actions\":["@),
        one_line("]}"@),
        one_line("true"@),
        one_line("false"@),
{
    reveal(one_line);
    reveal_strlit("{\"schemaVersion\":");
    reveal_strlit(",\"id\":");
    reveal_strlit(",\"applicationId\":");
    reveal_strlit(",\"summary\":");
    reveal_strlit(",\"body\":");
    reveal_strlit(",\"urgency\":");
    reveal_strlit("\"low\"");
    reveal_strlit("\"normal\"");
    reveal_strlit("\"critical\"");
    reveal_strlit(",\"createdAt\":");
    reveal_strlit(",\"timeoutMs\":");
    reveal_strlit("null");
    reveal_strlit(",\"read\":");
    reveal_strlit(",\"archived\":");
    reveal_strlit(",\"actions\":[");
    reveal_strlit("]}");
    reveal_strlit("true");
    reveal_strlit("false");
}

proof fn separators_are_one_line()
    ensures
        one_line(","@),
        one_line(Seq::<char>::empty()),
{
    reveal(one_line);
    reveal_strlit(",");
}

fn push_bool(text: &mut String, value: bool)
    ensures
        final(text)@ == old(text)@ + json_bool(value),
{
    if value {
        text.append("true");
    } else {
        text.append("false");
    }
}

fn push_number(text: &mut String, value: u64)
    ensures
        final(text)@ == old(text)@ + decimal(value as nat),
{
    text.append(decimal_text(value).as_str());
}

fn action_text(action: &NotificationAction) -> (text: String)
    ensures
        text@ == action_json(action@),
        one_line(text@),
{
    broadcast use one_line_of_two;

    proof {
        reveal(action_json);
        action_pieces_are_one_line();
    }
    let mut text = "{\"id\":".to_owned();
    text.append(json_string(action.id.as_str()).as_str());
    text.append(",\"label\":");
    text.append(json_string(action.label.as_str()).as_str());
    text.append(",\"state\":");
    match action.state {
        NotificationActionState::Available => text.append("\"available\""),
        NotificationActionState::Expired => text.append("\"expired\""),
    }
    text.append("}");
    text
}

fn actions_text(actions: &[NotificationAction]) -> (text: String)
    ensures
        text@ == actions_json(action_views(actions@)),
        one_line(text@),
{
    broadcast use one_line_of_two;

    proof {
        separators_are_one_line();
    }
    let mut text = String::new();
    let ghost items = action_views(actions@).map_values(|action: ActionView| action_json(action));
    for i in 0..actions.len()
        invariant
            items == action_views(actions@).map_values(|action: ActionView| action_json(action)),
            text@ == json_items(items.take(i as int)),
            one_line(text@),
    {
        broadcast use one_line_of_two;

        proof {
            separators_are_one_line();
        }
        if i > 0 {
            text.append(",");
        }
        text.append(action_text(&actions[i]).as_str());
        proof {
            let longer = items.take(i + 1);
            assert(longer.drop_last() =~= items.take(i as int));
            assert(longer.last() == action_json(actions@[i as int]@));
            if i == 0 {
                assert(text@ =~= longer[0]);
            }
        }
    }
    assert(items.take(actions@.len() as int) =~= items);
    text
}

/// Writes one notification in its durable JSON form.
pub fn document_text(document: &NotificationDocument) -> (text: String)
    ensures
        text@ == document_json(document@),
        one_line(text@),
{
    broadcast use {one_line_of_two, decimal_is_one_line};

    proof {
        reveal(document_json);
        document_pieces_are_one_line();
    }
    let mut text = "{\"schemaVersion\":".to_owned();
    push_number(&mut text, document.schema_version as u64);
    text.append(",\"id\":");
    push_number(&mut text, document.id);
    text.append(",\"applicationId\":");
    text.append(json_string(document.application_id.as_str()).as_str());
    text.append(",\"summary\":");
    text.append(json_string(document.summary.as_str()).as_str());
    text.append(",\"body\":");
    text.append(json_string(document.body.as_str()).as_str());
    text.append(",\"urgency\":");
    match document.urgency {
        NotificationUrgency::Low => text.append("\"low\""),
        NotificationUrgency::Normal => text.append("\"normal\""),
        NotificationUrgency::Critical => text.append("\"critical\""),
    }
    text.append(",\"createdAt\":");
    text.append(json_string(document.created_at.as_str()).as_str());
    text.append(",\"timeoutMs\":");
    match document.timeout_ms {
        Some(value) => push_number(&mut text, value),
        None => text.append("null"),
    }
    text.append(",\"read\":");
    push_bool(&mut text, document.read);
    text.append(",\"archived\":");
    push_bool(&mut text, document.archived);
    text.append(",\"actions\":[");
    text.append(actions_text(document.actions.as_slice()).as_str());
    text.append("]}");
    text
}

/// Writes a list of notifications, separated by commas.
pub fn documents_text(documents: &[NotificationDocument]) -> (text: String)
    ensures
        text@ == documents_json(document_views(documents@)),
        one_line(text@),
{
    proof {
        separators_are_one_line();
    }
    let mut text = String::new();
    let ghost items = document_views(documents@).map_values(
        |document: NotificationView| document_json(document),
    );
    for i in 0..documents.len()
        invariant
            items == document_views(documents@).map_values(
                |document: NotificationView| document_json(document),
            ),
            text@ == json_items(items.take(i as int)),
            one_line(text@),
    {
        broadcast use one_line_of_two;

        proof {
            separators_are_one_line();
        }
        if i > 0 {
            text.append(",");
        }
        text.append(document_text(&documents[i]).as_str());
        proof {
            let longer = items.take(i + 1);
            assert(longer.drop_last() =~= items.take(i as int));
            assert(longer.last() == document_json(documents@[i as int]@));
            if i == 0 {
                assert(text@ =~= longer[0]);
            }
        }
    }
    assert(items.take(documents@.len() as int) =~= items);
    text
}

/// Writes the preferences in their durable JSON form.
pub fn preferences_text(preferences: &Preferences) -> (text: String)
    ensures
        text@ == preferences_json(*preferences),
{
    proof {
        reveal(preferences_json);
    }
    let mut text = "{\"schemaVersion\":".to_owned();
    push_number(&mut text, preferences.schema_version as u64);
    text.append(",\"dnd\":");
    push_bool(&mut text, preferences.dnd);
    text.append(",\"nextNotificationId\":");
    push_number(&mut text, preferences.next_notification_id);
    text.append("}");
    text
}

/// The size of one notification in bytes of JSON.
pub fn document_bytes(document: &NotificationDocument) -> (count: usize)
    ensures
        count == document_size(document@),
{
    text_bytes(document_text(document).as_str())
}

/// The size of the preferences in bytes of JSON.
pub fn preferences_bytes(preferences: &Preferences) -> (count: usize)
    ensures
        count == byte_len(preferences_json(*preferences)),
{
    text_bytes(preferences_text(preferences).as_str())
}

} // verus!
