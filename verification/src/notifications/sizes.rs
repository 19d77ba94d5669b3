//! How the durable size of the store follows from the sizes of its parts.

use vstd::prelude::*;

use crate::notifications::document::{
    action_json, action_state_name, actions_json, document_json, document_size, documents_json,
    documents_size, json_bool, json_items, json_optional_number, json_string_literal,
    preferences_json, transaction_json, urgency_name, ActionView, NotificationActionState,
    NotificationView,
};
use crate::notifications::model::StoreView;
use crate::text::{byte_len, decimal, encoding_of_concatenation};

verus! {

/// The commas between a number of items.
pub open spec fn commas(count: int) -> int {
    if count <= 1 {
        0
    } else {
        count - 1
    }
}

/// The bytes of the whole state that hold neither a notification, nor a comma
/// between two of them, nor the preferences.
pub open spec fn structural_size() -> nat {
    byte_len("{\"schemaVersion\":1,\"active\":["@) + byte_len("],\"archive\":["@) + byte_len(
        "],\"preferences\":"@,
    ) + byte_len("}"@)
}

pub open spec fn items_size(items: Seq<Seq<char>>) -> nat
    decreases items.len(),
{
    if items.len() == 0 {
        0
    } else {
        items_size(items.drop_last()) + byte_len(items.last())
    }
}

proof fn size_of_items(items: Seq<Seq<char>>)
    ensures
        byte_len(json_items(items)) == items_size(items) + commas(items.len() as int),
    decreases items.len(),
{
    reveal_strlit(",");
    ascii_size(","@);
    if items.len() == 0 {
        assert(byte_len(Seq::<char>::empty()) == 0);
    } else if items.len() == 1 {
        assert(items_size(items.drop_last()) == 0);
    } else {
        let shorter = items.drop_last();
        size_of_items(shorter);
        encoding_of_concatenation(json_items(shorter), ","@);
        encoding_of_concatenation(json_items(shorter) + ","@, items.last());
    }
}

/// An ASCII text has as many bytes as characters.
pub proof fn ascii_size(s: Seq<char>)
    requires
        vstd::utf8::is_ascii_chars(s),
    ensures
        byte_len(s) == s.len(),
{
    vstd::utf8::is_ascii_chars_encode_utf8(s);
}

proof fn size_of_documents(documents: Seq<NotificationView>)
    ensures
        byte_len(documents_json(documents)) == documents_size(documents) + commas(
            documents.len() as int,
        ),
{
    let items = documents.map_values(|document: NotificationView| document_json(document));
    size_of_items(items);
    items_size_of_documents(documents);
}

proof fn items_size_of_documents(documents: Seq<NotificationView>)
    ensures
        items_size(documents.map_values(|document: NotificationView| document_json(document)))
            == documents_size(documents),
    decreases documents.len(),
{
    let items = documents.map_values(|document: NotificationView| document_json(document));
    if documents.len() > 0 {
        items_size_of_documents(documents.drop_last());
        assert(items.drop_last() =~= documents.drop_last().map_values(
            |document: NotificationView| document_json(document),
        ));
    }
}

/// The size of the whole state is the sum of its parts: the preferences, each
/// notification, the commas between them and a fixed frame.
pub proof fn aggregate_size_from_its_parts(state: StoreView)
    ensures
        state.aggregate_size() == structural_size() + byte_len(preferences_json(state.preferences))
            + documents_size(state.active) + documents_size(state.archive) + commas(
            state.active.len() as int,
        ) + commas(state.archive.len() as int),
{
    reveal(transaction_json);
    let a = "{\"schemaVersion\":1,\"active\":["@;
    let b = documents_json(state.active);
    let c = "],\"archive\":["@;
    let d = documents_json(state.archive);
    let e = "],\"preferences\":"@;
    let f = preferences_json(state.preferences);
    let g = "}"@;
    encoding_of_concatenation(a, b);
    encoding_of_concatenation(a + b, c);
    encoding_of_concatenation(a + b + c, d);
    encoding_of_concatenation(a + b + c + d, e);
    encoding_of_concatenation(a + b + c + d + e, f);
    encoding_of_concatenation(a + b + c + d + e + f, g);
    size_of_documents(state.active);
    size_of_documents(state.archive);
}

// ---------------------------------------------------------------------------
// Sums
// ---------------------------------------------------------------------------

pub proof fn size_of_push(documents: Seq<NotificationView>, document: NotificationView)
    ensures
        documents_size(documents.push(document)) == documents_size(documents) + document_size(
            document,
        ),
{
    assert(documents.push(document).drop_last() =~= documents);
}

pub proof fn size_of_remove(documents: Seq<NotificationView>, at: int)
    requires
        0 <= at < documents.len(),
    ensures
        documents_size(documents) == documents_size(documents.remove(at)) + document_size(
            documents[at],
        ),
    decreases documents.len(),
{
    if at == documents.len() - 1 {
        assert(documents.remove(at) =~= documents.drop_last());
    } else {
        let shorter = documents.drop_last();
        size_of_remove(shorter, at);
        assert(documents.remove(at).drop_last() =~= shorter.remove(at));
        assert(documents.remove(at).last() == documents.last());
    }
}

pub proof fn size_of_update(
    documents: Seq<NotificationView>,
    at: int,
    document: NotificationView,
)
    requires
        0 <= at < documents.len(),
    ensures
        documents_size(documents.update(at, document)) == documents_size(documents)
            - document_size(documents[at]) + document_size(document),
        documents_size(documents) >= document_size(documents[at]),
{
    size_of_remove(documents, at);
    size_of_remove(documents.update(at, document), at);
    assert(documents.remove(at) =~= documents.update(at, document).remove(at));
}

/// No notification has an empty form, so a list is no longer than its size.
pub proof fn size_is_at_least_the_count(documents: Seq<NotificationView>)
    ensures
        documents_size(documents) >= documents.len(),
    decreases documents.len(),
{
    if documents.len() > 0 {
        size_is_at_least_the_count(documents.drop_last());
        size_by_marks(documents.last());
    }
}

// ---------------------------------------------------------------------------
// Bounds
// ---------------------------------------------------------------------------

spec fn before_read(document: NotificationView) -> Seq<char> {
    "{\"schemaVersion\":"@ + decimal(document.schema_version as nat) + ",\"id\":"@ + decimal(
        document.id as nat,
    ) + ",\"applicationId\":"@ + json_string_literal(document.application_id) + ",\"summary\":"@
        + json_string_literal(document.summary) + ",\"body\":"@ + json_string_literal(document.body)
        + ",\"urgency\":"@ + urgency_name(document.urgency) + ",\"createdAt\":"@
        + json_string_literal(document.created_at) + ",\"timeoutMs\":"@ + json_optional_number(
        document.timeout_ms,
    ) + ",\"read\":"@
}

proof fn size_by_marks(document: NotificationView)
    ensures
        document_size(document) == byte_len(before_read(document)) + byte_len(
            json_bool(document.read),
        ) + byte_len(",\"archived\":"@) + byte_len(json_bool(document.archived)) + byte_len(
            ",\"actions\":["@,
        ) + byte_len(actions_json(document.actions)) + byte_len("]}"@),
        byte_len(json_bool(true)) == 4,
        byte_len(json_bool(false)) == 5,
{
    reveal(document_json);
    let a = before_read(document);
    let b = json_bool(document.read);
    let c = ",\"archived\":"@;
    let d = json_bool(document.archived);
    let e = ",\"actions\":["@;
    let f = actions_json(document.actions);
    let g = "]}"@;
    encoding_of_concatenation(a, b);
    encoding_of_concatenation(a + b, c);
    encoding_of_concatenation(a + b + c, d);
    encoding_of_concatenation(a + b + c + d, e);
    encoding_of_concatenation(a + b + c + d + e, f);
    encoding_of_concatenation(a + b + c + d + e + f, g);
    reveal_strlit("true");
    reveal_strlit("false");
    ascii_size("true"@);
    ascii_size("false"@);
}

/// Marking a notification as read or archived never makes it longer, and
/// clearing the archived mark adds at most one byte.
pub proof fn marks_change_sizes_little(document: NotificationView)
    ensures
        document_size(document.with_read(true)) <= document_size(document),
        document_size(document.with_archived(true)) <= document_size(document),
        document_size(document.with_archived(false)) <= document_size(document) + 1,
{
    size_by_marks(document);
    size_by_marks(document.with_read(true));
    size_by_marks(document.with_archived(true));
    size_by_marks(document.with_archived(false));
}

proof fn size_of_action(action: ActionView)
    ensures
        byte_len(action_json(action)) == byte_len(
            "{\"id\":"@ + json_string_literal(action.id) + ",\"label\":"@ + json_string_literal(
                action.label,
            ) + ",\"state\":"@,
        ) + byte_len(action_state_name(action.state)) + byte_len("}"@),
        byte_len(action_state_name(NotificationActionState::Expired)) <= byte_len(
            action_state_name(action.state),
        ),
{
    let a = "{\"id\":"@ + json_string_literal(action.id) + ",\"label\":"@ + json_string_literal(
        action.label,
    ) + ",\"state\":"@;
    let b = action_state_name(action.state);
    reveal(action_json);
    encoding_of_concatenation(a, b);
    encoding_of_concatenation(a + b, "}"@);
    reveal_strlit("\"available\"");
    reveal_strlit("\"expired\"");
    ascii_size("\"available\""@);
    ascii_size("\"expired\""@);
}

spec fn expired_action(action: ActionView) -> ActionView {
    ActionView { state: NotificationActionState::Expired, ..action }
}

proof fn expired_items_are_no_longer(actions: Seq<ActionView>)
    ensures
        items_size(
            actions.map_values(|action: ActionView| expired_action(action)).map_values(
                |action: ActionView| action_json(action),
            ),
        ) <= items_size(actions.map_values(|action: ActionView| action_json(action))),
    decreases actions.len(),
{
    let items = actions.map_values(|action: ActionView| action_json(action));
    let expired = actions.map_values(|action: ActionView| expired_action(action)).map_values(
        |action: ActionView| action_json(action),
    );
    if actions.len() > 0 {
        let shorter = actions.drop_last();
        expired_items_are_no_longer(shorter);
        assert(items.drop_last() =~= shorter.map_values(|action: ActionView| action_json(action)));
        assert(expired.drop_last() =~= shorter.map_values(
            |action: ActionView| expired_action(action),
        ).map_values(|action: ActionView| action_json(action)));
        size_of_action(actions.last());
        size_of_action(expired_action(actions.last()));
    }
}

/// Expiring actions never makes a notification longer.
pub proof fn expiry_never_grows(document: NotificationView)
    ensures
        document_size(document.with_expired_actions()) <= document_size(document),
{
    size_by_marks(document);
    size_by_marks(document.with_expired_actions());
    let actions = document.actions;
    let expired = document.with_expired_actions().actions;
    assert(expired =~= actions.map_values(|action: ActionView| expired_action(action)));
    expired_items_are_no_longer(actions);
    size_of_items(actions.map_values(|action: ActionView| action_json(action)));
    size_of_items(expired.map_values(|action: ActionView| action_json(action)));
}

} // verus!
