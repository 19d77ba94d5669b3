//! What the records of the log say.
//!
//! A record is read by its keys, from the front. Whatever was written is read back as it
//! was: this is what a log is for.

use vstd::prelude::*;

use crate::notifications::document::{
    action_json, action_state_name, actions_json, document_json, documents_json, json_bool,
    json_characters, json_escaped, json_items, json_optional_number, json_string_literal,
    preferences_json, transaction_json, urgency_name, ActionView, NotificationActionState,
    NotificationUrgency, NotificationView, Preferences,
};
use crate::notifications::journal::{ids_json, operation_json, record_line};
use crate::notifications::model::OperationView;
use crate::text::{
    all_digits, decimal, decimal_spells_the_number, digits_value, hex_char, hex_digits, is_digit,
};

verus! {

/// What was read, and what is left to read; nothing where it cannot be read.
pub type Read<T> = Option<(T, Seq<char>)>;

/// What follows a text, where the text comes next.
pub open spec fn past(s: Seq<char>, text: Seq<char>) -> Option<Seq<char>> {
    if text.len() <= s.len() && s.take(text.len() as int) == text {
        Some(s.skip(text.len() as int))
    } else {
        None
    }
}

proof fn past_what_comes_next(text: Seq<char>, rest: Seq<char>)
    ensures
        past(text + rest, text) == Some(rest),
{
    assert((text + rest).take(text.len() as int) =~= text);
    assert((text + rest).skip(text.len() as int) =~= rest);
}

// ---------------------------------------------------------------------------
// Numbers
// ---------------------------------------------------------------------------

/// How many digits come next.
pub open spec fn digits_ahead(s: Seq<char>) -> nat
    decreases s.len(),
{
    if s.len() == 0 || !('0' <= s[0] && s[0] <= '9') {
        0
    } else {
        1 + digits_ahead(s.skip(1))
    }
}

/// The number that comes next: as many digits as there are.
pub open spec fn read_number(s: Seq<char>) -> Read<nat> {
    let count = digits_ahead(s);
    if count == 0 {
        None
    } else {
        Some((digits_value(s.take(count as int)) as nat, s.skip(count as int)))
    }
}

/// Whether no digit comes next.
pub open spec fn ends_number(s: Seq<char>) -> bool {
    s.len() == 0 || !('0' <= s[0] && s[0] <= '9')
}

proof fn digits_are_ahead(digits: Seq<char>, rest: Seq<char>)
    requires
        all_digits(digits),
        ends_number(rest),
    ensures
        digits_ahead(digits + rest) == digits.len(),
    decreases digits.len(),
{
    let s = digits + rest;
    if digits.len() == 0 {
        assert(s =~= rest);
    } else {
        assert(is_digit(digits[0]));
        assert(s[0] == digits[0]);
        assert(s.skip(1) =~= digits.skip(1) + rest);
        assert forall|i: int| 0 <= i < digits.skip(1).len() implies is_digit(
            #[trigger] digits.skip(1)[i],
        ) by {
            assert(digits.skip(1)[i] == digits[i + 1]);
        }
        digits_are_ahead(digits.skip(1), rest);
    }
}

/// A number that was written is read back.
pub proof fn numbers_are_read_back(n: nat, rest: Seq<char>)
    requires
        ends_number(rest),
    ensures
        read_number(decimal(n) + rest) == Some((n, rest)),
{
    decimal_spells_the_number(n);
    digits_are_ahead(decimal(n), rest);
    let s = decimal(n) + rest;
    assert(s.take(decimal(n).len() as int) =~= decimal(n));
    assert(s.skip(decimal(n).len() as int) =~= rest);
}

// ---------------------------------------------------------------------------
// Words and texts
// ---------------------------------------------------------------------------

pub open spec fn read_bool(s: Seq<char>) -> Read<bool> {
    match past(s, "true"@) {
        Some(rest) => Some((true, rest)),
        None => match past(s, "false"@) {
            Some(rest) => Some((false, rest)),
            None => None,
        },
    }
}

/// A truth that was written is read back.
pub proof fn truths_are_read_back(value: bool, rest: Seq<char>)
    ensures
        read_bool(json_bool(value) + rest) == Some((value, rest)),
{
    reveal_strlit("true");
    reveal_strlit("false");
    if value {
        past_what_comes_next("true"@, rest);
    } else {
        past_what_comes_next("false"@, rest);
        let s = "false"@ + rest;
        assert(s[0] == 'f');
        assert(s.take(4)[0] == 'f');
        assert("true"@[0] == 't');
    }
}

pub open spec fn read_optional_number(s: Seq<char>) -> Read<Option<nat>> {
    match past(s, "null"@) {
        Some(rest) => Some((None, rest)),
        None => match read_number(s) {
            Some((n, rest)) => Some((Some(n), rest)),
            None => None,
        },
    }
}

proof fn optional_numbers_are_read_back(value: Option<u64>, rest: Seq<char>)
    requires
        ends_number(rest),
    ensures
        read_optional_number(json_optional_number(value) + rest) == Some(
            (
                match value {
                    Some(n) => Some(n as nat),
                    None => None,
                },
                rest,
            ),
        ),
{
    reveal_strlit("null");
    match value {
        Some(n) => {
            numbers_are_read_back(n as nat, rest);
            decimal_spells_the_number(n as nat);
            let s = decimal(n as nat) + rest;
            assert(is_digit(decimal(n as nat)[0]));
            assert(s[0] == decimal(n as nat)[0]);
            assert(past(s, "null"@) is None) by {
                if past(s, "null"@) is Some {
                    assert(s.take(4)[0] == s[0]);
                    assert("null"@[0] == 'n');
                }
            }
        },
        None => {
            past_what_comes_next("null"@, rest);
        },
    }
}

/// The value of a digit in base sixteen.
pub open spec fn hex_value(c: char) -> int {
    if '0' <= c && c <= '9' {
        c as int - '0' as int
    } else {
        c as int - 'a' as int + 10
    }
}

/// The characters of a text up to the quotation mark that ends it, with what is escaped
/// put back.
pub open spec fn read_characters(s: Seq<char>) -> Read<Seq<char>>
    decreases s.len(),
{
    if s.len() == 0 {
        None
    } else if s[0] == '"' {
        Some((Seq::empty(), s.skip(1)))
    } else if s[0] != '\\' {
        match read_characters(s.skip(1)) {
            Some((text, rest)) => Some((seq![s[0]] + text, rest)),
            None => None,
        }
    } else if s.len() < 2 {
        None
    } else if s[1] == 'u' {
        if s.len() < 6 {
            None
        } else {
            let code = 4096 * hex_value(s[2]) + 256 * hex_value(s[3]) + 16 * hex_value(s[4])
                + hex_value(s[5]);
            match read_characters(s.skip(6)) {
                Some((text, rest)) => Some((seq![code as char] + text, rest)),
                None => None,
            }
        }
    } else {
        let c = if s[1] == 'b' {
            '\u{8}'
        } else if s[1] == 't' {
            '\t'
        } else if s[1] == 'n' {
            '\n'
        } else if s[1] == 'f' {
            '\u{c}'
        } else if s[1] == 'r' {
            '\r'
        } else {
            s[1]
        };
        match read_characters(s.skip(2)) {
            Some((text, rest)) => Some((seq![c] + text, rest)),
            None => None,
        }
    }
}

pub open spec fn read_text(s: Seq<char>) -> Read<Seq<char>> {
    if s.len() > 0 && s[0] == '"' {
        read_characters(s.skip(1))
    } else {
        None
    }
}

proof fn characters_from_the_front(text: Seq<char>)
    requires
        text.len() > 0,
    ensures
        json_characters(text) == json_escaped(text[0]) + json_characters(text.skip(1)),
    decreases text.len(),
{
    if text.len() == 1 {
        assert(text.drop_last() =~= Seq::<char>::empty());
        assert(text.skip(1) =~= Seq::<char>::empty());
        assert(json_characters(text) =~= json_escaped(text[0]) + json_characters(text.skip(1)));
    } else {
        characters_from_the_front(text.drop_last());
        assert(text.drop_last().skip(1) =~= text.skip(1).drop_last());
        assert(text.drop_last()[0] == text[0]);
        assert(text.skip(1).last() == text.last());
        assert(json_characters(text) =~= json_escaped(text[0]) + json_characters(text.skip(1)));
    }
}

proof fn control_characters_are_spelled(c: char)
    requires
        c as u32 <= 31,
    ensures
        hex_digits(c as nat, 4) == seq![
            '0',
            '0',
            hex_char((c as int) / 16),
            hex_char((c as int) % 16),
        ],
{
    let n = c as nat;
    reveal_with_fuel(hex_digits, 5);
    assert(n / 16 < 2);
    assert((n / 16) / 16 == 0);
    assert(hex_digits(n, 4) =~= seq![
        hex_char((((n / 16) / 16) / 16 % 16) as int),
        hex_char(((n / 16) / 16 % 16) as int),
        hex_char((n / 16 % 16) as int),
        hex_char((n % 16) as int),
    ]);
    assert(hex_char(0) == '0');
}

proof fn a_character_is_read_back(c: char, text: Seq<char>, s: Seq<char>, rest: Seq<char>)
    requires
        read_characters(s) == Some((text, rest)),
    ensures
        read_characters(json_escaped(c) + s) == Some((seq![c] + text, rest)),
{
    let whole = json_escaped(c) + s;
    if c == '"' || c == '\\' || c == '\u{8}' || c == '\t' || c == '\n' || c == '\u{c}' || c
        == '\r' {
        assert(whole.skip(2) =~= s);
        assert(whole[0] == '\\');
        assert(whole[1] == json_escaped(c)[1]);
    } else if c as u32 <= 31 {
        control_characters_are_spelled(c);
        let n = c as int;
        assert(whole.skip(6) =~= s);
        assert(whole[0] == '\\' && whole[1] == 'u');
        assert(whole[2] == '0' && whole[3] == '0');
        assert(whole[4] == hex_char(n / 16) && whole[5] == hex_char(n % 16));
        assert(hex_value(hex_char(n / 16)) == n / 16);
        assert(hex_value(hex_char(n % 16)) == n % 16);
        assert(16 * (n / 16) + n % 16 == n);
        assert(n as char == c);
    } else {
        assert(whole.skip(1) =~= s);
        assert(whole[0] == c);
    }
}

proof fn characters_are_read_back(text: Seq<char>, rest: Seq<char>)
    ensures
        read_characters(json_characters(text) + seq!['"'] + rest) == Some((text, rest)),
    decreases text.len(),
{
    let s = json_characters(text) + seq!['"'] + rest;
    if text.len() == 0 {
        assert(s =~= seq!['"'] + rest);
        assert(s.skip(1) =~= rest);
        assert(text =~= Seq::<char>::empty());
    } else {
        characters_from_the_front(text);
        let tail = json_characters(text.skip(1)) + seq!['"'] + rest;
        characters_are_read_back(text.skip(1), rest);
        a_character_is_read_back(text[0], text.skip(1), tail, rest);
        assert(s =~= json_escaped(text[0]) + tail);
        assert(seq![text[0]] + text.skip(1) =~= text);
    }
}

/// A text that was written is read back, whatever it holds.
pub proof fn texts_are_read_back(text: Seq<char>, rest: Seq<char>)
    ensures
        read_text(json_string_literal(text) + rest) == Some((text, rest)),
{
    let s = json_string_literal(text) + rest;
    characters_are_read_back(text, rest);
    assert(s.skip(1) =~= json_characters(text) + seq!['"'] + rest);
    assert(s[0] == '"');
}

// ---------------------------------------------------------------------------
// Lists
// ---------------------------------------------------------------------------

/// The items that come next, separated by commas, up to the bracket that closes the list.
pub open spec fn read_items<T>(s: Seq<char>, read: spec_fn(Seq<char>) -> Read<T>) -> Read<Seq<T>>
    decreases s.len(),
{
    if s.len() > 0 && s[0] == ']' {
        Some((Seq::empty(), s))
    } else {
        match read(s) {
            Some((item, rest)) => if rest.len() >= s.len() || rest.len() == 0 {
                None
            } else if rest[0] == ',' {
                match read_items(rest.skip(1), read) {
                    Some((items, after)) => Some((seq![item] + items, after)),
                    None => None,
                }
            } else {
                Some((seq![item], rest))
            },
            None => None,
        }
    }
}

/// Whether a comma or a closing bracket comes next.
pub open spec fn ends_item(s: Seq<char>) -> bool {
    s.len() > 0 && (s[0] == ',' || s[0] == ']')
}

/// Whether a text is read as an item wherever the item can end.
pub open spec fn stands_for<T>(
    text: Seq<char>,
    item: T,
    read: spec_fn(Seq<char>) -> Read<T>,
) -> bool {
    &&& text.len() > 0
    &&& text[0] != ']'
    &&& forall|rest: Seq<char>|
        ends_item(rest) ==> #[trigger] read(text + rest) == Some((item, rest))
}

proof fn items_from_the_front(items: Seq<Seq<char>>)
    requires
        items.len() >= 2,
    ensures
        json_items(items) == items[0] + ","@ + json_items(items.skip(1)),
    decreases items.len(),
{
    let rest = items.skip(1);
    if items.len() == 2 {
        assert(items.drop_last()[0] == items[0]);
        assert(rest[0] == items[1]);
        assert(json_items(items.drop_last()) == items[0]);
        assert(json_items(rest) == items[1]);
    } else {
        items_from_the_front(items.drop_last());
        assert(items.drop_last().skip(1) =~= rest.drop_last());
        assert(items.drop_last()[0] == items[0]);
        assert(rest.last() == items.last());
        assert(json_items(items) =~= items[0] + ","@ + json_items(rest));
    }
}

/// A list is read back when each of its items is.
pub proof fn lists_are_read_back<T>(
    texts: Seq<Seq<char>>,
    items: Seq<T>,
    read: spec_fn(Seq<char>) -> Read<T>,
    rest: Seq<char>,
)
    requires
        texts.len() == items.len(),
        forall|i: int| 0 <= i < items.len() ==> stands_for(#[trigger] texts[i], items[i], read),
        rest.len() > 0,
        rest[0] == ']',
    ensures
        read_items(json_items(texts) + rest, read) == Some((items, rest)),
    decreases items.len(),
{
    let s = json_items(texts) + rest;
    if items.len() == 0 {
        assert(s =~= rest);
        assert(items =~= Seq::empty());
    } else if items.len() == 1 {
        assert(stands_for(texts[0], items[0], read));
        assert(read(texts[0] + rest) == Some((items[0], rest)));
        assert(s == texts[0] + rest);
        assert(s[0] == texts[0][0]);
        assert(items =~= seq![items[0]]);
    } else {
        reveal_strlit(",");
        items_from_the_front(texts);
        let tail = json_items(texts.skip(1)) + rest;
        let after = ","@ + tail;
        assert(s =~= texts[0] + after);
        assert(after[0] == ',');
        assert(stands_for(texts[0], items[0], read));
        assert(read(texts[0] + after) == Some((items[0], after)));
        assert(s[0] == texts[0][0]);
        assert(after.skip(1) =~= tail);
        assert forall|i: int| 0 <= i < items.skip(1).len() implies stands_for(
            #[trigger] texts.skip(1)[i],
            items.skip(1)[i],
            read,
        ) by {
            assert(stands_for(texts[i + 1], items[i + 1], read));
        }
        lists_are_read_back(texts.skip(1), items.skip(1), read, rest);
        assert(seq![items[0]] + items.skip(1) =~= items);
    }
}

// ---------------------------------------------------------------------------
// Fields
// ---------------------------------------------------------------------------

/// What a field holds, and what is left to read behind it.
pub type Field<T> = (T, Option<Seq<char>>);

pub open spec fn number_after(s: Option<Seq<char>>, key: Seq<char>) -> Field<nat> {
    match s {
        Some(text) => match past(text, key) {
            Some(value) => match read_number(value) {
                Some((n, rest)) => (n, Some(rest)),
                None => (0, None),
            },
            None => (0, None),
        },
        None => (0, None),
    }
}

pub open spec fn optional_number_after(s: Option<Seq<char>>, key: Seq<char>) -> Field<
    Option<nat>,
> {
    match s {
        Some(text) => match past(text, key) {
            Some(value) => match read_optional_number(value) {
                Some((n, rest)) => (n, Some(rest)),
                None => (None, None),
            },
            None => (None, None),
        },
        None => (None, None),
    }
}

pub open spec fn text_after(s: Option<Seq<char>>, key: Seq<char>) -> Field<Seq<char>> {
    match s {
        Some(text) => match past(text, key) {
            Some(value) => match read_text(value) {
                Some((held, rest)) => (held, Some(rest)),
                None => (Seq::empty(), None),
            },
            None => (Seq::empty(), None),
        },
        None => (Seq::empty(), None),
    }
}

pub open spec fn truth_after(s: Option<Seq<char>>, key: Seq<char>) -> Field<bool> {
    match s {
        Some(text) => match past(text, key) {
            Some(value) => match read_bool(value) {
                Some((truth, rest)) => (truth, Some(rest)),
                None => (false, None),
            },
            None => (false, None),
        },
        None => (false, None),
    }
}

pub open spec fn items_after<T>(
    s: Option<Seq<char>>,
    key: Seq<char>,
    read: spec_fn(Seq<char>) -> Read<T>,
) -> Field<Seq<T>> {
    match s {
        Some(text) => match past(text, key) {
            Some(value) => match read_items(value, read) {
                Some((items, rest)) => (items, Some(rest)),
                None => (Seq::empty(), None),
            },
            None => (Seq::empty(), None),
        },
        None => (Seq::empty(), None),
    }
}

/// What is left behind a text that holds no value.
pub open spec fn behind(s: Option<Seq<char>>, text: Seq<char>) -> Option<Seq<char>> {
    match s {
        Some(rest) => past(rest, text),
        None => None,
    }
}

proof fn number_fields_are_read_back(key: Seq<char>, n: nat, rest: Seq<char>)
    requires
        ends_number(rest),
    ensures
        number_after(Some(key + (decimal(n) + rest)), key) == (n, Some(rest)),
{
    past_what_comes_next(key, decimal(n) + rest);
    numbers_are_read_back(n, rest);
}

proof fn text_fields_are_read_back(key: Seq<char>, text: Seq<char>, rest: Seq<char>)
    ensures
        text_after(Some(key + (json_string_literal(text) + rest)), key) == (text, Some(rest)),
{
    past_what_comes_next(key, json_string_literal(text) + rest);
    texts_are_read_back(text, rest);
}

proof fn truth_fields_are_read_back(key: Seq<char>, value: bool, rest: Seq<char>)
    ensures
        truth_after(Some(key + (json_bool(value) + rest)), key) == (value, Some(rest)),
{
    past_what_comes_next(key, json_bool(value) + rest);
    truths_are_read_back(value, rest);
}

proof fn optional_number_fields_are_read_back(key: Seq<char>, value: Option<u64>, rest: Seq<char>)
    requires
        ends_number(rest),
    ensures
        optional_number_after(Some(key + (json_optional_number(value) + rest)), key) == (
            match value {
                Some(n) => Some(n as nat),
                None => None,
            },
            Some(rest),
        ),
{
    past_what_comes_next(key, json_optional_number(value) + rest);
    optional_numbers_are_read_back(value, rest);
}

proof fn in_a_row(a: Seq<char>, b: Seq<char>, rest: Seq<char>)
    ensures
        (a + b) + rest == a + (b + rest),
{
    assert((a + b) + rest =~= a + (b + rest));
}

// ---------------------------------------------------------------------------
// Actions and notifications
// ---------------------------------------------------------------------------

/// The states of an action by their words.
pub open spec fn action_state_called(word: Seq<char>) -> Option<NotificationActionState> {
    if word == "available"@ {
        Some(NotificationActionState::Available)
    } else if word == "expired"@ {
        Some(NotificationActionState::Expired)
    } else {
        None
    }
}

/// The urgencies by their words.
pub open spec fn urgency_called(word: Seq<char>) -> Option<NotificationUrgency> {
    if word == "low"@ {
        Some(NotificationUrgency::Low)
    } else if word == "normal"@ {
        Some(NotificationUrgency::Normal)
    } else if word == "critical"@ {
        Some(NotificationUrgency::Critical)
    } else {
        None
    }
}

/// Whether a character is written without an escape.
pub open spec fn stands_for_itself(c: char) -> bool {
    (c as u32) > 31 && c != '"' && c != '\\'
}

proof fn plain_words_stand_for_themselves(word: Seq<char>)
    requires
        forall|i: int| 0 <= i < word.len() ==> stands_for_itself(#[trigger] word[i]),
    ensures
        json_characters(word) == word,
    decreases word.len(),
{
    if word.len() > 0 {
        assert forall|i: int| 0 <= i < word.drop_last().len() implies stands_for_itself(
            #[trigger] word.drop_last()[i],
        ) by {
            assert(word.drop_last()[i] == word[i]);
        }
        plain_words_stand_for_themselves(word.drop_last());
        assert(json_escaped(word.last()) == seq![word.last()]);
        assert(word.drop_last() + seq![word.last()] =~= word);
    } else {
        assert(word =~= Seq::empty());
    }
}

proof fn action_states_are_called(state: NotificationActionState)
    ensures
        exists|word: Seq<char>| #[trigger]
            json_string_literal(word) == action_state_name(state) && action_state_called(word)
                == Some(state),
{
    reveal_strlit("available");
    reveal_strlit("expired");
    reveal_strlit("\"available\"");
    reveal_strlit("\"expired\"");
    plain_words_stand_for_themselves("available"@);
    plain_words_stand_for_themselves("expired"@);
    assert("available"@[0] == 'a' && "expired"@[0] == 'e');
    match state {
        NotificationActionState::Available => {
            assert(json_string_literal("available"@) =~= action_state_name(state));
        },
        NotificationActionState::Expired => {
            assert(json_string_literal("expired"@) =~= action_state_name(state));
        },
    }
}

proof fn urgencies_are_called(urgency: NotificationUrgency)
    ensures
        exists|word: Seq<char>| #[trigger]
            json_string_literal(word) == urgency_name(urgency) && urgency_called(word) == Some(
                urgency,
            ),
{
    reveal_strlit("low");
    reveal_strlit("normal");
    reveal_strlit("critical");
    reveal_strlit("\"low\"");
    reveal_strlit("\"normal\"");
    reveal_strlit("\"critical\"");
    plain_words_stand_for_themselves("low"@);
    plain_words_stand_for_themselves("normal"@);
    plain_words_stand_for_themselves("critical"@);
    assert("low"@[0] == 'l' && "normal"@[0] == 'n' && "critical"@[0] == 'c');
    match urgency {
        NotificationUrgency::Low => {
            assert(json_string_literal("low"@) =~= urgency_name(urgency));
        },
        NotificationUrgency::Normal => {
            assert(json_string_literal("normal"@) =~= urgency_name(urgency));
        },
        NotificationUrgency::Critical => {
            assert(json_string_literal("critical"@) =~= urgency_name(urgency));
        },
    }
}

pub open spec fn read_action(s: Seq<char>) -> Read<ActionView> {
    let (id, after_id) = text_after(Some(s), "{\"id\":"@);
    let (label, after_label) = text_after(after_id, ",\"label\":"@);
    let (word, after_state) = text_after(after_label, ",\"state\":"@);
    match (action_state_called(word), behind(after_state, "}"@)) {
        (Some(state), Some(rest)) => Some((ActionView { id, label, state }, rest)),
        _ => None,
    }
}

/// An action that was written is read back.
pub proof fn actions_are_read_back(action: ActionView, rest: Seq<char>)
    ensures
        read_action(action_json(action) + rest) == Some((action, rest)),
{
    reveal(action_json);
    action_states_are_called(action.state);
    let word = choose|word: Seq<char>| #[trigger]
        json_string_literal(word) == action_state_name(action.state) && action_state_called(word)
            == Some(action.state);
    let id = json_string_literal(action.id);
    let label = json_string_literal(action.label);
    let state = json_string_literal(word);
    let r3 = "}"@ + rest;
    let r2 = ",\"state\":"@ + (state + r3);
    let r1 = ",\"label\":"@ + (label + r2);
    past_what_comes_next("}"@, rest);
    text_fields_are_read_back(",\"state\":"@, word, r3);
    text_fields_are_read_back(",\"label\":"@, action.label, r2);
    text_fields_are_read_back("{\"id\":"@, action.id, r1);
    let c1 = "{\"id\":"@ + id;
    let c2 = c1 + ",\"label\":"@;
    let c3 = c2 + label;
    let c4 = c3 + ",\"state\":"@;
    let c5 = c4 + state;
    in_a_row(c5, "}"@, rest);
    in_a_row(c4, state, r3);
    in_a_row(c3, ",\"state\":"@, state + r3);
    in_a_row(c2, label, r2);
    in_a_row(c1, ",\"label\":"@, label + r2);
    in_a_row("{\"id\":"@, id, r1);
}

pub open spec fn read_document(s: Seq<char>) -> Read<NotificationView> {
    let (version, s1) = number_after(Some(s), "{\"schemaVersion\":"@);
    let (id, s2) = number_after(s1, ",\"id\":"@);
    let (application_id, s3) = text_after(s2, ",\"applicationId\":"@);
    let (summary, s4) = text_after(s3, ",\"summary\":"@);
    let (body, s5) = text_after(s4, ",\"body\":"@);
    let (word, s6) = text_after(s5, ",\"urgency\":"@);
    let (created_at, s7) = text_after(s6, ",\"createdAt\":"@);
    let (timeout, s8) = optional_number_after(s7, ",\"timeoutMs\":"@);
    let (read, s9) = truth_after(s8, ",\"read\":"@);
    let (archived, s10) = truth_after(s9, ",\"archived\":"@);
    let (actions, s11) = items_after(
        s10,
        ",\"actions\":["@,
        |text: Seq<char>| read_action(text),
    );
    match (urgency_called(word), behind(s11, "]}"@)) {
        (Some(urgency), Some(rest)) => Some(
            (
                NotificationView {
                    schema_version: version as u32,
                    id: id as u64,
                    application_id,
                    summary,
                    body,
                    urgency,
                    created_at,
                    timeout_ms: match timeout {
                        Some(n) => Some(n as u64),
                        None => None,
                    },
                    read,
                    archived,
                    actions,
                },
                rest,
            ),
        ),
        _ => None,
    }
}

proof fn action_lists_are_read_back(actions: Seq<ActionView>, rest: Seq<char>)
    requires
        rest.len() > 0,
        rest[0] == ']',
    ensures
        read_items(actions_json(actions) + rest, |text: Seq<char>| read_action(text)) == Some(
            (actions, rest),
        ),
{
    let texts = actions.map_values(|action: ActionView| action_json(action));
    let read = |text: Seq<char>| read_action(text);
    assert forall|i: int| 0 <= i < actions.len() implies stands_for(
        #[trigger] texts[i],
        actions[i],
        read,
    ) by {
        reveal(action_json);
        reveal_strlit("{\"id\":");
        assert(texts[i][0] == '{');
        assert forall|after: Seq<char>| ends_item(after) implies #[trigger] read(texts[i] + after)
            == Some((actions[i], after)) by {
            actions_are_read_back(actions[i], after);
        }
    }
    lists_are_read_back(texts, actions, read, rest);
}

/// A notification that was written is read back, field by field.
pub proof fn notifications_are_read_back(document: NotificationView, rest: Seq<char>)
    ensures
        read_document(document_json(document) + rest) == Some((document, rest)),
{
    reveal(document_json);
    urgencies_are_called(document.urgency);
    let word = choose|word: Seq<char>| #[trigger]
        json_string_literal(word) == urgency_name(document.urgency) && urgency_called(word) == Some(
            document.urgency,
        );
    let version = decimal(document.schema_version as nat);
    let id = decimal(document.id as nat);
    let application_id = json_string_literal(document.application_id);
    let summary = json_string_literal(document.summary);
    let body = json_string_literal(document.body);
    let urgency = json_string_literal(word);
    let created_at = json_string_literal(document.created_at);
    let timeout = json_optional_number(document.timeout_ms);
    let read = json_bool(document.read);
    let archived = json_bool(document.archived);
    let actions = actions_json(document.actions);
    let t23 = rest;
    let t22 = "]}"@ + t23;
    let t21 = actions + t22;
    let t20 = ",\"actions\":["@ + t21;
    let t19 = archived + t20;
    let t18 = ",\"archived\":"@ + t19;
    let t17 = read + t18;
    let t16 = ",\"read\":"@ + t17;
    let t15 = timeout + t16;
    let t14 = ",\"timeoutMs\":"@ + t15;
    let t13 = created_at + t14;
    let t12 = ",\"createdAt\":"@ + t13;
    let t11 = urgency + t12;
    let t10 = ",\"urgency\":"@ + t11;
    let t9 = body + t10;
    let t8 = ",\"body\":"@ + t9;
    let t7 = summary + t8;
    let t6 = ",\"summary\":"@ + t7;
    let t5 = application_id + t6;
    let t4 = ",\"applicationId\":"@ + t5;
    let t3 = id + t4;
    let t2 = ",\"id\":"@ + t3;
    let t1 = version + t2;
    let c1 = "{\"schemaVersion\":"@;
    let c2 = c1 + version;
    let c3 = c2 + ",\"id\":"@;
    let c4 = c3 + id;
    let c5 = c4 + ",\"applicationId\":"@;
    let c6 = c5 + application_id;
    let c7 = c6 + ",\"summary\":"@;
    let c8 = c7 + summary;
    let c9 = c8 + ",\"body\":"@;
    let c10 = c9 + body;
    let c11 = c10 + ",\"urgency\":"@;
    let c12 = c11 + urgency;
    let c13 = c12 + ",\"createdAt\":"@;
    let c14 = c13 + created_at;
    let c15 = c14 + ",\"timeoutMs\":"@;
    let c16 = c15 + timeout;
    let c17 = c16 + ",\"read\":"@;
    let c18 = c17 + read;
    let c19 = c18 + ",\"archived\":"@;
    let c20 = c19 + archived;
    let c21 = c20 + ",\"actions\":["@;
    let c22 = c21 + actions;
    in_a_row(c22, "]}"@, t23);
    in_a_row(c21, actions, t22);
    in_a_row(c20, ",\"actions\":["@, t21);
    in_a_row(c19, archived, t20);
    in_a_row(c18, ",\"archived\":"@, t19);
    in_a_row(c17, read, t18);
    in_a_row(c16, ",\"read\":"@, t17);
    in_a_row(c15, timeout, t16);
    in_a_row(c14, ",\"timeoutMs\":"@, t15);
    in_a_row(c13, created_at, t14);
    in_a_row(c12, ",\"createdAt\":"@, t13);
    in_a_row(c11, urgency, t12);
    in_a_row(c10, ",\"urgency\":"@, t11);
    in_a_row(c9, body, t10);
    in_a_row(c8, ",\"body\":"@, t9);
    in_a_row(c7, summary, t8);
    in_a_row(c6, ",\"summary\":"@, t7);
    in_a_row(c5, application_id, t6);
    in_a_row(c4, ",\"applicationId\":"@, t5);
    in_a_row(c3, id, t4);
    in_a_row(c2, ",\"id\":"@, t3);
    in_a_row(c1, version, t2);
    reveal_strlit(",\"id\":");
    reveal_strlit(",\"applicationId\":");
    reveal_strlit(",\"read\":");
    reveal_strlit("]}");
    assert(t2[0] == ',' && t4[0] == ',' && t16[0] == ',' && t22[0] == ']');
    number_fields_are_read_back("{\"schemaVersion\":"@, document.schema_version as nat, t2);
    number_fields_are_read_back(",\"id\":"@, document.id as nat, t4);
    text_fields_are_read_back(",\"applicationId\":"@, document.application_id, t6);
    text_fields_are_read_back(",\"summary\":"@, document.summary, t8);
    text_fields_are_read_back(",\"body\":"@, document.body, t10);
    text_fields_are_read_back(",\"urgency\":"@, word, t12);
    text_fields_are_read_back(",\"createdAt\":"@, document.created_at, t14);
    optional_number_fields_are_read_back(",\"timeoutMs\":"@, document.timeout_ms, t16);
    truth_fields_are_read_back(",\"read\":"@, document.read, t18);
    truth_fields_are_read_back(",\"archived\":"@, document.archived, t20);
    past_what_comes_next(",\"actions\":["@, actions + t22);
    action_lists_are_read_back(document.actions, t22);
    past_what_comes_next("]}"@, rest);
}

proof fn notification_lists_are_read_back(documents: Seq<NotificationView>, rest: Seq<char>)
    requires
        rest.len() > 0,
        rest[0] == ']',
    ensures
        read_items(documents_json(documents) + rest, |text: Seq<char>| read_document(text)) == Some(
            (documents, rest),
        ),
{
    let texts = documents.map_values(|document: NotificationView| document_json(document));
    let read = |text: Seq<char>| read_document(text);
    assert forall|i: int| 0 <= i < documents.len() implies stands_for(
        #[trigger] texts[i],
        documents[i],
        read,
    ) by {
        reveal(document_json);
        reveal_strlit("{\"schemaVersion\":");
        assert(texts[i][0] == '{');
        assert forall|after: Seq<char>| ends_item(after) implies #[trigger] read(texts[i] + after)
            == Some((documents[i], after)) by {
            notifications_are_read_back(documents[i], after);
        }
    }
    lists_are_read_back(texts, documents, read, rest);
}

// ---------------------------------------------------------------------------
// Operations and records
// ---------------------------------------------------------------------------

pub open spec fn document_after(s: Option<Seq<char>>, key: Seq<char>) -> Option<
    (NotificationView, Seq<char>),
> {
    match behind(s, key) {
        Some(value) => read_document(value),
        None => None,
    }
}

/// The operation that comes next, by the name of its kind.
pub open spec fn read_operation(s: Seq<char>) -> Read<OperationView> {
    let (kind, data) = text_after(Some(s), "{\"type\":"@);
    if kind == "setDnd"@ {
        let (enabled, after) = truth_after(data, ",\"data\":{\"enabled\":"@);
        match behind(after, "}}"@) {
            Some(rest) => Some((OperationView::SetDnd { enabled }, rest)),
            None => None,
        }
    } else if kind == "push"@ {
        match document_after(data, ",\"data\":{\"notification\":"@) {
            Some((notification, after)) => {
                let (archived, last) = items_after(
                    Some(after),
                    ",\"archived\":["@,
                    |text: Seq<char>| read_document(text),
                );
                match behind(last, "]}}"@) {
                    Some(rest) => Some((OperationView::Push { notification, archived }, rest)),
                    None => None,
                }
            },
            None => None,
        }
    } else if kind == "dismiss"@ {
        match document_after(data, ",\"data\":{\"notification\":"@) {
            Some((notification, after)) => match past(after, "}}"@) {
                Some(rest) => Some((OperationView::Dismiss { notification }, rest)),
                None => None,
            },
            None => None,
        }
    } else if kind == "markRead"@ {
        let (id, after) = number_after(data, ",\"data\":{\"id\":"@);
        match behind(after, "}}"@) {
            Some(rest) => Some((OperationView::MarkRead { id: id as u64 }, rest)),
            None => None,
        }
    } else if kind == "expireActions"@ {
        let (ids, after) = items_after(
            data,
            ",\"data\":{\"ids\":["@,
            |text: Seq<char>| read_identifier(text),
        );
        match behind(after, "]}}"@) {
            Some(rest) => Some((OperationView::ExpireActions { ids }, rest)),
            None => None,
        }
    } else if kind == "purgeArchive"@ {
        match behind(data, "}"@) {
            Some(rest) => Some((OperationView::PurgeArchive, rest)),
            None => None,
        }
    } else {
        None
    }
}

pub open spec fn read_identifier(s: Seq<char>) -> Read<u64> {
    match read_number(s) {
        Some((id, rest)) => Some((id as u64, rest)),
        None => None,
    }
}

/// What a line of the log says: the number of the record and its operation.
pub open spec fn read_record(line: Seq<char>) -> Option<(u64, OperationView)> {
    let (sequence, s1) = number_after(Some(line), "{\"schemaVersion\":1,\"sequence\":"@);
    match behind(s1, ",\"operation\":"@) {
        Some(s2) => match read_operation(s2) {
            Some((operation, s3)) => if s3 == "}\n"@ {
                Some((sequence as u64, operation))
            } else {
                None
            },
            None => None,
        },
        None => None,
    }
}

proof fn kinds_are_read(kind: Seq<char>, opening: Seq<char>, next: Seq<char>, rest: Seq<char>)
    requires
        forall|i: int| 0 <= i < kind.len() ==> stands_for_itself(#[trigger] kind[i]),
        opening == "{\"type\":"@ + seq!['"'] + kind + seq!['"'] + next,
    ensures
        text_after(Some(opening + rest), "{\"type\":"@) == (kind, Some(next + rest)),
{
    plain_words_stand_for_themselves(kind);
    text_fields_are_read_back("{\"type\":"@, kind, next + rest);
    assert(opening + rest =~= "{\"type\":"@ + (json_string_literal(kind) + (next + rest)));
}

proof fn identifier_lists_are_read_back(ids: Seq<u64>, rest: Seq<char>)
    requires
        rest.len() > 0,
        rest[0] == ']',
    ensures
        read_items(ids_json(ids) + rest, |text: Seq<char>| read_identifier(text)) == Some(
            (ids, rest),
        ),
{
    let texts = ids.map_values(|id: u64| decimal(id as nat));
    let read = |text: Seq<char>| read_identifier(text);
    assert forall|i: int| 0 <= i < ids.len() implies stands_for(#[trigger] texts[i], ids[i], read) by {
        decimal_spells_the_number(ids[i] as nat);
        assert(is_digit(decimal(ids[i] as nat)[0]));
        assert forall|after: Seq<char>| ends_item(after) implies #[trigger] read(texts[i] + after)
            == Some((ids[i], after)) by {
            numbers_are_read_back(ids[i] as nat, after);
        }
    }
    lists_are_read_back(texts, ids, read, rest);
}

/// The words for the kinds of operations differ.
proof fn kinds_differ()
    ensures
        "setDnd"@ != "push"@,
        "setDnd"@ != "dismiss"@,
        "setDnd"@ != "markRead"@,
        "setDnd"@ != "expireActions"@,
        "setDnd"@ != "purgeArchive"@,
        "push"@ != "dismiss"@,
        "push"@ != "markRead"@,
        "push"@ != "expireActions"@,
        "push"@ != "purgeArchive"@,
        "dismiss"@ != "markRead"@,
        "dismiss"@ != "expireActions"@,
        "dismiss"@ != "purgeArchive"@,
        "markRead"@ != "expireActions"@,
        "markRead"@ != "purgeArchive"@,
        "expireActions"@ != "purgeArchive"@,
{
    reveal_strlit("setDnd");
    reveal_strlit("push");
    reveal_strlit("dismiss");
    reveal_strlit("markRead");
    reveal_strlit("expireActions");
    reveal_strlit("purgeArchive");
    assert("setDnd"@[0] == 's' && "push"@[1] == 'u' && "dismiss"@[0] == 'd');
    assert("markRead"@[0] == 'm' && "expireActions"@[0] == 'e' && "purgeArchive"@.len() == 12);
    assert("setDnd"@.len() == 6 && "push"@.len() == 4 && "dismiss"@.len() == 7);
    assert("markRead"@.len() == 8 && "expireActions"@.len() == 13);
}

/// How a record of each kind begins.
proof fn openings_of_operations(rest: Seq<char>)
    ensures
        text_after(Some("{\"type\":\"setDnd\",\"data\":{\"enabled\":"@ + rest), "{\"type\":"@) == (
            "setDnd"@,
            Some(",\"data\":{\"enabled\":"@ + rest),
        ),
        text_after(Some("{\"type\":\"push\",\"data\":{\"notification\":"@ + rest), "{\"type\":"@) == (
            "push"@,
            Some(",\"data\":{\"notification\":"@ + rest),
        ),
        text_after(Some("{\"type\":\"dismiss\",\"data\":{\"notification\":"@ + rest), "{\"type\":"@) == (
            "dismiss"@,
            Some(",\"data\":{\"notification\":"@ + rest),
        ),
        text_after(Some("{\"type\":\"markRead\",\"data\":{\"id\":"@ + rest), "{\"type\":"@) == (
            "markRead"@,
            Some(",\"data\":{\"id\":"@ + rest),
        ),
        text_after(Some("{\"type\":\"expireActions\",\"data\":{\"ids\":["@ + rest), "{\"type\":"@) == (
            "expireActions"@,
            Some(",\"data\":{\"ids\":["@ + rest),
        ),
        text_after(Some("{\"type\":\"purgeArchive\"}"@ + rest), "{\"type\":"@) == (
            "purgeArchive"@,
            Some("}"@ + rest),
        ),
{
    reveal_strlit("{\"type\":");
    reveal_strlit("setDnd");
    reveal_strlit("{\"type\":\"setDnd\",\"data\":{\"enabled\":");
    reveal_strlit(",\"data\":{\"enabled\":");
    reveal_strlit("push");
    reveal_strlit("{\"type\":\"push\",\"data\":{\"notification\":");
    reveal_strlit(",\"data\":{\"notification\":");
    reveal_strlit("dismiss");
    reveal_strlit("{\"type\":\"dismiss\",\"data\":{\"notification\":");
    reveal_strlit("markRead");
    reveal_strlit("{\"type\":\"markRead\",\"data\":{\"id\":");
    reveal_strlit(",\"data\":{\"id\":");
    reveal_strlit("expireActions");
    reveal_strlit("{\"type\":\"expireActions\",\"data\":{\"ids\":[");
    reveal_strlit(",\"data\":{\"ids\":[");
    reveal_strlit("purgeArchive");
    reveal_strlit("{\"type\":\"purgeArchive\"}");
    reveal_strlit("}");
    assert("{\"type\":\"setDnd\",\"data\":{\"enabled\":"@
        =~= "{\"type\":"@ + seq!['"'] + "setDnd"@ + seq!['"'] + ",\"data\":{\"enabled\":"@);
    kinds_are_read(
        "setDnd"@,
        "{\"type\":\"setDnd\",\"data\":{\"enabled\":"@,
        ",\"data\":{\"enabled\":"@,
        rest,
    );
    assert("{\"type\":\"push\",\"data\":{\"notification\":"@
        =~= "{\"type\":"@ + seq!['"'] + "push"@ + seq!['"'] + ",\"data\":{\"notification\":"@);
    kinds_are_read(
        "push"@,
        "{\"type\":\"push\",\"data\":{\"notification\":"@,
        ",\"data\":{\"notification\":"@,
        rest,
    );
    assert("{\"type\":\"dismiss\",\"data\":{\"notification\":"@
        =~= "{\"type\":"@ + seq!['"'] + "dismiss"@ + seq!['"'] + ",\"data\":{\"notification\":"@);
    kinds_are_read(
        "dismiss"@,
        "{\"type\":\"dismiss\",\"data\":{\"notification\":"@,
        ",\"data\":{\"notification\":"@,
        rest,
    );
    assert("{\"type\":\"markRead\",\"data\":{\"id\":"@
        =~= "{\"type\":"@ + seq!['"'] + "markRead"@ + seq!['"'] + ",\"data\":{\"id\":"@);
    kinds_are_read(
        "markRead"@,
        "{\"type\":\"markRead\",\"data\":{\"id\":"@,
        ",\"data\":{\"id\":"@,
        rest,
    );
    assert("{\"type\":\"expireActions\",\"data\":{\"ids\":["@
        =~= "{\"type\":"@ + seq!['"'] + "expireActions"@ + seq!['"'] + ",\"data\":{\"ids\":["@);
    kinds_are_read(
        "expireActions"@,
        "{\"type\":\"expireActions\",\"data\":{\"ids\":["@,
        ",\"data\":{\"ids\":["@,
        rest,
    );
    assert("{\"type\":\"purgeArchive\"}"@
        =~= "{\"type\":"@ + seq!['"'] + "purgeArchive"@ + seq!['"'] + "}"@);
    kinds_are_read("purgeArchive"@, "{\"type\":\"purgeArchive\"}"@, "}"@, rest);
}

/// An operation that was written is read back.
pub proof fn operations_are_read_back(operation: OperationView, rest: Seq<char>)
    ensures
        read_operation(operation_json(operation) + rest) == Some((operation, rest)),
{
    reveal(operation_json);
    kinds_differ();
    reveal_strlit("}}");
    reveal_strlit("]}}");
    let closed = "}}"@ + rest;
    let closed_list = "]}}"@ + rest;
    past_what_comes_next("}}"@, rest);
    past_what_comes_next("]}}"@, rest);
    match operation {
        OperationView::SetDnd { enabled } => {
            let opening = "{\"type\":\"setDnd\",\"data\":{\"enabled\":"@;
            let value = json_bool(enabled);
            in_a_row(opening + value, "}}"@, rest);
            in_a_row(opening, value, closed);
            openings_of_operations(value + closed);
            truth_fields_are_read_back(",\"data\":{\"enabled\":"@, enabled, closed);
        },
        OperationView::Push { notification, archived } => {
            let opening = "{\"type\":\"push\",\"data\":{\"notification\":"@;
            let first = document_json(notification);
            let list = documents_json(archived);
            let key = ",\"archived\":["@;
            in_a_row(opening + first + key + list, "]}}"@, rest);
            in_a_row(opening + first + key, list, closed_list);
            in_a_row(opening + first, key, list + closed_list);
            in_a_row(opening, first, key + (list + closed_list));
            let after = key + (list + closed_list);
            openings_of_operations(first + after);
            past_what_comes_next(",\"data\":{\"notification\":"@, first + after);
            notifications_are_read_back(notification, after);
            past_what_comes_next(key, list + closed_list);
            notification_lists_are_read_back(archived, closed_list);
        },
        OperationView::Dismiss { notification } => {
            let opening = "{\"type\":\"dismiss\",\"data\":{\"notification\":"@;
            let first = document_json(notification);
            in_a_row(opening + first, "}}"@, rest);
            in_a_row(opening, first, closed);
            openings_of_operations(first + closed);
            past_what_comes_next(",\"data\":{\"notification\":"@, first + closed);
            notifications_are_read_back(notification, closed);
        },
        OperationView::MarkRead { id } => {
            let opening = "{\"type\":\"markRead\",\"data\":{\"id\":"@;
            let value = decimal(id as nat);
            in_a_row(opening + value, "}}"@, rest);
            in_a_row(opening, value, closed);
            openings_of_operations(value + closed);
            assert(closed[0] == '}');
            number_fields_are_read_back(",\"data\":{\"id\":"@, id as nat, closed);
        },
        OperationView::ExpireActions { ids } => {
            let opening = "{\"type\":\"expireActions\",\"data\":{\"ids\":["@;
            let list = ids_json(ids);
            in_a_row(opening + list, "]}}"@, rest);
            in_a_row(opening, list, closed_list);
            openings_of_operations(list + closed_list);
            past_what_comes_next(",\"data\":{\"ids\":["@, list + closed_list);
            identifier_lists_are_read_back(ids, closed_list);
        },
        OperationView::PurgeArchive => {
            openings_of_operations(rest);
            past_what_comes_next("}"@, rest);
        },
    }
}

/// The line that is written for an operation says that operation, under its number: what
/// the log gives back is what was put into it.
pub proof fn records_are_read_back(sequence: u64, operation: OperationView)
    ensures
        read_record(record_line(sequence, operation)) == Some((sequence, operation)),
{
    reveal(record_line);
    reveal_strlit(",\"operation\":");
    let opening = "{\"schemaVersion\":1,\"sequence\":"@;
    let key = ",\"operation\":"@;
    let number = decimal(sequence as nat);
    let written = operation_json(operation);
    let end = "}\n"@;
    in_a_row(opening + number + key, written, end);
    in_a_row(opening + number, key, written + end);
    in_a_row(opening, number, key + (written + end));
    assert((key + (written + end))[0] == ',');
    number_fields_are_read_back(opening, sequence as nat, key + (written + end));
    past_what_comes_next(key, written + end);
    operations_are_read_back(operation, end);
}

/// Two records that look alike are the same record.
pub proof fn records_differ_where_operations_do(
    left: u64,
    one: OperationView,
    right: u64,
    other: OperationView,
)
    requires
        record_line(left, one) == record_line(right, other),
    ensures
        left == right,
        one == other,
{
    records_are_read_back(left, one);
    records_are_read_back(right, other);
}

/// The record that turns "do not disturb" on says so in these words, and the one that
/// turns it off in those.
pub proof fn do_not_disturb_is_recorded_in_these_words(sequence: u64)
    ensures
        record_line(sequence, OperationView::SetDnd { enabled: true })
            == "{\"schemaVersion\":1,\"sequence\":"@ + decimal(sequence as nat)
            + ",\"operation\":{\"type\":\"setDnd\",\"data\":{\"enabled\":true}}}\n"@,
        record_line(sequence, OperationView::SetDnd { enabled: false })
            == "{\"schemaVersion\":1,\"sequence\":"@ + decimal(sequence as nat)
            + ",\"operation\":{\"type\":\"setDnd\",\"data\":{\"enabled\":false}}}\n"@,
{
    reveal(record_line);
    reveal(operation_json);
    reveal_strlit(",\"operation\":");
    reveal_strlit("{\"type\":\"setDnd\",\"data\":{\"enabled\":");
    reveal_strlit("true");
    reveal_strlit("false");
    reveal_strlit("}}");
    reveal_strlit("}\n");
    reveal_strlit(",\"operation\":{\"type\":\"setDnd\",\"data\":{\"enabled\":true}}}\n");
    reveal_strlit(",\"operation\":{\"type\":\"setDnd\",\"data\":{\"enabled\":false}}}\n");
    let opening = "{\"schemaVersion\":1,\"sequence\":"@ + decimal(sequence as nat);
    assert(record_line(sequence, OperationView::SetDnd { enabled: true }) =~= opening
        + ",\"operation\":{\"type\":\"setDnd\",\"data\":{\"enabled\":true}}}\n"@);
    assert(record_line(sequence, OperationView::SetDnd { enabled: false }) =~= opening
        + ",\"operation\":{\"type\":\"setDnd\",\"data\":{\"enabled\":false}}}\n"@);
}

// ---------------------------------------------------------------------------
// The whole state
// ---------------------------------------------------------------------------

pub open spec fn read_preferences(s: Seq<char>) -> Read<Preferences> {
    let (version, s1) = number_after(Some(s), "{\"schemaVersion\":"@);
    let (dnd, s2) = truth_after(s1, ",\"dnd\":"@);
    let (next, s3) = number_after(s2, ",\"nextNotificationId\":"@);
    match behind(s3, "}"@) {
        Some(rest) => Some(
            (
                Preferences {
                    schema_version: version as u32,
                    dnd,
                    next_notification_id: next as u64,
                },
                rest,
            ),
        ),
        None => None,
    }
}

/// Preferences that were written are read back.
pub proof fn preferences_are_read_back(preferences: Preferences, rest: Seq<char>)
    ensures
        read_preferences(preferences_json(preferences) + rest) == Some((preferences, rest)),
{
    reveal(preferences_json);
    reveal_strlit(",\"dnd\":");
    reveal_strlit("}");
    let version = decimal(preferences.schema_version as nat);
    let dnd = json_bool(preferences.dnd);
    let next = decimal(preferences.next_notification_id as nat);
    let t7 = rest;
    let t6 = "}"@ + t7;
    let t5 = next + t6;
    let t4 = ",\"nextNotificationId\":"@ + t5;
    let t3 = dnd + t4;
    let t2 = ",\"dnd\":"@ + t3;
    let t1 = version + t2;
    let c1 = "{\"schemaVersion\":"@;
    let c2 = c1 + version;
    let c3 = c2 + ",\"dnd\":"@;
    let c4 = c3 + dnd;
    let c5 = c4 + ",\"nextNotificationId\":"@;
    let c6 = c5 + next;
    in_a_row(c6, "}"@, t7);
    in_a_row(c5, next, t6);
    in_a_row(c4, ",\"nextNotificationId\":"@, t5);
    in_a_row(c3, dnd, t4);
    in_a_row(c2, ",\"dnd\":"@, t3);
    in_a_row(c1, version, t2);
    assert(t2[0] == ',' && t6[0] == '}');
    number_fields_are_read_back("{\"schemaVersion\":"@, preferences.schema_version as nat, t2);
    truth_fields_are_read_back(",\"dnd\":"@, preferences.dnd, t4);
    number_fields_are_read_back(
        ",\"nextNotificationId\":"@,
        preferences.next_notification_id as nat,
        t6,
    );
    past_what_comes_next("}"@, rest);
}

/// The whole state: the active notifications, the archive and the preferences.
pub open spec fn read_state(s: Seq<char>) -> Read<
    (Seq<NotificationView>, Seq<NotificationView>, Preferences),
> {
    let (active, s1) = items_after(
        Some(s),
        "{\"schemaVersion\":1,\"active\":["@,
        |text: Seq<char>| read_document(text),
    );
    let (archive, s2) = items_after(
        s1,
        "],\"archive\":["@,
        |text: Seq<char>| read_document(text),
    );
    match behind(s2, "],\"preferences\":"@) {
        Some(value) => match read_preferences(value) {
            Some((preferences, last)) => match past(last, "}"@) {
                Some(rest) => Some(((active, archive, preferences), rest)),
                None => None,
            },
            None => None,
        },
        None => None,
    }
}

/// A state that was written as a whole is read back: nothing moves from one list to the
/// other, nothing is left out.
pub proof fn states_are_read_back(
    active: Seq<NotificationView>,
    archive: Seq<NotificationView>,
    preferences: Preferences,
    rest: Seq<char>,
)
    ensures
        read_state(transaction_json(active, archive, preferences) + rest) == Some(
            ((active, archive, preferences), rest),
        ),
{
    reveal(transaction_json);
    reveal_strlit("],\"archive\":[");
    reveal_strlit("],\"preferences\":");
    let first = documents_json(active);
    let second = documents_json(archive);
    let third = preferences_json(preferences);
    let t7 = rest;
    let t6 = "}"@ + t7;
    let t5 = third + t6;
    let t4 = "],\"preferences\":"@ + t5;
    let t3 = second + t4;
    let t2 = "],\"archive\":["@ + t3;
    let t1 = first + t2;
    let c1 = "{\"schemaVersion\":1,\"active\":["@;
    let c2 = c1 + first;
    let c3 = c2 + "],\"archive\":["@;
    let c4 = c3 + second;
    let c5 = c4 + "],\"preferences\":"@;
    let c6 = c5 + third;
    in_a_row(c6, "}"@, t7);
    in_a_row(c5, third, t6);
    in_a_row(c4, "],\"preferences\":"@, t5);
    in_a_row(c3, second, t4);
    in_a_row(c2, "],\"archive\":["@, t3);
    in_a_row(c1, first, t2);
    assert(t2[0] == ']' && t4[0] == ']');
    past_what_comes_next("{\"schemaVersion\":1,\"active\":["@, t1);
    notification_lists_are_read_back(active, t2);
    past_what_comes_next("],\"archive\":["@, t3);
    notification_lists_are_read_back(archive, t4);
    past_what_comes_next("],\"preferences\":"@, t5);
    preferences_are_read_back(preferences, t6);
    past_what_comes_next("}"@, rest);
}

} // verus!
