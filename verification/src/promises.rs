//! What the parts that every service shares promise: texts, rows, paths, the on-screen
//! display, the overview and the doctor.

use vstd::prelude::*;

use crate::command::{output_of, runner_failure, RunView, RunnerErrorKind};
use crate::desktop::domain::CapabilityAvailability;
use crate::doctor::{
    all_pass, check_line, checks_of, explanation, line_end, passes, report_text, status_text,
    with_chunk, CheckView, Report, SnapshotStatuses,
};
use crate::error::{ErrorKind, SessionError};
use crate::ids::{uuid_hyphenated, uuid_octets};
use crate::osd::{
    accepted, advanced, pushed, EventView, FocusedOsdRequest, OsdRouteError, OsdRouter, QueueView,
};
use crate::overview::{
    arguments, begins, confirmed_by, judged, number_of, observed, same_event, started_as, waited,
    DaemonCommand, ObservedOverviewEvent, OverviewEvent, OverviewState, PendingCommand,
    StartedRun,
};
use crate::paths::{
    components, from_root, is_absolute, is_entry_of, joined, listed_paths, name_up_to, parts,
};
use crate::rows::reading;
use crate::text::{
    decimal, decimal_spells_the_number, digits_value, first_index, first_index_facts,
    first_index_is, hex_digits, is_blank, is_digit, is_gap, is_space, lex_less, lines, split,
    starts_with, texts, trim, trim_end, trim_start, unsigned_value, upper, without_cr,
    word_length, words,
};

verus! {

// ---------------------------------------------------------------------------
// Texts
// ---------------------------------------------------------------------------

proof fn trimmed_start_facts(s: Seq<char>)
    ensures
        trim_start(s).len() <= s.len(),
        trim_start(s) == s.skip(s.len() - trim_start(s).len()),
        is_blank(s.take(s.len() - trim_start(s).len())),
        trim_start(s).len() > 0 ==> !is_space(trim_start(s)[0]),
    decreases s.len(),
{
    if s.len() > 0 && is_space(s.first()) {
        let rest = s.skip(1);
        trimmed_start_facts(rest);
        let cut = rest.len() - trim_start(rest).len();
        assert(rest.skip(cut) =~= s.skip(cut + 1));
        assert forall|i: int| 0 <= i < cut + 1 implies is_space(#[trigger] s.take(cut + 1)[i]) by {
            if i > 0 {
                assert(rest.take(cut)[i - 1] == s[i]);
            }
        }
    } else {
        assert(s.skip(0) =~= s);
    }
}

proof fn trimmed_end_facts(s: Seq<char>)
    ensures
        trim_end(s).len() <= s.len(),
        trim_end(s) == s.take(trim_end(s).len() as int),
        is_blank(s.skip(trim_end(s).len() as int)),
        trim_end(s).len() > 0 ==> !is_space(trim_end(s).last()),
    decreases s.len(),
{
    if s.len() > 0 && is_space(s.last()) {
        let rest = s.drop_last();
        trimmed_end_facts(rest);
        let kept = trim_end(rest).len() as int;
        assert(rest.take(kept) =~= s.take(kept));
        assert forall|i: int| 0 <= i < s.len() - kept implies is_space(#[trigger] s.skip(kept)[i]) by {
            if i < rest.len() - kept {
                assert(rest.skip(kept)[i] == s[kept + i]);
            }
        }
    } else {
        assert(s.take(s.len() as int) =~= s);
    }
}

/// A trimmed text is what stands between the white space around it, and nothing of it is
/// lost.
pub proof fn trimming_takes_white_space_alone(s: Seq<char>)
    ensures
        exists|before: int, after: int|
            0 <= before <= after <= s.len() && trim(s) == #[trigger] s.subrange(before, after)
                && is_blank(s.take(before)) && is_blank(s.skip(after)),
        trim(s).len() > 0 ==> !is_space(trim(s)[0]) && !is_space(trim(s).last()),
{
    trimmed_start_facts(s);
    let inner = trim_start(s);
    trimmed_end_facts(inner);
    let before = s.len() - inner.len();
    let after = before + trim(s).len();
    assert(trim(s) =~= s.subrange(before, after));
    assert(s.skip(after) =~= inner.skip(trim(s).len() as int));
    if trim(s).len() > 0 {
        assert(trim(s)[0] == inner[0]);
    }
}

/// Pieces with a separator between each two of them.
pub open spec fn put_together(pieces: Seq<Seq<char>>, separator: char) -> Seq<char>
    decreases pieces.len(),
{
    if pieces.len() == 0 {
        Seq::empty()
    } else if pieces.len() == 1 {
        pieces[0]
    } else {
        pieces[0] + seq![separator] + put_together(pieces.skip(1), separator)
    }
}

/// A text that was split can be put together again, and no piece holds the separator.
pub proof fn splitting_loses_nothing(s: Seq<char>, separator: char)
    ensures
        split(s, separator).len() > 0,
        put_together(split(s, separator), separator) == s,
        forall|i: int|
            0 <= i < split(s, separator).len() ==> !(#[trigger] split(s, separator)[i]).contains(
                separator,
            ),
    decreases s.len(),
{
    first_index_facts(s, separator);
    let at = first_index(s, separator);
    if at < s.len() {
        let rest = s.skip(at + 1);
        let later = split(rest, separator);
        splitting_loses_nothing(rest, separator);
        let all = split(s, separator);
        assert(all == seq![s.take(at)] + later);
        assert(all.skip(1) =~= later);
        assert(all[0] == s.take(at));
        assert(s.take(at) + seq![separator] + rest =~= s);
        assert forall|i: int| 0 <= i < all.len() implies !(#[trigger] all[i]).contains(
            separator,
        ) by {
            if i > 0 {
                assert(all[i] == later[i - 1]);
            }
        }
    } else {
        assert(split(s, separator) == seq![s]);
    }
}

/// Pieces without the separator are split as they were put together.
pub proof fn what_is_put_together_is_split(pieces: Seq<Seq<char>>, separator: char)
    requires
        pieces.len() > 0,
        forall|i: int| 0 <= i < pieces.len() ==> !(#[trigger] pieces[i]).contains(separator),
    ensures
        split(put_together(pieces, separator), separator) == pieces,
    decreases pieces.len(),
{
    let s = put_together(pieces, separator);
    let first = pieces[0];
    let at = first.len() as int;
    assert(!pieces[0].contains(separator));
    if pieces.len() == 1 {
        assert forall|i: int| 0 <= i < at implies s[i] != separator by {
            assert(first.contains(first[i]));
        }
        first_index_is(s, separator, at);
        assert(pieces =~= seq![first]);
    } else {
        let rest = pieces.skip(1);
        assert forall|i: int| 0 <= i < rest.len() implies !(#[trigger] rest[i]).contains(
            separator,
        ) by {
            assert(rest[i] == pieces[i + 1]);
        }
        what_is_put_together_is_split(rest, separator);
        assert forall|i: int| 0 <= i < at implies s[i] != separator by {
            assert(first.contains(first[i]));
            assert(s[i] == first[i]);
        }
        assert(s[at] == separator);
        first_index_is(s, separator, at);
        assert(s.take(at) =~= first);
        assert(s.skip(at + 1) =~= put_together(rest, separator));
        assert(seq![first] + rest =~= pieces);
    }
}

proof fn word_length_facts(s: Seq<char>, ascii: bool)
    ensures
        0 <= word_length(s, ascii) <= s.len(),
        forall|i: int| 0 <= i < word_length(s, ascii) ==> !is_gap(#[trigger] s[i], ascii),
        word_length(s, ascii) < s.len() ==> is_gap(s[word_length(s, ascii)], ascii),
    decreases s.len(),
{
    if s.len() > 0 && !is_gap(s[0], ascii) {
        let rest = s.skip(1);
        word_length_facts(rest, ascii);
        assert forall|i: int| 0 <= i < word_length(s, ascii) implies !is_gap(
            #[trigger] s[i],
            ascii,
        ) by {
            if i > 0 {
                assert(rest[i - 1] == s[i]);
            }
        }
    }
}

/// A word is not empty and holds no gap.
pub proof fn words_hold_no_gap(s: Seq<char>, ascii: bool, i: int, k: int)
    requires
        0 <= i < words(s, ascii).len(),
    ensures
        words(s, ascii)[i].len() > 0,
        0 <= k < words(s, ascii)[i].len() ==> !is_gap(words(s, ascii)[i][k], ascii),
    decreases s.len(),
{
    if is_gap(s[0], ascii) {
        words_hold_no_gap(s.skip(1), ascii, i, k);
    } else {
        word_length_facts(s, ascii);
        let length = word_length(s, ascii);
        if i > 0 {
            words_hold_no_gap(s.skip(length), ascii, i - 1, k);
        } else if 0 <= k < length {
            assert(s.take(length)[k] == s[k]);
        }
    }
}

/// A word in front of a gap is the first, and what follows comes after it.
pub proof fn words_are_read_in_order(word: Seq<char>, gap: char, rest: Seq<char>, ascii: bool)
    requires
        word.len() > 0,
        forall|i: int| 0 <= i < word.len() ==> !is_gap(#[trigger] word[i], ascii),
        is_gap(gap, ascii),
    ensures
        words(word + seq![gap] + rest, ascii) == seq![word] + words(rest, ascii),
        words(word, ascii) == seq![word],
        words(Seq::empty(), ascii) == Seq::<Seq<char>>::empty(),
{
    let s = word + seq![gap] + rest;
    let at = word.len() as int;
    length_of_a_word(word, seq![gap] + rest, ascii);
    assert(s =~= word + (seq![gap] + rest));
    assert(!is_gap(word[0], ascii));
    assert(s[0] == word[0]);
    assert(s.take(at) =~= word);
    let after = s.skip(at);
    assert(after =~= seq![gap] + rest);
    assert(after[0] == gap);
    assert(after.skip(1) =~= rest);
    assert(words(after, ascii) == words(rest, ascii));
    assert(words(s, ascii) == seq![s.take(at)] + words(after, ascii));
    length_of_a_word(word, Seq::empty(), ascii);
    assert(word + Seq::<char>::empty() =~= word);
    assert(word.take(at) =~= word);
    assert(word.skip(at) =~= Seq::<char>::empty());
    assert(words(Seq::empty(), ascii) =~= Seq::<Seq<char>>::empty());
    assert(words(word, ascii) == seq![word.take(at)] + words(word.skip(at), ascii));
    assert(seq![word] + Seq::<Seq<char>>::empty() =~= seq![word]);
}

proof fn length_of_a_word(word: Seq<char>, rest: Seq<char>, ascii: bool)
    requires
        forall|i: int| 0 <= i < word.len() ==> !is_gap(#[trigger] word[i], ascii),
        rest.len() > 0 ==> is_gap(rest[0], ascii),
    ensures
        word_length(word + rest, ascii) == word.len(),
    decreases word.len(),
{
    let s = word + rest;
    if word.len() > 0 {
        let shorter = word.skip(1);
        assert(!is_gap(word[0], ascii));
        assert(s.skip(1) =~= shorter + rest);
        assert forall|i: int| 0 <= i < shorter.len() implies !is_gap(#[trigger] shorter[i], ascii) by {
            assert(shorter[i] == word[i + 1]);
        }
        length_of_a_word(shorter, rest, ascii);
    } else {
        assert(s =~= rest);
    }
}

/// Texts are ordered by the first character in which they differ, a shorter one before the
/// longer that it begins.
pub proof fn texts_are_ordered_by_their_first_difference(
    common: Seq<char>,
    left: Seq<char>,
    right: Seq<char>,
)
    ensures
        left.len() > 0 && right.len() > 0 && left[0] != right[0] ==> (lex_less(
            common + left,
            common + right,
        ) <==> left[0] < right[0]),
        right.len() > 0 ==> lex_less(common, common + right),
        !lex_less(common + left, common),
    decreases common.len(),
{
    let a = common + left;
    let b = common + right;
    if common.len() > 0 {
        let rest = common.skip(1);
        texts_are_ordered_by_their_first_difference(rest, left, right);
        assert(a.skip(1) =~= rest + left);
        assert(b.skip(1) =~= rest + right);
        assert(a.first() == common.first() && b.first() == common.first());
        assert(lex_less(a, b) == lex_less(rest + left, rest + right));
    } else {
        assert(a =~= left);
        assert(b =~= right);
    }
}

/// A number that is spelled is read, with a sign in front of it or without one; nothing
/// else is.
pub proof fn numbers_are_read(n: nat, max: int, text: Seq<char>, i: int)
    ensures
        n <= max ==> unsigned_value(decimal(n), max) == Some(n as int),
        n <= max ==> unsigned_value(seq!['+'] + decimal(n), max) == Some(n as int),
        n > max ==> unsigned_value(decimal(n), max) is None,
        unsigned_value(Seq::empty(), max) is None,
        unsigned_value(text, max) is Some && 0 <= i < text.len() ==> ('0' <= text[i] && text[i]
            <= '9') || (i == 0 && text[i] == '+'),
        unsigned_value(text, max) matches Some(value) ==> value <= max,
{
    decimal_spells_the_number(n);
    assert(is_digit(decimal(n)[0]));
    let signed = seq!['+'] + decimal(n);
    assert(signed.skip(1) =~= decimal(n));
    if unsigned_value(text, max) is Some && 0 <= i < text.len() {
        if text[0] == '+' {
            if i > 0 {
                assert(is_digit(text.skip(1)[i - 1]));
            }
        } else {
            assert(is_digit(text[i]));
        }
    }
}

/// What each digit adds to a number.
pub proof fn digits_add_up(s: Seq<char>, c: char)
    requires
        '0' <= c && c <= '9',
    ensures
        digits_value(s.push(c)) == 10 * digits_value(s) + (c as int - '0' as int),
        digits_value(Seq::empty()) == 0,
{
    assert(s.push(c).drop_last() =~= s);
}

/// Letters are raised, and nothing else changes.
pub proof fn letters_are_raised(s: Seq<char>, i: int)
    requires
        0 <= i < s.len(),
    ensures
        upper(s).len() == s.len(),
        'a' <= s[i] && s[i] <= 'z' ==> s[i] as int - upper(s)[i] as int == 'a' as int - 'A' as int,
        !('a' <= s[i] && s[i] <= 'z') ==> upper(s)[i] == s[i],
{
}

/// The lines of a text: what stands before each line feed, without a carriage return at
/// its end.
pub proof fn lines_end_at_line_feeds(rows: Seq<Seq<char>>)
    requires
        forall|i: int|
            0 <= i < rows.len() ==> !(#[trigger] rows[i]).contains('\n') && (rows[i].len() > 0
                ==> rows[i].last() != '\r'),
    ensures
        lines(put_together(rows.push(Seq::empty()), '\n')) == rows,
{
    let all = rows.push(Seq::empty());
    assert forall|i: int| 0 <= i < all.len() implies !(#[trigger] all[i]).contains('\n') by {
        if i < rows.len() {
            assert(all[i] == rows[i]);
        }
    }
    what_is_put_together_is_split(all, '\n');
    let ended = all.drop_last().map_values(|part: Seq<char>| without_cr(part));
    assert(all.last().len() == 0);
    assert forall|i: int| 0 <= i < rows.len() implies ended[i] == rows[i] by {
        assert(all.drop_last()[i] == rows[i]);
        assert(!rows[i].contains('\n'));
    }
    assert(ended =~= rows);
}

// ---------------------------------------------------------------------------
// Rows, runs and paths
// ---------------------------------------------------------------------------

/// The first reading with a key counts.
pub proof fn the_first_reading_counts(readings: Seq<(Seq<char>, Seq<u8>)>, at: int)
    requires
        0 <= at < readings.len(),
        forall|i: int| 0 <= i < at ==> (#[trigger] readings[i]).0 != readings[at].0,
    ensures
        reading(readings, readings[at].0) == Some(readings[at].1),
    decreases readings.len(),
{
    if at > 0 {
        assert(readings[0].0 != readings[at].0);
        let rest = readings.skip(1);
        assert forall|i: int| 0 <= i < at - 1 implies (#[trigger] rest[i]).0 != rest[at - 1].0 by {
            assert(rest[i] == readings[i + 1]);
        }
        the_first_reading_counts(rest, at - 1);
    }
}

/// A program counts as successful exactly when it ended with the status zero.
pub proof fn when_a_program_was_successful(run: RunView)
    ensures
        output_of(run) is Ok <==> run is Ok && run->Ok_0.status == 0,
        output_of(run) matches Ok(output) ==> output == run->Ok_0.stdout,
        run matches Err(RunnerErrorKind::Timeout) ==> output_of(run)->Err_0.0
            == ErrorKind::TimedOut,
{
}

/// A path that is joined keeps both parts, with one separator between them.
pub proof fn joined_paths_keep_their_parts(base: Seq<u8>, rest: Seq<u8>)
    ensures
        ends_with_bytes(joined(base, rest), rest),
        joined(base, rest).take(base.len() as int) == base,
        base.len() > 0 && base.last() != 0x2f ==> joined(base, rest).len() == base.len() + 1
            + rest.len() && joined(base, rest)[base.len() as int] == 0x2f,
        base.len() > 0 && base.last() == 0x2f ==> joined(base, rest) == base + rest,
{
    let path = joined(base, rest);
    assert(path.take(base.len() as int) =~= base);
    assert(path.skip(path.len() - rest.len()) =~= rest);
}

/// Whether bytes end with others.
pub open spec fn ends_with_bytes(path: Seq<u8>, end: Seq<u8>) -> bool {
    end.len() <= path.len() && path.skip(path.len() - end.len()) == end
}

/// Names are ordered by the first byte in which they differ.
pub proof fn names_are_ordered_by_their_first_difference(
    common: Seq<u8>,
    left: Seq<u8>,
    right: Seq<u8>,
)
    ensures
        left.len() > 0 && right.len() > 0 && left[0] != right[0] ==> (name_up_to(
            common + left,
            common + right,
        ) <==> left[0] < right[0]),
        name_up_to(common, common + right),
        left.len() > 0 ==> !name_up_to(common + left, common),
    decreases common.len(),
{
    let a = common + left;
    let b = common + right;
    if common.len() > 0 {
        let rest = common.skip(1);
        names_are_ordered_by_their_first_difference(rest, left, right);
        assert(a.skip(1) =~= rest + left);
        assert(b.skip(1) =~= rest + right);
    } else {
        assert(a =~= left);
        assert(b =~= right);
    }
}

// ---------------------------------------------------------------------------
// The on-screen display
// ---------------------------------------------------------------------------

/// What an event does to a queue: it is shown at once where nothing or its own kind is
/// shown, it waits where there is room, and it is counted where there is none.
pub proof fn what_an_event_does(queue: QueueView, event: EventView, now: u64, capacity: nat)
    ensures
        queue.current is None ==> {
            let after = pushed(queue, event, now, capacity);
            after.current == Some(event) && after.since == Some(now) && after.pending
                == queue.pending && after.overflow == queue.overflow
        },
        queue.current matches Some(shown) && shown.kind == event.kind ==> {
            let after = pushed(queue, event, now, capacity);
            after.current == Some(event) && after.since == Some(now) && after.pending
                == queue.pending && after.overflow == queue.overflow
        },
        queue.current matches Some(shown) && shown.kind != event.kind && queue.pending.len()
            < capacity ==> {
            let after = pushed(queue, event, now, capacity);
            after.current == queue.current && after.since == queue.since && after.pending
                == queue.pending.push(event) && after.overflow == queue.overflow
        },
        queue.current matches Some(shown) && shown.kind != event.kind && queue.pending.len()
            >= capacity && queue.overflow < u64::MAX ==> {
            let after = pushed(queue, event, now, capacity);
            after.current == queue.current && after.since == queue.since && after.pending
                == queue.pending && after.overflow == queue.overflow + 1
        },
        accepted(queue, event, capacity) <==> queue.current is None
            || queue.current->Some_0.kind == event.kind || queue.pending.len() < capacity,
{
}

/// An event is shown for its time and not longer; the next one follows at once, the oldest
/// first.
pub proof fn events_are_shown_for_their_time(queue: QueueView, since: u64, now: u64, timeout: u64)
    requires
        queue.since == Some(since),
        timeout > 0,
        since + timeout <= u64::MAX,
    ensures
        now < since + timeout ==> advanced(queue, now, timeout) == queue,
        now >= since + timeout && queue.pending.len() == 0 ==> advanced(
            queue,
            now,
            timeout,
        ).current is None && advanced(queue, now, timeout).since is None,
        since + timeout <= now < since + timeout + timeout && queue.pending.len() > 0 ==> {
            let after = advanced(queue, now, timeout);
            &&& after.current == Some(queue.pending[0])
            &&& after.since == Some((since + timeout) as u64)
            &&& after.pending == queue.pending.skip(1)
            &&& after.overflow == queue.overflow
        },
{
    reveal_with_fuel(advanced, 2);
}

/// An event goes to the output that has the focus, while that is known to be so, with
/// everything that was asked for.
pub proof fn events_go_to_the_focused_output(
    router: OsdRouter,
    request: FocusedOsdRequest,
    now: u64,
)
    ensures
        router.focus() is None ==> router.routed(request, now) == Err::<EventView, OsdRouteError>(
            OsdRouteError::MissingFocus,
        ),
        router.focus() matches Some(focus) ==> (router.routed(request, now) is Ok <==> focus.1
            <= now && now - focus.1 <= router.ttl()),
        router.routed(request, now) matches Ok(event) ==> {
            &&& event.output_id == router.focus()->Some_0.0
            &&& event.kind == request.kind
            &&& event.level == request.level
            &&& event.muted == request.muted
            &&& event.label == request.label@
            &&& event.schema_version == 1
        },
{
}

// ---------------------------------------------------------------------------
// The overview
// ---------------------------------------------------------------------------

/// The compositor is asked in these words.
pub proof fn the_compositor_is_asked_in_these_words(id: u64)
    requires
        id > 0,
    ensures
        arguments(DaemonCommand::FocusWindow { window_id: id }) == Some(
            seq!["msg"@, "action"@, "focus-window"@, "--id"@, decimal(id as nat)],
        ),
        arguments(DaemonCommand::CloseWindow { window_id: id }) == Some(
            seq!["msg"@, "action"@, "close-window"@, "--id"@, decimal(id as nat)],
        ),
        arguments(DaemonCommand::FocusWorkspace { workspace_id: id }) == Some(
            seq!["msg"@, "action"@, "focus-workspace"@, decimal(id as nat)],
        ),
        arguments(DaemonCommand::FocusWindow { window_id: 0 }) is None,
        arguments(DaemonCommand::CloseWindow { window_id: 0 }) is None,
        arguments(DaemonCommand::FocusWorkspace { workspace_id: 0 }) is None,
        arguments(DaemonCommand::Unrelated) is None,
{
}

/// A command is confirmed by the event of its own window or workspace, and by no other.
pub proof fn what_confirms_a_command(
    id: u64,
    event: OverviewEvent,
    output: Option<Seq<char>>,
)
    ensures
        confirmed_by(DaemonCommand::FocusWindow { window_id: id }, event, output) ==> event
            is FocusChanged && event->FocusChanged_window_id == Some(id),
        confirmed_by(DaemonCommand::CloseWindow { window_id: id }, event, output) <==> event
            is WindowClosed && event->WindowClosed_window_id == id,
        confirmed_by(DaemonCommand::FocusWorkspace { workspace_id: id }, event, output) ==> event
            is FocusChanged && event->workspace_id == id && (output is Some
            ==> event->FocusChanged_output_id@ == output->Some_0),
        event is FocusChanged && event->FocusChanged_window_id == Some(id)
            && event->FocusChanged_output_id@.len() > 0 ==> confirmed_by(
            DaemonCommand::FocusWindow { window_id: id },
            event,
            output,
        ),
        event is FocusChanged && event->workspace_id == id && output is None ==> confirmed_by(
            DaemonCommand::FocusWorkspace { workspace_id: id },
            event,
            output,
        ),
        event is Offline ==> !confirmed_by(
            DaemonCommand::FocusWindow { window_id: id },
            event,
            output,
        ),
        !confirmed_by(DaemonCommand::Unrelated, event, output),
{
}

/// What an event changes: a newer one counts, and an older one is nothing.
pub proof fn what_events_change(state: OverviewState, event: OverviewEvent)
    ensures
        number_of(event) <= state.sequence ==> observed(state, event) == state,
        number_of(event) > state.sequence ==> {
            let after = observed(state, event);
            &&& after.sequence == number_of(event)
            &&& after.online <==> !(event is Offline)
            &&& event is FocusChanged ==> after.focused_output == Some(
                event->FocusChanged_output_id@,
            )
            &&& !(event is FocusChanged) ==> after.focused_output == state.focused_output
        },
{
}

// ---------------------------------------------------------------------------
// The doctor
// ---------------------------------------------------------------------------

/// What is checked: each capability under its own name, and only the compositor and the
/// lock are required.
pub proof fn what_is_checked(statuses: SnapshotStatuses, i: int)
    ensures
        checks_of(statuses).len() == 13,
        checks_of(statuses)[0].capability == "hyprland"@,
        checks_of(statuses)[0].status == statuses.hyprland,
        checks_of(statuses)[1].capability == "lock"@,
        checks_of(statuses)[1].status == statuses.lock,
        checks_of(statuses)[2].capability == "network"@,
        checks_of(statuses)[2].status == statuses.network,
        checks_of(statuses)[3].capability == "audio"@,
        checks_of(statuses)[3].status == statuses.audio,
        checks_of(statuses)[4].capability == "bluetooth"@,
        checks_of(statuses)[4].status == statuses.bluetooth,
        checks_of(statuses)[5].capability == "battery"@,
        checks_of(statuses)[5].status == statuses.battery,
        checks_of(statuses)[6].capability == "brightness"@,
        checks_of(statuses)[6].status == statuses.brightness,
        checks_of(statuses)[7].capability == "power"@,
        checks_of(statuses)[7].status == statuses.power,
        checks_of(statuses)[8].capability == "media"@,
        checks_of(statuses)[8].status == statuses.media,
        checks_of(statuses)[9].capability == "night-light"@,
        checks_of(statuses)[9].status == statuses.night_light,
        checks_of(statuses)[10].capability == "resources"@,
        checks_of(statuses)[10].status == statuses.resources,
        checks_of(statuses)[11].capability == "screenshot"@,
        checks_of(statuses)[11].status == statuses.screenshot,
        checks_of(statuses)[12].capability == "recording"@,
        checks_of(statuses)[12].status == statuses.recording,
        0 <= i < 13 ==> (checks_of(statuses)[i].required <==> i < 2),
{
}

/// When a check passes: what is available does; what is missing does where it is not
/// required; what failed does not.
pub proof fn when_a_check_passes(capability: Seq<char>, required: bool)
    ensures
        passes(
            CheckView { capability, status: CapabilityAvailability::Available, required },
        ),
        passes(
            CheckView { capability, status: CapabilityAvailability::Unavailable, required },
        ) <==> !required,
        passes(
            CheckView { capability, status: CapabilityAvailability::Unsupported, required },
        ) <==> !required,
        !passes(CheckView { capability, status: CapabilityAvailability::Timeout, required }),
        !passes(CheckView { capability, status: CapabilityAvailability::Parse, required }),
        !passes(CheckView { capability, status: CapabilityAvailability::Error, required }),
        !passes(
            CheckView { capability, status: CapabilityAvailability::PermissionDenied, required },
        ),
{
}

/// The session is ready when every check passes, and a required one that does not is
/// enough to say that it is not.
pub proof fn when_the_session_is_ready(checks: Seq<CheckView>, i: int)
    ensures
        all_pass(checks) && 0 <= i < checks.len() && checks[i].required ==> checks[i].status
            == CapabilityAvailability::Available,
        0 <= i < checks.len() && checks[i].status == CapabilityAvailability::Error ==> !all_pass(
            checks,
        ),
{
    if 0 <= i < checks.len() {
        assert(all_pass(checks) ==> passes(checks[i]));
    }
}

/// What the report says of each status and each error.
pub proof fn what_the_report_says()
    ensures
        status_text(CapabilityAvailability::Available) == "available"@,
        status_text(CapabilityAvailability::Unavailable) == "unavailable"@,
        status_text(CapabilityAvailability::Unsupported) == "unsupported"@,
        status_text(CapabilityAvailability::PermissionDenied) == "permission denied"@,
        status_text(CapabilityAvailability::Timeout) == "timeout"@,
        status_text(CapabilityAvailability::Parse) == "invalid provider response"@,
        status_text(CapabilityAvailability::Error) == "provider error"@,
        explanation("timeout"@) == "Session snapshot exceeded the two-second deadline."@,
        explanation("invalid-snapshot"@)
            == "Session sent an invalid or unsupported desktop snapshot."@,
        explanation("frame-too-large"@) == "Session snapshot exceeded the 1 MiB limit."@,
        explanation("peer-mismatch"@) == "Session socket belongs to a different user."@,
        explanation("runtime-unavailable"@)
            == "Run doctor inside your Sleepy desktop user session."@,
{
    reveal_strlit("timeout");
    reveal_strlit("invalid-snapshot");
    reveal_strlit("frame-too-large");
    reveal_strlit("peer-mismatch");
    reveal_strlit("runtime-unavailable");
    assert("timeout"@.len() == 7 && "invalid-snapshot"@.len() == 16);
    assert("frame-too-large"@.len() == 15 && "peer-mismatch"@.len() == 13);
    assert("runtime-unavailable"@.len() == 19);
}

/// How a check is shown: on a line of its own, with a remark where something optional is
/// missing.
pub proof fn how_checks_are_shown(capability: Seq<char>)
    ensures
        check_line(
            CheckView {
                capability,
                status: CapabilityAvailability::Available,
                required: true,
            },
        ) == "  "@ + capability + ": available\n"@,
        check_line(
            CheckView {
                capability,
                status: CapabilityAvailability::Unavailable,
                required: false,
            },
        ) == "  "@ + capability + ": unavailable (optional)\n"@,
        check_line(
            CheckView {
                capability,
                status: CapabilityAvailability::Unavailable,
                required: true,
            },
        ) == "  "@ + capability + ": unavailable\n"@,
        check_line(
            CheckView {
                capability,
                status: CapabilityAvailability::Timeout,
                required: false,
            },
        ) == "  "@ + capability + ": timeout\n"@,
{
    reveal_strlit("  ");
    reveal_strlit(": ");
    reveal_strlit("available");
    reveal_strlit("unavailable");
    reveal_strlit("timeout");
    reveal_strlit(" (optional)");
    reveal_strlit("\n");
    reveal_strlit(": available\n");
    reveal_strlit(": unavailable (optional)\n");
    reveal_strlit(": unavailable\n");
    reveal_strlit(": timeout\n");
    let one = CheckView {
        capability,
        status: CapabilityAvailability::Available,
        required: true,
    };
    let two = CheckView {
        capability,
        status: CapabilityAvailability::Unavailable,
        required: false,
    };
    let three = CheckView {
        capability,
        status: CapabilityAvailability::Unavailable,
        required: true,
    };
    let four = CheckView {
        capability,
        status: CapabilityAvailability::Timeout,
        required: false,
    };
    assert(check_line(one) =~= "  "@ + capability + ": available\n"@);
    assert(check_line(two) =~= "  "@ + capability + ": unavailable (optional)\n"@);
    assert(check_line(three) =~= "  "@ + capability + ": unavailable\n"@);
    assert(check_line(four) =~= "  "@ + capability + ": timeout\n"@);
}

/// The report begins with the verdict.
pub proof fn the_report_begins_with_the_verdict(report: Report)
    ensures
        report.ok ==> starts_with(report_text(report), "Sleepy desktop: ready\n"@),
        !report.ok ==> starts_with(report_text(report), "Sleepy desktop: needs attention\n"@),
{
    reveal_strlit("Sleepy desktop: ");
    reveal_strlit("ready");
    reveal_strlit("needs attention");
    reveal_strlit("\n");
    reveal_strlit("Sleepy desktop: ready\n");
    reveal_strlit("Sleepy desktop: needs attention\n");
    let text = report_text(report);
    if report.ok {
        let head = "Sleepy desktop: "@ + "ready"@ + "\n"@;
        assert(head =~= "Sleepy desktop: ready\n"@);
        assert(text.take(head.len() as int) =~= head);
    } else {
        let head = "Sleepy desktop: "@ + "needs attention"@ + "\n"@;
        assert(head =~= "Sleepy desktop: needs attention\n"@);
        assert(text.take(head.len() as int) =~= head);
    }
}

/// A frame ends at its first line feed.
pub proof fn a_frame_ends_at_its_line_feed(frame: Seq<u8>, line: Seq<u8>, rest: Seq<u8>)
    requires
        !line.contains(10u8),
        frame.len() + line.len() <= 1_048_576,
    ensures
        with_chunk(frame, line + seq![10u8] + rest) == Ok::<(bool, Seq<u8>), Seq<char>>(
            (true, frame + line),
        ),
        line.len() > 0 ==> with_chunk(frame, line) == Ok::<(bool, Seq<u8>), Seq<char>>(
            (false, frame + line),
        ),
        with_chunk(frame, Seq::empty()) is Err,
{
    let chunk = line + seq![10u8] + rest;
    ends_are_found(line, seq![10u8] + rest);
    assert(chunk =~= line + (seq![10u8] + rest));
    assert(chunk.take(line.len() as int) =~= line);
    ends_are_found(line, Seq::empty());
    assert(line + Seq::<u8>::empty() =~= line);
    assert(line.take(line.len() as int) =~= line);
}

proof fn ends_are_found(line: Seq<u8>, rest: Seq<u8>)
    requires
        !line.contains(10u8),
        rest.len() > 0 ==> rest[0] == 10u8,
    ensures
        line_end(line + rest) == line.len(),
    decreases line.len(),
{
    let s = line + rest;
    if line.len() > 0 {
        let shorter = line.skip(1);
        assert(line.contains(line[0]));
        assert(s.skip(1) =~= shorter + rest);
        assert forall|i: int| 0 <= i < shorter.len() implies shorter[i] != 10u8 by {
            assert(line.contains(line[i + 1]));
        }
        ends_are_found(shorter, rest);
    } else {
        assert(s =~= rest);
    }
}

/// How the failures of a runner are classed.
pub proof fn how_failed_runs_are_classed()
    ensures
        runner_failure(RunnerErrorKind::Timeout) == ErrorKind::TimedOut,
        runner_failure(RunnerErrorKind::Cancelled) == ErrorKind::TimedOut,
        runner_failure(RunnerErrorKind::Spawn) == ErrorKind::NotFound,
        runner_failure(RunnerErrorKind::Io) == ErrorKind::Other,
{
}

/// Whether bytes can be the name of a component of a path.
pub open spec fn is_plain_name(name: Seq<u8>) -> bool {
    name.len() > 0 && !name.contains(0x2fu8) && name != seq![0x2eu8]
}

proof fn parts_of_a_name(path: Seq<u8>, name: Seq<u8>)
    requires
        !name.contains(0x2fu8),
    ensures
        parts(path.push(0x2fu8) + name).1 == name,
        parts(path.push(0x2fu8) + name).0 == components(path),
    decreases name.len(),
{
    let whole = path.push(0x2fu8) + name;
    if name.len() == 0 {
        assert(whole =~= path.push(0x2fu8));
        assert(whole.drop_last() =~= path);
        assert(name =~= Seq::empty());
    } else {
        let shorter = name.drop_last();
        assert forall|i: int| 0 <= i < shorter.len() implies shorter[i] != 0x2fu8 by {
            assert(name.contains(name[i]));
        }
        parts_of_a_name(path, shorter);
        assert(whole.drop_last() =~= path.push(0x2fu8) + shorter);
        assert(whole.last() == name.last());
        assert(name.contains(name[name.len() - 1]));
        assert(shorter.push(name.last()) =~= name);
    }
}

/// What is joined to a path is one component more, and an entry of it.
pub proof fn what_is_joined_is_an_entry(path: Seq<u8>, name: Seq<u8>)
    requires
        is_plain_name(name),
        path.len() > 0,
        path.last() != 0x2f,
    ensures
        components(joined(path, name)) == components(path).push(name),
        is_entry_of(joined(path, name), path),
{
    parts_of_a_name(path, name);
    let names = components(path);
    assert(names.push(name).drop_last() =~= names);
}

/// A path from the root has the components it was made of.
pub proof fn paths_have_their_components(names: Seq<Seq<u8>>)
    requires
        forall|i: int| 0 <= i < names.len() ==> is_plain_name(#[trigger] names[i]),
    ensures
        components(from_root(names)) == names,
        is_absolute(from_root(names)),
        names.len() > 0 ==> from_root(names).last() != 0x2f,
    decreases names.len(),
{
    if names.len() == 0 {
        let root = seq![0x2fu8];
        assert(root.drop_last() =~= Seq::<u8>::empty());
        reveal_with_fuel(parts, 2);
        assert(components(root) =~= Seq::<Seq<u8>>::empty());
        assert(names =~= Seq::empty());
    } else {
        let above = names.drop_last();
        let name = names.last();
        assert forall|i: int| 0 <= i < above.len() implies is_plain_name(#[trigger] above[i]) by {
            assert(above[i] == names[i]);
        }
        paths_have_their_components(above);
        assert(is_plain_name(names[names.len() - 1]));
        let base = from_root(above);
        if above.len() == 0 {
            parts_of_a_name(Seq::empty(), name);
            let nothing = Seq::<u8>::empty();
            assert(nothing.push(0x2fu8) =~= seq![0x2fu8]);
            assert(components(nothing) =~= Seq::<Seq<u8>>::empty());
            assert(joined(base, name) == base + name);
        } else {
            what_is_joined_is_an_entry(base, name);
        }
        assert(above.push(name) =~= names);
        assert(from_root(names).last() == name.last());
        assert(name.contains(name[name.len() - 1]));
    }
}

/// Paths with a colon between each two of them.
pub open spec fn listed(paths: Seq<Seq<u8>>) -> Seq<u8>
    decreases paths.len(),
{
    if paths.len() == 0 {
        Seq::empty()
    } else if paths.len() == 1 {
        paths[0]
    } else {
        listed(paths.drop_last()) + seq![0x3au8] + paths.last()
    }
}

/// A list of paths is read as it is written: its paths stand between the colons.
pub proof fn lists_of_paths_are_read(list: Seq<u8>)
    ensures
        listed_paths(list).len() > 0,
        listed(listed_paths(list)) == list,
        forall|i: int|
            0 <= i < listed_paths(list).len() ==> !(#[trigger] listed_paths(list)[i]).contains(
                0x3au8,
            ),
    decreases list.len(),
{
    if list.len() > 0 {
        let shorter = list.drop_last();
        let before = listed_paths(shorter);
        let all = listed_paths(list);
        lists_of_paths_are_read(shorter);
        if list.last() == 0x3a {
            assert(all.drop_last() =~= before);
            assert(listed(all) =~= list);
            assert forall|i: int| 0 <= i < all.len() implies !(#[trigger] all[i]).contains(0x3au8) by {
                if i < before.len() {
                    assert(all[i] == before[i]);
                }
            }
        } else {
            assert(all.drop_last() =~= before.drop_last());
            assert(all.last() == before.last().push(list.last()));
            if before.len() == 1 {
                assert(listed(before) == before[0]);
                assert(listed(all) == all[0]);
                assert(all[0] =~= list);
            } else {
                assert(listed(all) =~= listed(before).push(list.last()));
                assert(shorter.push(list.last()) =~= list);
            }
            assert forall|i: int| 0 <= i < all.len() implies !(#[trigger] all[i]).contains(0x3au8) by {
                if i < before.len() - 1 {
                    assert(all[i] == before[i]);
                } else {
                    assert(!before[before.len() - 1].contains(0x3au8));
                    assert forall|k: int| 0 <= k < all[i].len() implies all[i][k] != 0x3au8 by {
                        if k < before.last().len() {
                            assert(before.last().contains(before.last()[k]));
                        }
                    }
                }
            }
        }
    }
}

/// A command is begun when the stream is there and the command is one of the overview's;
/// it waits for what comes after everything that is known.
pub proof fn when_a_command_is_begun(
    before: OverviewState,
    command: DaemonCommand,
    prepared: Result<(u64, Vec<ObservedOverviewEvent>), SessionError>,
    pending: Result<PendingCommand, SessionError>,
    after: OverviewState,
)
    requires
        begins(before, command, prepared, pending, after),
    ensures
        pending is Ok ==> {
            &&& after.online
            &&& arguments(command) == Some(texts(pending->Ok_0.args@))
            &&& pending->Ok_0.command == command
            &&& pending->Ok_0.baseline >= after.sequence
            &&& prepared is Ok && pending->Ok_0.baseline >= prepared->Ok_0.0
            &&& pending->Ok_0.baseline == after.sequence || pending->Ok_0.baseline
                == prepared->Ok_0.0
            &&& crate::desktop::wire::optional_text(pending->Ok_0.routed_output)
                == after.focused_output
        },
        prepared is Ok && after.online && arguments(command) is Some ==> pending is Ok,
        prepared is Ok && !after.online ==> pending is Err && pending->Err_0.kind
            == ErrorKind::NotConnected,
{
}

/// A command that was run has started when its program ended with the status zero.
pub proof fn when_a_command_has_started(run: StartedRun, started: Result<u64, SessionError>)
    requires
        started_as(run, started),
    ensures
        started is Ok <==> run.outcome is Ok && run.outcome->Ok_0 == 0,
        started is Ok ==> started->Ok_0 == run.started_at,
        run.outcome is Err ==> started->Err_0.message@ == run.outcome->Err_0@,
{
}

/// What is waited for is judged when it comes; an error changes nothing.
pub proof fn what_is_waited_for(
    before: OverviewState,
    pending: PendingCommand,
    started_at: u64,
    received: Result<Option<ObservedOverviewEvent>, SessionError>,
    confirmation: Result<Option<OverviewEvent>, SessionError>,
    after: OverviewState,
)
    requires
        waited(before, pending, started_at, received, confirmation, after),
    ensures
        received is Err ==> after == before && confirmation is Err && confirmation->Err_0
            == received->Err_0,
        confirmation is Ok && confirmation->Ok_0 is Some ==> {
            &&& received is Ok && received->Ok_0 is Some
            &&& received->Ok_0->Some_0.observed_at >= started_at
            &&& number_of(received->Ok_0->Some_0.event) > pending.baseline
            &&& same_event(confirmation->Ok_0->Some_0, received->Ok_0->Some_0.event)
        },
        received matches Ok(None) ==> confirmation is Err && confirmation->Err_0.kind
            == ErrorKind::TimedOut,
{
}

/// Events are the same when they are alike in everything.
pub proof fn which_events_are_the_same(left: OverviewEvent, right: OverviewEvent)
    ensures
        same_event(left, left),
        same_event(left, right) ==> number_of(left) == number_of(right),
        same_event(left, right) ==> (left is FocusChanged <==> right is FocusChanged) && (left
            is WindowClosed <==> right is WindowClosed),
        same_event(left, right) && left is FocusChanged ==> left->FocusChanged_output_id@
            == right->FocusChanged_output_id@ && left->FocusChanged_window_id
            == right->FocusChanged_window_id && left->workspace_id == right->workspace_id,
        same_event(left, right) && left is WindowClosed ==> left->WindowClosed_window_id
            == right->WindowClosed_window_id,
{
}

/// An identifier is written in five groups of digits, and in sixteen octets, the greatest
/// first.
pub proof fn how_identifiers_are_written(value: u128, i: int)
    ensures
        uuid_hyphenated(value).len() == 36,
        uuid_hyphenated(value)[8] == '-',
        uuid_hyphenated(value)[13] == '-',
        uuid_hyphenated(value)[18] == '-',
        uuid_hyphenated(value)[23] == '-',
        uuid_hyphenated(value).take(8) == hex_digits(value as nat, 32).take(8),
        uuid_hyphenated(value).skip(24) == hex_digits(value as nat, 32).skip(20),
        uuid_octets(value).len() == 16,
        uuid_octets(value)[15] == value % 256,
        uuid_octets(value)[0] == value / 0x1000000000000000000000000000000,
{
    hex_digits_have_their_width(value as nat, 32);
    let text = uuid_hyphenated(value);
    let digits = hex_digits(value as nat, 32);
    assert(text.take(8) =~= digits.take(8));
    assert(text.skip(24) =~= digits.skip(20));
    assert(((value >> 0u128) & 0xff) as u8 == value % 256) by (bit_vector);
    assert(((value >> 120u128) & 0xff) as u8 == value / 0x1000000000000000000000000000000)
        by (bit_vector);
}

proof fn hex_digits_have_their_width(n: nat, width: nat)
    ensures
        hex_digits(n, width).len() == width,
    decreases width,
{
    if width > 0 {
        hex_digits_have_their_width(n / 16, (width - 1) as nat);
    }
}

/// An event that is new enough and answers the command confirms it.
pub proof fn a_fitting_event_confirms(
    before: OverviewState,
    pending: PendingCommand,
    started_at: u64,
    received: ObservedOverviewEvent,
    confirmation: Result<Option<OverviewEvent>, SessionError>,
    after: OverviewState,
)
    requires
        judged(before, pending, started_at, Some(received), confirmation, after),
        number_of(received.event) > pending.baseline,
    ensures
        !(received.event is Offline) && received.observed_at >= started_at && confirmed_by(
            pending.command,
            received.event,
            crate::desktop::wire::optional_text(pending.routed_output),
        ) ==> confirmation is Ok && confirmation->Ok_0 is Some,
        received.event is Offline ==> confirmation is Err && confirmation->Err_0.kind
            == ErrorKind::NotConnected,
        after == observed(before, received.event),
{
}

/// A window is focused on an output that has a name.
pub proof fn focused_windows_have_an_output(id: u64, event: OverviewEvent, output: Option<Seq<char>>)
    requires
        confirmed_by(DaemonCommand::FocusWindow { window_id: id }, event, output),
    ensures
        event is FocusChanged,
        event->FocusChanged_output_id@.len() > 0,
{
}

} // verus!
