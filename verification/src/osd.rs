//! Routing of on-screen displays to outputs.
//!
//! Each output shows one event at a time and keeps a bounded queue of events that
//! wait. Times are in nanoseconds.

use vstd::prelude::*;

use crate::desktop::domain::{Level, OsdEvent, OsdKind};
use crate::notifications::document::WIRE_SCHEMA_VERSION;
use crate::rows::{views, views_of_push};
use crate::text::{blank_text, is_blank, same_text};

verus! {

/// How long an event is shown unless said otherwise.
pub const DISPLAY_TIMEOUT: u64 = 2_000_000_000;

/// How long a focus counts unless said otherwise.
pub const FOCUS_TTL: u64 = 250_000_000;

/// The shortest time that an event is shown.
pub const SHORTEST_DISPLAY: u64 = 1_000_000;

pub struct EventView {
    pub schema_version: u32,
    pub output_id: Seq<char>,
    pub kind: OsdKind,
    pub level: Option<Level>,
    pub muted: Option<bool>,
    pub label: Seq<char>,
}

impl View for OsdEvent {
    type V = EventView;

    open spec fn view(&self) -> EventView {
        EventView {
            schema_version: self.schema_version,
            output_id: self.output_id@,
            kind: self.kind,
            level: self.level,
            muted: self.muted,
            label: self.label@,
        }
    }
}

/// An event for the output that has the focus.
pub struct FocusedOsdRequest {
    pub kind: OsdKind,
    pub level: Option<Level>,
    pub muted: Option<bool>,
    pub label: String,
}

#[derive(Debug, Clone, Copy, PartialEq, Eq, Structural)]
pub enum OsdRouteError {
    MissingFocus,
    StaleFocus,
    InvalidEvent,
}

/// Which output has the focus, if one has.
pub struct NiriEvent {
    pub focused_output_id: Option<String>,
}

/// What an output shows, since when, and what waits.
pub struct QueueView {
    pub current: Option<EventView>,
    pub since: Option<u64>,
    pub pending: Seq<EventView>,
    pub overflow: u64,
}

/// An output that shows nothing.
pub open spec fn idle() -> QueueView {
    QueueView { current: None, since: None, pending: Seq::empty(), overflow: 0 }
}

/// A queue is sound: there is a time exactly while something is shown, nothing
/// waits while nothing is shown, and no more waits than there is room for.
pub open spec fn sound(queue: QueueView, capacity: nat) -> bool {
    &&& queue.current is Some <==> queue.since is Some
    &&& queue.current is None ==> queue.pending.len() == 0
    &&& queue.pending.len() <= capacity
}

/// What becomes of a queue when an event comes: it is shown at once where nothing
/// is shown or something of the same kind, else it waits, and where there is no
/// room it is counted and dropped.
pub open spec fn pushed(queue: QueueView, event: EventView, now: u64, capacity: nat) -> QueueView {
    if queue.current is None || queue.current->Some_0.kind == event.kind {
        QueueView { current: Some(event), since: Some(now), ..queue }
    } else if queue.pending.len() < capacity {
        QueueView { pending: queue.pending.push(event), ..queue }
    } else {
        QueueView {
            overflow: if queue.overflow == u64::MAX {
                u64::MAX
            } else {
                (queue.overflow + 1) as u64
            },
            ..queue
        }
    }
}

/// Whether an event is taken in.
pub open spec fn accepted(queue: QueueView, event: EventView, capacity: nat) -> bool {
    queue.current is None || queue.current->Some_0.kind == event.kind || queue.pending.len()
        < capacity
}

/// The queue with the next event shown from a time on.
pub open spec fn next_shown(queue: QueueView, from: u64) -> QueueView {
    if queue.pending.len() == 0 {
        QueueView { current: None, since: None, ..queue }
    } else {
        QueueView {
            current: Some(queue.pending[0]),
            since: Some(from),
            pending: queue.pending.skip(1),
            ..queue
        }
    }
}

/// The queue at a time: each event is shown for the same while, one right after
/// the other.
pub open spec fn advanced(queue: QueueView, now: u64, timeout: u64) -> QueueView
    decreases queue.pending.len(),
{
    match queue.since {
        Some(since) => if now < since || now - since < timeout {
            queue
        } else if queue.pending.len() == 0 {
            next_shown(queue, 0)
        } else {
            advanced(next_shown(queue, (since + timeout) as u64), now, timeout)
        },
        None => queue,
    }
}

/// Every change keeps a queue sound.
pub proof fn queues_stay_sound(
    queue: QueueView,
    event: EventView,
    now: u64,
    capacity: nat,
    timeout: u64,
)
    requires
        sound(queue, capacity),
    ensures
        sound(pushed(queue, event, now, capacity), capacity),
        sound(next_shown(queue, now), capacity),
        sound(advanced(queue, now, timeout), capacity),
    decreases queue.pending.len(),
{
    match queue.since {
        Some(since) => if now >= since && now - since >= timeout && queue.pending.len() > 0 {
            queues_stay_sound(
                next_shown(queue, (since + timeout) as u64),
                event,
                now,
                capacity,
                timeout,
            );
        },
        None => {},
    }
}

/// Nothing is lost in silence: an event is shown, waits, or is counted.
pub proof fn no_event_is_lost_in_silence(
    queue: QueueView,
    event: EventView,
    now: u64,
    capacity: nat,
)
    ensures
        ({
            let after = pushed(queue, event, now, capacity);
            ||| after.current == Some(event)
            ||| after.pending.len() > 0 && after.pending.last() == event
            ||| after.overflow == queue.overflow + 1
            ||| queue.overflow == u64::MAX && after.overflow == u64::MAX
        }),
        accepted(queue, event, capacity) ==> pushed(queue, event, now, capacity).overflow
            == queue.overflow,
{
}

/// What is shown at a time does not depend on how often the time was advanced
/// before.
pub proof fn advancing_is_consistent(queue: QueueView, early: u64, late: u64, timeout: u64)
    requires
        early <= late,
        timeout > 0,
    ensures
        advanced(advanced(queue, early, timeout), late, timeout) == advanced(queue, late, timeout),
    decreases queue.pending.len(),
{
    match queue.since {
        Some(since) => if early >= since && early - since >= timeout {
            if queue.pending.len() > 0 {
                advancing_is_consistent(
                    next_shown(queue, (since + timeout) as u64),
                    early,
                    late,
                    timeout,
                );
            }
        },
        None => {},
    }
}

struct OutputQueue {
    output_id: String,
    current: Option<OsdEvent>,
    current_since: Option<u64>,
    pending: Vec<OsdEvent>,
    overflow_count: u64,
}

impl View for OutputQueue {
    type V = QueueView;

    closed spec fn view(&self) -> QueueView {
        QueueView {
            current: match self.current {
                Some(event) => Some(event@),
                None => None,
            },
            since: self.current_since,
            pending: views(self.pending@),
            overflow: self.overflow_count,
        }
    }
}

struct FocusedOutput {
    output_id: String,
    observed_at: u64,
}

/// The queues of all outputs, and which output has the focus.
pub struct OsdRouter {
    pending_capacity: usize,
    display_timeout: u64,
    focus_ttl: u64,
    focused_output: Option<FocusedOutput>,
    outputs: Vec<OutputQueue>,
}

/// The place of the queue of an output, or the number of queues.
spec fn queue_place(outputs: Seq<OutputQueue>, output_id: Seq<char>) -> int
    decreases outputs.len(),
{
    if outputs.len() == 0 || outputs[0].output_id@ == output_id {
        0
    } else {
        1 + queue_place(outputs.skip(1), output_id)
    }
}

proof fn queue_place_facts(outputs: Seq<OutputQueue>, output_id: Seq<char>)
    ensures
        0 <= queue_place(outputs, output_id) <= outputs.len(),
        queue_place(outputs, output_id) < outputs.len() ==> outputs[queue_place(
            outputs,
            output_id,
        )].output_id@ == output_id,
        forall|i: int|
            0 <= i < queue_place(outputs, output_id) ==> (#[trigger] outputs[i]).output_id@
                != output_id,
    decreases outputs.len(),
{
    if outputs.len() > 0 && outputs[0].output_id@ != output_id {
        queue_place_facts(outputs.skip(1), output_id);
        assert forall|i: int| 0 <= i < queue_place(outputs, output_id) implies (
        #[trigger] outputs[i]).output_id@ != output_id by {
            if i > 0 {
                assert(outputs.skip(1)[i - 1] == outputs[i]);
            }
        }
    }
}

proof fn queue_place_is(outputs: Seq<OutputQueue>, output_id: Seq<char>, at: int)
    requires
        0 <= at <= outputs.len(),
        at < outputs.len() ==> outputs[at].output_id@ == output_id,
        forall|i: int| 0 <= i < at ==> (#[trigger] outputs[i]).output_id@ != output_id,
    ensures
        queue_place(outputs, output_id) == at,
{
    queue_place_facts(outputs, output_id);
    let found = queue_place(outputs, output_id);
    if found < at {
        assert(outputs[found].output_id@ != output_id);
    }
    if at < found {
        assert(outputs[at].output_id@ != output_id);
    }
}

/// Changing one queue leaves the others alone.
proof fn queue_update(outputs: Seq<OutputQueue>, at: int, queue: OutputQueue, other: Seq<char>)
    requires
        0 <= at < outputs.len(),
        queue.output_id@ == outputs[at].output_id@,
    ensures
        queue_place(outputs.update(at, queue), other) == queue_place(outputs, other),
{
    let changed = outputs.update(at, queue);
    queue_place_facts(outputs, other);
    let place = queue_place(outputs, other);
    assert forall|i: int| 0 <= i < place implies (#[trigger] changed[i]).output_id@ != other by {
        assert(outputs[i].output_id@ != other);
    }
    queue_place_is(changed, other, place);
}

spec fn queue_in(outputs: Seq<OutputQueue>, output_id: Seq<char>) -> QueueView {
    let at = queue_place(outputs, output_id);
    if at < outputs.len() {
        outputs[at]@
    } else {
        idle()
    }
}

impl OsdRouter {
    pub closed spec fn capacity(&self) -> nat {
        self.pending_capacity as nat
    }

    pub closed spec fn timeout(&self) -> u64 {
        self.display_timeout
    }

    pub closed spec fn ttl(&self) -> u64 {
        self.focus_ttl
    }

    /// The output with the focus, and when it was observed.
    pub closed spec fn focus(&self) -> Option<(Seq<char>, u64)> {
        match self.focused_output {
            Some(focused) => Some((focused.output_id@, focused.observed_at)),
            None => None,
        }
    }

    /// The queue of an output.
    pub closed spec fn queue(&self, output_id: Seq<char>) -> QueueView {
        queue_in(self.outputs@, output_id)
    }

    pub closed spec fn wf(&self) -> bool {
        &&& self.display_timeout >= SHORTEST_DISPLAY
        &&& forall|i: int|
            0 <= i < self.outputs@.len() ==> sound(
                (#[trigger] self.outputs@[i])@,
                self.capacity(),
            )
    }

    /// Every queue of a router is sound.
    pub proof fn queues_are_sound(&self, output_id: Seq<char>)
        requires
            self.wf(),
        ensures
            sound(self.queue(output_id), self.capacity()),
            self.timeout() > 0,
    {
        queue_place_facts(self.outputs@, output_id);
    }

    pub fn new(pending_capacity: usize) -> (router: OsdRouter)
        ensures
            router.wf(),
            router.capacity() == pending_capacity,
            router.timeout() == DISPLAY_TIMEOUT,
            router.ttl() == FOCUS_TTL,
            router.focus() is None,
            forall|output_id: Seq<char>| #[trigger] router.queue(output_id) == idle(),
    {
        OsdRouter::with_timing(pending_capacity, DISPLAY_TIMEOUT, FOCUS_TTL)
    }

    pub fn with_timing(pending_capacity: usize, display_timeout: u64, focus_ttl: u64) -> (router:
        OsdRouter)
        ensures
            router.wf(),
            router.capacity() == pending_capacity,
            router.timeout() == if display_timeout < SHORTEST_DISPLAY {
                SHORTEST_DISPLAY
            } else {
                display_timeout
            },
            router.ttl() == focus_ttl,
            router.focus() is None,
            forall|output_id: Seq<char>| #[trigger] router.queue(output_id) == idle(),
    {
        OsdRouter {
            pending_capacity,
            display_timeout: if display_timeout < SHORTEST_DISPLAY {
                SHORTEST_DISPLAY
            } else {
                display_timeout
            },
            focus_ttl,
            focused_output: None,
            outputs: Vec::new(),
        }
    }

    fn find(&self, output_id: &str) -> (at: usize)
        ensures
            at == queue_place(self.outputs@, output_id@),
            at <= self.outputs@.len(),
    {
        let mut at: usize = 0;
        while at < self.outputs.len()
            invariant
                at <= self.outputs@.len(),
                forall|i: int|
                    0 <= i < at ==> (#[trigger] self.outputs@[i]).output_id@ != output_id@,
            decreases self.outputs.len() - at,
        {
            if same_text(self.outputs[at].output_id.as_str(), output_id) {
                proof {
                    queue_place_is(self.outputs@, output_id@, at as int);
                }
                return at;
            }
            at = at + 1;
        }
        proof {
            queue_place_is(self.outputs@, output_id@, at as int);
        }
        at
    }

    /// Whether everything but the queues stayed as it was.
    pub open spec fn same_settings(&self, before: OsdRouter) -> bool {
        &&& self.capacity() == before.capacity()
        &&& self.timeout() == before.timeout()
        &&& self.ttl() == before.ttl()
        &&& self.focus() == before.focus()
    }

    /// Takes in an event at a time. Says whether it is shown or waits.
    pub fn push_at(&mut self, event: OsdEvent, now: u64) -> (taken: bool)
        requires
            old(self).wf(),
        ensures
            final(self).wf(),
            final(self).same_settings(*old(self)),
            taken == accepted(
                old(self).queue(event.output_id@),
                event@,
                old(self).capacity(),
            ),
            final(self).queue(event.output_id@) == pushed(
                old(self).queue(event.output_id@),
                event@,
                now,
                old(self).capacity(),
            ),
            forall|other: Seq<char>|
                other != event.output_id@ ==> #[trigger] final(self).queue(other) == old(
                    self,
                ).queue(other),
    {
        let ghost given = event@;
        let at: usize = self.find(event.output_id.as_str());
        let ghost first = self.outputs@;
        if at == self.outputs.len() {
            let queue = OutputQueue {
                output_id: event.output_id.clone(),
                current: None,
                current_since: None,
                pending: Vec::new(),
                overflow_count: 0,
            };
            assert(queue@.pending =~= Seq::empty());
            assert(queue@ == idle());
            self.outputs.push(queue);
            proof {
                new_queue(first, queue);
            }
        }
        let ghost before = self.outputs@;
        proof {
            queue_place_facts(before, given.output_id);
            queue_place_facts(first, given.output_id);
            if at < first.len() {
                assert(before == first);
            }
        }
        let mut queue = take_queue(&mut self.outputs, at);
        let ghost shown = queue@;
        proof {
            queues_stay_sound(shown, given, now, self.capacity(), self.display_timeout);
        }
        let replaces = match &queue.current {
            None => true,
            Some(current) => current.kind == event.kind,
        };
        let taken = if replaces {
            queue.current = Some(event);
            queue.current_since = Some(now);
            true
        } else if queue.pending.len() < self.pending_capacity {
            proof {
                views_of_push(queue.pending@, event);
                assert(shown.pending.len() == queue.pending@.len());
            }
            queue.pending.push(event);
            true
        } else {
            assert(shown.pending.len() == queue.pending@.len());
            queue.overflow_count = queue.overflow_count.saturating_add(1);
            false
        };
        assert(queue@ == pushed(shown, given, now, self.capacity()));
        let ghost changed = queue;
        self.outputs.set(at, queue);
        proof {
            assert(self.outputs@ =~= before.update(at as int, changed));
            assert forall|other: Seq<char>| other != given.output_id implies #[trigger] self.queue(
                other,
            ) == old(self).queue(other) by {
                queue_update(before, at as int, changed, other);
                queue_place_facts(before, other);
                assert(queue_in(before, other) == queue_in(first, other));
                assert(before[at as int].output_id@ == given.output_id);
            }
            queue_update(before, at as int, changed, given.output_id);
        }
        taken
    }

    /// Takes in which output has the focus.
    pub fn observe_niri_focus(&mut self, event: NiriEvent, observed_at: u64)
        requires
            old(self).wf(),
        ensures
            final(self).wf(),
            final(self).capacity() == old(self).capacity(),
            final(self).timeout() == old(self).timeout(),
            final(self).ttl() == old(self).ttl(),
            forall|output_id: Seq<char>| #[trigger]
                final(self).queue(output_id) == old(self).queue(output_id),
            final(self).focus() == match event.focused_output_id {
                Some(output_id) => if is_blank(output_id@) {
                    None
                } else {
                    Some((output_id@, observed_at))
                },
                None => None,
            },
    {
        self.focused_output = match event.focused_output_id {
            Some(output_id) => if blank_text(output_id.as_str()) {
                None
            } else {
                Some(FocusedOutput { output_id, observed_at })
            },
            None => None,
        };
    }

    /// The event that a request stands for at a time, or why there is none.
    pub open spec fn routed(&self, request: FocusedOsdRequest, now: u64) -> Result<
        EventView,
        OsdRouteError,
    > {
        match self.focus() {
            None => Err(OsdRouteError::MissingFocus),
            Some(focus) => if now < focus.1 || now - focus.1 > self.ttl() {
                Err(OsdRouteError::StaleFocus)
            } else {
                Ok(
                    EventView {
                        schema_version: WIRE_SCHEMA_VERSION,
                        output_id: focus.0,
                        kind: request.kind,
                        level: request.level,
                        muted: request.muted,
                        label: request.label@,
                    },
                )
            },
        }
    }

    /// The event for the output with the focus.
    pub fn focused_event(&self, request: FocusedOsdRequest, now: u64) -> (event: Result<
        OsdEvent,
        OsdRouteError,
    >)
        ensures
            match event {
                Ok(event) => self.routed(request, now) == Ok::<EventView, OsdRouteError>(event@),
                Err(error) => self.routed(request, now) == Err::<EventView, OsdRouteError>(error),
            },
    {
        let focused = match &self.focused_output {
            Some(focused) => focused,
            None => return Err(OsdRouteError::MissingFocus),
        };
        if now < focused.observed_at || now - focused.observed_at > self.focus_ttl {
            return Err(OsdRouteError::StaleFocus);
        }
        Ok(
            OsdEvent {
                schema_version: WIRE_SCHEMA_VERSION,
                output_id: focused.output_id.clone(),
                kind: request.kind,
                level: request.level,
                muted: request.muted,
                label: request.label,
            },
        )
    }

    /// Takes in an event for the output with the focus. The validator of the
    /// protocol accepts the event or not.
    pub fn push_focused(&mut self, request: FocusedOsdRequest, now: u64, valid: bool) -> (taken:
        Result<bool, OsdRouteError>)
        requires
            old(self).wf(),
        ensures
            final(self).wf(),
            final(self).same_settings(*old(self)),
            match old(self).routed(request, now) {
                Err(error) => {
                    &&& taken == Err::<bool, OsdRouteError>(error)
                    &&& *final(self) == *old(self)
                },
                Ok(event) => if !valid {
                    &&& taken == Err::<bool, OsdRouteError>(OsdRouteError::InvalidEvent)
                    &&& *final(self) == *old(self)
                } else {
                    &&& taken == Ok::<bool, OsdRouteError>(
                        accepted(old(self).queue(event.output_id), event, old(self).capacity()),
                    )
                    &&& final(self).queue(event.output_id) == pushed(
                        old(self).queue(event.output_id),
                        event,
                        now,
                        old(self).capacity(),
                    )
                    &&& forall|other: Seq<char>|
                        other != event.output_id ==> #[trigger] final(self).queue(other) == old(
                            self,
                        ).queue(other)
                },
            },
    {
        match self.focused_event(request, now) {
            Err(error) => Err(error),
            Ok(event) => {
                if !valid {
                    return Err(OsdRouteError::InvalidEvent);
                }
                Ok(self.push_at(event, now))
            },
        }
    }

    /// Lets every output show what it shows at a time.
    pub fn advance_time(&mut self, now: u64)
        requires
            old(self).wf(),
        ensures
            final(self).wf(),
            final(self).same_settings(*old(self)),
            forall|output_id: Seq<char>| #[trigger]
                final(self).queue(output_id) == advanced(
                    old(self).queue(output_id),
                    now,
                    old(self).timeout(),
                ),
    {
        let ghost first = self.outputs@;
        let count: usize = self.outputs.len();
        for i in 0..count
            invariant
                count == self.outputs@.len(),
                count == first.len(),
                self.same_settings(*old(self)),
                self.display_timeout >= SHORTEST_DISPLAY,
                self.pending_capacity == old(self).pending_capacity,
                forall|j: int|
                    0 <= j < count ==> (#[trigger] self.outputs@[j]).output_id@
                        == first[j].output_id@,
                forall|j: int|
                    0 <= j < i ==> (#[trigger] self.outputs@[j])@ == advanced(
                        first[j]@,
                        now,
                        self.display_timeout,
                    ),
                forall|j: int| i <= j < count ==> #[trigger] self.outputs@[j] == first[j],
                forall|j: int|
                    0 <= j < count ==> sound((#[trigger] first[j])@, self.capacity()),
        {
            let ghost before = self.outputs@;
            let queue = take_queue(&mut self.outputs, i);
            let queue = advance_queue(queue, now, self.display_timeout);
            let ghost changed = queue;
            self.outputs.set(i, queue);
            assert(self.outputs@ =~= before.update(i as int, changed));
        }
        proof {
            assert forall|j: int| 0 <= j < count implies sound(
                (#[trigger] self.outputs@[j])@,
                self.capacity(),
            ) by {
                let event = arbitrary::<EventView>();
                queues_stay_sound(first[j]@, event, now, self.capacity(), self.display_timeout);
            }
            assert forall|output_id: Seq<char>| #[trigger]
                self.queue(output_id) == advanced(
                    old(self).queue(output_id),
                    now,
                    old(self).timeout(),
                ) by {
                same_ids(first, self.outputs@, output_id);
                queue_place_facts(first, output_id);
                let at = queue_place(first, output_id);
                if at < first.len() {
                    assert(self.outputs@[at]@ == advanced(first[at]@, now, self.display_timeout));
                }
            }
        }
    }

    /// What an output shows.
    pub fn current(&self, output_id: &str) -> (event: Option<&OsdEvent>)
        ensures
            match event {
                Some(event) => self.queue(output_id@).current == Some(event@),
                None => self.queue(output_id@).current is None,
            },
    {
        let at: usize = self.find(output_id);
        if at < self.outputs.len() {
            self.outputs[at].current.as_ref()
        } else {
            None
        }
    }

    /// How many events wait for an output.
    pub fn pending_len(&self, output_id: &str) -> (count: usize)
        ensures
            count == self.queue(output_id@).pending.len(),
    {
        let at: usize = self.find(output_id);
        if at < self.outputs.len() {
            assert(self.outputs@[at as int]@.pending.len() == self.outputs@[at as int].pending@.len());
            self.outputs[at].pending.len()
        } else {
            0
        }
    }

    /// How many events were dropped for an output.
    pub fn overflow_count(&self, output_id: &str) -> (count: u64)
        ensures
            count == self.queue(output_id@).overflow,
    {
        let at: usize = self.find(output_id);
        if at < self.outputs.len() {
            self.outputs[at].overflow_count
        } else {
            0
        }
    }

    /// Ends what an output shows and shows what waits next, from now on.
    pub fn complete(&mut self, output_id: &str, now: u64) -> (shown: bool)
        requires
            old(self).wf(),
        ensures
            final(self).wf(),
            final(self).same_settings(*old(self)),
            final(self).queue(output_id@) == next_shown(old(self).queue(output_id@), now),
            shown == (final(self).queue(output_id@).current is Some),
            forall|other: Seq<char>|
                other != output_id@ ==> #[trigger] final(self).queue(other) == old(self).queue(
                    other,
                ),
    {
        let at: usize = self.find(output_id);
        let ghost before = self.outputs@;
        proof {
            queue_place_facts(before, output_id@);
        }
        if at == self.outputs.len() {
            return false;
        }
        let mut queue = take_queue(&mut self.outputs, at);
        let ghost view = queue@;
        proof {
            let event = arbitrary::<EventView>();
            queues_stay_sound(view, event, now, self.capacity(), self.display_timeout);
        }
        show_next(&mut queue, now);
        let shown = queue.current.is_some();
        let ghost changed = queue;
        self.outputs.set(at, queue);
        proof {
            assert(self.outputs@ =~= before.update(at as int, changed));
            assert forall|other: Seq<char>| other != output_id@ implies #[trigger] self.queue(other)
                == old(self).queue(other) by {
                queue_update(before, at as int, changed, other);
                queue_place_facts(before, other);
            }
            queue_update(before, at as int, changed, output_id@);
        }
        shown
    }
}

/// A new queue is found under its output, and every other one where it was.
proof fn new_queue(outputs: Seq<OutputQueue>, queue: OutputQueue)
    requires
        queue_place(outputs, queue.output_id@) == outputs.len(),
        queue@ == idle(),
    ensures
        queue_place(outputs.push(queue), queue.output_id@) == outputs.len(),
        forall|other: Seq<char>| #[trigger]
            queue_in(outputs.push(queue), other) == queue_in(outputs, other),
{
    let longer = outputs.push(queue);
    queue_place_facts(outputs, queue.output_id@);
    assert forall|i: int| 0 <= i < outputs.len() implies (#[trigger] longer[i]).output_id@
        != queue.output_id@ by {
        assert(longer[i] == outputs[i]);
    }
    queue_place_is(longer, queue.output_id@, outputs.len() as int);
    assert forall|other: Seq<char>| #[trigger] queue_in(longer, other) == queue_in(
        outputs,
        other,
    ) by {
        queue_place_facts(outputs, other);
        let at = queue_place(outputs, other);
        if at < outputs.len() {
            assert(longer[at] == outputs[at]);
            assert forall|i: int| 0 <= i < at implies (#[trigger] longer[i]).output_id@
                != other by {
                assert(longer[i] == outputs[i]);
            }
            queue_place_is(longer, other, at);
        } else if other != queue.output_id@ {
            assert forall|i: int| 0 <= i < longer.len() implies (#[trigger] longer[i]).output_id@
                != other by {
                if i < outputs.len() {
                    assert(longer[i] == outputs[i]);
                }
            }
            queue_place_is(longer, other, longer.len() as int);
        }
    }
}

/// Outputs with the same identifiers are found at the same places.
proof fn same_ids(left: Seq<OutputQueue>, right: Seq<OutputQueue>, output_id: Seq<char>)
    requires
        left.len() == right.len(),
        forall|i: int|
            0 <= i < left.len() ==> (#[trigger] right[i]).output_id@ == left[i].output_id@,
    ensures
        queue_place(left, output_id) == queue_place(right, output_id),
{
    queue_place_facts(left, output_id);
    let at = queue_place(left, output_id);
    assert forall|i: int| 0 <= i < at implies (#[trigger] right[i]).output_id@ != output_id by {
        assert(left[i].output_id@ != output_id);
    }
    queue_place_is(right, output_id, at);
}

/// Takes a queue out; an empty one with the same identifier stays in its place.
fn take_queue(outputs: &mut Vec<OutputQueue>, at: usize) -> (queue: OutputQueue)
    requires
        at < old(outputs)@.len(),
    ensures
        queue == old(outputs)@[at as int],
        final(outputs)@.len() == old(outputs)@.len(),
        forall|i: int|
            0 <= i < final(outputs)@.len() && i != at ==> final(outputs)@[i] == old(outputs)@[i],
{
    let empty = OutputQueue {
        output_id: outputs[at].output_id.clone(),
        current: None,
        current_since: None,
        pending: Vec::new(),
        overflow_count: 0,
    };
    let mut queue = empty;
    std::mem::swap(&mut queue, &mut outputs[at]);
    queue
}

/// Shows what waits next, from a time on.
fn show_next(queue: &mut OutputQueue, from: u64)
    ensures
        final(queue)@ == next_shown(old(queue)@, from),
        final(queue).output_id == old(queue).output_id,
{
    let ghost view = queue@;
    assert(view.pending.len() == queue.pending@.len());
    if queue.pending.len() == 0 {
        queue.current = None;
        queue.current_since = None;
    } else {
        assert(view.pending[0] == queue.pending@[0]@);
        let next = queue.pending.remove(0);
        assert(views(queue.pending@) =~= view.pending.skip(1));
        queue.current = Some(next);
        queue.current_since = Some(from);
    }
}

#[verifier::loop_isolation(false)]
fn advance_queue(queue: OutputQueue, now: u64, timeout: u64) -> (advanced_queue: OutputQueue)
    requires
        timeout > 0,
    ensures
        advanced_queue@ == advanced(queue@, now, timeout),
        advanced_queue.output_id@ == queue.output_id@,
{
    let mut running = queue;
    loop
        invariant
            advanced(running@, now, timeout) == advanced(queue@, now, timeout),
            running.output_id@ == queue.output_id@,
        decreases running.pending@.len(),
    {
        let since: u64 = match running.current_since {
            Some(since) => since,
            None => return running,
        };
        if now < since || now - since < timeout {
            return running;
        }
        assert(running@.pending.len() == running.pending@.len());
        if running.pending.len() == 0 {
            show_next(&mut running, 0);
            return running;
        }
        let from: u64 = since + timeout;
        show_next(&mut running, from);
        assert(running@.pending.len() == running.pending@.len());
    }
}

} // verus!
