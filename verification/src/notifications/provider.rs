//! The notification service: who sent what, what is shown, and what may be done.

use vstd::prelude::*;

use crate::error::{ErrorKind, SessionError};
use crate::id_map::IdMap;
use crate::notifications::document::{
    document_views, NotificationActionState, NotificationDocument, NotificationUrgency,
    NotificationView,
};
use crate::notifications::journal::{LogPlan, SEGMENT_LIMIT_BYTES};
use crate::notifications::model::{
    effect, expired_if_listed, has_id, issued_in, place, place_facts, well_formed_by_lists,
    without_id, without_id_facts, without_id_removes_one, OperationView, Refusal, StoreView,
};
use crate::notifications::store::{
    can_be_written, dismiss_outcome, expiry_by, leftovers_by, mark_read_outcome, not_found,
    optional_plan, push_outcome, refused, set_dnd_outcome, verdict_view, NotificationStore,
    PushResult,
};
use crate::text::{blank_text, byte_len, is_blank, same_text, text_bytes};

verus! {

pub const DBUS_NOTIFICATIONS_NAME: &'static str = "org.freedesktop.Notifications";

/// A request to show a notification, with the bus name it came from.
#[derive(Debug, Clone)]
pub struct NotifyRequest {
    pub origin: String,
    pub notification: NotificationDocument,
}

/// What showing a notification led to.
#[derive(Debug, Clone, PartialEq, Eq)]
pub struct NotifyOutcome {
    pub id: u64,
    pub popup: bool,
    pub archived_ids: Vec<u64>,
}

/// An action to be reported to the program that offered it.
#[derive(Debug, Clone, PartialEq, Eq)]
pub struct ActionInvocation {
    pub notification_id: u64,
    pub action_id: String,
    pub origin: String,
}

#[derive(Debug, Clone, Copy, PartialEq, Eq, Structural)]
pub enum NotificationCommand {
    MarkRead { id: u64 },
    Dismiss { id: u64 },
    Archive { id: u64 },
    SetDnd { enabled: bool },
    PurgeArchive,
}

/// How a notification changed.
#[derive(Debug, Clone, Copy, PartialEq, Eq, Structural)]
pub enum NotificationChange {
    Added,
    Updated,
    Archived,
    ActionExpired,
}

/// What subscribers are told.
#[derive(Debug, Clone, Copy, PartialEq, Eq, Structural)]
pub enum ServiceEvent {
    Notification { id: u64, change: NotificationChange },
    /// The do-not-disturb provider went offline or online.
    DndProvider { online: bool },
    /// The archive provider was refreshed.
    ArchiveProvider { online: bool },
}

pub struct FreedesktopNotificationProvider {
    pub store: NotificationStore,
    /// The bus name that each notification came from.
    pub origins: IdMap<String>,
    /// The notifications that are shown, with the time at which they close.
    pub popups: IdMap<Option<u64>>,
}

/// The bus names behind the notifications, as mathematical values.
pub open spec fn origin_views(origins: Map<u64, String>) -> Map<u64, Seq<char>> {
    Map::new(|id: u64| origins.contains_key(id), |id: u64| origins[id]@)
}

/// Whether an active notification is critical.
pub open spec fn critical(state: StoreView, id: u64) -> bool {
    exists|i: int|
        0 <= i < state.active.len() && (#[trigger] state.active[i]).id == id
            && state.active[i].urgency == NotificationUrgency::Critical
}

/// What always holds of the service: only active notifications are shown, only
/// critical ones while do-not-disturb is on, and only known notifications have
/// an origin.
pub open spec fn service_invariant(
    state: StoreView,
    origins: Map<u64, Seq<char>>,
    popups: Map<u64, Option<u64>>,
) -> bool {
    &&& forall|id: u64| #[trigger] popups.contains_key(id) ==> has_id(state.active, id)
    &&& forall|id: u64| #[trigger] origins.contains_key(id) ==> state.knows(id)
    &&& state.preferences.dnd ==> forall|id: u64| #[trigger]
        popups.contains_key(id) ==> critical(state, id)
}

/// The refusal of a request, if there is one before the store is asked.
pub open spec fn request_refusal(
    state: StoreView,
    origins: Map<u64, Seq<char>>,
    origin: Seq<char>,
    replaces: u64,
) -> Option<Refusal> {
    if is_blank(origin) || byte_len(origin) > 255 {
        Some((ErrorKind::InvalidInput, "invalid notification D-Bus origin"@))
    } else if replaces != 0 && !(has_id(state.active, replaces) && origins.contains_key(replaces)
        && origins[replaces] == origin) {
        Some(
            (
                ErrorKind::PermissionDenied,
                "replaces_id is not an active notification owned by this D-Bus source"@,
            ),
        )
    } else {
        None
    }
}

/// When a popup closes by itself.
pub open spec fn popup_deadline(timeout_ms: Option<u64>, now: u64) -> Option<u64> {
    match timeout_ms {
        Some(timeout) => if timeout > 0 {
            Some((now + timeout) as u64)
        } else {
            None
        },
        None => None,
    }
}

/// The map without some identifiers.
pub open spec fn without_ids<V>(map: Map<u64, V>, ids: Seq<u64>) -> Map<u64, V> {
    Map::new(|id: u64| map.contains_key(id) && !ids.contains(id), |id: u64| map[id])
}

/// The popups whose deadline has come.
pub open spec fn is_due(popups: Map<u64, Option<u64>>, id: u64, now: u64) -> bool {
    popups.contains_key(id) && popups[id] is Some && now >= popups[id]->Some_0
}

/// The identifiers of a list that have a property, in their order.
pub open spec fn selected(ids: Seq<u64>, chosen: spec_fn(u64) -> bool) -> Seq<u64>
    decreases ids.len(),
{
    if ids.len() == 0 {
        ids
    } else {
        let earlier = selected(ids.drop_last(), chosen);
        if chosen(ids.last()) {
            earlier.push(ids.last())
        } else {
            earlier
        }
    }
}

proof fn selected_facts(ids: Seq<u64>, chosen: spec_fn(u64) -> bool)
    requires
        forall|k: int, l: int| 0 <= k < l < ids.len() ==> ids[k] < ids[l],
    ensures
        forall|k: int, l: int|
            0 <= k < l < selected(ids, chosen).len() ==> selected(ids, chosen)[k] < selected(
                ids,
                chosen,
            )[l],
        forall|x: u64| #[trigger]
            selected(ids, chosen).contains(x) <==> (ids.contains(x) && chosen(x)),
    decreases ids.len(),
{
    if ids.len() > 0 {
        let shorter = ids.drop_last();
        let last = ids.last();
        let earlier = selected(shorter, chosen);
        let all = selected(ids, chosen);
        selected_facts(shorter, chosen);
        assert forall|x: u64| ids.contains(x) <==> (shorter.contains(x) || x == last) by {
            if ids.contains(x) {
                let k = choose|k: int| 0 <= k < ids.len() && ids[k] == x;
                if k < shorter.len() {
                    assert(shorter[k] == x);
                }
            }
            if shorter.contains(x) {
                let k = choose|k: int| 0 <= k < shorter.len() && shorter[k] == x;
                assert(ids[k] == x);
            }
            assert(ids[ids.len() - 1] == last);
        }
        assert forall|x: u64| #[trigger] all.contains(x) <==> (earlier.contains(x) || (chosen(last)
            && x == last)) by {
            if all.contains(x) {
                let k = choose|k: int| 0 <= k < all.len() && all[k] == x;
                if k < earlier.len() {
                    assert(earlier[k] == x);
                }
            }
            if earlier.contains(x) {
                let k = choose|k: int| 0 <= k < earlier.len() && earlier[k] == x;
                assert(all[k] == x);
            }
            if chosen(last) {
                assert(all[earlier.len() as int] == last);
            }
        }
        assert forall|k: int, l: int| 0 <= k < l < all.len() implies all[k] < all[l] by {
            if l == earlier.len() {
                assert(earlier.contains(earlier[k]));
                let j = choose|j: int| 0 <= j < shorter.len() && shorter[j] == earlier[k];
                assert(ids[j] < ids[ids.len() - 1]);
            }
        }
    }
}

fn remove_all<V>(map: &mut IdMap<V>, ids: &[u64])
    requires
        old(map).wf(),
    ensures
        final(map).wf(),
        final(map)@ == without_ids(old(map)@, ids@),
{
    let ghost before = map@;
    assert(map@ =~= without_ids(before, ids@.take(0)));
    for i in 0..ids.len()
        invariant
            map.wf(),
            map@ == without_ids(before, ids@.take(i as int)),
    {
        map.remove(ids[i]);
        proof {
            let taken = ids@.take(i as int);
            let longer = ids@.take(i + 1);
            assert(longer =~= taken.push(ids@[i as int]));
            assert forall|x: u64| longer.contains(x) <==> (taken.contains(x) || x
                == ids@[i as int]) by {
                if longer.contains(x) {
                    let k = choose|k: int| 0 <= k < longer.len() && longer[k] == x;
                    if k < taken.len() {
                        assert(taken[k] == x);
                    }
                }
                if taken.contains(x) {
                    let k = choose|k: int| 0 <= k < taken.len() && taken[k] == x;
                    assert(longer[k] == x);
                }
                assert(longer[i as int] == ids@[i as int]);
            }
            assert(map@ =~= without_ids(before, longer));
        }
    }
    assert(ids@.take(ids@.len() as int) =~= ids@);
}

impl FreedesktopNotificationProvider {
    pub open spec fn origins(&self) -> Map<u64, Seq<char>> {
        origin_views(self.origins@)
    }

    pub open spec fn popups(&self) -> Map<u64, Option<u64>> {
        self.popups@
    }

    pub open spec fn wf(&self) -> bool {
        &&& self.store.wf()
        &&& self.origins.wf()
        &&& self.popups.wf()
        &&& self.store.log_state().poisoned || service_invariant(
            self.store.state(),
            self.origins(),
            self.popups(),
        )
    }

    /// A service on a store. Nobody is left to whom an action could be reported, so
    /// those that can still be invoked are expired first.
    pub fn new<
        W: FnOnce(&NotificationStore, &LogPlan, &str) -> Result<(), SessionError>,
        K: FnOnce(&NotificationStore, u64) -> Result<(), SessionError>,
    >(store: NotificationStore, write: W, publish: K) -> (provider: Result<
        FreedesktopNotificationProvider,
        SessionError,
    >)
        requires
            store.wf(),
            forall|operation: OperationView| #[trigger]
                leftovers_by(
                    store.state(),
                    store.capacity(),
                    store.limit(),
                    Ok(Some(operation)),
                ) ==> store.may_apply(operation, write, publish),
        ensures
            provider is Ok ==> {
                &&& provider->Ok_0.wf()
                &&& provider->Ok_0.origins() == Map::<u64, Seq<char>>::empty()
                &&& provider->Ok_0.popups() == Map::<u64, Option<u64>>::empty()
            },
            exists|plan: Result<Option<OperationView>, Refusal>| #[trigger]
                leftovers_by(store.state(), store.capacity(), store.limit(), plan) && match plan {
                    Err(refusal) => refused(provider, refusal),
                    Ok(None) => provider is Ok && provider->Ok_0.store == store,
                    Ok(Some(operation)) => started(store, operation, write, publish, provider),
                },
    {
        let ghost given = store;
        let mut store = store;
        let change = store.expire_all_actions();
        let ghost plan = optional_plan(change);
        match change {
            Ok(Some(change)) => {
                let ghost operation = change.op();
                let applied = store.apply(change, write, publish);
                if let Err(error) = applied {
                    assert(NotificationStore::applied(
                        given,
                        operation,
                        write,
                        publish,
                        applied,
                        store,
                    ));
                    let refused = Err::<FreedesktopNotificationProvider, SessionError>(error);
                    assert(started(given, operation, write, publish, refused));
                    return refused;
                }
                let provider = Self::on(store);
                assert(NotificationStore::applied(
                    given,
                    operation,
                    write,
                    publish,
                    applied,
                    provider.store,
                ));
                assert(started(given, operation, write, publish, Ok(provider)));
                Ok(provider)
            },
            Ok(None) => Ok(Self::on(store)),
            Err(error) => Err(error),
        }
    }

    fn on(store: NotificationStore) -> (provider: FreedesktopNotificationProvider)
        requires
            store.wf(),
        ensures
            provider.wf(),
            provider.store == store,
            provider.origins() == Map::<u64, Seq<char>>::empty(),
            provider.popups() == Map::<u64, Option<u64>>::empty(),
    {
        let provider = FreedesktopNotificationProvider {
            store,
            origins: IdMap::new(),
            popups: IdMap::new(),
        };
        assert(provider.origins() =~= Map::<u64, Seq<char>>::empty());
        provider
    }

    pub fn bus_name(&self) -> (name: &'static str)
        ensures
            name@ == "org.freedesktop.Notifications"@,
    {
        "org.freedesktop.Notifications"
    }

    pub fn capabilities(&self) -> (list: Vec<String>)
        ensures
            crate::text::texts(list@) == seq!["actions"@, "body"@],
    {
        let mut list: Vec<String> = Vec::new();
        list.push("actions".to_owned());
        list.push("body".to_owned());
        assert(crate::text::texts(list@) =~= seq!["actions"@, "body"@]);
        list
    }

    pub fn store(&self) -> (store: &NotificationStore)
        ensures
            *store == self.store,
    {
        &self.store
    }

    pub fn popup_visible(&self, id: u64) -> (visible: bool)
        requires
            self.wf(),
        ensures
            visible == self.popups().contains_key(id),
    {
        self.popups.contains(id)
    }

    /// Whether a request may be shown: its record may be written.
    pub open spec fn may_notify<
        W: FnOnce(&NotificationStore, &LogPlan, &str) -> Result<(), SessionError>,
        K: FnOnce(&NotificationStore, u64) -> Result<(), SessionError>,
    >(&self, request: NotifyRequest, verdict: Option<String>, write: W, publish: K) -> bool {
        request_refusal(
            self.store.state(),
            self.origins(),
            request.origin@,
            request.notification.id,
        ) is None ==> (push_outcome(
            self.store.state(),
            request.notification@,
            verdict_view(verdict),
            self.store.capacity(),
            self.store.limit(),
        ) matches Ok(operation) ==> self.store.may_apply(operation, write, publish))
    }

    /// Whether a request is shown: it is checked, its record is written, and only then
    /// it has an origin and a popup.
    pub open spec fn notified<
        W: FnOnce(&NotificationStore, &LogPlan, &str) -> Result<(), SessionError>,
        K: FnOnce(&NotificationStore, u64) -> Result<(), SessionError>,
    >(
        before: FreedesktopNotificationProvider,
        request: NotifyRequest,
        verdict: Option<String>,
        now: u64,
        write: W,
        publish: K,
        result: Result<(NotifyOutcome, NotificationChange), SessionError>,
        after: FreedesktopNotificationProvider,
    ) -> bool {
        match request_refusal(
            before.store.state(),
            before.origins(),
            request.origin@,
            request.notification.id,
        ) {
            Some(refusal) => refused(result, refusal) && after == before,
            None => match push_outcome(
                before.store.state(),
                request.notification@,
                verdict_view(verdict),
                before.store.capacity(),
                before.store.limit(),
            ) {
                Err(refusal) => refused(result, refusal) && after == before,
                Ok(operation) => exists|applied: Result<PushResult, SessionError>| #[trigger]
                    NotificationStore::applied(
                        before.store,
                        operation,
                        write,
                        publish,
                        applied,
                        after.store,
                    ) && match applied {
                        Err(error) => {
                            &&& result == Err::<(NotifyOutcome, NotificationChange), SessionError>(
                                error,
                            )
                            &&& after.origins() == before.origins()
                            &&& after.popups() == before.popups()
                        },
                        Ok(_) => result is Ok && Self::shown(
                            before,
                            request,
                            operation,
                            now,
                            result->Ok_0,
                            after,
                        ),
                    },
            },
        }
    }

    /// Whether a notification whose record was written got its origin and its popup.
    pub open spec fn shown(
        before: FreedesktopNotificationProvider,
        request: NotifyRequest,
        operation: OperationView,
        now: u64,
        told: (NotifyOutcome, NotificationChange),
        after: FreedesktopNotificationProvider,
    ) -> bool {
        let id = operation->Push_notification.id;
        let evicted = operation->archived.map_values(|d: NotificationView| d.id);
        let kept = without_ids(before.popups(), evicted);
        let popup = pops_up(before.store.state(), request.notification@);
        &&& after.origins() == before.origins().insert(id, request.origin@)
        &&& after.popups() == (if popup {
            kept.insert(id, popup_deadline(request.notification.timeout_ms, now))
        } else {
            kept.remove(id)
        })
        &&& told.0.id == id
        &&& told.0.popup == popup
        &&& told.0.archived_ids@ == evicted
        &&& told.1 == (if request.notification.id != 0 {
            NotificationChange::Updated
        } else {
            NotificationChange::Added
        })
    }

    /// Shows a notification, with what the schema validator objects to in it.
    pub fn notify<
        W: FnOnce(&NotificationStore, &LogPlan, &str) -> Result<(), SessionError>,
        K: FnOnce(&NotificationStore, u64) -> Result<(), SessionError>,
    >(
        &mut self,
        request: NotifyRequest,
        verdict: Option<String>,
        now: u64,
        write: W,
        publish: K,
    ) -> (result: Result<(NotifyOutcome, NotificationChange), SessionError>)
        requires
            old(self).wf(),
            old(self).may_notify(request, verdict, write, publish),
            pops_up(old(self).store.state(), request.notification@)
                && request.notification.timeout_ms is Some ==> now
                + request.notification.timeout_ms->Some_0 <= u64::MAX,
        ensures
            final(self).wf(),
            Self::notified(*old(self), request, verdict, now, write, publish, result, *final(self)),
    {
        let ghost given = request;
        if blank_text(request.origin.as_str()) || text_bytes(request.origin.as_str()) > 255 {
            return Err(
                SessionError::new(ErrorKind::InvalidInput, "invalid notification D-Bus origin"),
            );
        }
        let replaces: u64 = request.notification.id;
        if replaces != 0 {
            let active = self.store.find_active(replaces).is_some();
            proof {
                place_facts(self.store.state().active, replaces);
            }
            let owned = match self.origins.get(replaces) {
                Some(origin) => same_text(origin.as_str(), request.origin.as_str()),
                None => false,
            };
            if !active || !owned {
                return Err(
                    SessionError::new(
                        ErrorKind::PermissionDenied,
                        "replaces_id is not an active notification owned by this D-Bus source",
                    ),
                );
            }
        }
        let popup = self.store.popup_allowed(&request.notification);
        let change = match self.store.push(&request.notification, verdict) {
            Ok(change) => change,
            Err(error) => return Err(error),
        };
        let ghost before = *self;
        let ghost state = self.store.state();
        let ghost capacity = self.store.capacity();
        let ghost old_popups = self.popups@;
        let ghost old_origins = self.origins();
        let ghost operation = change.op();
        let ghost shown = operation->Push_notification;
        proof {
            self.store.holds();
            self.store.planned_is_issued(&change);
        }
        let applied = self.store.apply(change, write, publish);
        assert(NotificationStore::applied(
            before.store,
            operation,
            write,
            publish,
            applied,
            self.store,
        ));
        let pushed = match applied {
            Ok(pushed) => pushed,
            Err(error) => return Err(error),
        };
        remove_all(&mut self.popups, pushed.archived_ids.as_slice());
        let ghost origin = request.origin@;
        self.origins.insert(pushed.id, request.origin);
        assert(self.origins() =~= old_origins.insert(pushed.id, origin));
        if popup {
            let deadline: Option<u64> = match request.notification.timeout_ms {
                Some(timeout) => {
                    if timeout > 0 {
                        Some(now + timeout)
                    } else {
                        None
                    }
                },
                None => None,
            };
            self.popups.insert(pushed.id, deadline);
        } else {
            self.popups.remove(pushed.id);
        }
        proof {
            push_keeps_invariant(
                state,
                shown,
                capacity,
                old_origins,
                old_popups,
                popup,
                origin,
                self.popups@,
            );
        }
        let told = (
            NotifyOutcome { id: pushed.id, popup, archived_ids: pushed.archived_ids },
            if replaces != 0 {
                NotificationChange::Updated
            } else {
                NotificationChange::Added
            },
        );
        assert(Self::shown(before, given, operation, now, told, *self));
        Ok(told)
    }

    /// Whether a command is carried out: its record is written, and only then the
    /// origins and the popups follow.
    pub open spec fn executed<
        W: FnOnce(&NotificationStore, &LogPlan, &str) -> Result<(), SessionError>,
        K: FnOnce(&NotificationStore, u64) -> Result<(), SessionError>,
    >(
        before: FreedesktopNotificationProvider,
        command: NotificationCommand,
        write: W,
        publish: K,
        result: Result<(), SessionError>,
        after: FreedesktopNotificationProvider,
    ) -> bool {
        let state = before.store.state();
        match command_outcome(state, command, before.store.capacity(), before.store.limit()) {
            Err(refusal) => refused(result, refusal) && after == before,
            Ok(operation) => exists|applied: Result<PushResult, SessionError>| #[trigger]
                NotificationStore::applied(
                    before.store,
                    operation,
                    write,
                    publish,
                    applied,
                    after.store,
                ) && match applied {
                    Err(error) => {
                        &&& result == Err::<(), SessionError>(error)
                        &&& after.origins() == before.origins()
                        &&& after.popups() == before.popups()
                    },
                    Ok(_) => {
                        &&& result is Ok
                        &&& after.origins() == origins_after(state, before.origins(), command)
                        &&& after.popups() == popups_after(state, before.popups(), command)
                    },
                },
        }
    }

    /// Carries out a command.
    pub fn execute<
        W: FnOnce(&NotificationStore, &LogPlan, &str) -> Result<(), SessionError>,
        K: FnOnce(&NotificationStore, u64) -> Result<(), SessionError>,
    >(&mut self, command: NotificationCommand, write: W, publish: K) -> (result: Result<
        (),
        SessionError,
    >)
        requires
            old(self).wf(),
            command_outcome(
                old(self).store.state(),
                command,
                old(self).store.capacity(),
                old(self).store.limit(),
            ) matches Ok(operation) ==> old(self).store.may_apply(operation, write, publish),
        ensures
            final(self).wf(),
            Self::executed(*old(self), command, write, publish, result, *final(self)),
    {
        let change = match command {
            NotificationCommand::MarkRead { id } => self.store.mark_read(id),
            NotificationCommand::Dismiss { id } => self.store.dismiss(id),
            NotificationCommand::Archive { id } => self.store.dismiss(id),
            NotificationCommand::SetDnd { enabled } => self.store.set_dnd(enabled),
            NotificationCommand::PurgeArchive => Ok(self.store.purge_archive()),
        };
        let change = match change {
            Ok(change) => change,
            Err(error) => return Err(error),
        };
        let purged = ids_of(self.store.archive());
        let ghost before = *self;
        let ghost state = self.store.state();
        let ghost capacity = self.store.capacity();
        let ghost old_popups = self.popups@;
        let ghost old_origins = self.origins();
        let ghost operation = change.op();
        proof {
            self.store.holds();
            self.store.planned_is_issued(&change);
            planned_commands_carry_out(state, command, capacity, self.store.limit());
        }
        let applied = self.store.apply(change, write, publish);
        assert(NotificationStore::applied(
            before.store,
            operation,
            write,
            publish,
            applied,
            self.store,
        ));
        if let Err(error) = applied {
            return Err(error);
        }
        match command {
            NotificationCommand::MarkRead { id: _ } => {},
            NotificationCommand::Dismiss { id } => {
                self.popups.remove(id);
            },
            NotificationCommand::Archive { id } => {
                self.popups.remove(id);
            },
            NotificationCommand::SetDnd { enabled } => {
                if enabled {
                    self.keep_critical_popups();
                    assert(self.store.state().active == state.active);
                    assert(self.popups@ =~= popups_after(state, old_popups, command));
                }
            },
            NotificationCommand::PurgeArchive => {
                remove_all(&mut self.origins, purged.as_slice());
                remove_all(&mut self.popups, purged.as_slice());
                assert(self.origins() =~= origins_after(state, old_origins, command));
            },
        }
        proof {
            command_keeps_invariant(
                state,
                command,
                operation,
                capacity,
                old_origins,
                old_popups,
            );
        }
        Ok(())
    }

    /// Drops every popup whose notification is not critical.
    fn keep_critical_popups(&mut self)
        requires
            old(self).popups.wf(),
        ensures
            final(self).popups.wf(),
            final(self).store == old(self).store,
            final(self).origins == old(self).origins,
            final(self).popups@ == Map::new(
                |id: u64| old(self).popups@.contains_key(id) && critical(
                    old(self).store.state(),
                    id,
                ),
                |id: u64| old(self).popups@[id],
            ),
    {
        let ghost state = self.store.state();
        let ghost before = self.popups@;
        let mut kept: IdMap<Option<u64>> = IdMap::new();
        let documents = self.store.active();
        let count: usize = self.popups.len();
        for i in 0..count
            invariant
                count == self.popups.ids().len(),
                self.popups.wf(),
                self.popups@ == before,
                state == self.store.state(),
                document_views(documents@) == state.active,
                kept.wf(),
                forall|id: u64| #[trigger]
                    kept@.contains_key(id) <==> (self.popups.ids().take(i as int).contains(id)
                        && critical(state, id)),
                forall|id: u64| #[trigger] kept@.contains_key(id) ==> kept@[id] == before[id],
        {
            let id: u64 = self.popups.id_at(i);
            let deadline: Option<u64> = *self.popups.value_at(i);
            let shown = is_critical(documents, id);
            if shown {
                kept.insert(id, deadline);
            }
            proof {
                let taken = self.popups.ids().take(i as int);
                let longer = self.popups.ids().take(i + 1);
                assert(longer =~= taken.push(id));
                assert forall|x: u64| longer.contains(x) <==> (taken.contains(x) || x == id) by {
                    if longer.contains(x) {
                        let k = choose|k: int| 0 <= k < longer.len() && longer[k] == x;
                        if k < taken.len() {
                            assert(taken[k] == x);
                        }
                    }
                    if taken.contains(x) {
                        let k = choose|k: int| 0 <= k < taken.len() && taken[k] == x;
                        assert(longer[k] == x);
                    }
                    assert(longer[i as int] == id);
                }
            }
        }
        proof {
            self.popups.ids_are_the_keys();
            assert(self.popups.ids().take(count as int) =~= self.popups.ids());
            assert(kept@ =~= Map::new(
                |id: u64| before.contains_key(id) && critical(state, id),
                |id: u64| before[id],
            ));
        }
        self.popups = kept;
    }

    /// Closes the popups whose time is over and lists them in ascending order.
    pub fn advance_popup_time(&mut self, now: u64) -> (expired: Vec<u64>)
        requires
            old(self).wf(),
        ensures
            final(self).wf(),
            final(self).store == old(self).store,
            final(self).origins() == old(self).origins(),
            forall|k: int, l: int| 0 <= k < l < expired@.len() ==> expired@[k] < expired@[l],
            forall|id: u64|
                expired@.contains(id) <==> is_due(old(self).popups(), id, now),
            final(self).popups() == without_ids(old(self).popups(), expired@),
    {
        let mut expired: Vec<u64> = Vec::new();
        let count: usize = self.popups.len();
        let ghost ids = self.popups.ids();
        let ghost due = |id: u64| is_due(self.popups@, id, now);
        for i in 0..count
            invariant
                count == ids.len(),
                ids == self.popups.ids(),
                self.popups.wf(),
                due == (|id: u64| is_due(self.popups@, id, now)),
                expired@ == selected(ids.take(i as int), due),
        {
            let id: u64 = self.popups.id_at(i);
            let over = match self.popups.value_at(i) {
                Some(deadline) => now >= *deadline,
                None => false,
            };
            assert(over == due(id));
            assert(ids.take(i + 1).drop_last() =~= ids.take(i as int));
            if over {
                expired.push(id);
            }
        }
        proof {
            self.popups.ids_are_the_keys();
            assert(ids.take(count as int) =~= ids);
            selected_facts(ids, due);
            assert forall|id: u64| expired@.contains(id) <==> is_due(self.popups@, id, now) by {
                assert(expired@.contains(id) <==> ids.contains(id) && due(id));
            }
        }
        remove_all(&mut self.popups, expired.as_slice());
        expired
    }

    /// The action of an active notification, for the program that offered it.
    pub fn invoke_action(&self, notification_id: u64, action_id: &str) -> (invocation: Result<
        ActionInvocation,
        SessionError,
    >)
        requires
            self.wf(),
        ensures
            match invocation_refusal(
                self.store.state(),
                self.origins(),
                notification_id,
                action_id@,
            ) {
                Some(refusal) => refused(invocation, refusal),
                None => {
                    &&& invocation is Ok
                    &&& invocation->Ok_0.notification_id == notification_id
                    &&& invocation->Ok_0.action_id@ == action_id@
                    &&& invocation->Ok_0.origin@ == self.origins()[notification_id]
                },
            },
    {
        let ghost state = self.store.state();
        proof {
            place_facts(state.active, notification_id);
        }
        let documents = self.store.active();
        let at: usize = match self.store.find_active(notification_id) {
            Some(at) => at,
            None => {
                return Err(SessionError::new(ErrorKind::NotFound, "notification not found"));
            },
        };
        assert(document_views(documents@).len() == documents@.len());
        assert(documents@[at as int]@ == state.active[at as int]);
        let notification = &documents[at];
        let place: usize = match notification.action_index(action_id) {
            Some(place) => place,
            None => {
                return Err(
                    SessionError::new(ErrorKind::NotFound, "notification action not found"),
                );
            },
        };
        proof {
            first_action_is(notification@, action_id@, place as int);
        }
        let origin = match self.origins.get(notification_id) {
            Some(origin) => origin,
            None => {
                return Err(
                    SessionError::new(
                        ErrorKind::NotConnected,
                        "notification origin is no longer available",
                    ),
                );
            },
        };
        if !matches!(notification.actions[place].state, NotificationActionState::Available) {
            return Err(
                SessionError::new(ErrorKind::NotConnected, "notification action has expired"),
            );
        }
        Ok(
            ActionInvocation {
                notification_id,
                action_id: notification.actions[place].id.clone(),
                origin: origin.clone(),
            },
        )
    }

    /// The notifications of a bus name, in ascending order.
    pub fn ids_for_origin(&self, origin: &str) -> (ids: Vec<u64>)
        requires
            self.wf(),
        ensures
            came_from(self.origins(), origin@, ids@),
    {
        let mut found: Vec<u64> = Vec::new();
        let count: usize = self.origins.len();
        let ghost ids = self.origins.ids();
        let ghost sent = |id: u64| self.origins@[id]@ == origin@;
        for i in 0..count
            invariant
                count == ids.len(),
                ids == self.origins.ids(),
                self.origins.wf(),
                sent == (|id: u64| self.origins@[id]@ == origin@),
                found@ == selected(ids.take(i as int), sent),
        {
            let id: u64 = self.origins.id_at(i);
            let mine = same_text(self.origins.value_at(i).as_str(), origin);
            assert(mine == sent(id));
            assert(ids.take(i + 1).drop_last() =~= ids.take(i as int));
            if mine {
                found.push(id);
            }
        }
        proof {
            self.origins.ids_are_the_keys();
            assert(ids.take(count as int) =~= ids);
            selected_facts(ids, sent);
            assert forall|id: u64|
                found@.contains(id) <==> (self.origins().contains_key(id) && self.origins()[id]
                    == origin@) by {
                assert(found@.contains(id) <==> ids.contains(id) && sent(id));
            }
        }
        found
    }

    /// Whether the loss of an origin is dealt with: the actions of its notifications
    /// are expired, and only then their origin is forgotten.
    pub open spec fn forgotten<
        W: FnOnce(&NotificationStore, &LogPlan, &str) -> Result<(), SessionError>,
        K: FnOnce(&NotificationStore, u64) -> Result<(), SessionError>,
    >(
        before: FreedesktopNotificationProvider,
        ids: Seq<u64>,
        plan: Result<Option<OperationView>, Refusal>,
        write: W,
        publish: K,
        result: Result<Vec<u64>, SessionError>,
        after: FreedesktopNotificationProvider,
    ) -> bool {
        match plan {
            Err(refusal) => refused(result, refusal) && after == before,
            Ok(None) => {
                &&& result is Ok && result->Ok_0@ == ids
                &&& after.store == before.store
                &&& after.origins() == without_ids(before.origins(), ids)
                &&& after.popups() == before.popups()
            },
            Ok(Some(operation)) => exists|applied: Result<PushResult, SessionError>| #[trigger]
                NotificationStore::applied(
                    before.store,
                    operation,
                    write,
                    publish,
                    applied,
                    after.store,
                ) && after.popups() == before.popups() && match applied {
                    Err(error) => {
                        &&& result == Err::<Vec<u64>, SessionError>(error)
                        &&& after.origins() == before.origins()
                    },
                    Ok(_) => {
                        &&& result is Ok && result->Ok_0@ == ids
                        &&& after.origins() == without_ids(before.origins(), ids)
                    },
                },
        }
    }

    /// Expires the actions of what came from a bus name that is gone, and lists it in
    /// ascending order.
    pub fn origin_lost<
        W: FnOnce(&NotificationStore, &LogPlan, &str) -> Result<(), SessionError>,
        K: FnOnce(&NotificationStore, u64) -> Result<(), SessionError>,
    >(&mut self, origin: &str, write: W, publish: K) -> (result: Result<Vec<u64>, SessionError>)
        requires
            old(self).wf(),
            forall|operation: OperationView| #[trigger]
                old(self).may_expire(origin@, operation) ==> old(self).store.may_apply(
                    operation,
                    write,
                    publish,
                ),
        ensures
            final(self).wf(),
            exists|ids: Seq<u64>, plan: Result<Option<OperationView>, Refusal>|
                #![trigger Self::forgotten(*old(self), ids, plan, write, publish, result, *final(self))]
                came_from(old(self).origins(), origin@, ids) && expiry_by(
                    old(self).store.state(),
                    ids,
                    old(self).store.capacity(),
                    old(self).store.limit(),
                    plan,
                ) && Self::forgotten(
                    *old(self),
                    ids,
                    plan,
                    write,
                    publish,
                    result,
                    *final(self),
                ),
    {
        let ghost before = *self;
        let ids = self.ids_for_origin(origin);
        let change = self.store.expire_actions(ids.as_slice());
        let ghost plan = optional_plan(change);
        let ghost capacity = self.store.capacity();
        proof {
            self.store.holds();
        }
        match change {
            Ok(Some(change)) => {
                let ghost operation = change.op();
                assert(before.may_expire(origin@, operation));
                let applied = self.store.apply(change, write, publish);
                assert(NotificationStore::applied(
                    before.store,
                    operation,
                    write,
                    publish,
                    applied,
                    self.store,
                ));
                if let Err(error) = applied {
                    let result = Err::<Vec<u64>, SessionError>(error);
                    assert(Self::forgotten(
                        before,
                        ids@,
                        plan,
                        write,
                        publish,
                        result,
                        *self,
                    ));
                    return result;
                }
                proof {
                    expiry_keeps_ids(before.store.state(), operation, capacity);
                }
            },
            Ok(None) => {},
            Err(error) => {
                let result = Err::<Vec<u64>, SessionError>(error);
                assert(Self::forgotten(before, ids@, plan, write, publish, result, *self));
                return result;
            },
        }
        remove_all(&mut self.origins, ids.as_slice());
        assert(self.origins() =~= without_ids(before.origins(), ids@));
        let result = Ok::<Vec<u64>, SessionError>(ids);
        assert(Self::forgotten(before, ids@, plan, write, publish, result, *self));
        result
    }

    /// Whether the loss of an origin may lead to an operation.
    pub open spec fn may_expire(&self, origin: Seq<char>, operation: OperationView) -> bool {
        exists|ids: Seq<u64>| #[trigger]
            came_from(self.origins(), origin, ids) && expiry_by(
                self.store.state(),
                ids,
                self.store.capacity(),
                self.store.limit(),
                Ok(Some(operation)),
            )
    }
}

/// Whether these are the notifications of a bus name, in ascending order.
pub open spec fn came_from(origins: Map<u64, Seq<char>>, origin: Seq<char>, ids: Seq<u64>) -> bool {
    &&& forall|k: int, l: int| 0 <= k < l < ids.len() ==> ids[k] < ids[l]
    &&& forall|id: u64|
        ids.contains(id) <==> (origins.contains_key(id) && origins[id] == origin)
}

/// Whether a notification is shown as a popup.
pub open spec fn pops_up(state: StoreView, notification: NotificationView) -> bool {
    !state.preferences.dnd || notification.urgency == NotificationUrgency::Critical
}

/// Whether a service starts on a store whose left-over actions are expired.
pub open spec fn started<
    W: FnOnce(&NotificationStore, &LogPlan, &str) -> Result<(), SessionError>,
    K: FnOnce(&NotificationStore, u64) -> Result<(), SessionError>,
>(
    store: NotificationStore,
    operation: OperationView,
    write: W,
    publish: K,
    provider: Result<FreedesktopNotificationProvider, SessionError>,
) -> bool {
    exists|applied: Result<PushResult, SessionError>, after: NotificationStore| #[trigger]
        NotificationStore::applied(store, operation, write, publish, applied, after)
            && match applied {
            Err(error) => provider == Err::<FreedesktopNotificationProvider, SessionError>(error),
            Ok(_) => provider is Ok && provider->Ok_0.store == after,
        }
}

/// After a write of the log failed every command is refused, whatever it is, and
/// changes nothing: not the notifications, not what is shown, not who sent what.
pub proof fn after_a_failed_write_every_command_is_refused<
    W: FnOnce(&NotificationStore, &LogPlan, &str) -> Result<(), SessionError>,
    K: FnOnce(&NotificationStore, u64) -> Result<(), SessionError>,
>(
    before: FreedesktopNotificationProvider,
    command: NotificationCommand,
    write: W,
    publish: K,
    result: Result<(), SessionError>,
    after: FreedesktopNotificationProvider,
)
    requires
        before.store.log_state().poisoned,
        FreedesktopNotificationProvider::executed(before, command, write, publish, result, after),
    ensures
        result is Err,
        after.store.state() == before.store.state(),
        after.store.log_state() == before.store.log_state(),
        after.origins() == before.origins(),
        after.popups() == before.popups(),
{
}

/// After a write of the log failed every notification is refused, whatever it is, and
/// changes nothing.
pub proof fn after_a_failed_write_every_notification_is_refused<
    W: FnOnce(&NotificationStore, &LogPlan, &str) -> Result<(), SessionError>,
    K: FnOnce(&NotificationStore, u64) -> Result<(), SessionError>,
>(
    before: FreedesktopNotificationProvider,
    request: NotifyRequest,
    verdict: Option<String>,
    now: u64,
    write: W,
    publish: K,
    result: Result<(NotifyOutcome, NotificationChange), SessionError>,
    after: FreedesktopNotificationProvider,
)
    requires
        before.store.log_state().poisoned,
        FreedesktopNotificationProvider::notified(
            before,
            request,
            verdict,
            now,
            write,
            publish,
            result,
            after,
        ),
    ensures
        result is Err,
        after.store.state() == before.store.state(),
        after.store.log_state() == before.store.log_state(),
        after.origins() == before.origins(),
        after.popups() == before.popups(),
{
}

/// A command or a notification whose write fails leaves the service refusing: the
/// log is marked, and memory is as it was.
pub proof fn a_failed_write_changes_nothing_but_the_log<
    W: FnOnce(&NotificationStore, &LogPlan, &str) -> Result<(), SessionError>,
    K: FnOnce(&NotificationStore, u64) -> Result<(), SessionError>,
>(
    before: FreedesktopNotificationProvider,
    command: NotificationCommand,
    operation: OperationView,
    write: W,
    publish: K,
    result: Result<(), SessionError>,
    after: FreedesktopNotificationProvider,
)
    requires
        FreedesktopNotificationProvider::executed(before, command, write, publish, result, after),
        command_outcome(
            before.store.state(),
            command,
            before.store.capacity(),
            before.store.limit(),
        ) == Ok::<OperationView, Refusal>(operation),
        byte_len(before.store.next_line(operation)) <= SEGMENT_LIMIT_BYTES,
        !can_be_written(
            write,
            before.store.state(),
            before.store.log_state().ready_for(byte_len(before.store.next_line(operation)) as int),
            before.store.log_state().plan_for(byte_len(before.store.next_line(operation)) as int),
            before.store.next_line(operation),
        ),
    ensures
        result is Err,
        after.store.log_state().poisoned,
        after.store.state() == before.store.state(),
        after.origins() == before.origins(),
        after.popups() == before.popups(),
{
}

/// Why an action cannot be invoked, if it cannot.
pub open spec fn invocation_refusal(
    state: StoreView,
    origins: Map<u64, Seq<char>>,
    id: u64,
    action_id: Seq<char>,
) -> Option<Refusal> {
    if !has_id(state.active, id) {
        Some(not_found())
    } else {
        let notification = state.active[place(state.active, id)];
        let at = first_action(notification, action_id);
        if at >= notification.actions.len() {
            Some((ErrorKind::NotFound, "notification action not found"@))
        } else if !origins.contains_key(id) {
            Some((ErrorKind::NotConnected, "notification origin is no longer available"@))
        } else if notification.actions[at].state != NotificationActionState::Available {
            Some((ErrorKind::NotConnected, "notification action has expired"@))
        } else {
            None
        }
    }
}

/// The place of the first action with an identifier, the count if there is none.
pub open spec fn first_action(notification: NotificationView, action_id: Seq<char>) -> int {
    if exists|i: int|
        0 <= i < notification.actions.len() && (#[trigger] notification.actions[i]).id
            == action_id {
        choose|i: int|
            {
                &&& 0 <= i < notification.actions.len()
                &&& (#[trigger] notification.actions[i]).id == action_id
                &&& forall|j: int|
                    0 <= j < i ==> (#[trigger] notification.actions[j]).id != action_id
            }
    } else {
        notification.actions.len() as int
    }
}

proof fn first_action_is(notification: NotificationView, action_id: Seq<char>, at: int)
    requires
        0 <= at < notification.actions.len(),
        notification.actions[at].id == action_id,
        forall|j: int| 0 <= j < at ==> (#[trigger] notification.actions[j]).id != action_id,
    ensures
        first_action(notification, action_id) == at,
{
    let k = first_action(notification, action_id);
    assert(notification.actions[at].id == action_id);
    if k < at {
        assert(notification.actions[k].id != action_id);
    } else if at < k {
        assert(notification.actions[at].id != action_id);
    }
}

/// What a command leads to.
pub open spec fn command_outcome(
    state: StoreView,
    command: NotificationCommand,
    capacity: int,
    limit: int,
) -> Result<OperationView, Refusal> {
    match command {
        NotificationCommand::MarkRead { id } => mark_read_outcome(state, id, capacity, limit),
        NotificationCommand::Dismiss { id } => dismiss_outcome(state, id, capacity, limit),
        NotificationCommand::Archive { id } => dismiss_outcome(state, id, capacity, limit),
        NotificationCommand::SetDnd { enabled } => set_dnd_outcome(state, enabled, capacity, limit),
        NotificationCommand::PurgeArchive => Ok(OperationView::PurgeArchive),
    }
}

/// Whether an operation carries out a command.
pub open spec fn carries_out(
    state: StoreView,
    command: NotificationCommand,
    operation: OperationView,
) -> bool {
    match command {
        NotificationCommand::MarkRead { id } => operation == OperationView::MarkRead { id },
        NotificationCommand::Dismiss { id } => operation is Dismiss
            && operation->Dismiss_notification.id == id,
        NotificationCommand::Archive { id } => operation is Dismiss
            && operation->Dismiss_notification.id == id,
        NotificationCommand::SetDnd { enabled } => operation == OperationView::SetDnd { enabled },
        NotificationCommand::PurgeArchive => operation == OperationView::PurgeArchive,
    }
}

/// Every planned command carries out what was asked.
pub proof fn planned_commands_carry_out(
    state: StoreView,
    command: NotificationCommand,
    capacity: int,
    limit: int,
)
    ensures
        command_outcome(state, command, capacity, limit) matches Ok(operation) ==> carries_out(
            state,
            command,
            operation,
        ),
{
    match command {
        NotificationCommand::Dismiss { id } => {
            place_facts(state.active, id);
        },
        NotificationCommand::Archive { id } => {
            place_facts(state.active, id);
        },
        _ => {},
    }
}

pub open spec fn archived_ids(state: StoreView) -> Seq<u64> {
    state.archive.map_values(|d: NotificationView| d.id)
}

pub open spec fn origins_after(
    state: StoreView,
    origins: Map<u64, Seq<char>>,
    command: NotificationCommand,
) -> Map<u64, Seq<char>> {
    match command {
        NotificationCommand::PurgeArchive => without_ids(origins, archived_ids(state)),
        _ => origins,
    }
}

pub open spec fn popups_after(
    state: StoreView,
    popups: Map<u64, Option<u64>>,
    command: NotificationCommand,
) -> Map<u64, Option<u64>> {
    match command {
        NotificationCommand::MarkRead { .. } => popups,
        NotificationCommand::Dismiss { id } => popups.remove(id),
        NotificationCommand::Archive { id } => popups.remove(id),
        NotificationCommand::SetDnd { enabled } => if enabled {
            Map::new(
                |id: u64| popups.contains_key(id) && critical(state, id),
                |id: u64| popups[id],
            )
        } else {
            popups
        },
        NotificationCommand::PurgeArchive => without_ids(popups, archived_ids(state)),
    }
}

fn ids_of(documents: &[NotificationDocument]) -> (ids: Vec<u64>)
    ensures
        ids@ == document_views(documents@).map_values(|d: NotificationView| d.id),
{
    let mut ids: Vec<u64> = Vec::new();
    for i in 0..documents.len()
        invariant
            ids@ == document_views(documents@).map_values(|d: NotificationView| d.id).take(
                i as int,
            ),
    {
        ids.push(documents[i].id);
        assert(ids@ =~= document_views(documents@).map_values(|d: NotificationView| d.id).take(
            i + 1,
        ));
    }
    assert(ids@ =~= document_views(documents@).map_values(|d: NotificationView| d.id));
    ids
}

fn is_critical(documents: &[NotificationDocument], id: u64) -> (found: bool)
    ensures
        found == (exists|i: int|
            0 <= i < document_views(documents@).len() && (#[trigger] document_views(
                documents@,
            )[i]).id == id && document_views(documents@)[i].urgency
                == NotificationUrgency::Critical),
{
    let ghost views = document_views(documents@);
    for i in 0..documents.len()
        invariant
            views == document_views(documents@),
            forall|j: int|
                0 <= j < i ==> !((#[trigger] views[j]).id == id && views[j].urgency
                    == NotificationUrgency::Critical),
    {
        assert(views[i as int] == documents@[i as int]@);
        if documents[i].id == id && matches!(documents[i].urgency, NotificationUrgency::Critical) {
            return true;
        }
    }
    false
}

proof fn push_keeps_invariant(
    state: StoreView,
    shown: NotificationView,
    capacity: int,
    origins: Map<u64, Seq<char>>,
    popups: Map<u64, Option<u64>>,
    popup: bool,
    origin: Seq<char>,
    after_popups: Map<u64, Option<u64>>,
)
    requires
        state.well_formed(capacity),
        capacity >= 1,
        service_invariant(state, origins, popups),
        0 < shown.id < u64::MAX,
        !has_id(state.archive, shown.id),
        popup && state.preferences.dnd ==> shown.urgency == NotificationUrgency::Critical,
        ({
            let evicted = state.evicted(shown, capacity).map_values(|d: NotificationView| d.id);
            let kept = without_ids(popups, evicted);
            if popup {
                exists|deadline: Option<u64>|
                    after_popups == #[trigger] kept.insert(shown.id, deadline)
            } else {
                after_popups == kept.remove(shown.id)
            }
        }),
    ensures
        service_invariant(
            state.pushed(shown, capacity),
            origins.insert(shown.id, origin),
            after_popups,
        ),
{
    well_formed_by_lists(state, capacity);
    let after = state.pushed(shown, capacity);
    let rest = without_id(state.active, shown.id);
    let kept = rest.push(shown);
    let evicted = state.evicted(shown, capacity).map_values(|d: NotificationView| d.id);
    without_id_facts(state.active, shown.id);
    // Every active notification with another identifier stays in `kept`.
    assert forall|i: int|
        0 <= i < state.active.len() && (#[trigger] state.active[i]).id
            != shown.id implies rest.contains(state.active[i]) by {
        if has_id(state.active, shown.id) {
            place_facts(state.active, shown.id);
            let at = place(state.active, shown.id);
            without_id_removes_one(state.active, at);
            let j = if i < at {
                i
            } else {
                i - 1
            };
            assert(rest[j] == state.active[i]);
        } else {
            assert(rest[i] == state.active[i]);
        }
    }
    assert(kept[rest.len() as int] == shown);
    if kept.len() > capacity {
        assert(state.evicted(shown, capacity) =~= seq![kept.first().with_archived(true)]);
        assert(evicted =~= seq![kept[0].id]);
        assert(after.active =~= kept.skip(1));
        assert(after.active[rest.len() - 1] == shown);
    } else {
        assert(evicted =~= Seq::<u64>::empty());
        assert(after.active[rest.len() as int] == shown);
    }
    assert(has_id(after.active, shown.id));
    // An active notification that is not evicted is still active and unchanged.
    assert forall|i: int|
        0 <= i < state.active.len() && (#[trigger] state.active[i]).id != shown.id
            && !evicted.contains(state.active[i].id) implies after.active.contains(
        state.active[i],
    ) by {
        let j = choose|j: int| 0 <= j < rest.len() && rest[j] == state.active[i];
        assert(kept[j] == state.active[i]);
        if kept.len() > capacity {
            assert(evicted[0] == kept[0].id);
            assert(j > 0);
            assert(after.active[j - 1] == kept[j]);
        } else {
            assert(after.active[j] == kept[j]);
        }
    }
    assert forall|id: u64| #[trigger] after_popups.contains_key(id) implies has_id(
        after.active,
        id,
    ) && (after.preferences.dnd ==> critical(after, id)) by {
        if id == shown.id {
            if after.preferences.dnd {
                assert(popup);
                if kept.len() > capacity {
                    assert(after.active[rest.len() - 1].id == id);
                } else {
                    assert(after.active[rest.len() as int].id == id);
                }
            }
        } else {
            assert(popups.contains_key(id) && !evicted.contains(id));
            let i = choose|i: int| 0 <= i < state.active.len() && #[trigger] state.active[i].id
                == id;
            let j = choose|j: int|
                0 <= j < after.active.len() && after.active[j] == state.active[i];
            assert(after.active[j].id == id);
            if after.preferences.dnd {
                let c = choose|c: int|
                    0 <= c < state.active.len() && (#[trigger] state.active[c]).id == id
                        && state.active[c].urgency == NotificationUrgency::Critical;
                if c != i {
                    assert(state.active[c].id != state.active[i].id);
                }
            }
        }
    }
    assert forall|id: u64| #[trigger]
        origins.insert(shown.id, origin).contains_key(id) implies after.knows(id) by {
        if id != shown.id {
            assert(origins.contains_key(id));
            if has_id(state.active, id) {
                let i = choose|i: int| 0 <= i < state.active.len() && #[trigger] state.active[i].id
                    == id;
                if evicted.contains(id) {
                    assert(kept.len() > capacity);
                    assert(after.archive[state.archive.len() as int].id == kept[0].id);
                    assert(evicted[0] == id);
                    assert(has_id(after.archive, id));
                } else {
                    let j = choose|j: int|
                        0 <= j < after.active.len() && after.active[j] == state.active[i];
                    assert(after.active[j].id == id);
                }
            } else {
                let i = choose|i: int| 0 <= i < state.archive.len() && #[trigger] state.archive[i].id
                    == id;
                assert(after.archive[i] == state.archive[i]);
                assert(has_id(after.archive, id));
            }
        }
    }
}

proof fn command_keeps_invariant(
    state: StoreView,
    command: NotificationCommand,
    operation: OperationView,
    capacity: int,
    origins: Map<u64, Seq<char>>,
    popups: Map<u64, Option<u64>>,
)
    requires
        state.well_formed(capacity),
        service_invariant(state, origins, popups),
        carries_out(state, command, operation),
        issued_in(state, operation, capacity),
    ensures
        service_invariant(
            effect(state, operation, capacity),
            origins_after(state, origins, command),
            popups_after(state, popups, command),
        ),
{
    well_formed_by_lists(state, capacity);
    let after = effect(state, operation, capacity);
    let popups2 = popups_after(state, popups, command);
    let origins2 = origins_after(state, origins, command);
    match operation {
        OperationView::MarkRead { id } => {
            same_actives_keep_invariant(state, after, origins, popups);
        },
        OperationView::Dismiss { notification } => {
            let at = choose|i: int|
                0 <= i < state.active.len() && #[trigger] state.active[i].with_archived(true)
                    == notification;
            without_id_removes_one(state.active, at);
            assert(after.active =~= state.active.remove(at));
            assert forall|i: int|
                0 <= i < state.active.len() && i != at implies after.active.contains(
                #[trigger] state.active[i],
            ) by {
                let j = if i < at {
                    i
                } else {
                    i - 1
                };
                assert(after.active[j] == state.active[i]);
            }
            assert forall|id: u64| #[trigger] popups2.contains_key(id) implies has_id(
                after.active,
                id,
            ) && (after.preferences.dnd ==> critical(after, id)) by {
                assert(popups.contains_key(id) && id != notification.id);
                let i = choose|i: int| 0 <= i < state.active.len() && #[trigger] state.active[i].id
                    == id;
                assert(i != at);
                let j = choose|j: int|
                    0 <= j < after.active.len() && after.active[j] == state.active[i];
                assert(after.active[j].id == id);
                if after.preferences.dnd {
                    let c = choose|c: int|
                        0 <= c < state.active.len() && (#[trigger] state.active[c]).id == id
                            && state.active[c].urgency == NotificationUrgency::Critical;
                    if c != i {
                        assert(state.active[c].id != state.active[i].id);
                    }
                }
            }
            assert forall|id: u64| #[trigger] origins2.contains_key(id) implies after.knows(id) by {
                assert(origins.contains_key(id));
                if has_id(state.archive, id) {
                    let i = choose|i: int|
                        0 <= i < state.archive.len() && #[trigger] state.archive[i].id == id;
                    assert(after.archive[i].id == id);
                } else {
                    let i = choose|i: int|
                        0 <= i < state.active.len() && #[trigger] state.active[i].id == id;
                    if i == at {
                        assert(after.archive[state.archive.len() as int].id == id);
                    } else {
                        let j = choose|j: int|
                            0 <= j < after.active.len() && after.active[j] == state.active[i];
                        assert(after.active[j].id == id);
                    }
                }
            }
        },
        OperationView::SetDnd { enabled } => {
            assert forall|id: u64| #[trigger] popups2.contains_key(id) implies has_id(
                after.active,
                id,
            ) && (after.preferences.dnd ==> critical(after, id)) by {
                assert(popups.contains_key(id));
                if enabled {
                    assert(critical(state, id));
                    let c = choose|c: int|
                        0 <= c < state.active.len() && (#[trigger] state.active[c]).id == id
                            && state.active[c].urgency == NotificationUrgency::Critical;
                    assert(after.active[c].id == id);
                }
            }
            assert forall|id: u64| #[trigger] origins2.contains_key(id) implies after.knows(id) by {
                assert(state.knows(id));
            }
        },
        OperationView::PurgeArchive => {
            assert forall|id: u64| #[trigger] popups2.contains_key(id) implies has_id(
                after.active,
                id,
            ) && (after.preferences.dnd ==> critical(after, id)) by {
                assert(popups.contains_key(id));
                if after.preferences.dnd {
                    assert(critical(state, id));
                    let c = choose|c: int|
                        0 <= c < state.active.len() && (#[trigger] state.active[c]).id == id
                            && state.active[c].urgency == NotificationUrgency::Critical;
                    assert(after.active[c].id == id);
                }
            }
            assert forall|id: u64| #[trigger] origins2.contains_key(id) implies after.knows(id) by {
                assert(state.knows(id));
                if has_id(state.archive, id) {
                    let i = choose|i: int|
                        0 <= i < state.archive.len() && #[trigger] state.archive[i].id == id;
                    assert(archived_ids(state)[i] == id);
                }
            }
        },
        _ => {},
    }
}

proof fn same_actives_keep_invariant(
    state: StoreView,
    after: StoreView,
    origins: Map<u64, Seq<char>>,
    popups: Map<u64, Option<u64>>,
)
    requires
        service_invariant(state, origins, popups),
        after.preferences == state.preferences,
        after.active.len() == state.active.len(),
        after.archive.len() == state.archive.len(),
        forall|i: int|
            0 <= i < state.active.len() ==> (#[trigger] after.active[i]).id == state.active[i].id
                && after.active[i].urgency == state.active[i].urgency,
        forall|i: int|
            0 <= i < state.archive.len() ==> (#[trigger] after.archive[i]).id
                == state.archive[i].id,
    ensures
        service_invariant(after, origins, popups),
{
    assert forall|id: u64| #[trigger] popups.contains_key(id) implies has_id(after.active, id) && (
    after.preferences.dnd ==> critical(after, id)) by {
        let i = choose|i: int| 0 <= i < state.active.len() && #[trigger] state.active[i].id == id;
        assert(after.active[i].id == id);
        if after.preferences.dnd {
            let c = choose|c: int|
                0 <= c < state.active.len() && (#[trigger] state.active[c]).id == id
                    && state.active[c].urgency == NotificationUrgency::Critical;
            assert(after.active[c].id == id);
        }
    }
    assert forall|id: u64| #[trigger] origins.contains_key(id) implies after.knows(id) by {
        if has_id(state.active, id) {
            let i = choose|i: int| 0 <= i < state.active.len() && #[trigger] state.active[i].id
                == id;
            assert(after.active[i].id == id);
        } else {
            let i = choose|i: int| 0 <= i < state.archive.len() && #[trigger] state.archive[i].id
                == id;
            assert(after.archive[i].id == id);
        }
    }
}

proof fn expiry_keeps_ids(state: StoreView, operation: OperationView, capacity: int)
    requires
        operation is ExpireActions,
    ensures
        forall|origins: Map<u64, Seq<char>>, popups: Map<u64, Option<u64>>|
            service_invariant(state, origins, popups) ==> #[trigger] service_invariant(
                effect(state, operation, capacity),
                origins,
                popups,
            ),
{
    let after = effect(state, operation, capacity);
    assert forall|origins: Map<u64, Seq<char>>, popups: Map<u64, Option<u64>>|
        service_invariant(state, origins, popups) implies #[trigger] service_invariant(
        after,
        origins,
        popups,
    ) by {
        same_actives_keep_invariant(state, after, origins, popups);
    }
}

/// Expiring every notification with an action that can be invoked leaves none.
pub proof fn startup_leaves_no_action(state: StoreView, ids: Seq<u64>, capacity: int)
    requires
        forall|i: int|
            0 <= i < state.all().len() && (#[trigger] state.all()[i]).has_available_action()
                ==> ids.contains(state.all()[i].id),
    ensures
        forall|i: int|
            0 <= i < effect(
                state,
                OperationView::ExpireActions { ids },
                capacity,
            ).all().len() ==> !(#[trigger] effect(
                state,
                OperationView::ExpireActions { ids },
                capacity,
            ).all()[i]).has_available_action(),
{
    let after = effect(state, OperationView::ExpireActions { ids }, capacity);
    assert forall|i: int| 0 <= i < after.all().len() implies !(
    #[trigger] after.all()[i]).has_available_action() by {
        let was = state.all()[i];
        let now = after.all()[i];
        assert(now == expired_if_listed(was, ids)) by {
            if i < state.active.len() {
                assert(now == after.active[i]);
            } else {
                assert(now == after.archive[i - state.active.len()]);
            }
        }
        if now.has_available_action() {
            let k = choose|k: int|
                0 <= k < now.actions.len() && #[trigger] now.actions[k].state
                    == NotificationActionState::Available;
            if ids.contains(was.id) {
                assert(now.actions[k].state == NotificationActionState::Expired);
            }
        }
    }
}

// ---------------------------------------------------------------------------
// Announcements
// ---------------------------------------------------------------------------

/// What is announced for a notification that was shown: what it archived first,
/// then itself.
pub open spec fn notify_events(outcome: NotifyOutcome, change: NotificationChange) -> Seq<
    ServiceEvent,
> {
    outcome.archived_ids@.map_values(
        |id: u64| ServiceEvent::Notification { id, change: NotificationChange::Archived },
    ).push(ServiceEvent::Notification { id: outcome.id, change })
}

pub fn events_of_notify(outcome: &NotifyOutcome, change: NotificationChange) -> (events: Vec<
    ServiceEvent,
>)
    ensures
        events@ == notify_events(*outcome, change),
{
    let mut events: Vec<ServiceEvent> = Vec::new();
    let ghost all = notify_events(*outcome, change);
    for i in 0..outcome.archived_ids.len()
        invariant
            all == notify_events(*outcome, change),
            events@ == all.take(i as int),
    {
        events.push(
            ServiceEvent::Notification {
                id: outcome.archived_ids[i],
                change: NotificationChange::Archived,
            },
        );
        assert(events@ =~= all.take(i + 1));
    }
    events.push(ServiceEvent::Notification { id: outcome.id, change });
    assert(events@ =~= all);
    events
}

/// What is announced for a command that was carried out.
pub open spec fn command_event(command: NotificationCommand) -> ServiceEvent {
    match command {
        NotificationCommand::MarkRead { id } => ServiceEvent::Notification {
            id,
            change: NotificationChange::Updated,
        },
        NotificationCommand::Dismiss { id } => ServiceEvent::Notification {
            id,
            change: NotificationChange::Archived,
        },
        NotificationCommand::Archive { id } => ServiceEvent::Notification {
            id,
            change: NotificationChange::Archived,
        },
        NotificationCommand::SetDnd { enabled } => ServiceEvent::DndProvider { online: !enabled },
        NotificationCommand::PurgeArchive => ServiceEvent::ArchiveProvider { online: true },
    }
}

pub fn event_of_command(command: NotificationCommand) -> (event: ServiceEvent)
    ensures
        event == command_event(command),
{
    match command {
        NotificationCommand::MarkRead { id } => ServiceEvent::Notification {
            id,
            change: NotificationChange::Updated,
        },
        NotificationCommand::Dismiss { id } => ServiceEvent::Notification {
            id,
            change: NotificationChange::Archived,
        },
        NotificationCommand::Archive { id } => ServiceEvent::Notification {
            id,
            change: NotificationChange::Archived,
        },
        NotificationCommand::SetDnd { enabled } => ServiceEvent::DndProvider { online: !enabled },
        NotificationCommand::PurgeArchive => ServiceEvent::ArchiveProvider { online: true },
    }
}

} // verus!
