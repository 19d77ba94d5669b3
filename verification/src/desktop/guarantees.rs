//! What the session, the tray, the registry and the agents guarantee.

use vstd::prelude::*;
use vstd::utf8::{decode_utf8, encode_utf8};

use crate::command::{came_of, succeeded, CommandView, RunState, Runs};
use crate::desktop::adapters::{available_as_value, is_daily_domain, shows_events};
use crate::desktop::appearance::{is_identifier, AppearanceAction, AppearanceCommand};
use crate::desktop::authority::DesktopStateAuthority;
use crate::desktop::budget::{
    accepted_frames_are_within_budget, budget_fault, item_total, text_total, Json,
};
use crate::desktop::commands::{DesktopSessionCommand, MediaTransport, UtilityCommand};
use crate::desktop::control::{concludes, Conclusion};
use crate::desktop::dedupe::document_of;
use crate::desktop::domain::{
    domain_of, CapabilityAvailability, DesktopDomainId, DesktopDomainState, DesktopDomainValue,
    OsdEvent, StableId, StateView, DOMAIN_COUNT,
};
use crate::desktop::executor::{
    is_state_after, output_known, output_needed, worker_title, CompositorExecution,
    DesktopCommand, OutputAuthority, Worker,
};
use crate::desktop::fraction::{Number, Reader};
use crate::desktop::localize::{heavier, keeps, Contribution, Said, Verdict};
use crate::desktop::locker::{
    call_of, locked_line, locker_at, owned_directory, owned_socket, reply_bound, request_line,
    session_directory, shows_lock, slept, status_in, transition, trusted_below, trusted_socket,
    unlocked_line, usual_socket, CallView, FileFacts, FileKind, LockerRequest, LockerStatus,
    Looks, SuspendTransitionWait, TransitionEvent,
};
use crate::desktop::media::{is_bus_char, steered_by, MediaView, Meter, ObservationView};
use crate::desktop::network::is_mac;
use crate::desktop::publication::{given_up, goes_on};
use crate::desktop::registry::{
    failed_as, first_repeated, kind_of, missing_before, title_list, unreported, ProducerKind,
};
use crate::desktop::resources::{counters_in, load_in, memory_in, resources_in};
use crate::desktop::runtime::{
    aggregator_failure, bounded_is_the_longest_beginning, end_reason, first_failure, loop_follows,
    producer_failure, reaping_failure, AggregatorEnd, LoopAction, LoopEvent, LoopPhase,
    PublicationControl, RunEnd, TaskEnd,
};
use crate::desktop::secret_agent::{challenge_after, erased, ChallengeView, LockedSecret};
use crate::desktop::snapshot::{
    assembly_fault, is_part, public_text, shows, tells, DesktopCapability, DesktopSnapshot,
    DomainUpdate, Shown,
};
use crate::desktop::states::DomainStates;
use crate::desktop::system::is_system_domain;
use crate::desktop::tray::{
    activate_identifier, content_of, enabled_of, fallback_parts, hashed, is_component,
    is_component_char, is_object_path, is_path_char, is_service_name, item_hash, item_identifier,
    label_of, layout_parts, members_of, menu_of, menu_of_first, menu_prefix, menu_with,
    node_identifier, property, registration, root_identifier, signed_decimal, still_active,
    without_colons, ActionView, BusValue, NodeView, Walk, MAX_MENU_DEPTH,
};
use crate::desktop::utilities::{
    captured_below, captured_by, is_output_char, is_output_name, is_recording_char, is_runnable,
    is_utility_domain, output_in, recorder_line, screenshot_line, some_runnable, ProgramFile,
};
use crate::desktop::wire::{optional_text, DesktopResultStatus};
use crate::error::{ErrorKind, Fault, SessionError};
use crate::ids::uuid_hyphenated;
use crate::paths::{components, is_clean, is_entry_of, joined};
use crate::text::{
    byte_len, decimal, decimal_spells_the_number, digits_value, ends_with, first_index_is,
    has_part, hex_digits, is_ascii_alphanumeric, is_blank, is_control, is_digit, is_hex_digit,
    split, starts_with, texts, trim,
};

verus! {

// ---------------------------------------------------------------------------
// The locker and the login manager
// ---------------------------------------------------------------------------

/// Whether bytes spell a text of plain characters.
pub open spec fn spells(bytes: Seq<u8>, text: Seq<char>) -> bool {
    &&& bytes.len() == text.len()
    &&& forall|i: int| 0 <= i < bytes.len() ==> (#[trigger] bytes[i]) as u32 == text[i] as u32
}

/// The locker is asked, and answers, in these words.
pub proof fn the_locker_speaks_in_these_words()
    ensures
        spells(request_line(LockerRequest::Lock), "lock\n"@),
        spells(request_line(LockerRequest::Status), "status\n"@),
        spells(request_line(LockerRequest::Suspend), "suspend\n"@),
        spells(locked_line(), "locked\n"@),
        spells(unlocked_line(), "unlocked\n"@),
        spells(session_directory(), "sleepy"@),
        spells(usual_socket(), "sleepy/locker.sock"@),
{
    reveal_strlit("lock\n");
    reveal_strlit("status\n");
    reveal_strlit("suspend\n");
    reveal_strlit("locked\n");
    reveal_strlit("unlocked\n");
    reveal_strlit("sleepy");
    reveal_strlit("sleepy/locker.sock");
}

/// What the locker answers is taken for what it says.
pub proof fn the_locker_is_taken_at_its_word(reply: Seq<u8>)
    ensures
        status_in(reply) == Ok::<LockerStatus, Fault>(LockerStatus::Locked) <==> spells(
            reply,
            "locked\n"@,
        ),
        status_in(reply) == Ok::<LockerStatus, Fault>(LockerStatus::Unlocked) <==> spells(
            reply,
            "unlocked\n"@,
        ),
        reply_bound(LockerRequest::Lock) > "locked\n"@.len(),
        reply_bound(LockerRequest::Suspend) > "locked\n"@.len(),
        reply_bound(LockerRequest::Status) > "unlocked\n"@.len(),
{
    reveal_strlit("locked\n");
    reveal_strlit("unlocked\n");
    if spells(reply, "locked\n"@) {
        assert forall|i: int| 0 <= i < reply.len() implies reply[i] == locked_line()[i] by {
            assert(reply[i] as u32 == "locked\n"@[i] as u32);
        }
        assert(reply =~= locked_line());
    }
    if spells(reply, "unlocked\n"@) {
        assert forall|i: int| 0 <= i < reply.len() implies reply[i] == unlocked_line()[i] by {
            assert(reply[i] as u32 == "unlocked\n"@[i] as u32);
        }
        assert(reply =~= unlocked_line());
        assert(reply.len() != locked_line().len());
    }
}

/// Where the locker is: at the socket that is named, or at the usual one below the
/// runtime directory, without which there is none.
pub proof fn where_the_locker_is(runtime: Seq<u8>, socket: Seq<u8>)
    requires
        runtime.len() > 0,
        socket.len() > 0,
    ensures
        locker_at(Some(runtime), Some(socket)) == Ok::<(Seq<u8>, Seq<u8>), Fault>(
            (runtime, socket),
        ),
        locker_at(Some(runtime), None) matches Ok(at) && at.0 == runtime && at.1.len()
            >= runtime.len() + usual_socket().len() && at.1.take(runtime.len() as int) == runtime
            && at.1.skip(at.1.len() - usual_socket().len()) == usual_socket(),
        locker_at(Some(runtime), Some(Seq::empty())) == locker_at(Some(runtime), None),
        locker_at(None, Some(socket)) is Err,
        locker_at(Some(Seq::empty()), Some(socket)) is Err,
{
    let path = joined(runtime, usual_socket());
    assert(path.take(runtime.len() as int) =~= runtime);
    assert(path.skip(path.len() - usual_socket().len()) =~= usual_socket());
}

/// Which directories and sockets are trusted: those of the user, of the right kind and
/// with the right bits.
pub proof fn which_files_are_trusted(facts: FileFacts, uid: u32)
    ensures
        owned_directory(Ok(facts), uid, None) is Ok <==> facts.kind == FileKind::Directory
            && facts.uid == uid,
        owned_directory(Ok(facts), uid, Some(0o700)) is Ok <==> facts.kind == FileKind::Directory
            && facts.uid == uid && facts.mode & 0o777 == 0o700,
        owned_socket(Ok(facts), uid) is Ok <==> facts.kind == FileKind::Socket && facts.uid == uid
            && facts.mode & 0o777 == 0o600,
        owned_socket(Ok(facts), uid) is Err ==> owned_socket(Ok(facts), uid)->Err_0.0
            == ErrorKind::PermissionDenied,
{
}

/// The session is ended, suspended, restarted and powered off by these methods; it is
/// never locked by one.
pub proof fn the_session_is_ended_by_these_methods(id: Seq<char>)
    ensures
        call_of(DesktopSessionCommand::Suspend, Some(id)) == Ok::<CallView, Fault>(
            CallView { method: "Suspend"@, session_id: None },
        ),
        call_of(DesktopSessionCommand::Reboot, Some(id)) == Ok::<CallView, Fault>(
            CallView { method: "Reboot"@, session_id: None },
        ),
        call_of(DesktopSessionCommand::PowerOff, Some(id)) == Ok::<CallView, Fault>(
            CallView { method: "PowerOff"@, session_id: None },
        ),
        call_of(DesktopSessionCommand::Suspend, None) is Ok,
        call_of(DesktopSessionCommand::Reboot, None) is Ok,
        call_of(DesktopSessionCommand::PowerOff, None) is Ok,
        call_of(DesktopSessionCommand::Lock, Some(id)) is Err,
        id.len() > 0 && !id.contains('\0') ==> call_of(DesktopSessionCommand::Logout, Some(id))
            == Ok::<CallView, Fault>(
            CallView { method: "TerminateSession"@, session_id: Some(id) },
        ),
        id.contains('\0') ==> call_of(DesktopSessionCommand::Logout, Some(id)) is Err,
        call_of(DesktopSessionCommand::Logout, Some(Seq::empty())) is Err,
        call_of(DesktopSessionCommand::Logout, None) is Err,
{
}

/// A transition that is waited for ends the wait; the other one is an error, and so is
/// the end of the time.
pub proof fn when_a_transition_is_over(expected: bool, now: u64, deadline: u64)
    ensures
        transition(TransitionEvent::Observed(expected), expected, now, Some(deadline)) == Ok::<
            Option<int>,
            Fault,
        >(None),
        transition(TransitionEvent::Observed(!expected), expected, now, Some(deadline)) is Err,
        transition(TransitionEvent::Disconnected, expected, now, Some(deadline)) is Err,
        transition(TransitionEvent::Nothing, expected, now, None) == Ok::<Option<int>, Fault>(
            Some(100),
        ),
        transition(TransitionEvent::Nothing, expected, now, Some(deadline)) is Err <==> now
            >= deadline,
        now < deadline ==> transition(TransitionEvent::Nothing, expected, now, Some(deadline))
            == Ok::<Option<int>, Fault>(
            Some(
                if deadline - now < 100 {
                    deadline - now
                } else {
                    100
                },
            ),
        ),
{
}

/// What is shown of the lock.
pub proof fn what_is_shown_of_the_lock(state: DesktopDomainState, secure: bool)
    requires
        shows_lock(state, secure),
    ensures
        state@.domain == DesktopDomainId::Lock,
        state@.status == CapabilityAvailability::Available,
        state@.value matches Some(DesktopDomainValue::Lock(lock)) && lock.secure == secure,
{
}

// ---------------------------------------------------------------------------
// Commands
// ---------------------------------------------------------------------------

/// Only a command about an output needs one, and it needs the output that it names.
pub proof fn which_outputs_are_needed(output_id: StableId, audio: bool, enabled: bool)
    ensures
        output_needed(DesktopCommand::Utility(UtilityCommand::Screenshot { output_id })) == Some(
            output_id.0@,
        ),
        output_needed(
            DesktopCommand::Utility(UtilityCommand::StartRecording { output_id, audio }),
        ) == Some(output_id.0@),
        output_needed(DesktopCommand::Utility(UtilityCommand::PickColor)) is None,
        output_needed(DesktopCommand::Utility(UtilityCommand::SetGameMode { enabled })) is None,
        output_needed(DesktopCommand::Compositor) is None,
        output_needed(DesktopCommand::Launcher) is None,
        output_needed(DesktopCommand::Appearance) is None,
{
}

/// An output is known when the compositor lists it.
pub proof fn which_outputs_are_known(monitors: &Vec<String>, text: &str, i: int)
    ensures
        0 <= i < monitors@.len() ==> output_known(
            OutputAuthority::Monitors(monitors),
            monitors@[i]@,
        ) is Ok,
        output_known(OutputAuthority::Monitors(monitors), text@) is Ok ==> exists|k: int|
            0 <= k < monitors@.len() && (#[trigger] monitors@[k])@ == text@,
        output_known(OutputAuthority::Unavailable, text@) == Err::<(), Seq<char>>(
            "Hyprland output authority is unavailable"@,
        ),
        output_known(OutputAuthority::Failed(text), monitors@[i]@) == Err::<(), Seq<char>>(text@),
{
    if 0 <= i < monitors@.len() {
        assert(texts(monitors@)[i] == monitors@[i]@);
        assert(texts(monitors@).contains(monitors@[i]@));
    }
    if texts(monitors@).contains(text@) {
        let k = choose|k: int| 0 <= k < texts(monitors@).len() && texts(monitors@)[k] == text@;
        assert(monitors@[k]@ == text@);
    }
}

/// Which worker failed is said by its name.
pub proof fn workers_are_named()
    ensures
        worker_title(Worker::System) == "system mutation worker failed: "@,
        worker_title(Worker::Launcher) == "launcher worker failed: "@,
        worker_title(Worker::Session) == "logind action worker failed: "@,
        worker_title(Worker::Utility) == "utility action worker failed: "@,
{
}

/// What the appearance is asked to be is what it is set to.
pub proof fn the_appearance_is_as_asked(
    action: Result<AppearanceAction, SessionError>,
    command: AppearanceCommand,
)
    requires
        crate::desktop::appearance::carries_out(action, command),
        action is Ok,
    ensures
        command is ApplyTheme ==> action->Ok_0 is ActivateTheme && action->Ok_0->ActivateTheme_0@
            == command->theme_id.0@,
        command is SetWallpaper ==> action->Ok_0 is StoreWallpaper
            && action->Ok_0->StoreWallpaper_0.wallpaper_id@ == command->wallpaper_id.0@
            && action->Ok_0->StoreWallpaper_0.schema_version == 1,
        command matches AppearanceCommand::SetReducedMotion { enabled } ==> action->Ok_0
            == (AppearanceAction::SetEffects { reduced_motion: Some(enabled), opaque: None }),
        command matches AppearanceCommand::SetOpaque { enabled } ==> action->Ok_0 == (
        AppearanceAction::SetEffects { reduced_motion: None, opaque: Some(enabled) }),
{
}

// ---------------------------------------------------------------------------
// The tray
// ---------------------------------------------------------------------------

/// A registration is the name of a service, with the path of its item behind it or
/// without one.
pub proof fn registrations_are_read(service: Seq<char>, path: Seq<char>)
    requires
        is_service_name(service),
        !service.contains('/'),
        is_object_path(path),
    ensures
        registration(service + path) == Ok::<(Seq<char>, Seq<char>), Fault>((service, path)),
        is_object_path("/StatusNotifierItem"@) ==> registration(service) == Ok::<
            (Seq<char>, Seq<char>),
            Fault,
        >((service, "/StatusNotifierItem"@)),
        registration(path) is Err,
{
    let value = service + path;
    let at = service.len() as int;
    assert forall|i: int| 0 <= i < at implies value[i] != '/' by {
        assert(value[i] == service[i]);
    }
    assert(value[at] == path[0]);
    first_index_is(value, '/', at);
    assert(value.contains('/'));
    assert(value.take(at) =~= service);
    assert(value.skip(at) =~= path);
    assert forall|i: int| 0 <= i < at implies service[i] != '/' by {
        assert(service.contains(service[i]));
    }
    first_index_is(service, '/', at);
    assert(service.take(at) =~= service);
    first_index_is(path, '/', 0);
    assert(path.take(0).len() == 0);
}

/// What a name or a path may hold.
pub proof fn what_registrations_hold(service: Seq<char>, path: Seq<char>, i: int)
    ensures
        is_object_path(path) && 0 <= i < path.len() ==> path[i] != ' ' && path[i] != '.'
            && path[i] != '-',
        is_object_path(path) ==> path[0] == '/' && !has_part(path, "//"@),
        is_service_name(service) ==> 0 < service.len() && byte_len(service) <= 255 && (service[0]
            == ':' || service.contains('.')),
{
    if is_object_path(path) && 0 <= i < path.len() {
        assert(is_path_char(path[i]));
    }
}

/// The entries of a menu are named by their item, and different entries differently.
pub proof fn entries_are_named_apart(hash: u64, one: i32, other: i32)
    ensures
        starts_with(node_identifier(hash, one), "tray-menu:"@ + hex_digits(hash as nat, 16)),
        one != other ==> node_identifier(hash, one) != node_identifier(hash, other),
        root_identifier(hash) != activate_identifier(hash),
        root_identifier(hash) != node_identifier(hash, one),
        activate_identifier(hash) != node_identifier(hash, one),
        item_identifier(hash) == "tray:"@ + hex_digits(hash as nat, 16),
{
    let prefix = menu_prefix(hash);
    let head = "tray-menu:"@ + hex_digits(hash as nat, 16);
    let a = node_identifier(hash, one);
    assert(a.take(head.len() as int) =~= head);
    let b = node_identifier(hash, other);
    assert(a.skip(prefix.len() as int) =~= signed_decimal(one as int));
    assert(b.skip(prefix.len() as int) =~= signed_decimal(other as int));
    signed_numbers_are_spelled(one as int);
    signed_numbers_are_spelled(other as int);
    reveal_strlit("root");
    reveal_strlit("activate");
    let r = root_identifier(hash);
    let t = activate_identifier(hash);
    assert(r.skip(prefix.len() as int) =~= "root"@);
    assert(t.skip(prefix.len() as int) =~= "activate"@);
    assert("root"@[0] == 'r' && "activate"@[0] == 'a');
}

/// A number with its sign is spelled by its digits, behind a hyphen where it is negative.
pub proof fn signed_numbers_are_spelled(n: int)
    ensures
        signed_decimal(n).len() > 0,
        n >= 0 ==> is_digit(signed_decimal(n)[0]) && digits_value(signed_decimal(n)) == n,
        n < 0 ==> signed_decimal(n)[0] == '-' && digits_value(signed_decimal(n).skip(1)) == -n,
{
    if n < 0 {
        decimal_spells_the_number((-n) as nat);
        assert(signed_decimal(n).skip(1) =~= decimal((-n) as nat));
    } else {
        decimal_spells_the_number(n as nat);
        assert(is_digit(decimal(n as nat)[0]));
    }
}

/// A node of a menu is enabled unless its property says zero.
pub proof fn which_nodes_are_enabled(properties: BusValue)
    ensures
        !enabled_of(properties) <==> property(properties, "enabled"@) is Some && property(
            properties,
            "enabled"@,
        )->Some_0.number == Some(0i64),
        property(properties, "enabled"@) is None ==> enabled_of(properties),
        property(properties, "label"@) is None ==> label_of(properties).len() == 0,
        property(properties, "label"@) matches Some(value) && value.text is Some ==> label_of(
            properties,
        ) == property(properties, "label"@)->Some_0.text->Some_0@,
{
}

/// A node is shown under its own number, with its own label, and is offered exactly when
/// it is enabled.
pub proof fn how_nodes_are_shown(
    child: BusValue,
    nodes: Seq<NodeView>,
    hash: u64,
    path: Seq<char>,
    walk: Walk,
    depth: nat,
)
    requires
        menu_with(child, nodes, hash, path, walk, depth) is Ok,
        depth <= 32,
        !is_blank(label_of(members_of(child)[1])),
    ensures
        ({
            let (shown, after) = menu_with(child, nodes, hash, path, walk, depth)->Ok_0;
            let fields = members_of(child);
            &&& shown.len() == nodes.len() + 1
            &&& shown.drop_last() == nodes
            &&& shown.last().id == node_identifier(hash, fields[0].number->Some_0 as i32)
            &&& shown.last().label == label_of(fields[1])
            &&& shown.last().enabled == enabled_of(fields[1])
            &&& after.count > walk.count
            &&& shown.last().enabled ==> after.actions.contains_key(shown.last().id)
                && after.actions[shown.last().id] == (ActionView::Menu {
                path,
                node_id: fields[0].number->Some_0 as i32,
            })
        }),
{
    let fields = members_of(child);
    let entered = Walk { count: walk.count + 1, ..walk };
    let (children, left) = menu_of(members_of(fields[2]), hash, path, entered, depth + 1)->Ok_0;
    let inner = members_of(fields[2]);
    counts_only_grow(inner, inner.len(), hash, path, entered, depth + 1);
    let (shown, after) = menu_with(child, nodes, hash, path, walk, depth)->Ok_0;
    assert(shown.drop_last() =~= nodes);
}

proof fn counts_only_grow(
    values: Seq<BusValue>,
    count: nat,
    hash: u64,
    path: Seq<char>,
    walk: Walk,
    depth: nat,
)
    ensures
        menu_of_first(values, count, hash, path, walk, depth) matches Ok(found) ==> found.1.count
            >= walk.count,
    decreases MAX_MENU_DEPTH + 1 - depth, count,
{
    if depth > MAX_MENU_DEPTH || count == 0 || count > values.len() {
    } else {
        counts_only_grow(values, (count - 1) as nat, hash, path, walk, depth);
        if menu_of_first(values, (count - 1) as nat, hash, path, walk, depth) is Ok {
            let (nodes, reached) = menu_of_first(
                values,
                (count - 1) as nat,
                hash,
                path,
                walk,
                depth,
            )->Ok_0;
            if content_of(values[count - 1]) is Some {
                let child = content_of(values[count - 1])->Some_0;
                let fields = members_of(child);
                reveal_with_fuel(menu_of, 2);
                reveal_with_fuel(menu_of_first, 2);
                reveal_with_fuel(menu_with, 2);
                assert(menu_of_first(values, count, hash, path, walk, depth) == menu_with(
                    child,
                    nodes,
                    hash,
                    path,
                    reached,
                    depth,
                ));
                if fields.len() >= 3 {
                    let entered = Walk { count: reached.count + 1, ..reached };
                    counts_only_grow(
                        members_of(fields[2]),
                        members_of(fields[2]).len(),
                        hash,
                        path,
                        entered,
                        depth + 1,
                    );
                }
            }
        }
    }
}

/// How the failures of a bus are classed for the tray.
pub proof fn how_tray_failures_are_classed()
    ensures
        crate::desktop::tray::bus_failure(Some("org.freedesktop.DBus.Error.ServiceUnknown"@))
            == ErrorKind::NotFound,
        crate::desktop::tray::bus_failure(Some("org.freedesktop.DBus.Error.NameHasNoOwner"@))
            == ErrorKind::NotFound,
        crate::desktop::tray::bus_failure(Some("org.freedesktop.DBus.Error.UnknownProperty"@))
            == ErrorKind::NotFound,
        crate::desktop::tray::bus_failure(Some("org.freedesktop.DBus.Error.UnknownMethod"@))
            == ErrorKind::NotFound,
        crate::desktop::tray::bus_failure(Some("org.freedesktop.DBus.Error.AccessDenied"@))
            == ErrorKind::PermissionDenied,
        crate::desktop::tray::bus_failure(Some("org.freedesktop.DBus.Error.NoReply"@))
            == ErrorKind::TimedOut,
        crate::desktop::tray::bus_failure(None) == ErrorKind::Other,
{
    reveal_strlit("org.freedesktop.DBus.Error.ServiceUnknown");
    reveal_strlit("org.freedesktop.DBus.Error.NameHasNoOwner");
    reveal_strlit("org.freedesktop.DBus.Error.UnknownProperty");
    reveal_strlit("org.freedesktop.DBus.Error.UnknownMethod");
    reveal_strlit("org.freedesktop.DBus.Error.AccessDenied");
    reveal_strlit("org.freedesktop.DBus.Error.NoReply");
    assert("org.freedesktop.DBus.Error.ServiceUnknown"@[27] == 'S');
    assert("org.freedesktop.DBus.Error.NameHasNoOwner"@[28] == 'a');
    assert("org.freedesktop.DBus.Error.UnknownProperty"@[27] == 'U');
    assert("org.freedesktop.DBus.Error.UnknownMethod"@[27] == 'U');
    assert("org.freedesktop.DBus.Error.AccessDenied"@[27] == 'A');
    assert("org.freedesktop.DBus.Error.NoReply"@[27] == 'N');
    assert("org.freedesktop.DBus.Error.NoReply"@[28] == 'o');
}

// ---------------------------------------------------------------------------
// Snapshots
// ---------------------------------------------------------------------------

/// What is told of a domain that is not available is one of these words.
pub proof fn what_is_told_of_a_domain()
    ensures
        public_text(CapabilityAvailability::Available) == "producer.available"@,
        public_text(CapabilityAvailability::Unavailable) == "producer.unavailable"@,
        public_text(CapabilityAvailability::Unsupported) == "producer.unsupported"@,
        public_text(CapabilityAvailability::PermissionDenied) == "producer.permission-denied"@,
        public_text(CapabilityAvailability::Timeout) == "producer.timeout"@,
        public_text(CapabilityAvailability::Parse) == "producer.parse-invalid"@,
        public_text(CapabilityAvailability::Error) == "producer.failed"@,
{
}

/// A capability tells the status of its domain, its value exactly when it is available,
/// and a diagnostic exactly when it is not.
pub proof fn what_a_capability_tells<T>(
    capability: DesktopCapability<'_, T>,
    state: DesktopDomainState,
    wrap: spec_fn(T) -> DesktopDomainValue,
)
    requires
        tells(capability, state, wrap),
    ensures
        capability.status == state@.status,
        capability.data is Some <==> state@.status == CapabilityAvailability::Available,
        capability.diagnostic is Some <==> state@.status != CapabilityAvailability::Available,
        capability.data is Some ==> state@.value == Some(wrap(*capability.data->Some_0)),
{
}

/// What is shown of a domain is its own content while it is available.
pub proof fn what_is_shown_of_a_domain<T>(
    shown: Shown<'_, T>,
    state: DesktopDomainState,
    wrap: spec_fn(T) -> DesktopDomainValue,
    fallback: T,
)
    requires
        shows(shown, state, wrap, fallback),
    ensures
        shown.availability.status == state@.status,
        state@.status == CapabilityAvailability::Available ==> state@.value == Some(
            wrap(*shown.content),
        ) && shown.availability.diagnostic is None,
        state@.status != CapabilityAvailability::Available ==> *shown.content == fallback
            && shown.availability.diagnostic is Some,
{
}

/// Whether a domain is there under its own name.
pub open spec fn in_place(
    states: Map<DesktopDomainId, DesktopDomainState>,
    domain: DesktopDomainId,
) -> bool {
    states.contains_key(domain) && states[domain].of() == domain
}

/// An assembly has no fault when every domain is there under its own name.
pub proof fn when_a_snapshot_can_be_assembled(
    states: Map<DesktopDomainId, DesktopDomainState>,
    from: int,
)
    requires
        0 <= from <= DOMAIN_COUNT,
    ensures
        assembly_fault(states, from) is None <==> forall|domain: DesktopDomainId|
            from <= domain.place() ==> #[trigger] in_place(states, domain),
    decreases DOMAIN_COUNT - from,
{
    if from < DOMAIN_COUNT {
        when_a_snapshot_can_be_assembled(states, from + 1);
        let first = DesktopDomainId::at(from);
        assert(first.place() == from);
        if assembly_fault(states, from) is None {
            assert forall|other: DesktopDomainId| from <= other.place() implies
                #[trigger] in_place(states, other) by {
                if other.place() == from {
                    assert(other == first);
                }
            }
        }
        if forall|other: DesktopDomainId|
            from <= other.place() ==> #[trigger] in_place(states, other) {
            assert(in_place(states, first));
            assert forall|other: DesktopDomainId| from + 1 <= other.place() implies
                #[trigger] in_place(states, other) by {}
        }
    } else {
        assert forall|other: DesktopDomainId| from <= other.place() implies
            #[trigger] in_place(states, other) by {}
    }
}

// ---------------------------------------------------------------------------
// The authority, the registry and the running producers
// ---------------------------------------------------------------------------

/// What is published is the report, or that the report was not valid; every other domain
/// stays as it was.
pub proof fn what_a_publication_changes(
    verdicts: spec_fn(Said) -> Verdict,
    before: Said,
    update: StateView,
    other: DesktopDomainId,
)
    requires
        crate::desktop::authority::published(verdicts, before, update) is Ok,
    ensures
        ({
            let after = crate::desktop::authority::published(verdicts, before, update)->Ok_0;
            &&& after.contains_key(update.domain)
            &&& after[update.domain] == update || (after[update.domain].status
                == CapabilityAvailability::Parse && after[update.domain].value is None
                && after[update.domain].reason == Some("producer.contract-invalid"@))
            &&& verdicts(before.insert(update.domain, update)) is Ok ==> after[update.domain]
                == update
            &&& other != update.domain ==> (after.contains_key(other) <==> before.contains_key(
                other,
            ))
            &&& other != update.domain && before.contains_key(other) ==> after[other]
                == before[other]
            &&& verdicts(after) is Ok
        }),
{
}

/// A repeated domain is found exactly where one is repeated.
pub proof fn when_a_domain_is_repeated(domains: Seq<DesktopDomainId>)
    ensures
        first_repeated(domains) is None <==> forall|i: int, j: int|
            0 <= i < j < domains.len() ==> domains[i] != domains[j],
    decreases domains.len(),
{
    if domains.len() > 0 {
        let shorter = domains.drop_last();
        let last = domains.len() - 1;
        when_a_domain_is_repeated(shorter);
        if first_repeated(domains) is None {
            assert forall|i: int, j: int| 0 <= i < j < domains.len() implies domains[i]
                != domains[j] by {
                if j < last {
                    assert(shorter[i] != shorter[j]);
                } else if domains[i] == domains[j] {
                    assert(shorter[i] == domains.last());
                    assert(shorter.contains(domains.last()));
                }
            }
        }
        if forall|i: int, j: int| 0 <= i < j < domains.len() ==> domains[i] != domains[j] {
            assert forall|i: int, j: int| 0 <= i < j < shorter.len() implies shorter[i]
                != shorter[j] by {
                assert(domains[i] != domains[j]);
            }
            if shorter.contains(domains.last()) {
                let i = choose|i: int| 0 <= i < shorter.len() && shorter[i] == domains.last();
                assert(domains[i] != domains[last]);
            }
        }
    }
}

/// A domain is missed exactly when no producer has it.
pub proof fn which_domains_are_missed(
    domains: Seq<DesktopDomainId>,
    place: int,
    domain: DesktopDomainId,
)
    requires
        0 <= place <= DOMAIN_COUNT,
    ensures
        missing_before(domains, place).contains(domain) <==> domain.place() < place
            && !domains.contains(domain),
    decreases place,
{
    if place > 0 {
        let earlier = missing_before(domains, place - 1);
        let all = missing_before(domains, place);
        let one = DesktopDomainId::at(place - 1);
        which_domains_are_missed(domains, place - 1, domain);
        assert(one.place() == place - 1);
        if domain.place() == place - 1 {
            assert(domain == one);
            if !domains.contains(one) {
                assert(all[earlier.len() as int] == one);
            }
        }
        if earlier.contains(domain) {
            let k = choose|k: int| 0 <= k < earlier.len() && earlier[k] == domain;
            assert(all[k] == domain);
        }
        if all.contains(domain) && !earlier.contains(domain) {
            let k = choose|k: int| 0 <= k < all.len() && all[k] == domain;
            if k < earlier.len() {
                assert(earlier[k] == domain);
            }
        }
    }
}

/// Which producer has which domain.
pub proof fn which_producer_has_which_domain(domain: DesktopDomainId)
    ensures
        kind_of(domain) == ProducerKind::Core <==> is_system_domain(domain),
        kind_of(domain) == ProducerKind::Utility <==> is_utility_domain(domain),
        kind_of(domain) == ProducerKind::Daily <==> is_daily_domain(domain),
        kind_of(domain) == ProducerKind::Osd <==> domain == DesktopDomainId::Osd,
        kind_of(domain) == ProducerKind::Logind <==> domain == DesktopDomainId::Lock,
        kind_of(domain) == ProducerKind::Hyprland <==> domain == DesktopDomainId::Hyprland,
        kind_of(domain) == ProducerKind::Notifications <==> domain
            == DesktopDomainId::Notifications,
        kind_of(domain) == ProducerKind::Appearance <==> domain == DesktopDomainId::Appearance,
        kind_of(domain) == ProducerKind::Resources <==> domain == DesktopDomainId::Resources,
        is_daily_domain(domain) <==> domain == DesktopDomainId::Launcher || domain
            == DesktopDomainId::Calendar || domain == DesktopDomainId::Weather,
        is_system_domain(domain) <==> domain == DesktopDomainId::Network || domain
            == DesktopDomainId::Bluetooth || domain == DesktopDomainId::Audio || domain
            == DesktopDomainId::Media || domain == DesktopDomainId::Battery || domain
            == DesktopDomainId::Brightness || domain == DesktopDomainId::NightLight || domain
            == DesktopDomainId::Power,
{
}

/// Places and domains belong together one by one.
pub proof fn domains_have_their_places(domain: DesktopDomainId, place: int)
    ensures
        0 <= domain.place() < 24,
        DesktopDomainId::at(domain.place()) == domain,
        0 <= place < 24 ==> DesktopDomainId::at(place).place() == place,
{
}

/// What is said of a producer that has not reported.
pub proof fn what_is_said_of_a_silent_producer(
    state: DesktopDomainState,
    domain: DesktopDomainId,
    elapsed: bool,
)
    requires
        unreported(state, domain, elapsed),
    ensures
        state@.domain == domain,
        state@.value is None,
        elapsed <==> state@.status == CapabilityAvailability::Timeout,
        !elapsed ==> state@.status == CapabilityAvailability::Error,
{
}

/// What is said of a run that ended.
pub proof fn what_is_said_of_a_run(end: RunEnd)
    ensures
        end is Returned ==> end_reason(end) == "producer.disconnected"@,
        end is Panicked ==> end_reason(end) == "producer.panicked"@,
        end is Aborted ==> end_reason(end) == "producer.worker-failed"@,
        end matches RunEnd::Failed(error) && byte_len(error.message@) <= 1024 ==> end_reason(end)
            == end->Failed_0.message@,
        byte_len(end_reason(end)) <= 1024,
{
    if end is Failed {
        bounded_is_the_longest_beginning(end->Failed_0.message@, 1024);
    }
    reveal_strlit("producer.disconnected");
    reveal_strlit("producer.panicked");
    reveal_strlit("producer.worker-failed");
    crate::notifications::sizes::ascii_size("producer.disconnected"@);
    crate::notifications::sizes::ascii_size("producer.panicked"@);
    crate::notifications::sizes::ascii_size("producer.worker-failed"@);
}

/// How a producer is run: it is awaited, its end is reported, there is a pause, and then
/// it begins again, until the session shuts down.
pub proof fn how_a_producer_is_run(
    domain: DesktopDomainId,
    next_pause: u64,
    phase: LoopPhase,
    event: LoopEvent,
    next: LoopPhase,
    action: LoopAction,
)
    requires
        loop_follows(domain, next_pause, phase, event, next, action),
    ensures
        event matches LoopEvent::Begun(Some(id)) ==> next == LoopPhase::Running(id) && action
            == LoopAction::Await(id),
        event matches LoopEvent::Begun(None) ==> next == LoopPhase::Stopped,
        event matches LoopEvent::Ended { end, cancelled } ==> (cancelled <==> next
            == LoopPhase::Stopped),
        event matches LoopEvent::Ended { end, cancelled } && !cancelled ==> {
            &&& action is Send
            &&& action->Send_0@.domain == domain
            &&& action->Send_0@.status == CapabilityAvailability::Error
        },
        event matches LoopEvent::Sent { taken, elapsed } && taken && elapsed < 10_000 ==> action
            == LoopAction::Pause(next_pause),
        event matches LoopEvent::Sent { taken, elapsed } && taken && elapsed >= 10_000 ==> action
            == LoopAction::Pause(100),
        event matches LoopEvent::Sent { taken, elapsed } && !taken ==> next == LoopPhase::Stopped,
        event matches LoopEvent::Paused { cancelled } ==> (cancelled <==> next
            == LoopPhase::Stopped) && (!cancelled ==> action is Begin),
{
}

/// Only the first failure of a shutdown is told.
pub proof fn the_first_failure_is_told(
    before: Option<SessionError>,
    new: Option<(ErrorKind, Seq<char>)>,
    after: Option<SessionError>,
)
    requires
        first_failure(before, new, after),
    ensures
        before is Some ==> after == before,
        before is None && new is Some ==> after is Some && after->Some_0.kind == new->Some_0.0
            && after->Some_0.message@ == new->Some_0.1,
        before is None && new is None ==> after is None,
{
}

/// What a task of a shutdown that did not end well is reported as.
pub proof fn what_a_shutdown_reports(text: String)
    ensures
        producer_failure(TaskEnd::Finished) is None,
        reaping_failure(TaskEnd::Finished) is None,
        reaping_failure(TaskEnd::TimedOut) is None,
        aggregator_failure(AggregatorEnd::Finished) is None,
        producer_failure(TaskEnd::TimedOut) matches Some(failure) && failure.0
            == ErrorKind::TimedOut,
        aggregator_failure(AggregatorEnd::TimedOut) matches Some(failure) && failure.0
            == ErrorKind::TimedOut,
        producer_failure(TaskEnd::Failed(text)) matches Some(failure) && failure.0
            == ErrorKind::Other && ends_with(failure.1, text@),
        reaping_failure(TaskEnd::Failed(text)) matches Some(failure) && failure.0
            == ErrorKind::Other && ends_with(failure.1, text@),
        aggregator_failure(AggregatorEnd::Failed(text)) matches Some(failure) && failure.0
            == ErrorKind::Other && ends_with(failure.1, text@),
{
    let one = "desktop producer task failed: "@ + text@;
    let two = "desktop producer task failed while draining: "@ + text@;
    let three = "desktop producer aggregator failed: "@ + text@;
    assert(one.skip(one.len() - text@.len()) =~= text@);
    assert(two.skip(two.len() - text@.len()) =~= text@);
    assert(three.skip(three.len() - text@.len()) =~= text@);
}

/// What a frame may hold.
pub proof fn what_a_frame_may_hold(encoded: Seq<char>, value: Json)
    ensures
        budget_fault(encoded, Ok(value)) is None ==> {
            &&& byte_len(encoded) <= 917_504
            &&& item_total(value) <= 20_000
            &&& text_total(value) <= 786_432
        },
        byte_len(encoded) > 917_504 ==> budget_fault(encoded, Ok(value)) == Some(
            (ErrorKind::InvalidData, "desktop.frame-too-large"@),
        ),
        byte_len(encoded) <= 917_504 && (value is Null || value is Bool || value is Number)
            ==> budget_fault(encoded, Ok(value)) is None,
{
    if budget_fault(encoded, Ok(value)) is None {
        accepted_frames_are_within_budget(encoded, value);
    }
}

// ---------------------------------------------------------------------------
// What follows from a call
// ---------------------------------------------------------------------------

/// A capture that succeeded was taken by the helper, into a file below the directory.
pub proof fn a_capture_was_taken(
    runs: Runs,
    output_id: StableId,
    name: Seq<char>,
    root: Seq<u8>,
    id: u128,
    end: Result<(), Fault>,
)
    requires
        captured_below(runs, UtilityCommand::Screenshot { output_id }, root, id, end),
        end is Ok,
        output_in(output_id.0@) == Ok::<Seq<char>, Fault>(name),
    ensures
        ({
            let file = joined(
                root,
                encode_utf8("screenshot"@ + seq!['-'] + uuid_hyphenated(id) + seq!['.'] + "png"@),
            );
            succeeded(
                runs,
                CommandView {
                    program: "sleepy-capture-helper"@,
                    args: seq![
                        "screenshot"@,
                        "--interactive-consent"@,
                        "--output-id"@,
                        name,
                        "--output-path"@,
                        decode_utf8(file),
                    ],
                    timeout: None,
                },
            )
        }),
{
    let file = joined(
        root,
        encode_utf8("screenshot"@ + seq!['-'] + uuid_hyphenated(id) + seq!['.'] + "png"@),
    );
    let path = decode_utf8(file);
    let line = screenshot_line(name, path);
    let outcome = choose|outcome: Result<Seq<u8>, Fault>| #[trigger]
        came_of(runs, line, outcome) && match outcome {
            Ok(output) => end == Ok::<(), Fault>(()),
            Err(fault) => end == Err::<(), Fault>(fault),
        };
    assert(came_of(runs, line, Ok::<Seq<u8>, Fault>(outcome->Ok_0)));
}

/// A recorder writes to the file that it is named, with the sound exactly when asked.
pub proof fn a_recorder_writes_where_it_is_told(
    root: Seq<u8>,
    name: Seq<char>,
    output_id: Seq<char>,
    audio: bool,
)
    requires
        recorder_line(root, name, output_id, audio) is Ok,
    ensures
        ({
            let line = recorder_line(root, name, output_id, audio)->Ok_0;
            &&& line.program == "sleepy-capture-helper"@
            &&& line.args[0] == "record"@
            &&& Ok::<Seq<char>, Fault>(line.args[3]) == output_in(output_id)
            &&& line.args[5] == decode_utf8(joined(root, encode_utf8(name)))
            &&& audio ==> line.args.len() == 9 && line.args[6] == "--audio"@
            &&& !audio ==> line.args.len() == 8 && line.args[6] == "--status-fd"@
        }),
{
}

/// A program can be run when it is a regular file that someone may execute.
pub proof fn which_programs_can_be_run(files: Seq<ProgramFile>, i: int)
    ensures
        0 <= i < files.len() && files[i].regular && files[i].mode & 0o111 != 0 ==> some_runnable(
            files,
        ),
        some_runnable(files) ==> files.len() > 0,
        files.len() == 1 && !files[0].regular ==> !some_runnable(files),
        files.len() == 1 && files[0].mode & 0o111 == 0 ==> !some_runnable(files),
{
    if 0 <= i < files.len() && files[i].regular && files[i].mode & 0o111 != 0 {
        assert(is_runnable(files[i]));
    }
}

/// The endpoint of the locker is trusted only when the path to it was looked at from the
/// top: the user's runtime directory, the private one below it, and the socket in it.
pub proof fn when_the_locker_is_trusted(
    socket: Seq<u8>,
    runtime: Seq<u8>,
    uid: u32,
    looks: Looks,
    verdict: Result<(), Fault>,
)
    requires
        trusted_socket(socket, runtime, uid, looks, verdict),
        verdict is Ok,
    ensures
        is_clean(runtime),
        is_clean(socket),
        exists|facts: FileFacts|
            {
                &&& #[trigger] looks(runtime, Ok::<FileFacts, Fault>(facts))
                &&& facts.kind == FileKind::Directory
                &&& facts.uid == uid
            },
        exists|facts: FileFacts|
            {
                &&& #[trigger] looks(
                    joined(runtime, session_directory()),
                    Ok::<FileFacts, Fault>(facts),
                )
                &&& facts.kind == FileKind::Directory
                &&& facts.uid == uid
                &&& facts.mode & 0o777 == 0o700
            },
        exists|facts: FileFacts|
            {
                &&& #[trigger] looks(socket, Ok::<FileFacts, Fault>(facts))
                &&& facts.kind == FileKind::Socket
                &&& facts.uid == uid
                &&& facts.mode & 0o777 == 0o600
            },
        is_entry_of(socket, joined(runtime, session_directory())),
{
    let directory = joined(runtime, session_directory());
    let first = choose|found: Result<FileFacts, Fault>| #[trigger]
        looks(runtime, found) && match owned_directory(found, uid, None) {
            Err(fault) => verdict == Err::<(), Fault>(fault),
            Ok(()) => trusted_below(socket, directory, uid, looks, verdict),
        };
    assert(looks(runtime, Ok::<FileFacts, Fault>(first->Ok_0)));
    let second = choose|found: Result<FileFacts, Fault>| #[trigger]
        looks(directory, found) && match owned_directory(found, uid, Some(0o700)) {
            Err(fault) => verdict == Err::<(), Fault>(fault),
            Ok(()) => if !is_entry_of(socket, directory) {
                verdict == Err::<(), Fault>(
                    (
                        ErrorKind::PermissionDenied,
                        "locker endpoint is outside the protected runtime directory"@,
                    ),
                )
            } else {
                exists|last: Result<FileFacts, Fault>| #[trigger]
                    looks(socket, last) && verdict == owned_socket(last, uid)
            },
        };
    assert(looks(directory, Ok::<FileFacts, Fault>(second->Ok_0)));
    let last = choose|last: Result<FileFacts, Fault>| #[trigger]
        looks(socket, last) && verdict == owned_socket(last, uid);
    assert(looks(socket, Ok::<FileFacts, Fault>(last->Ok_0)));
}

/// A path is clean when it is absolute, without a step upwards and without a null byte.
pub proof fn which_paths_are_clean(path: Seq<u8>, i: int)
    requires
        is_clean(path),
    ensures
        path.len() > 0,
        path[0] == 0x2f,
        0 <= i < path.len() ==> path[i] != 0,
        0 <= i < components(path).len() ==> components(path)[i] != seq![0x2eu8, 0x2eu8],
{
    if 0 <= i < path.len() {
        assert(path.contains(path[i]));
    }
    if 0 <= i < components(path).len() {
        assert(components(path).contains(components(path)[i]));
    }
}

/// A suspended machine has slept and woken: the one was waited for without a limit, the
/// other up to the limit from then on.
pub proof fn a_suspended_machine_has_woken<
    F: Fn(bool, Option<u64>) -> Result<(), SessionError>,
    C: FnOnce() -> u64,
>(
    transitions: SuspendTransitionWait<F>,
    clock: C,
    result: Result<(), SessionError>,
)
    requires
        slept(transitions, clock, result),
        result is Ok,
    ensures
        exists|first: Result<(), SessionError>| #[trigger]
            call_ensures(transitions.wait, (true, None::<u64>), first) && first is Ok,
        exists|now: u64| #[trigger]
            call_ensures(clock, (), now) && call_ensures(
                transitions.wait,
                (false, Some((now + transitions.resume_timeout) as u64)),
                result,
            ),
{
}

/// A publication goes on unless it was cancelled or its time is over.
pub proof fn when_a_publication_goes_on(control: PublicationControl, error: SessionError)
    ensures
        goes_on(Some(control)) <==> !control.cancelled && control.time_left,
        goes_on(None),
        given_up(Some(control), error) ==> !goes_on(Some(control)),
        given_up(Some(control), error) && control.cancelled ==> error.kind
            == ErrorKind::Interrupted,
        given_up(Some(control), error) && !control.cancelled ==> error.kind == ErrorKind::TimedOut,
        !given_up(None, error),
{
}

/// A report takes the place of its own domain, or a failure does; nothing else changes.
pub proof fn what_a_report_changes(
    before: Map<DesktopDomainId, DesktopDomainState>,
    report: DesktopDomainState,
    after: Map<DesktopDomainId, DesktopDomainState>,
    other: DesktopDomainId,
)
    requires
        DesktopStateAuthority::takes_in(before, report, after),
    ensures
        after.contains_key(report@.domain),
        after[report@.domain]@.domain == report@.domain,
        after[report@.domain] == report || after[report@.domain]@.value is None,
        other != report@.domain ==> (after.contains_key(other) <==> before.contains_key(other)),
        other != report@.domain && before.contains_key(other) ==> after[other] == before[other],
{
}

/// What the compositor left is its snapshot, or that it is gone.
pub proof fn what_the_compositor_left(state: DesktopDomainState, execution: CompositorExecution)
    requires
        is_state_after(state, execution),
    ensures
        state@.domain == DesktopDomainId::Hyprland,
        execution matches CompositorExecution::Snapshot(snapshot) ==> state@.value == Some(
            DesktopDomainValue::Hyprland(snapshot),
        ) && state@.status == CapabilityAvailability::Available,
        execution is Exited ==> state@.value is None && state@.status
            == CapabilityAvailability::Unavailable,
{
}

/// What is shown on the screen is what is visible, and something shows exactly when there
/// is something.
pub proof fn what_shows_on_the_screen(state: DesktopDomainState, visible: Seq<OsdEvent>)
    requires
        shows_events(state, visible),
    ensures
        state@.domain == DesktopDomainId::Osd,
        state@.value matches Some(DesktopDomainValue::Osd(osd)) && osd.history@ == visible && (
        osd.showing <==> visible.len() > 0),
{
}

/// A value that is available is reported as it is.
pub proof fn what_is_available_is_reported(state: DesktopDomainState, value: DesktopDomainValue)
    requires
        available_as_value(state, value),
    ensures
        state@.value == Some(value),
        state@.status == CapabilityAvailability::Available,
        state@.domain == domain_of(value),
        state@.reason is None,
{
}

/// A failure is reported with its status and its reason, and without a value.
pub proof fn what_failed_is_reported(
    state: DesktopDomainState,
    domain: DesktopDomainId,
    status: CapabilityAvailability,
    reason: Seq<char>,
)
    requires
        failed_as(state, domain, status, reason),
    ensures
        state@.domain == domain,
        state@.status == status,
        state@.value is None,
        state@.reason == Some(reason),
{
}

/// A list of domains is told by their names, with commas between them.
pub proof fn how_domains_are_listed(domains: Seq<DesktopDomainId>, domain: DesktopDomainId)
    ensures
        title_list(seq![domain]) == domain.title(),
        domains.len() > 0 ==> title_list(domains.push(domain)) == title_list(domains) + ", "@
            + domain.title(),
        title_list(Seq::empty()) == Seq::<char>::empty(),
{
    if domains.len() > 0 {
        assert(domains.push(domain).drop_last() =~= domains);
    }
}

/// The part of a snapshot that a domain is told by is its own.
pub proof fn which_part_a_domain_is_told_by(
    update: DomainUpdate<'_, '_>,
    snapshot: DesktopSnapshot<'_>,
    domain: DesktopDomainId,
)
    requires
        is_part(update, domain, snapshot),
    ensures
        update is Network <==> domain == DesktopDomainId::Network,
        update is Bluetooth <==> domain == DesktopDomainId::Bluetooth,
        update is Audio <==> domain == DesktopDomainId::Audio,
        update is Media <==> domain == DesktopDomainId::Media,
        update is Battery <==> domain == DesktopDomainId::Battery,
        update is Brightness <==> domain == DesktopDomainId::Brightness,
        update is NightLight <==> domain == DesktopDomainId::NightLight,
        update is Power <==> domain == DesktopDomainId::Power,
        update is Osd <==> domain == DesktopDomainId::Osd,
        update is Lock <==> domain == DesktopDomainId::Lock,
        update is Hyprland <==> domain == DesktopDomainId::Hyprland,
        update is Tray <==> domain == DesktopDomainId::Tray,
        update is Clipboard <==> domain == DesktopDomainId::Clipboard,
        update is Recording <==> domain == DesktopDomainId::Recording,
        update is IdleInhibit <==> domain == DesktopDomainId::IdleInhibit,
        update is GameMode <==> domain == DesktopDomainId::GameMode,
        update is Notifications <==> domain == DesktopDomainId::Notifications,
        update is Launcher <==> domain == DesktopDomainId::Launcher,
        update is Calendar <==> domain == DesktopDomainId::Calendar,
        update is Weather <==> domain == DesktopDomainId::Weather,
        update is Appearance <==> domain == DesktopDomainId::Appearance,
        update is Resources <==> domain == DesktopDomainId::Resources,
        update is Screenshot <==> domain == DesktopDomainId::Screenshot,
        update is ColorPicker <==> domain == DesktopDomainId::ColorPicker,
        update matches DomainUpdate::IdleInhibit(part) ==> *part
            == snapshot.utilities.idle_inhibited,
        update matches DomainUpdate::GameMode(part) ==> *part == snapshot.utilities.game_mode,
        update matches DomainUpdate::Screenshot(part) ==> *part == snapshot.utilities.screenshot,
        update matches DomainUpdate::ColorPicker(part) ==> *part
            == snapshot.utilities.color_picker,
{
}

/// What a conclusion says: it failed exactly when there was a failure, and says which.
pub proof fn what_a_conclusion_says(conclusion: Conclusion, failure: Option<Seq<char>>)
    requires
        concludes(conclusion, failure),
    ensures
        conclusion.status == DesktopResultStatus::Failed <==> failure is Some,
        conclusion.status == DesktopResultStatus::Succeeded <==> failure is None,
        optional_text(conclusion.diagnostic) == failure,
{
}

/// What localizing keeps is what it came to.
pub proof fn what_localizing_keeps(
    result: Result<DomainStates, SessionError>,
    expected: Result<Said, (ErrorKind, Seq<char>)>,
)
    requires
        keeps(result, expected),
    ensures
        result is Ok <==> expected is Ok,
        result is Ok ==> result->Ok_0.said() == expected->Ok_0,
        result is Err ==> result->Err_0.kind == expected->Err_0.0 && result->Err_0.message@
            == expected->Err_0.1,
{
}

/// A probe of the tray goes on while it has time and was not cancelled.
pub proof fn when_a_probe_of_the_tray_goes_on(state: RunState)
    ensures
        still_active(None) is Ok,
        still_active(Some(state)) is Ok <==> !state.cancelled && state.remaining > 0,
        state.cancelled ==> still_active(Some(state))->Err_0.0 == ErrorKind::Interrupted,
{
}

/// A secret that was erased is gone.
pub proof fn an_erased_secret_is_gone(before: LockedSecret, after: LockedSecret)
    requires
        erased(before, after),
    ensures
        after@.len() == 0,
        after.frame().len() == 0,
        after.observer() is None,
        before.observer() matches Some(observer) ==> observer.was_told(Seq::<u8>::empty()),
{
}

/// What is written for the records of requests is all of them, under the known version.
pub proof fn what_is_written_of_requests(records: Seq<crate::desktop::dedupe::RecordView>)
    ensures
        document_of(records).schema_version == 1,
        document_of(records).records == records,
{
}

// ---------------------------------------------------------------------------
// What names may hold
// ---------------------------------------------------------------------------

/// Whether a character is a letter or a digit of the plain alphabet.
pub open spec fn is_plain(c: char) -> bool {
    ('a' <= c && c <= 'z') || ('A' <= c && c <= 'Z') || ('0' <= c && c <= '9')
}

/// What each kind of name may hold, and nothing else.
pub proof fn what_names_may_hold(c: char)
    ensures
        is_output_char(c) <==> is_plain(c) || c == '-' || c == '_' || c == '.',
        is_recording_char(c) <==> is_plain(c) || c == '_' || c == '-' || c == '.',
        is_component_char(c) <==> is_plain(c) || c == '_' || c == '-',
        is_path_char(c) <==> is_plain(c) || c == '/' || c == '_',
        is_bus_char(c) <==> is_plain(c) || c == '.' || c == '_' || c == '-',
        is_ascii_alphanumeric(c) <==> is_plain(c),
        is_hex_digit(c) <==> ('0' <= c && c <= '9') || ('a' <= c && c <= 'f') || ('A' <= c && c
            <= 'F'),
        is_control(c) <==> (c as u32) < 0x20 || (0x7f <= (c as u32) && (c as u32) < 0xa0),
{
}

/// A name that is made of what it may hold is accepted, up to its longest.
pub proof fn which_names_are_accepted(name: Seq<char>, i: int)
    requires
        name.len() > 0,
        forall|k: int| 0 <= k < name.len() ==> is_plain(#[trigger] name[k]),
    ensures
        is_output_name(name) <==> byte_len(name) <= 128,
        is_component(name),
        is_object_path(seq!['/'] + name),
        !is_component(seq!['-'] + name),
        !is_component(Seq::empty()),
        !is_object_path(name),
        !is_object_path(Seq::empty()),
{
    assert(is_plain(name[0]));
    let path = seq!['/'] + name;
    reveal_strlit("//");
    assert forall|k: int| 0 <= k < path.len() implies is_path_char(#[trigger] path[k]) by {
        if k > 0 {
            assert(is_plain(name[k - 1]));
        }
    }
    assert forall|at: int| 0 <= at <= path.len() implies !starts_with(
        #[trigger] path.skip(at),
        "//"@,
    ) by {
        if starts_with(path.skip(at), "//"@) {
            assert(path.skip(at).take(2)[1] == '/');
            assert(path[at + 1] == '/');
            assert(is_plain(name[at]));
        }
    }
    assert((seq!['-'] + name)[0] == '-');
}

/// An address of a device: six pairs of digits with colons between them.
pub proof fn which_addresses_are_known(s: Seq<char>)
    requires
        s.len() == 17,
    ensures
        is_mac(s) <==> {
            &&& is_hex_digit(s[0]) && is_hex_digit(s[1]) && s[2] == ':'
            &&& is_hex_digit(s[3]) && is_hex_digit(s[4]) && s[5] == ':'
            &&& is_hex_digit(s[6]) && is_hex_digit(s[7]) && s[8] == ':'
            &&& is_hex_digit(s[9]) && is_hex_digit(s[10]) && s[11] == ':'
            &&& is_hex_digit(s[12]) && is_hex_digit(s[13]) && s[14] == ':'
            &&& is_hex_digit(s[15]) && is_hex_digit(s[16])
        },
        !is_mac(s.skip(1)),
        !is_mac(s.push('0')),
{
    let all = {
        &&& is_hex_digit(s[0]) && is_hex_digit(s[1]) && s[2] == ':'
        &&& is_hex_digit(s[3]) && is_hex_digit(s[4]) && s[5] == ':'
        &&& is_hex_digit(s[6]) && is_hex_digit(s[7]) && s[8] == ':'
        &&& is_hex_digit(s[9]) && is_hex_digit(s[10]) && s[11] == ':'
        &&& is_hex_digit(s[12]) && is_hex_digit(s[13]) && s[14] == ':'
        &&& is_hex_digit(s[15]) && is_hex_digit(s[16])
    };
    if all {
        assert(is_mac(s));
    }
    if is_mac(s) {
        assert(is_hex_digit(s[0]) && is_hex_digit(s[1]) && s[2] == ':');
        assert(is_hex_digit(s[3]) && is_hex_digit(s[4]) && s[5] == ':');
        assert(is_hex_digit(s[6]) && is_hex_digit(s[7]) && s[8] == ':');
        assert(is_hex_digit(s[9]) && is_hex_digit(s[10]) && s[11] == ':');
        assert(is_hex_digit(s[12]) && is_hex_digit(s[13]) && s[14] == ':');
        assert(is_hex_digit(s[15]) && is_hex_digit(s[16]));
    }
}

/// A capture of nothing that can be captured is refused.
pub proof fn what_cannot_be_captured(
    runs: Runs,
    command: UtilityCommand,
    path: Seq<char>,
    end: Result<(), Fault>,
)
    requires
        captured_by(runs, command, path, end),
        !(command is PickColor || command is Screenshot || command is StartRecording),
    ensures
        end == Err::<(), Fault>((ErrorKind::Unsupported, "capture command required"@)),
{
}

/// Of two that are equally large, the later domain is dropped first.
pub proof fn which_of_two_equals_is_dropped(
    bytes: usize,
    one: DesktopDomainId,
    other: DesktopDomainId,
    more: usize,
)
    ensures
        heavier(
            Contribution { bytes, domain: one },
            Contribution { bytes, domain: other },
        ) <==> one.place() > other.place(),
        more > bytes ==> heavier(
            Contribution { bytes: more, domain: one },
            Contribution { bytes, domain: other },
        ) && !heavier(
            Contribution { bytes, domain: other },
            Contribution { bytes: more, domain: one },
        ),
{
}

/// A response of the right length uses up the challenge, whatever it holds; another leaves
/// it as it is.
pub proof fn when_a_challenge_is_used_up(challenge: ChallengeView, response: Seq<u8>)
    ensures
        challenge_after(Some(challenge), response) is None <==> 16 < response.len() <= 65_536,
        response.len() <= 16 || response.len() > 65_536 ==> challenge_after(
            Some(challenge),
            response,
        ) == Some(challenge),
{
}

/// A player that was steered is the one that was named, and what was asked of it was done.
pub proof fn a_steered_player_was_asked(
    changes: Runs,
    runs: Runs,
    meter: Meter,
    id: Seq<char>,
    transport: MediaTransport,
    before: ObservationView,
    result: Result<MediaView, Fault>,
)
    requires
        steered_by(changes, runs, meter, id, transport, before, result),
        result is Ok,
    ensures
        exists|after: ObservationView|
            #[trigger] crate::desktop::media::confirmation(before, after, id, transport) == result,
{
}

/// How long an answer of the locker is read: one byte longer than the longest that counts.
pub proof fn how_long_an_answer_is_read()
    ensures
        reply_bound(LockerRequest::Lock) == 8,
        reply_bound(LockerRequest::Suspend) == 8,
        reply_bound(LockerRequest::Status) == 10,
{
}

/// A machine that did not prepare to sleep is not waited for to wake.
pub proof fn a_failed_preparation_ends_the_wait<
    F: Fn(bool, Option<u64>) -> Result<(), SessionError>,
    C: FnOnce() -> u64,
>(
    transitions: SuspendTransitionWait<F>,
    clock: C,
    result: Result<(), SessionError>,
)
    requires
        slept(transitions, clock, result),
        forall|first: Result<(), SessionError>| #[trigger]
            call_ensures(transitions.wait, (true, None::<u64>), first) ==> first is Err,
    ensures
        result is Err,
        call_ensures(transitions.wait, (true, None::<u64>), result),
{
}

/// A menu is shown under the title of its item: its root can be activated, and so can an
/// item without a menu.
pub proof fn how_menus_begin(
    path: Seq<char>,
    children: Seq<BusValue>,
    hash: u64,
    title: Seq<char>,
)
    ensures
        layout_parts(path, children, hash, title) matches Ok(parts) ==> {
            &&& parts.0.id == root_identifier(hash)
            &&& parts.0.label == title
            &&& parts.0.enabled
            &&& parts.1.contains_key(root_identifier(hash))
            &&& parts.1[root_identifier(hash)] == ActionView::Activate
        },
        fallback_parts(hash, title).0.id == activate_identifier(hash),
        fallback_parts(hash, title).0.label == title,
        fallback_parts(hash, title).0.enabled,
        fallback_parts(hash, title).0.children.len() == 0,
        fallback_parts(hash, title).1.contains_key(activate_identifier(hash)),
        fallback_parts(hash, title).1[activate_identifier(hash)] == ActionView::Activate,
{
}

/// The name of a service is made of components, between its dots.
pub proof fn what_services_are_made_of(s: Seq<char>, i: int)
    requires
        is_service_name(s),
        0 <= i < split(without_colons(s), '.').len(),
    ensures
        split(without_colons(s), '.')[i].len() > 0,
        split(without_colons(s), '.')[i][0] != '-',
{
    assert(is_component(split(without_colons(s), '.')[i]));
}

/// Which identifiers of themes and wallpapers are accepted.
pub proof fn which_appearances_are_accepted(s: Seq<char>, i: int)
    ensures
        is_identifier(s) ==> {
            &&& s.len() > 0
            &&& byte_len(s) <= 256
            &&& trim(s) == s
            &&& 0 <= i < s.len() ==> !is_control(s[i])
        },
        s.len() > 0 && byte_len(s) <= 256 && trim(s) == s && (forall|k: int|
            0 <= k < s.len() ==> !is_control(#[trigger] s[k])) ==> is_identifier(s),
{
}

/// Which of the host's numbers are consistent.
pub proof fn which_memories_are_consistent(
    stat: Seq<char>,
    meminfo: Seq<char>,
    loadavg: Seq<char>,
    reader: Reader,
    total: u64,
    available: u64,
)
    requires
        counters_in(stat) is Ok,
        memory_in(meminfo, "MemTotal:"@) == Ok::<u64, Fault>(total),
        memory_in(meminfo, "MemAvailable:"@) == Ok::<u64, Fault>(available),
        load_in(loadavg, reader) is Ok,
    ensures
        resources_in(stat, meminfo, loadavg, reader) is Ok <==> total > 0 && available <= total,
{
}

/// A value belongs to the domain of its name.
pub proof fn values_belong_to_their_domains(value: DesktopDomainValue)
    ensures
        value is Network <==> domain_of(value) == DesktopDomainId::Network,
        value is Bluetooth <==> domain_of(value) == DesktopDomainId::Bluetooth,
        value is Audio <==> domain_of(value) == DesktopDomainId::Audio,
        value is Media <==> domain_of(value) == DesktopDomainId::Media,
        value is Battery <==> domain_of(value) == DesktopDomainId::Battery,
        value is Brightness <==> domain_of(value) == DesktopDomainId::Brightness,
        value is NightLight <==> domain_of(value) == DesktopDomainId::NightLight,
        value is Power <==> domain_of(value) == DesktopDomainId::Power,
        value is Osd <==> domain_of(value) == DesktopDomainId::Osd,
        value is Lock <==> domain_of(value) == DesktopDomainId::Lock,
        value is Hyprland <==> domain_of(value) == DesktopDomainId::Hyprland,
        value is Notifications <==> domain_of(value) == DesktopDomainId::Notifications,
        value is Launcher <==> domain_of(value) == DesktopDomainId::Launcher,
        value is Calendar <==> domain_of(value) == DesktopDomainId::Calendar,
        value is Weather <==> domain_of(value) == DesktopDomainId::Weather,
        value is Appearance <==> domain_of(value) == DesktopDomainId::Appearance,
        value is Resources <==> domain_of(value) == DesktopDomainId::Resources,
        value is Tray <==> domain_of(value) == DesktopDomainId::Tray,
        value is Clipboard <==> domain_of(value) == DesktopDomainId::Clipboard,
        value is Recording <==> domain_of(value) == DesktopDomainId::Recording,
        value is IdleInhibit <==> domain_of(value) == DesktopDomainId::IdleInhibit,
        value is GameMode <==> domain_of(value) == DesktopDomainId::GameMode,
        value is Screenshot <==> domain_of(value) == DesktopDomainId::Screenshot,
        value is ColorPicker <==> domain_of(value) == DesktopDomainId::ColorPicker,
{
}

/// Domains are called by their names.
pub proof fn domains_are_called_by_their_names()
    ensures
        DesktopDomainId::Network.title() == "Network"@,
        DesktopDomainId::Bluetooth.title() == "Bluetooth"@,
        DesktopDomainId::Audio.title() == "Audio"@,
        DesktopDomainId::Media.title() == "Media"@,
        DesktopDomainId::Battery.title() == "Battery"@,
        DesktopDomainId::Brightness.title() == "Brightness"@,
        DesktopDomainId::NightLight.title() == "NightLight"@,
        DesktopDomainId::Power.title() == "Power"@,
        DesktopDomainId::Osd.title() == "Osd"@,
        DesktopDomainId::Lock.title() == "Lock"@,
        DesktopDomainId::Hyprland.title() == "Hyprland"@,
        DesktopDomainId::Notifications.title() == "Notifications"@,
        DesktopDomainId::Launcher.title() == "Launcher"@,
        DesktopDomainId::Calendar.title() == "Calendar"@,
        DesktopDomainId::Weather.title() == "Weather"@,
        DesktopDomainId::Appearance.title() == "Appearance"@,
        DesktopDomainId::Resources.title() == "Resources"@,
        DesktopDomainId::Tray.title() == "Tray"@,
        DesktopDomainId::Clipboard.title() == "Clipboard"@,
        DesktopDomainId::Recording.title() == "Recording"@,
        DesktopDomainId::IdleInhibit.title() == "IdleInhibit"@,
        DesktopDomainId::GameMode.title() == "GameMode"@,
        DesktopDomainId::Screenshot.title() == "Screenshot"@,
        DesktopDomainId::ColorPicker.title() == "ColorPicker"@,
{
}

/// The identifier of an item comes of its service and its path, byte by byte, with a null
/// byte between them.
pub proof fn what_the_identifier_of_an_item_comes_of(
    service: Seq<char>,
    path: Seq<char>,
    start: u64,
    bytes: Seq<u8>,
    byte: u8,
)
    ensures
        hashed(start, Seq::empty()) == start,
        hashed(start, bytes.push(byte)) == (hashed(start, bytes) ^ (byte as u64)).wrapping_mul(
            1_099_511_628_211,
        ),
        item_hash(service, path) == hashed(
            14_695_981_039_346_656_037,
            encode_utf8(service) + seq![0u8] + encode_utf8(path),
        ),
{
    assert(bytes.push(byte).drop_last() =~= bytes);
}

} // verus!
