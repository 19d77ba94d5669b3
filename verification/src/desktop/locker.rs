//! The lock of the session and what suspends or ends it.
//!
//! Times are milliseconds of a clock that never goes back.

use vstd::prelude::*;

use crate::command::RunState;
use crate::desktop::commands::DesktopSessionCommand;
use crate::desktop::domain::{
    CapabilityAvailability, DesktopDomainId, DesktopDomainState, DesktopDomainValue, LockState,
};
use crate::desktop::registry::failed_as;
use crate::desktop::utilities::{
    availability_of, ensure_run_active, failed_state, reason_or_fixed, run_active, terminal,
};
use crate::error::{
    error_is, fails_with, fault_of, invalid, malformed, seen, told, ErrorKind, Fault, SessionError,
};
use crate::paths::{clean_absolute, entry_of, is_clean, is_entry_of, join_path, joined, same_name};
use crate::text::{chars_of, contains_char};

verus! {

/// How long an action of the session may take.
pub const LOGIND_ACTION_TIMEOUT: u64 = 30_000;

/// How long reading the state of the lock may take.
pub const LOGIND_STATE_TIMEOUT: u64 = 1_750;

/// How long the locker may take to acknowledge.
pub const LOCKER_ACK_TIMEOUT: u64 = 5_000;

/// How long the bus is served at a time while a transition is waited for.
pub const TRANSITION_SLICE: u64 = 100;

// ---------------------------------------------------------------------------
// The protocol of the locker
// ---------------------------------------------------------------------------

/// `locked` and the end of a line.
pub open spec fn locked_line() -> Seq<u8> {
    seq![0x6c, 0x6f, 0x63, 0x6b, 0x65, 0x64, 0x0a]
}

/// `unlocked` and the end of a line.
pub open spec fn unlocked_line() -> Seq<u8> {
    seq![0x75, 0x6e, 0x6c, 0x6f, 0x63, 0x6b, 0x65, 0x64, 0x0a]
}

fn is_locked_line(reply: &[u8]) -> (is: bool)
    ensures
        is == (reply@ == locked_line()),
{
    let line: Vec<u8> = vec![0x6c, 0x6f, 0x63, 0x6b, 0x65, 0x64, 0x0a];
    assert(line@ =~= locked_line());
    same_name(reply, line.as_slice())
}

fn is_unlocked_line(reply: &[u8]) -> (is: bool)
    ensures
        is == (reply@ == unlocked_line()),
{
    let line: Vec<u8> = vec![0x75, 0x6e, 0x6c, 0x6f, 0x63, 0x6b, 0x65, 0x64, 0x0a];
    assert(line@ =~= unlocked_line());
    same_name(reply, line.as_slice())
}

/// What the locker is asked.
#[derive(Debug, Clone, Copy, PartialEq, Eq, Structural)]
pub enum LockerRequest {
    Lock,
    Status,
    Suspend,
}

pub open spec fn request_line(request: LockerRequest) -> Seq<u8> {
    match request {
        LockerRequest::Lock => seq![0x6c, 0x6f, 0x63, 0x6b, 0x0a],
        LockerRequest::Status => seq![0x73, 0x74, 0x61, 0x74, 0x75, 0x73, 0x0a],
        LockerRequest::Suspend => seq![0x73, 0x75, 0x73, 0x70, 0x65, 0x6e, 0x64, 0x0a],
    }
}

/// How many bytes of a reply are read. It is one more than the longest reply
/// that is accepted, so that a longer one is told apart.
pub open spec fn reply_bound(request: LockerRequest) -> int {
    match request {
        LockerRequest::Lock => locked_line().len() as int + 1,
        LockerRequest::Status => unlocked_line().len() as int + 1,
        LockerRequest::Suspend => locked_line().len() as int + 1,
    }
}

impl LockerRequest {
    /// What is sent.
    pub fn bytes(self) -> (bytes: Vec<u8>)
        ensures
            bytes@ == request_line(self),
    {
        let bytes: Vec<u8> = match self {
            LockerRequest::Lock => vec![0x6c, 0x6f, 0x63, 0x6b, 0x0a],
            LockerRequest::Status => vec![0x73, 0x74, 0x61, 0x74, 0x75, 0x73, 0x0a],
            LockerRequest::Suspend => vec![0x73, 0x75, 0x73, 0x70, 0x65, 0x6e, 0x64, 0x0a],
        };
        assert(bytes@ =~= request_line(self));
        bytes
    }

    pub fn reply_limit(self) -> (limit: u64)
        ensures
            limit == reply_bound(self),
    {
        match self {
            LockerRequest::Lock => 8,
            LockerRequest::Status => 10,
            LockerRequest::Suspend => 8,
        }
    }
}

/// Accepts nothing but the line by which the locker says that it has locked.
pub fn check_lock_reply(reply: &[u8]) -> (checked: Result<(), SessionError>)
    ensures
        told(checked) == if reply@ == locked_line() {
            Ok(())
        } else {
            malformed("locker returned an invalid secure-lock acknowledgement"@)
        },
{
    if !is_locked_line(reply) {
        return invalid("locker returned an invalid secure-lock acknowledgement");
    }
    Ok(())
}

#[derive(Debug, Clone, Copy, PartialEq, Eq, Structural)]
pub enum LockerStatus {
    Locked,
    Unlocked,
}

/// What the locker says of itself.
pub open spec fn status_in(reply: Seq<u8>) -> Result<LockerStatus, Fault> {
    if reply == locked_line() {
        Ok(LockerStatus::Locked)
    } else if reply == unlocked_line() {
        Ok(LockerStatus::Unlocked)
    } else {
        malformed("locker returned an invalid status acknowledgement"@)
    }
}

/// What a status or a failure says.
pub open spec fn status_seen(status: Result<LockerStatus, SessionError>) -> Result<
    LockerStatus,
    Fault,
> {
    match status {
        Ok(status) => Ok(status),
        Err(error) => Err(fault_of(error)),
    }
}

pub fn locker_status(reply: &[u8]) -> (status: Result<LockerStatus, SessionError>)
    ensures
        status_seen(status) == status_in(reply@),
{
    if is_locked_line(reply) {
        return Ok(LockerStatus::Locked);
    }
    if is_unlocked_line(reply) {
        return Ok(LockerStatus::Unlocked);
    }
    invalid("locker returned an invalid status acknowledgement")
}

/// Accepts a hold on the lock that the locker has acknowledged and still keeps.
pub fn check_suspend_reply(reply: &[u8], hung_up: bool) -> (checked: Result<(), SessionError>)
    ensures
        told(checked) == if reply@ != locked_line() {
            malformed("locker returned an invalid suspend acknowledgement"@)
        } else if hung_up {
            Err(
                (
                    ErrorKind::UnexpectedEof,
                    "locker closed the suspend hold after acknowledgement"@,
                ),
            )
        } else {
            Ok(())
        },
{
    if !is_locked_line(reply) {
        return invalid("locker returned an invalid suspend acknowledgement");
    }
    if hung_up {
        return Err(
            SessionError::new(
                ErrorKind::UnexpectedEof,
                "locker closed the suspend hold after acknowledgement",
            ),
        );
    }
    Ok(())
}

/// Accepts a locker of the same user.
pub fn check_locker_peer(peer_uid: u32, uid: u32) -> (checked: Result<(), SessionError>)
    ensures
        told(checked) == if peer_uid == uid {
            Ok(())
        } else {
            Err((ErrorKind::PermissionDenied, "locker socket peer UID mismatch"@))
        },
{
    if peer_uid != uid {
        return Err(
            SessionError::new(ErrorKind::PermissionDenied, "locker socket peer UID mismatch"),
        );
    }
    Ok(())
}

/// The error for a request that the locker did not answer in time.
pub fn locker_timeout(request: LockerRequest) -> (error: SessionError)
    ensures
        error_is(
            error,
            ErrorKind::TimedOut,
            if request == LockerRequest::Suspend {
                "locker did not establish a suspend hold within its deadline"@
            } else {
                "locker did not reply within its deadline"@
            },
        ),
{
    match request {
        LockerRequest::Suspend => SessionError::new(
            ErrorKind::TimedOut,
            "locker did not establish a suspend hold within its deadline",
        ),
        _ => SessionError::new(ErrorKind::TimedOut, "locker did not reply within its deadline"),
    }
}

/// No reply longer than an accepted one is accepted because it was cut off.
pub proof fn a_longer_reply_is_not_accepted(request: LockerRequest, reply: Seq<u8>)
    requires
        reply.len() >= reply_bound(request),
    ensures
        reply.take(reply_bound(request)) != locked_line(),
        request == LockerRequest::Status ==> status_in(reply.take(reply_bound(request))) is Err,
{
    let read = reply.take(reply_bound(request));
    assert(read.len() == reply_bound(request));
    assert(locked_line().len() == 7 && unlocked_line().len() == 9);
}

// ---------------------------------------------------------------------------
// Where the locker is
// ---------------------------------------------------------------------------

/// `sleepy`, the directory of the session below that of the user.
pub open spec fn session_directory() -> Seq<u8> {
    seq![0x73, 0x6c, 0x65, 0x65, 0x70, 0x79]
}

/// `sleepy/locker.sock`.
pub open spec fn usual_socket() -> Seq<u8> {
    session_directory() + seq![
        0x2fu8, 0x6c, 0x6f, 0x63, 0x6b, 0x65, 0x72, 0x2e, 0x73, 0x6f, 0x63, 0x6b,
    ]
}

pub open spec fn given(value: Option<Seq<u8>>) -> Option<Seq<u8>> {
    match value {
        Some(value) => if value.len() > 0 {
            Some(value)
        } else {
            None
        },
        None => None,
    }
}

pub open spec fn bytes_of(value: Option<Vec<u8>>) -> Option<Seq<u8>> {
    match value {
        Some(value) => Some(value@),
        None => None,
    }
}

fn non_empty(value: Option<Vec<u8>>) -> (out: Option<Vec<u8>>)
    ensures
        bytes_of(out) == given(bytes_of(value)),
{
    match value {
        Some(value) => if value.len() > 0 {
            Some(value)
        } else {
            None
        },
        None => None,
    }
}

/// Where the socket of the locker is: where the environment says, or else at the
/// usual place below the directory of the user.
pub open spec fn locker_at(runtime: Option<Seq<u8>>, socket: Option<Seq<u8>>) -> Result<
    (Seq<u8>, Seq<u8>),
    Fault,
> {
    match given(runtime) {
        None => Err((ErrorKind::NotFound, "XDG runtime directory is unavailable"@)),
        Some(runtime) => Ok(
            (
                runtime,
                match given(socket) {
                    Some(socket) => socket,
                    None => joined(runtime, usual_socket()),
                },
            ),
        ),
    }
}

/// The directory of the user and the socket of the locker.
pub fn locker_paths(runtime: Option<Vec<u8>>, socket: Option<Vec<u8>>) -> (paths: Result<
    (Vec<u8>, Vec<u8>),
    SessionError,
>)
    ensures
        match paths {
            Ok(paths) => locker_at(bytes_of(runtime), bytes_of(socket)) == Ok::<
                (Seq<u8>, Seq<u8>),
                Fault,
            >((paths.0@, paths.1@)),
            Err(error) => locker_at(bytes_of(runtime), bytes_of(socket)) == Err::<
                (Seq<u8>, Seq<u8>),
                Fault,
            >(fault_of(error)),
        },
{
    let runtime = match non_empty(runtime) {
        Some(runtime) => runtime,
        None => {
            return Err(
                SessionError::new(ErrorKind::NotFound, "XDG runtime directory is unavailable"),
            );
        },
    };
    let socket = match non_empty(socket) {
        Some(socket) => socket,
        None => {
            let usual: Vec<u8> = vec![
                0x73, 0x6c, 0x65, 0x65, 0x70, 0x79, 0x2f, 0x6c, 0x6f, 0x63, 0x6b, 0x65, 0x72, 0x2e,
                0x73, 0x6f, 0x63, 0x6b,
            ];
            assert(usual@ =~= usual_socket());
            join_path(runtime.as_slice(), usual.as_slice())
        },
    };
    Ok((runtime, socket))
}

/// What a file is.
#[derive(Debug, Clone, Copy, PartialEq, Eq, Structural)]
pub enum FileKind {
    Directory,
    Socket,
    /// A link, which is not followed.
    Link,
    Other,
}

/// What is known of a file.
#[derive(Debug, Clone, Copy, PartialEq, Eq, Structural)]
pub struct FileFacts {
    pub kind: FileKind,
    /// The bits that say who may do what.
    pub mode: u32,
    pub uid: u32,
}

/// What is found at a path.
pub type Found = Result<FileFacts, SessionError>;

pub open spec fn found_seen(found: Found) -> Result<FileFacts, Fault> {
    match found {
        Ok(facts) => Ok(facts),
        Err(error) => Err(fault_of(error)),
    }
}

/// What can be found at which paths.
pub type Looks = spec_fn(Seq<u8>, Result<FileFacts, Fault>) -> bool;

/// What a function that looks files up can find.
pub open spec fn looks_of<L: Fn(&[u8]) -> Found>(look: L) -> Looks {
    |path: Seq<u8>, facts: Result<FileFacts, Fault>|
        exists|at: &[u8], found: Found|
            #[trigger] call_ensures(look, (at,), found) && at@ == path && found_seen(found) == facts
}

/// Whether a function looks up what is at a path.
pub open spec fn can_look<L: Fn(&[u8]) -> Found>(look: L, path: Seq<u8>) -> bool {
    forall|at: &[u8]| at@ == path ==> #[trigger] call_requires(look, (at,))
}

pub open spec fn unprotected() -> Result<(), Fault> {
    Err(
        (
            ErrorKind::PermissionDenied,
            "locker runtime path is not a protected owned directory"@,
        ),
    )
}

/// Whether a file is a directory of the user, with a mode where one is asked for.
pub open spec fn owned_directory(
    found: Result<FileFacts, Fault>,
    uid: u32,
    mode: Option<u32>,
) -> Result<(), Fault> {
    match found {
        Err(fault) => Err(fault),
        Ok(facts) => if facts.kind != FileKind::Directory || facts.uid != uid || (mode is Some
            && facts.mode & 0o777 != mode->0) {
            unprotected()
        } else {
            Ok(())
        },
    }
}

/// Whether a file is a socket that only the user may use.
pub open spec fn owned_socket(found: Result<FileFacts, Fault>, uid: u32) -> Result<(), Fault> {
    match found {
        Err(fault) => Err(fault),
        Ok(facts) => if facts.kind != FileKind::Socket || facts.uid != uid || facts.mode & 0o777
            != 0o600 {
            Err(
                (
                    ErrorKind::PermissionDenied,
                    "locker endpoint is not an owned mode-0600 socket"@,
                ),
            )
        } else {
            Ok(())
        },
    }
}

/// Whether looking at the paths leads to the verdict on whether the locker may be
/// talked to: nobody but the user can have put a socket there.
pub open spec fn trusted_socket(
    socket: Seq<u8>,
    runtime: Seq<u8>,
    uid: u32,
    looks: Looks,
    verdict: Result<(), Fault>,
) -> bool {
    if !is_clean(runtime) || !is_clean(socket) {
        verdict == Err::<(), Fault>(
            (ErrorKind::PermissionDenied, "locker endpoint path is not clean and absolute"@),
        )
    } else {
        exists|found: Result<FileFacts, Fault>| #[trigger]
            looks(runtime, found) && match owned_directory(found, uid, None) {
                Err(fault) => verdict == Err::<(), Fault>(fault),
                Ok(()) => trusted_below(
                    socket,
                    joined(runtime, session_directory()),
                    uid,
                    looks,
                    verdict,
                ),
            }
    }
}

/// The verdict on a socket that has to be an entry of a directory.
pub open spec fn trusted_below(
    socket: Seq<u8>,
    directory: Seq<u8>,
    uid: u32,
    looks: Looks,
    verdict: Result<(), Fault>,
) -> bool {
    exists|found: Result<FileFacts, Fault>| #[trigger]
        looks(directory, found) && match owned_directory(found, uid, Some(0o700)) {
            Err(fault) => verdict == Err::<(), Fault>(fault),
            Ok(()) => if !is_entry_of(socket, directory) {
                verdict == Err::<(), Fault>(
                    (
                        ErrorKind::PermissionDenied,
                        "locker endpoint is outside the protected runtime directory"@,
                    ),
                )
            } else {
                exists|last: Result<FileFacts, Fault>| #[trigger]
                    looks(socket, last) && verdict == owned_socket(last, uid)
            },
        }
}

/// Whether a directory of the user can have been found at a path.
pub open spec fn directory_seen(looks: Looks, path: Seq<u8>, uid: u32, mode: Option<u32>) -> bool {
    exists|found: Result<FileFacts, Fault>| #[trigger]
        looks(path, found) && owned_directory(found, uid, mode) is Ok
}

/// Whether the paths can be looked at, one after the other: the directories from the
/// outside to the inside, and the socket last of all.
pub open spec fn can_walk<L: Fn(&[u8]) -> Found>(
    socket: Seq<u8>,
    runtime: Seq<u8>,
    uid: u32,
    look: L,
) -> bool {
    let directory = joined(runtime, session_directory());
    is_clean(runtime) && is_clean(socket) ==> {
        &&& can_look(look, runtime)
        &&& directory_seen(looks_of(look), runtime, uid, None) ==> can_look(look, directory)
        &&& directory_seen(looks_of(look), directory, uid, Some(0o700)) && is_entry_of(
            socket,
            directory,
        ) ==> can_look(look, socket)
    }
}

fn check_directory(found: Found, uid: u32, mode: Option<u32>) -> (checked: Result<
    (),
    SessionError,
>)
    ensures
        told(checked) == owned_directory(found_seen(found), uid, mode),
{
    let facts = match found {
        Ok(facts) => facts,
        Err(error) => {
            return Err(error);
        },
    };
    let wrong_mode = match mode {
        Some(mode) => facts.mode & 0o777 != mode,
        None => false,
    };
    if facts.kind != FileKind::Directory || facts.uid != uid || wrong_mode {
        return Err(
            SessionError::new(
                ErrorKind::PermissionDenied,
                "locker runtime path is not a protected owned directory",
            ),
        );
    }
    Ok(())
}

/// Accepts a path at which the locker may be talked to. Links are looked at and
/// not followed.
pub fn validate_locker_path<L: Fn(&[u8]) -> Found>(
    socket: &[u8],
    runtime: &[u8],
    uid: u32,
    look: &L,
) -> (valid: Result<(), SessionError>)
    requires
        can_walk(socket@, runtime@, uid, *look),
    ensures
        trusted_socket(socket@, runtime@, uid, looks_of(*look), told(valid)),
        valid is Ok ==> is_clean(runtime@) && is_clean(socket@) && is_entry_of(
            socket@,
            joined(runtime@, session_directory()),
        ),
{
    if !clean_absolute(runtime) || !clean_absolute(socket) {
        return Err(
            SessionError::new(
                ErrorKind::PermissionDenied,
                "locker endpoint path is not clean and absolute",
            ),
        );
    }
    let found = look(runtime);
    assert(looks_of(*look)(runtime@, found_seen(found)));
    if let Err(error) = check_directory(found, uid, None) {
        return Err(error);
    }
    let name: Vec<u8> = vec![0x73, 0x6c, 0x65, 0x65, 0x70, 0x79];
    assert(name@ =~= session_directory());
    let directory = join_path(runtime, name.as_slice());
    let found = look(directory.as_slice());
    assert(looks_of(*look)(directory@, found_seen(found)));
    if let Err(error) = check_directory(found, uid, Some(0o700)) {
        return Err(error);
    }
    if !entry_of(socket, directory.as_slice()) {
        return Err(
            SessionError::new(
                ErrorKind::PermissionDenied,
                "locker endpoint is outside the protected runtime directory",
            ),
        );
    }
    let found = look(socket);
    assert(looks_of(*look)(socket@, found_seen(found)));
    match found {
        Ok(facts) => if facts.kind != FileKind::Socket || facts.uid != uid || facts.mode & 0o777
            != 0o600 {
            Err(
                SessionError::new(
                    ErrorKind::PermissionDenied,
                    "locker endpoint is not an owned mode-0600 socket",
                ),
            )
        } else {
            Ok(())
        },
        Err(error) => Err(error),
    }
}

// ---------------------------------------------------------------------------
// The state of the lock
// ---------------------------------------------------------------------------

/// Whether a state says that the session is locked, or that it is not.
pub open spec fn shows_lock(state: DesktopDomainState, secure: bool) -> bool {
    &&& state@.domain == DesktopDomainId::Lock
    &&& state@.status == CapabilityAvailability::Available
    &&& state@.value == Some(DesktopDomainValue::Lock(LockState { secure }))
    &&& state@.reason is None
}

fn lock_state(secure: bool) -> (state: DesktopDomainState)
    ensures
        shows_lock(state, secure),
{
    match DesktopDomainState::available(
        DesktopDomainId::Lock,
        DesktopDomainValue::Lock(LockState { secure }),
    ) {
        Ok(state) => state,
        Err(_) => vstd::pervasive::unreached(),
    }
}

/// The time that is left until a deadline.
pub fn remaining(deadline: u64, now: u64) -> (left: Result<u64, SessionError>)
    ensures
        match left {
            Ok(left) => now < deadline && left == deadline - now,
            Err(error) => deadline <= now && error_is(
                error,
                ErrorKind::TimedOut,
                "logind operation exceeded its total deadline"@,
            ),
        },
{
    if deadline <= now {
        return Err(
            SessionError::new(
                ErrorKind::TimedOut,
                "logind operation exceeded its total deadline",
            ),
        );
    }
    Ok(deadline - now)
}

/// The session as the locker and the login manager see it.
#[derive(Debug, Clone, Copy)]
pub struct ProductionLogind;

impl ProductionLogind {
    /// How long a controlled reading of the lock may take.
    pub fn state_budget(self, state: RunState) -> (budget: Result<u64, SessionError>)
        ensures
            match budget {
                Ok(budget) => run_active(state, "locker status polling"@) is Ok && budget
                    == if state.remaining < LOGIND_STATE_TIMEOUT {
                    state.remaining
                } else {
                    LOGIND_STATE_TIMEOUT
                },
                Err(error) => run_active(state, "locker status polling"@) == Err::<(), Fault>(
                    fault_of(error),
                ),
            },
    {
        if let Err(error) = ensure_run_active(state, "locker status polling") {
            return Err(error);
        }
        Ok(
            if state.remaining < LOGIND_STATE_TIMEOUT {
                state.remaining
            } else {
                LOGIND_STATE_TIMEOUT
            },
        )
    }

    /// The state of the lock, from what the locker says; nothing is told by a
    /// run that has ended meanwhile.
    pub fn state(
        self,
        status: Result<LockerStatus, SessionError>,
        run: Option<RunState>,
    ) -> (state: Result<DesktopDomainState, SessionError>)
        ensures
            match status {
                Err(error) => fails_with(state, error.kind, error.message@),
                Ok(status) => match run {
                    Some(run) if run_active(run, "locker status polling"@) is Err => {
                        let fault = run_active(run, "locker status polling"@)->Err_0;
                        fails_with(state, fault.0, fault.1)
                    },
                    _ => state is Ok && shows_lock(
                        state->Ok_0,
                        status == LockerStatus::Locked,
                    ),
                },
            },
    {
        let status = match status {
            Ok(status) => status,
            Err(error) => {
                return Err(error);
            },
        };
        if let Some(run) = run {
            if let Err(error) = ensure_run_active(run, "locker status polling") {
                return Err(error);
            }
        }
        Ok(lock_state(matches!(status, LockerStatus::Locked)))
    }
}

/// The producer of the lock.
pub struct LogindProducer;

impl LogindProducer {
    pub fn domain(&self) -> (domain: DesktopDomainId)
        ensures
            domain == DesktopDomainId::Lock,
    {
        DesktopDomainId::Lock
    }

    /// The state of the lock, where the worker that read it came back.
    pub fn probe(&self, worker: Option<Result<DesktopDomainState, SessionError>>) -> (state:
        DesktopDomainState)
        ensures
            match worker {
                Some(Ok(read)) => state == read,
                Some(Err(error)) => failed_as(
                    state,
                    DesktopDomainId::Lock,
                    availability_of(error.kind),
                    reason_or_fixed(error.message@),
                ),
                None => failed_as(
                    state,
                    DesktopDomainId::Lock,
                    CapabilityAvailability::Error,
                    "locker status worker failed"@,
                ),
            },
    {
        match worker {
            Some(Ok(state)) => state,
            Some(Err(error)) => failed_state(DesktopDomainId::Lock, error),
            None => {
                proof {
                    reveal_strlit("locker status worker failed");
                    assert("locker status worker failed"@[0] == 'l');
                }
                terminal(
                    DesktopDomainId::Lock,
                    CapabilityAvailability::Error,
                    "locker status worker failed".to_owned(),
                )
            },
        }
    }
}

// ---------------------------------------------------------------------------
// Commands to the session
// ---------------------------------------------------------------------------

/// A call to the login manager.
pub struct LogindCall {
    pub method: String,
    /// The session that is ended; without one the call asks to be interactive.
    pub session_id: Option<String>,
}

pub struct CallView {
    pub method: Seq<char>,
    pub session_id: Option<Seq<char>>,
}

/// The identifier of the session, where the environment has a usable one.
pub open spec fn session_given(id: Option<Seq<char>>) -> Result<Seq<char>, Fault> {
    match id {
        Some(id) if id.len() > 0 && !id.contains('\0') => Ok(id),
        _ => Err((ErrorKind::NotFound, "XDG session ID is unavailable"@)),
    }
}

/// The call that a command makes. The lock is not asked of the login manager.
pub open spec fn call_of(command: DesktopSessionCommand, id: Option<Seq<char>>) -> Result<
    CallView,
    Fault,
> {
    match command {
        DesktopSessionCommand::Lock => Err(
            (
                ErrorKind::Unsupported,
                "session lock is owned exclusively by the private locker endpoint"@,
            ),
        ),
        DesktopSessionCommand::Logout => match session_given(id) {
            Ok(id) => Ok(CallView { method: "TerminateSession"@, session_id: Some(id) }),
            Err(fault) => Err(fault),
        },
        DesktopSessionCommand::Suspend => Ok(CallView { method: "Suspend"@, session_id: None }),
        DesktopSessionCommand::Reboot => Ok(CallView { method: "Reboot"@, session_id: None }),
        DesktopSessionCommand::PowerOff => Ok(CallView { method: "PowerOff"@, session_id: None }),
    }
}

impl View for LogindCall {
    type V = CallView;

    open spec fn view(&self) -> CallView {
        CallView {
            method: self.method@,
            session_id: match self.session_id {
                Some(id) => Some(id@),
                None => None,
            },
        }
    }
}

pub fn required_session_id(id: Option<&str>) -> (session: Result<String, SessionError>)
    ensures
        seen(session) == session_given(
            match id {
                Some(id) => Some(id@),
                None => None,
            },
        ),
{
    if let Some(id) = id {
        let chars = chars_of(id);
        if chars.len() > 0 && !contains_char(chars.as_slice(), '\0') {
            return Ok(id.to_owned());
        }
    }
    Err(SessionError::new(ErrorKind::NotFound, "XDG session ID is unavailable"))
}

/// The call that a command makes.
pub fn invoke_logind_action(command: DesktopSessionCommand, session_id: Option<&str>) -> (call:
    Result<LogindCall, SessionError>)
    ensures
        seen(call) == call_of(
            command,
            match session_id {
                Some(id) => Some(id@),
                None => None,
            },
        ),
{
    match command {
        DesktopSessionCommand::Lock => Err(
            SessionError::new(
                ErrorKind::Unsupported,
                "session lock is owned exclusively by the private locker endpoint",
            ),
        ),
        DesktopSessionCommand::Logout => match required_session_id(session_id) {
            Ok(id) => Ok(
                LogindCall { method: "TerminateSession".to_owned(), session_id: Some(id) },
            ),
            Err(error) => Err(error),
        },
        DesktopSessionCommand::Suspend => Ok(
            LogindCall { method: "Suspend".to_owned(), session_id: None },
        ),
        DesktopSessionCommand::Reboot => Ok(
            LogindCall { method: "Reboot".to_owned(), session_id: None },
        ),
        DesktopSessionCommand::PowerOff => Ok(
            LogindCall { method: "PowerOff".to_owned(), session_id: None },
        ),
    }
}

/// Carries a command to the session out: the lock is asked of the locker alone,
/// suspending goes through its own course, and the rest to the login manager.
pub fn execute_session_with<
    L: FnOnce() -> Result<(), SessionError>,
    S: FnOnce() -> Result<(), SessionError>,
    I: FnOnce(DesktopSessionCommand) -> Result<(), SessionError>,
>(command: DesktopSessionCommand, request_lock: L, suspend: S, invoke: I) -> (state: Result<
    Option<DesktopDomainState>,
    SessionError,
>)
    requires
        command == DesktopSessionCommand::Lock ==> call_requires(request_lock, ()),
        command == DesktopSessionCommand::Suspend ==> call_requires(suspend, ()),
        command != DesktopSessionCommand::Lock && command != DesktopSessionCommand::Suspend
            ==> call_requires(invoke, (command,)),
    ensures
        match command {
            DesktopSessionCommand::Lock => exists|done: Result<(), SessionError>| #[trigger]
                call_ensures(request_lock, (), done) && match done {
                    Err(error) => state == Err::<Option<DesktopDomainState>, SessionError>(error),
                    Ok(()) => state is Ok && state->Ok_0 is Some && shows_lock(
                        state->Ok_0->0,
                        true,
                    ),
                },
            DesktopSessionCommand::Suspend => exists|done: Result<(), SessionError>| #[trigger]
                call_ensures(suspend, (), done) && match done {
                    Err(error) => state == Err::<Option<DesktopDomainState>, SessionError>(error),
                    Ok(()) => state == Ok::<Option<DesktopDomainState>, SessionError>(None),
                },
            _ => exists|done: Result<(), SessionError>| #[trigger]
                call_ensures(invoke, (command,), done) && match done {
                    Err(error) => state == Err::<Option<DesktopDomainState>, SessionError>(error),
                    Ok(()) => state == Ok::<Option<DesktopDomainState>, SessionError>(None),
                },
        },
{
    match command {
        DesktopSessionCommand::Lock => {
            let done = request_lock();
            match done {
                Ok(()) => Ok(Some(lock_state(true))),
                Err(error) => Err(error),
            }
        },
        DesktopSessionCommand::Suspend => {
            let done = suspend();
            match done {
                Ok(()) => Ok(None),
                Err(error) => Err(error),
            }
        },
        _ => {
            let done = invoke(command);
            match done {
                Ok(()) => Ok(None),
                Err(error) => Err(error),
            }
        },
    }
}

// ---------------------------------------------------------------------------
// Suspending
// ---------------------------------------------------------------------------

/// What was seen while a transition of the machine was waited for.
#[derive(Debug, Clone, Copy, PartialEq, Eq, Structural)]
pub enum TransitionEvent {
    /// The login manager says that the machine is about to sleep, or has woken.
    Observed(bool),
    Disconnected,
    Nothing,
}

/// What follows: the transition, its failure, or how long to wait on.
pub open spec fn transition(
    event: TransitionEvent,
    expected: bool,
    now: u64,
    deadline: Option<u64>,
) -> Result<Option<int>, Fault> {
    match event {
        TransitionEvent::Observed(observed) => if observed == expected {
            Ok(None)
        } else {
            malformed("logind reported an invalid sleep transition order"@)
        },
        TransitionEvent::Disconnected => Err(
            (ErrorKind::BrokenPipe, "logind sleep transition receiver disconnected"@),
        ),
        TransitionEvent::Nothing => match deadline {
            None => Ok(Some(TRANSITION_SLICE as int)),
            Some(deadline) => if deadline <= now {
                Err((ErrorKind::TimedOut, "logind operation exceeded its total deadline"@))
            } else if deadline - now < TRANSITION_SLICE {
                Ok(Some(deadline - now))
            } else {
                Ok(Some(TRANSITION_SLICE as int))
            },
        },
    }
}

/// What follows from what was seen while a transition is waited for.
pub fn wait_for_sleep_transition(
    event: TransitionEvent,
    expected: bool,
    now: u64,
    deadline: Option<u64>,
) -> (step: Result<Option<u64>, SessionError>)
    ensures
        match step {
            Ok(None) => transition(event, expected, now, deadline) == Ok::<Option<int>, Fault>(
                None,
            ),
            Ok(Some(wait)) => transition(event, expected, now, deadline) == Ok::<
                Option<int>,
                Fault,
            >(Some(wait as int)),
            Err(error) => transition(event, expected, now, deadline) == Err::<Option<int>, Fault>(
                fault_of(error),
            ),
        },
{
    match event {
        TransitionEvent::Observed(observed) => if observed == expected {
            Ok(None)
        } else {
            invalid("logind reported an invalid sleep transition order")
        },
        TransitionEvent::Disconnected => Err(
            SessionError::new(
                ErrorKind::BrokenPipe,
                "logind sleep transition receiver disconnected",
            ),
        ),
        TransitionEvent::Nothing => match deadline {
            None => Ok(Some(TRANSITION_SLICE)),
            Some(deadline) => match remaining(deadline, now) {
                Ok(left) => Ok(
                    Some(
                        if left < TRANSITION_SLICE {
                            left
                        } else {
                            TRANSITION_SLICE
                        },
                    ),
                ),
                Err(error) => Err(error),
            },
        },
    }
}

/// How the waits of a course are bounded, and who waits.
pub struct SuspendTransitionWait<F> {
    pub resume_timeout: u64,
    pub wait: F,
}

impl<F> SuspendTransitionWait<F> {
    pub fn new(resume_timeout: u64, wait: F) -> (transitions: SuspendTransitionWait<F>)
        ensures
            transitions.resume_timeout == resume_timeout,
            transitions.wait == wait,
    {
        SuspendTransitionWait { resume_timeout, wait }
    }
}

/// What comes of a course once the machine was told to sleep.
pub open spec fn slept<F: Fn(bool, Option<u64>) -> Result<(), SessionError>, C: FnOnce() -> u64>(
    transitions: SuspendTransitionWait<F>,
    clock: C,
    result: Result<(), SessionError>,
) -> bool {
    exists|prepared: Result<(), SessionError>| #[trigger]
        call_ensures(transitions.wait, (true, None::<u64>), prepared) && match prepared {
            Err(error) => result == Err::<(), SessionError>(error),
            Ok(()) => exists|now: u64| #[trigger]
                call_ensures(clock, (), now) && call_ensures(
                    transitions.wait,
                    (false, Some((now + transitions.resume_timeout) as u64)),
                    result,
                ),
        }
}

/// Whether a step can have succeeded.
pub open spec fn succeeds<T, F: FnOnce() -> Result<T, SessionError>>(step: F) -> bool {
    exists|result: Result<T, SessionError>| #[trigger]
        call_ensures(step, (), result) && result is Ok
}

/// Whether a step can have failed.
pub open spec fn fails<T, F: FnOnce() -> Result<T, SessionError>>(step: F) -> bool {
    exists|result: Result<T, SessionError>| #[trigger]
        call_ensures(step, (), result) && result is Err
}

/// Whether the wait for the preparation of the sleep can have ended well, or badly.
pub open spec fn prepared<F: Fn(bool, Option<u64>) -> Result<(), SessionError>>(
    wait: F,
    well: bool,
) -> bool {
    exists|result: Result<(), SessionError>| #[trigger]
        call_ensures(wait, (true, None::<u64>), result) && result is Ok == well
}

/// Whether the wait for the machine to wake can have ended well, or badly.
pub open spec fn woken<F: Fn(bool, Option<u64>) -> Result<(), SessionError>>(
    wait: F,
    well: bool,
) -> bool {
    exists|deadline: u64, result: Result<(), SessionError>| #[trigger]
        call_ensures(wait, (false, Some(deadline)), result) && result is Ok == well
}

/// Takes the session through a sleep with the lock held. The inhibitor delays
/// the sleep until the hold on the lock was acquired; the hold is released only
/// when the machine has woken.
///
/// What may be called when is said by what has to have come of the steps before:
/// the machine is told to sleep only with the hold acquired, the inhibitor is
/// released once nothing is left to delay, the wait for the waking begins after
/// that, and the hold is kept closed only after a failure.
pub fn execute_suspend_lifecycle<
    I,
    H,
    A: FnOnce() -> Result<I, SessionError>,
    B: FnOnce() -> Result<H, SessionError>,
    D: FnOnce() -> Result<(), SessionError>,
    F: Fn(bool, Option<u64>) -> Result<(), SessionError>,
    C: FnOnce() -> u64,
    R: FnOnce(I),
    S: FnOnce(H),
    K: FnOnce(H),
>(
    acquire_inhibitor: A,
    acquire_hold: B,
    invoke_suspend: D,
    transitions: SuspendTransitionWait<F>,
    clock: C,
    release_inhibitor: R,
    release_hold: S,
    fail_closed_hold: K,
) -> (result: Result<(), SessionError>)
    requires
        call_requires(acquire_inhibitor, ()),
        succeeds(acquire_inhibitor) ==> call_requires(acquire_hold, ()),
        succeeds(acquire_hold) ==> call_requires(invoke_suspend, ()),
        succeeds(invoke_suspend) ==> call_requires(transitions.wait, (true, None::<u64>)),
        prepared(transitions.wait, true) ==> call_requires(clock, ()),
        forall|now: u64| #[trigger]
            call_ensures(clock, (), now) ==> now + transitions.resume_timeout <= u64::MAX,
        forall|now: u64, inhibitor: I| #[trigger]
            call_ensures(clock, (), now) && #[trigger] call_ensures(
                release_inhibitor,
                (inhibitor,),
                (),
            ) ==> call_requires(
                transitions.wait,
                (false, Some((now + transitions.resume_timeout) as u64)),
            ),
        // The inhibitor goes where the hold could not be acquired, where it was
        // closed, and where the preparation ended and its end was timed.
        forall|inhibitor: I|
            call_ensures(acquire_inhibitor, (), Ok(inhibitor)) && (fails(acquire_hold) || (exists|
                hold: H,
            | #[trigger]
                call_ensures(fail_closed_hold, (hold,), ())) || (exists|now: u64| #[trigger]
                call_ensures(clock, (), now))) ==> #[trigger] call_requires(
                release_inhibitor,
                (inhibitor,),
            ),
        // The hold is closed after a failure, and not before.
        forall|hold: H|
            call_ensures(acquire_hold, (), Ok(hold)) && (fails(invoke_suspend) || prepared(
                transitions.wait,
                false,
            ) || woken(transitions.wait, false)) ==> #[trigger] call_requires(
                fail_closed_hold,
                (hold,),
            ),
        // The hold is released once the machine was seen to wake, and not before.
        forall|hold: H|
            call_ensures(acquire_hold, (), Ok(hold)) && woken(transitions.wait, true)
                ==> #[trigger] call_requires(release_hold, (hold,)),
    ensures
        exists|inhibitor: Result<I, SessionError>| #[trigger]
            call_ensures(acquire_inhibitor, (), inhibitor) && match inhibitor {
                Err(error) => result == Err::<(), SessionError>(error),
                Ok(inhibitor) => call_ensures(release_inhibitor, (inhibitor,), ()) && exists|
                    hold: Result<H, SessionError>,
                | #[trigger]
                    call_ensures(acquire_hold, (), hold) && match hold {
                        Err(error) => result == Err::<(), SessionError>(error),
                        Ok(hold) => (if result is Ok {
                            call_ensures(release_hold, (hold,), ())
                        } else {
                            call_ensures(fail_closed_hold, (hold,), ())
                        }) && exists|invoked: Result<(), SessionError>| #[trigger]
                            call_ensures(invoke_suspend, (), invoked) && match invoked {
                                Err(error) => result == Err::<(), SessionError>(error),
                                Ok(()) => slept(transitions, clock, result),
                            },
                    },
            },
{
    let inhibitor = acquire_inhibitor();
    let inhibitor = match inhibitor {
        Ok(inhibitor) => inhibitor,
        Err(error) => {
            return Err(error);
        },
    };
    let hold = acquire_hold();
    let hold = match hold {
        Ok(hold) => hold,
        Err(error) => {
            release_inhibitor(inhibitor);
            return Err(error);
        },
    };
    let invoked = invoke_suspend();
    if let Err(error) = invoked {
        fail_closed_hold(hold);
        release_inhibitor(inhibitor);
        return Err(error);
    }
    let prepared = (transitions.wait)(true, None);
    if let Err(error) = prepared {
        fail_closed_hold(hold);
        release_inhibitor(inhibitor);
        return Err(error);
    }
    let now: u64 = clock();
    let resume_deadline: u64 = now + transitions.resume_timeout;
    release_inhibitor(inhibitor);
    let resumed = (transitions.wait)(false, Some(resume_deadline));
    assert(call_ensures(transitions.wait, (false, Some(resume_deadline)), resumed));
    if resumed.is_err() {
        fail_closed_hold(hold);
    } else {
        release_hold(hold);
    }
    resumed
}

} // verus!
