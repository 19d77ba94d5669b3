//! The exchange of network secrets: challenges, requests and leases.
//!
//! Times are milliseconds of a clock that never goes back.

use std::sync::Arc;

use vstd::prelude::*;
use vstd::utf8::valid_utf8;

use crate::desktop::wire::optional_text;
use crate::error::{
    error_is, fault_of, invalid, invalid_input, malformed, refused, seen, told, ErrorKind, Fault,
    SessionError,
};
use crate::ids::{random_uuid, uuid_bytes};
use crate::rows::{views, views_of_push};
use crate::sharing::{share_option, some_shared};
use crate::text::{chars_of, is_utf8, replace_char, replaced, same_text, string_of};
use crate::wiping::wipe;

verus! {

pub const MAX_SECRET_FRAME: usize = 64 * 1024;

/// How long a request for a secret stays open, in milliseconds.
pub const SECRET_DEADLINE: u64 = 30_000;

/// How many bytes a challenge has.
pub const CHALLENGE_BYTES: usize = 16;

// ---------------------------------------------------------------------------
// Secrets
// ---------------------------------------------------------------------------

/// Is told when the bytes of a secret have been wiped.
pub trait SecretZeroizeObserver: Send + Sync {
    /// Whether it was told of bytes that were wiped. An observer may say here what it
    /// keeps of that.
    open spec fn was_told(&self, bytes: Seq<u8>) -> bool {
        true
    }

    /// Takes note of bytes that were wiped; none of them is left.
    fn after_zeroize(&self, bytes: &[u8])
        requires
            forall|i: int| 0 <= i < bytes@.len() ==> bytes@[i] == 0,
        ensures
            self.was_told(bytes@),
    ;
}

/// Whether an observer, where there is one, was told of bytes that were wiped.
pub open spec fn observer_told(
    observer: Option<Arc<dyn SecretZeroizeObserver>>,
    bytes: Seq<u8>,
) -> bool {
    match observer {
        Some(observer) => observer.was_told(bytes),
        None => true,
    }
}

/// A frame that holds a secret behind what precedes it.
pub struct LockedSecret {
    bytes: Vec<u8>,
    secret_offset: usize,
    observer: Option<Arc<dyn SecretZeroizeObserver>>,
}

impl View for LockedSecret {
    type V = Seq<u8>;

    /// The secret itself.
    closed spec fn view(&self) -> Seq<u8> {
        if self.secret_offset <= self.bytes@.len() {
            self.bytes@.skip(self.secret_offset as int)
        } else {
            Seq::empty()
        }
    }
}

impl LockedSecret {
    /// The whole frame.
    pub closed spec fn frame(&self) -> Seq<u8> {
        self.bytes@
    }

    /// The secret itself, and who watches it.
    pub open spec fn held(&self) -> HeldView {
        HeldView { secret: self@, observer: self.observer() }
    }

    /// Who is still to be told when the frame has been wiped.
    pub closed spec fn observer(&self) -> Option<Arc<dyn SecretZeroizeObserver>> {
        self.observer
    }

    pub fn from_frame(
        bytes: Vec<u8>,
        secret_offset: usize,
        observer: Option<Arc<dyn SecretZeroizeObserver>>,
    ) -> (secret: LockedSecret)
        ensures
            secret.frame() == bytes@,
            secret.observer() == observer,
            secret@ == if secret_offset <= bytes@.len() {
                bytes@.skip(secret_offset as int)
            } else {
                Seq::<u8>::empty()
            },
    {
        LockedSecret { bytes, secret_offset, observer }
    }

    /// The secret itself.
    pub fn expose(&self) -> (secret: &[u8])
        ensures
            secret@ == self@,
    {
        let length: usize = self.bytes.len();
        let offset: usize = if self.secret_offset <= length {
            self.secret_offset
        } else {
            length
        };
        let secret = vstd::slice::slice_subrange(self.bytes.as_slice(), offset, length);
        assert(secret@ =~= self@);
        secret
    }

    /// Overwrites the whole frame, tells the observer and lets go of it: nobody
    /// is told twice.
    pub fn erase(&mut self)
        ensures
            erased(*old(self), *final(self)),
    {
        self.secret_offset = 0;
        wipe(&mut self.bytes);
        assert(self@ =~= Seq::<u8>::empty());
        if let Some(observer) = self.observer.take() {
            observer.after_zeroize(self.bytes.as_slice());
        }
    }

    /// Moves the frame into a secret of its own; nothing stays behind.
    fn take(&mut self) -> (secret: LockedSecret)
        ensures
            secret.frame() == old(self).frame(),
            secret.held() == old(self).held(),
            moved_out(*final(self)),
    {
        let mut bytes: Vec<u8> = Vec::new();
        core::mem::swap(&mut bytes, &mut self.bytes);
        let secret_offset: usize = self.secret_offset;
        self.secret_offset = 0;
        assert(self@ =~= Seq::<u8>::empty());
        LockedSecret { bytes, secret_offset, observer: self.observer.take() }
    }
}

/// A secret that is held for somebody, and who watches it.
pub struct HeldView {
    pub secret: Seq<u8>,
    pub observer: Option<Arc<dyn SecretZeroizeObserver>>,
}

/// Whether nothing of a secret stays in its place, nor anybody to be told of it.
pub open spec fn moved_out(secret: LockedSecret) -> bool {
    &&& secret.frame() == Seq::<u8>::empty()
    &&& secret@ == Seq::<u8>::empty()
    &&& secret.observer() is None
}

/// Whether a secret was wiped in its place, and its observer was told of it.
pub open spec fn erased(before: LockedSecret, after: LockedSecret) -> bool {
    &&& moved_out(after)
    &&& observer_told(before.observer(), Seq::<u8>::empty())
}

// ---------------------------------------------------------------------------
// Comparison and frames
// ---------------------------------------------------------------------------

/// Compares bytes without stopping at the first difference.
pub fn constant_time_equal(left: &[u8], right: &[u8]) -> (same: bool)
    ensures
        same == (left@ == right@),
{
    if left.len() != right.len() {
        return false;
    }
    let mut difference: u8 = 0;
    assert(left@.take(0) =~= right@.take(0));
    for i in 0..left.len()
        invariant
            left@.len() == right@.len(),
            difference == 0 <==> left@.take(i as int) == right@.take(i as int),
    {
        let l: u8 = left[i];
        let r: u8 = right[i];
        let before: u8 = difference;
        difference = before | (l ^ r);
        proof {
            let d = difference;
            assert(d == 0 <==> (before == 0 && l == r)) by (bit_vector)
                requires
                    d == before | (l ^ r),
            ;
            let a = left@.take(i + 1);
            let b = right@.take(i + 1);
            assert(a =~= left@.take(i as int).push(l));
            assert(b =~= right@.take(i as int).push(r));
            if a == b {
                assert(a.drop_last() =~= left@.take(i as int));
                assert(b.drop_last() =~= right@.take(i as int));
                assert(a.last() == l && b.last() == r);
            }
        }
    }
    proof {
        assert(left@.take(left@.len() as int) =~= left@);
        assert(right@.take(right@.len() as int) =~= right@);
    }
    difference == 0
}

/// The four bytes of a length, the most significant first.
pub open spec fn length_bytes(length: u32) -> Seq<u8> {
    seq![
        (length / 0x1000000) as u8,
        ((length / 0x10000) % 0x100) as u8,
        ((length / 0x100) % 0x100) as u8,
        (length % 0x100) as u8,
    ]
}

/// The length that four bytes give, the most significant first.
pub open spec fn length_of(header: Seq<u8>) -> int {
    header[0] * 0x1000000 + header[1] * 0x10000 + header[2] * 0x100 + header[3]
}

/// A frame: the length of what it holds, and then that.
pub open spec fn framed(bytes: Seq<u8>) -> Seq<u8> {
    length_bytes(bytes.len() as u32) + bytes
}

/// Writes a frame.
pub fn write_binary_frame(bytes: &[u8]) -> (frame: Result<Vec<u8>, SessionError>)
    ensures
        match frame {
            Ok(frame) => bytes@.len() <= u32::MAX && frame@ == framed(bytes@),
            Err(error) => bytes@.len() > u32::MAX && error_is(
                error,
                ErrorKind::InvalidData,
                "secret frame is too large"@,
            ),
        },
{
    if bytes.len() as u64 > u32::MAX as u64 {
        return invalid("secret frame is too large");
    }
    let length: u32 = bytes.len() as u32;
    let mut frame: Vec<u8> = Vec::new();
    frame.push((length / 0x1000000) as u8);
    frame.push(((length / 0x10000) % 0x100) as u8);
    frame.push(((length / 0x100) % 0x100) as u8);
    frame.push((length % 0x100) as u8);
    assert(frame@ =~= length_bytes(length));
    frame.extend_from_slice(bytes);
    assert(frame@ =~= framed(bytes@));
    Ok(frame)
}

/// How many bytes follow the four bytes that a frame begins with.
pub open spec fn frame_size(length: int) -> Result<(), Fault> {
    if length == 0 || length > MAX_SECRET_FRAME {
        malformed("network secret frame violates its bounded size"@)
    } else {
        Ok(())
    }
}

pub fn frame_length(header: [u8; 4]) -> (length: Result<usize, SessionError>)
    ensures
        match length {
            Ok(length) => length == length_of(header@) && frame_size(length as int) is Ok,
            Err(error) => frame_size(length_of(header@)) == Err::<(), Fault>(fault_of(error)),
        },
{
    let length: u32 = header[0] as u32 * 0x1000000 + header[1] as u32 * 0x10000 + header[2] as u32
        * 0x100 + header[3] as u32;
    if length == 0 || length > MAX_SECRET_FRAME as u32 {
        return invalid("network secret frame violates its bounded size");
    }
    Ok(length as usize)
}

/// A length is made up of its four bytes.
proof fn bytes_make_up_a_length(length: u32)
    ensures
        length / 0x1000000 < 0x100,
        length == (length / 0x1000000) * 0x1000000 + ((length / 0x10000) % 0x100) * 0x10000 + ((
        length / 0x100) % 0x100) * 0x100 + length % 0x100,
{
    let byte: u32 = length / 0x100;
    let pair: u32 = byte / 0x100;
    assert(length / 0x10000 == pair);
    assert(length / 0x1000000 == pair / 0x100);
}

/// The length that a frame begins with is that of what it holds.
pub proof fn a_written_length_is_read_back(bytes: Seq<u8>)
    requires
        bytes.len() <= u32::MAX,
    ensures
        framed(bytes).len() == 4 + bytes.len(),
        length_of(framed(bytes).take(4)) == bytes.len(),
        framed(bytes).skip(4) == bytes,
{
    let length = bytes.len() as u32;
    let header = length_bytes(length);
    bytes_make_up_a_length(length);
    assert(header[0] == length / 0x1000000);
    assert(header[1] == (length / 0x10000) % 0x100);
    assert(header[2] == (length / 0x100) % 0x100);
    assert(header[3] == length % 0x100);
    assert(framed(bytes).take(4) =~= header);
    assert(framed(bytes).skip(4) =~= bytes);
}

// ---------------------------------------------------------------------------
// Challenges
// ---------------------------------------------------------------------------

/// A challenge that waits for its answer.
struct PendingChallenge {
    id: [u8; 16],
    deadline: u64,
}

pub struct ChallengeView {
    pub id: Seq<u8>,
    pub deadline: u64,
}

/// Gives out one challenge at a time and takes its answer.
pub struct SecretBroker {
    pending: Option<PendingChallenge>,
    observer: Option<Arc<dyn SecretZeroizeObserver>>,
}

impl View for SecretBroker {
    type V = Option<ChallengeView>;

    closed spec fn view(&self) -> Option<ChallengeView> {
        match self.pending {
            Some(challenge) => Some(
                ChallengeView { id: challenge.id@, deadline: challenge.deadline },
            ),
            None => None,
        }
    }
}

/// What becomes of an answer to a challenge.
pub open spec fn answered(
    pending: Option<ChallengeView>,
    response: Seq<u8>,
    now: u64,
) -> Result<(), Fault> {
    if response.len() > MAX_SECRET_FRAME || response.len() <= CHALLENGE_BYTES {
        malformed("network secret frame violates its bounded size"@)
    } else {
        match pending {
            None => Err(
                (
                    ErrorKind::PermissionDenied,
                    "network secret challenge is absent or was already consumed"@,
                ),
            ),
            Some(challenge) => if now >= challenge.deadline {
                Err(
                    (
                        ErrorKind::TimedOut,
                        "network secret challenge exceeded its total deadline"@,
                    ),
                )
            } else if response.take(CHALLENGE_BYTES as int) != challenge.id {
                Err((ErrorKind::PermissionDenied, "network secret challenge did not match"@))
            } else {
                Ok(())
            },
        }
    }
}

/// The challenge that is left after an answer: an answer of a possible size uses
/// the challenge up, whether it is right or wrong.
pub open spec fn challenge_after(pending: Option<ChallengeView>, response: Seq<u8>) -> Option<
    ChallengeView,
> {
    if response.len() > MAX_SECRET_FRAME || response.len() <= CHALLENGE_BYTES {
        pending
    } else {
        None
    }
}

impl SecretBroker {
    /// Who is told when an answer has been wiped.
    pub closed spec fn observer(&self) -> Option<Arc<dyn SecretZeroizeObserver>> {
        self.observer
    }

    pub fn new() -> (broker: SecretBroker)
        ensures
            broker@ is None,
            broker.observer() is None,
    {
        SecretBroker { pending: None, observer: None }
    }

    pub fn with_observer(observer: Arc<dyn SecretZeroizeObserver>) -> (broker: SecretBroker)
        ensures
            broker@ is None,
            broker.observer() == Some(observer),
    {
        SecretBroker { pending: None, observer: some_shared(&observer) }
    }

    /// Draws a challenge that can be answered for the usual time.
    pub fn issue(&mut self, now: u64) -> (id: Result<[u8; 16], SessionError>)
        requires
            now + SECRET_DEADLINE <= u64::MAX,
        ensures
            final(self).observer() == old(self).observer(),
            match id {
                Ok(id) => old(self)@ is None && final(self)@ == Some(
                    ChallengeView { id: id@, deadline: (now + SECRET_DEADLINE) as u64 },
                ),
                Err(error) => old(self)@ is Some && final(self)@ == old(self)@ && error_is(
                    error,
                    ErrorKind::WouldBlock,
                    "a network secret challenge is already pending"@,
                ),
            },
    {
        self.issue_until(now + SECRET_DEADLINE)
    }

    /// Draws a challenge that can be answered until a deadline.
    pub fn issue_until(&mut self, deadline: u64) -> (id: Result<[u8; 16], SessionError>)
        ensures
            final(self).observer() == old(self).observer(),
            match id {
                Ok(id) => old(self)@ is None && final(self)@ == Some(
                    ChallengeView { id: id@, deadline },
                ),
                Err(error) => old(self)@ is Some && final(self)@ == old(self)@ && error_is(
                    error,
                    ErrorKind::WouldBlock,
                    "a network secret challenge is already pending"@,
                ),
            },
    {
        let id = uuid_bytes(random_uuid());
        match self.pose(id, deadline) {
            Ok(()) => Ok(id),
            Err(error) => Err(error),
        }
    }

    /// Poses a challenge, unless another one is still open.
    pub fn pose(&mut self, id: [u8; 16], deadline: u64) -> (posed: Result<(), SessionError>)
        ensures
            final(self).observer() == old(self).observer(),
            match posed {
                Ok(()) => old(self)@ is None && final(self)@ == Some(
                    ChallengeView { id: id@, deadline },
                ),
                Err(error) => old(self)@ is Some && final(self)@ == old(self)@ && error_is(
                    error,
                    ErrorKind::WouldBlock,
                    "a network secret challenge is already pending"@,
                ),
            },
    {
        if self.pending.is_some() {
            return Err(
                SessionError::new(
                    ErrorKind::WouldBlock,
                    "a network secret challenge is already pending",
                ),
            );
        }
        self.pending = Some(PendingChallenge { id, deadline });
        Ok(())
    }

    /// A secret that this broker's observer watches.
    pub fn hold(&self, bytes: Vec<u8>) -> (secret: LockedSecret)
        ensures
            secret.frame() == bytes@,
            secret@ == bytes@,
            secret.observer() == self.observer(),
    {
        assert(bytes@.skip(0) =~= bytes@);
        LockedSecret::from_frame(bytes, 0, share_option(&self.observer))
    }

    /// Takes the answer to the open challenge; what follows the challenge in it
    /// is the secret.
    pub fn accept_response(&mut self, response: Vec<u8>, now: u64) -> (secret: Result<
        LockedSecret,
        SessionError,
    >)
        ensures
            final(self)@ == challenge_after(old(self)@, response@),
            final(self).observer() == old(self).observer(),
            match secret {
                Ok(secret) => answered(old(self)@, response@, now) is Ok && secret.held() == (
                HeldView {
                    secret: response@.skip(CHALLENGE_BYTES as int),
                    observer: old(self).observer(),
                }),
                Err(error) => answered(old(self)@, response@, now) == Err::<(), Fault>(
                    fault_of(error),
                ) && observer_told(old(self).observer(), Seq::<u8>::empty()),
            },
    {
        let mut locked = self.hold(response);
        match self.accept_locked_response(&mut locked, now) {
            Ok(()) => Ok(locked),
            Err(error) => Err(error),
        }
    }

    /// Takes the answer to the open challenge. An answer that is refused is wiped.
    pub fn accept_locked_response(&mut self, locked: &mut LockedSecret, now: u64) -> (accepted:
        Result<(), SessionError>)
        ensures
            final(self)@ == challenge_after(old(self)@, old(locked).frame()),
            final(self).observer() == old(self).observer(),
            told(accepted) == answered(old(self)@, old(locked).frame(), now),
            accepted is Ok ==> final(locked).frame() == old(locked).frame()
                && final(locked).held() == (HeldView {
                secret: old(locked).frame().skip(CHALLENGE_BYTES as int),
                observer: old(locked).observer(),
            }),
            accepted is Err ==> erased(*old(locked), *final(locked)),
    {
        if locked.bytes.len() > MAX_SECRET_FRAME || locked.bytes.len() <= CHALLENGE_BYTES {
            locked.erase();
            return invalid("network secret frame violates its bounded size");
        }
        let challenge = match self.pending.take() {
            Some(challenge) => challenge,
            None => {
                locked.erase();
                return Err(
                    SessionError::new(
                        ErrorKind::PermissionDenied,
                        "network secret challenge is absent or was already consumed",
                    ),
                );
            },
        };
        if now >= challenge.deadline {
            locked.erase();
            return Err(
                SessionError::new(
                    ErrorKind::TimedOut,
                    "network secret challenge exceeded its total deadline",
                ),
            );
        }
        let answer = vstd::slice::slice_subrange(locked.bytes.as_slice(), 0, CHALLENGE_BYTES);
        assert(answer@ =~= locked.frame().take(CHALLENGE_BYTES as int));
        if !constant_time_equal(answer, challenge.id.as_slice()) {
            locked.erase();
            return Err(
                SessionError::new(
                    ErrorKind::PermissionDenied,
                    "network secret challenge did not match",
                ),
            );
        }
        locked.secret_offset = CHALLENGE_BYTES;
        Ok(())
    }

    /// Gives the open challenge up.
    pub fn cancel_pending(&mut self)
        ensures
            final(self)@ is None,
            final(self).observer() == old(self).observer(),
    {
        self.pending = None;
    }
}

/// A challenge is answered at most once: whatever the first answer was, a second
/// one is refused unless another challenge was posed in between.
pub proof fn a_challenge_is_answered_at_most_once(
    pending: Option<ChallengeView>,
    first: Seq<u8>,
    second: Seq<u8>,
    now: u64,
    later: u64,
)
    requires
        answered(pending, first, now) is Ok,
    ensures
        answered(challenge_after(pending, first), second, later) is Err,
{
}

/// The right answer before the deadline is accepted, and what it exposes is what
/// followed the challenge.
pub proof fn the_right_answer_is_accepted(
    challenge: ChallengeView,
    secret: Seq<u8>,
    now: u64,
)
    requires
        challenge.id.len() == CHALLENGE_BYTES,
        now < challenge.deadline,
        0 < secret.len() <= MAX_SECRET_FRAME - CHALLENGE_BYTES,
    ensures
        answered(Some(challenge), challenge.id + secret, now) is Ok,
        (challenge.id + secret).skip(CHALLENGE_BYTES as int) == secret,
{
    assert((challenge.id + secret).take(CHALLENGE_BYTES as int) =~= challenge.id);
    assert((challenge.id + secret).skip(CHALLENGE_BYTES as int) =~= secret);
}

// ---------------------------------------------------------------------------
// Requests
// ---------------------------------------------------------------------------

/// What a secret is asked for: a setting of a connection.
#[derive(Debug, Clone, PartialEq, Eq)]
pub struct SecretRequestKey {
    pub connection_path: String,
    pub setting_name: String,
}

pub struct KeyView {
    pub connection_path: Seq<char>,
    pub setting_name: Seq<char>,
}

impl View for SecretRequestKey {
    type V = KeyView;

    open spec fn view(&self) -> KeyView {
        KeyView { connection_path: self.connection_path@, setting_name: self.setting_name@ }
    }
}

impl SecretRequestKey {
    fn copy(&self) -> (copy: SecretRequestKey)
        ensures
            copy@ == self@,
    {
        SecretRequestKey {
            connection_path: self.connection_path.clone(),
            setting_name: self.setting_name.clone(),
        }
    }

    fn same(&self, other: &SecretRequestKey) -> (same: bool)
        ensures
            same == (self@ == other@),
    {
        same_text(self.connection_path.as_str(), other.connection_path.as_str()) && same_text(
            self.setting_name.as_str(),
            other.setting_name.as_str(),
        )
    }
}

/// What the requester of a secret will find.
enum SecretSlot {
    Empty,
    Full(LockedSecret),
    /// The requester no longer looks.
    Closed,
}

pub enum SlotView {
    Empty,
    Full(HeldView),
    Closed,
}

struct PendingSecretRequest {
    id: [u8; 16],
    key: SecretRequestKey,
    slot: SecretSlot,
    serial: u64,
    deadline: u64,
    reply_started: bool,
}

pub struct RequestView {
    pub id: Seq<u8>,
    pub key: KeyView,
    pub slot: SlotView,
    /// How many requests came before this one.
    pub serial: u64,
    pub deadline: u64,
    pub reply_started: bool,
}

impl View for SecretSlot {
    type V = SlotView;

    closed spec fn view(&self) -> SlotView {
        match self {
            SecretSlot::Empty => SlotView::Empty,
            SecretSlot::Full(secret) => SlotView::Full(secret.held()),
            SecretSlot::Closed => SlotView::Closed,
        }
    }
}

impl View for PendingSecretRequest {
    type V = RequestView;

    closed spec fn view(&self) -> RequestView {
        RequestView {
            id: self.id@,
            key: self.key@,
            slot: self.slot@,
            serial: self.serial,
            deadline: self.deadline,
            reply_started: self.reply_started,
        }
    }
}

/// The right to answer one request.
pub struct SecretRequestLease {
    request_id: [u8; 16],
    key: SecretRequestKey,
    deadline: u64,
    /// The request that it was taken from, if it was taken from one.
    serial: Option<u64>,
}

pub struct LeaseView {
    pub request_id: Seq<u8>,
    pub key: KeyView,
    pub deadline: u64,
    pub serial: Option<u64>,
}

impl View for SecretRequestLease {
    type V = LeaseView;

    closed spec fn view(&self) -> LeaseView {
        LeaseView {
            request_id: self.request_id@,
            key: self.key@,
            deadline: self.deadline,
            serial: self.serial,
        }
    }
}

impl SecretRequestLease {
    /// A lease that belongs to no request of an exchange.
    pub fn new(
        request_id: [u8; 16],
        connection_path: String,
        setting_name: String,
        deadline: u64,
    ) -> (lease: SecretRequestLease)
        ensures
            lease@ == (LeaseView {
                request_id: request_id@,
                key: KeyView {
                    connection_path: connection_path@,
                    setting_name: setting_name@,
                },
                deadline,
                serial: None,
            }),
    {
        SecretRequestLease {
            request_id,
            key: SecretRequestKey { connection_path, setting_name },
            deadline,
            serial: None,
        }
    }

    /// When the request ends.
    pub fn deadline(&self) -> (deadline: u64)
        ensures
            deadline == self@.deadline,
    {
        self.deadline
    }
}

/// Where a secret goes that was answered.
pub trait NetworkSecretExchange {
    /// The lease that the exchange gives, or why it gives none.
    spec fn leases(&self, now: u64) -> Result<LeaseView, Fault>;

    /// Whether the exchange takes a secret with a lease, or why it does not.
    spec fn takes(&self, lease: LeaseView, now: u64) -> Result<(), Fault>;

    /// The right to answer the request that is open now.
    fn acquire_lease(&self, now: u64) -> (lease: Result<SecretRequestLease, SessionError>)
        ensures
            seen(lease) == self.leases(now),
    ;

    /// Hands a secret to the request of a lease. The secret is moved out of its
    /// place, or wiped there.
    fn submit(
        &mut self,
        lease: &SecretRequestLease,
        secret: &mut LockedSecret,
        now: u64,
    ) -> (done: Result<(), SessionError>)
        ensures
            told(done) == old(self).takes(lease@, now),
            done is Ok ==> moved_out(*final(secret)),
            done is Err ==> erased(*old(secret), *final(secret)),
    ;
}

/// The exchange of a host without NetworkManager.
#[derive(Debug, Clone, Copy)]
pub struct UnavailableNetworkManagerExchange;

impl NetworkSecretExchange for UnavailableNetworkManagerExchange {
    open spec fn leases(&self, now: u64) -> Result<LeaseView, Fault> {
        Err((ErrorKind::NotConnected, "NetworkManager did not request a secret"@))
    }

    open spec fn takes(&self, lease: LeaseView, now: u64) -> Result<(), Fault> {
        Err((ErrorKind::Unsupported, "NetworkManager secret-agent exchange is unavailable"@))
    }

    fn acquire_lease(&self, _now: u64) -> (lease: Result<SecretRequestLease, SessionError>) {
        Err(SessionError::new(ErrorKind::NotConnected, "NetworkManager did not request a secret"))
    }

    fn submit(
        &mut self,
        _lease: &SecretRequestLease,
        secret: &mut LockedSecret,
        _now: u64,
    ) -> (done: Result<(), SessionError>) {
        secret.erase();
        Err(
            SessionError::new(
                ErrorKind::Unsupported,
                "NetworkManager secret-agent exchange is unavailable",
            ),
        )
    }
}

/// The open request of NetworkManager, and those that were cancelled while
/// somebody still looks for their answer.
pub struct NetworkManagerSecretExchange {
    pending: Option<PendingSecretRequest>,
    cancelled: Vec<PendingSecretRequest>,
    begun: u64,
}

pub struct ExchangeView {
    pub pending: Option<RequestView>,
    pub cancelled: Seq<RequestView>,
    pub begun: u64,
}

spec fn request_view(request: Option<PendingSecretRequest>) -> Option<RequestView> {
    match request {
        Some(request) => Some(request@),
        None => None,
    }
}

impl View for NetworkManagerSecretExchange {
    type V = ExchangeView;

    closed spec fn view(&self) -> ExchangeView {
        ExchangeView {
            pending: request_view(self.pending),
            cancelled: views(self.cancelled@),
            begun: self.begun,
        }
    }
}

/// Whoever waits for the answer to a request.
pub struct PendingSecretReceiver {
    pub id: [u8; 16],
    pub key: SecretRequestKey,
    serial: u64,
    deadline: u64,
    waiting: bool,
}

pub struct ReceiverView {
    pub id: Seq<u8>,
    pub key: KeyView,
    pub serial: u64,
    pub deadline: u64,
    /// Whether the wait began in time.
    pub waiting: bool,
}

impl View for PendingSecretReceiver {
    type V = ReceiverView;

    closed spec fn view(&self) -> ReceiverView {
        ReceiverView {
            id: self.id@,
            key: self.key@,
            serial: self.serial,
            deadline: self.deadline,
            waiting: self.waiting,
        }
    }
}

/// The request with a serial number that was cancelled.
pub open spec fn cancelled_at(cancelled: Seq<RequestView>, serial: u64) -> Option<int>
    decreases cancelled.len(),
{
    if cancelled.len() == 0 {
        None
    } else if cancelled.last().serial == serial {
        Some(cancelled.len() - 1)
    } else {
        cancelled_at(cancelled.drop_last(), serial)
    }
}

/// An exchange whose open request was cancelled.
pub open spec fn with_cancelled(exchange: ExchangeView) -> ExchangeView {
    match exchange.pending {
        Some(request) => ExchangeView {
            pending: None,
            cancelled: exchange.cancelled.push(request),
            ..exchange
        },
        None => exchange,
    }
}

/// An exchange in which the open request was cancelled if it has a key and no
/// reply to it was begun.
pub open spec fn with_matching_cancelled(exchange: ExchangeView, key: KeyView) -> ExchangeView {
    match exchange.pending {
        Some(request) => if request.key == key && !request.reply_started {
            with_cancelled(exchange)
        } else {
            exchange
        },
        None => exchange,
    }
}

/// An exchange with a new request.
pub open spec fn with_begun(
    exchange: ExchangeView,
    id: Seq<u8>,
    key: KeyView,
    deadline: u64,
) -> ExchangeView {
    ExchangeView {
        pending: Some(
            RequestView {
                id,
                key,
                slot: SlotView::Empty,
                serial: exchange.begun,
                deadline,
                reply_started: false,
            },
        ),
        begun: (exchange.begun + 1) as u64,
        ..exchange
    }
}

/// An exchange in which the request with an identifier has ended. The end of a
/// request that is not open changes nothing.
pub open spec fn with_completed(exchange: ExchangeView, id: Seq<u8>) -> ExchangeView {
    if is_live(exchange, id) {
        ExchangeView { pending: None, ..exchange }
    } else {
        exchange
    }
}

/// An exchange in which nobody looks any longer for the answer to the request
/// with a serial number.
pub open spec fn with_released(exchange: ExchangeView, serial: u64) -> ExchangeView {
    ExchangeView {
        pending: match exchange.pending {
            Some(request) => Some(
                if request.serial == serial {
                    RequestView { slot: SlotView::Closed, ..request }
                } else {
                    request
                },
            ),
            None => None,
        },
        cancelled: exchange.cancelled.filter(|request: RequestView| request.serial != serial),
        ..exchange
    }
}

/// Whether a secret that a request holds was wiped, and its observer told.
pub open spec fn slot_wiped(request: RequestView) -> bool {
    match request.slot {
        SlotView::Full(held) => observer_told(held.observer, Seq::<u8>::empty()),
        _ => true,
    }
}

proof fn filtered_push(
    requests: Seq<RequestView>,
    request: RequestView,
    keep: spec_fn(RequestView) -> bool,
)
    ensures
        requests.push(request).filter(keep) == if keep(request) {
            requests.filter(keep).push(request)
        } else {
            requests.filter(keep)
        },
{
    reveal(Seq::filter);
    assert(requests.push(request).drop_last() =~= requests);
    assert(requests.push(request).last() == request);
}

/// The lease of the open request.
pub open spec fn lease_of(exchange: ExchangeView, now: u64) -> Result<LeaseView, Fault> {
    match exchange.pending {
        None => Err((ErrorKind::NotConnected, "NetworkManager did not request a secret"@)),
        Some(request) => if now >= request.deadline {
            Err((ErrorKind::NotConnected, "NetworkManager secret request is no longer live"@))
        } else {
            Ok(
                LeaseView {
                    request_id: request.id,
                    key: request.key,
                    deadline: request.deadline,
                    serial: Some(request.serial),
                },
            )
        },
    }
}

/// Whether a lease was taken from a request.
pub open spec fn leased_from(lease: LeaseView, request: RequestView) -> bool {
    &&& lease.request_id == request.id
    &&& lease.key == request.key
    &&& lease.deadline == request.deadline
    &&& lease.serial == Some(request.serial)
}

/// Whether a lease still gives the right to answer.
pub open spec fn may_submit(exchange: ExchangeView, lease: LeaseView, now: u64) -> Result<
    (),
    Fault,
> {
    match exchange.pending {
        None => Err((ErrorKind::NotConnected, "NetworkManager did not request a secret"@)),
        Some(request) => if !leased_from(lease, request) || now >= request.deadline {
            Err((ErrorKind::NotConnected, "NetworkManager secret request lease is stale"@))
        } else if request.slot != SlotView::Empty {
            Err((ErrorKind::BrokenPipe, "NetworkManager secret request was cancelled"@))
        } else {
            Ok(())
        },
    }
}

/// An exchange whose open request was answered.
pub open spec fn with_answer(exchange: ExchangeView, secret: HeldView) -> ExchangeView {
    match exchange.pending {
        Some(request) => ExchangeView {
            pending: Some(RequestView { slot: SlotView::Full(secret), ..request }),
            ..exchange
        },
        None => exchange,
    }
}

/// Whether a request is open and has an identifier.
pub open spec fn is_live(exchange: ExchangeView, id: Seq<u8>) -> bool {
    exchange.pending is Some && exchange.pending->0.id == id
}

impl PendingSecretRequest {
    /// Nobody looks any longer for the answer: what the slot holds is wiped.
    fn close(&mut self)
        ensures
            final(self)@ == (RequestView { slot: SlotView::Closed, ..old(self)@ }),
            slot_wiped(old(self)@),
    {
        let mut slot = SecretSlot::Closed;
        core::mem::swap(&mut slot, &mut self.slot);
        if let SecretSlot::Full(secret) = slot {
            let mut secret = secret;
            secret.erase();
        }
    }

    fn same_id(&self, id: &[u8; 16]) -> (same: bool)
        ensures
            same == (self@.id == id@),
    {
        constant_time_equal(self.id.as_slice(), id.as_slice())
    }
}

impl NetworkManagerSecretExchange {
    pub fn new() -> (exchange: NetworkManagerSecretExchange)
        ensures
            exchange@ == (ExchangeView { pending: None, cancelled: Seq::empty(), begun: 0 }),
    {
        let exchange = NetworkManagerSecretExchange {
            pending: None,
            cancelled: Vec::new(),
            begun: 0,
        };
        assert(exchange@.cancelled =~= Seq::<RequestView>::empty());
        exchange
    }

    /// Begins a request with an identifier drawn at random.
    pub fn begin(&mut self, key: SecretRequestKey, now: u64) -> (receiver: Result<
        PendingSecretReceiver,
        SessionError,
    >)
        requires
            now + SECRET_DEADLINE <= u64::MAX,
            old(self)@.begun < u64::MAX,
        ensures
            match receiver {
                Ok(receiver) => old(self)@.pending is None && final(self)@ == with_begun(
                    old(self)@,
                    receiver@.id,
                    key@,
                    (now + SECRET_DEADLINE) as u64,
                ) && receiver@.key == key@ && receiver@.serial == old(self)@.begun
                    && receiver@.deadline == now + SECRET_DEADLINE && !receiver@.waiting,
                Err(error) => old(self)@.pending is Some && final(self)@ == old(self)@ && error_is(
                    error,
                    ErrorKind::WouldBlock,
                    "NetworkManager already has a pending secret request"@,
                ),
            },
    {
        self.begin_as(uuid_bytes(random_uuid()), key, now)
    }

    /// Begins a request with an identifier.
    pub fn begin_as(&mut self, id: [u8; 16], key: SecretRequestKey, now: u64) -> (receiver: Result<
        PendingSecretReceiver,
        SessionError,
    >)
        requires
            now + SECRET_DEADLINE <= u64::MAX,
            old(self)@.begun < u64::MAX,
        ensures
            match receiver {
                Ok(receiver) => old(self)@.pending is None && final(self)@ == with_begun(
                    old(self)@,
                    id@,
                    key@,
                    (now + SECRET_DEADLINE) as u64,
                ) && receiver@ == (ReceiverView {
                    id: id@,
                    key: key@,
                    serial: old(self)@.begun,
                    deadline: (now + SECRET_DEADLINE) as u64,
                    waiting: false,
                }),
                Err(error) => old(self)@.pending is Some && final(self)@ == old(self)@ && error_is(
                    error,
                    ErrorKind::WouldBlock,
                    "NetworkManager already has a pending secret request"@,
                ),
            },
    {
        if self.pending.is_some() {
            return Err(
                SessionError::new(
                    ErrorKind::WouldBlock,
                    "NetworkManager already has a pending secret request",
                ),
            );
        }
        let deadline: u64 = now + SECRET_DEADLINE;
        let serial: u64 = self.begun;
        self.begun = serial + 1;
        self.pending = Some(
            PendingSecretRequest {
                id,
                key: key.copy(),
                slot: SecretSlot::Empty,
                serial,
                deadline,
                reply_started: false,
            },
        );
        Ok(PendingSecretReceiver { id, key, serial, deadline, waiting: false })
    }

    /// Cancels the open request.
    pub fn cancel(&mut self)
        ensures
            final(self)@ == with_cancelled(old(self)@),
    {
        if let Some(request) = self.pending.take() {
            let ghost before = self.cancelled@;
            self.cancelled.push(request);
            proof {
                views_of_push(before, request);
            }
        }
    }

    /// Cancels the open request if it has a key and no reply to it was begun.
    pub fn cancel_matching(&mut self, key: &SecretRequestKey)
        ensures
            final(self)@ == with_matching_cancelled(old(self)@, key@),
    {
        let matching = match &self.pending {
            Some(request) => request.key.same(key) && !request.reply_started,
            None => false,
        };
        if matching {
            self.cancel();
        }
    }

    /// Ends the open request if it has an identifier; what it still holds is
    /// wiped. The end of another request changes nothing.
    pub fn complete(&mut self, id: &[u8; 16])
        ensures
            final(self)@ == with_completed(old(self)@, id@),
            is_live(old(self)@, id@) ==> slot_wiped(old(self)@.pending->0),
    {
        let matching = match &self.pending {
            Some(request) => request.same_id(id),
            None => false,
        };
        if matching {
            if let Some(request) = self.pending.take() {
                let mut request = request;
                request.close();
            }
        }
    }

    /// Lets go of a receiver: nobody looks any longer for the answer to its
    /// request, and what that holds is wiped.
    pub fn release(&mut self, receiver: PendingSecretReceiver)
        ensures
            final(self)@ == with_released(old(self)@, receiver@.serial),
            old(self)@.pending is Some && old(self)@.pending->0.serial == receiver@.serial
                ==> slot_wiped(old(self)@.pending->0),
            forall|i: int|
                0 <= i < old(self)@.cancelled.len() && (#[trigger] old(self)@.cancelled[i]).serial
                    == receiver@.serial ==> slot_wiped(old(self)@.cancelled[i]),
    {
        let serial: u64 = receiver.serial;
        let matching = match &self.pending {
            Some(request) => request.serial == serial,
            None => false,
        };
        if matching {
            if let Some(request) = self.pending.take() {
                let mut request = request;
                request.close();
                self.pending = Some(request);
            }
        }
        let ghost pending = self.pending;
        let ghost all = views(self.cancelled@);
        let ghost kept_of = |request: RequestView| request.serial != serial;
        let ghost done = Seq::<RequestView>::empty();
        let mut kept: Vec<PendingSecretRequest> = Vec::new();
        assert(done + all =~= all);
        assert(views(kept@) =~= done.filter(kept_of));
        while self.cancelled.len() > 0
            invariant
                views(kept@) == done.filter(kept_of),
                done + views(self.cancelled@) == all,
                kept_of == (|request: RequestView| request.serial != serial),
                self.pending == pending,
                self.begun == old(self).begun,
                forall|i: int|
                    0 <= i < done.len() && (#[trigger] done[i]).serial == serial ==> slot_wiped(
                        done[i],
                    ),
            decreases self.cancelled@.len(),
        {
            let ghost rest = views(self.cancelled@);
            let mut request = self.cancelled.remove(0);
            let ghost next = request@;
            proof {
                assert(rest[0] == next);
                assert(views(self.cancelled@) =~= rest.skip(1));
                assert(done.push(next) + views(self.cancelled@) =~= all);
                filtered_push(done, next, kept_of);
                done = done.push(next);
            }
            if request.serial == serial {
                request.close();
            } else {
                let ghost before = kept@;
                kept.push(request);
                proof {
                    views_of_push(before, request);
                }
            }
        }
        proof {
            assert(views(self.cancelled@) =~= Seq::<RequestView>::empty());
            assert(done =~= all);
        }
        self.cancelled = kept;
    }

    /// Whether a request is open.
    pub fn is_pending(&self) -> (pending: bool)
        ensures
            pending == self@.pending is Some,
    {
        self.pending.is_some()
    }

    /// The identifier of the open request.
    pub fn pending_id(&self) -> (id: Option<[u8; 16]>)
        ensures
            match id {
                Some(id) => self@.pending is Some && self@.pending->0.id == id@,
                None => self@.pending is None,
            },
    {
        match &self.pending {
            Some(request) => Some(request.id),
            None => None,
        }
    }

    /// Where the request of a receiver stands among those that were cancelled.
    fn cancelled_place(&self, serial: u64) -> (at: Option<usize>)
        ensures
            match at {
                Some(at) => at < self.cancelled@.len() && cancelled_at(self@.cancelled, serial)
                    == Some(at as int),
                None => cancelled_at(self@.cancelled, serial) is None,
            },
    {
        let mut at: usize = self.cancelled.len();
        let ghost all = self@.cancelled;
        assert(all.take(all.len() as int) =~= all);
        while at > 0
            invariant
                at <= self.cancelled@.len(),
                all == views(self.cancelled@),
                cancelled_at(all, serial) == cancelled_at(all.take(at as int), serial),
            decreases at,
        {
            at = at - 1;
            proof {
                let shown = all.take(at + 1);
                assert(shown.last() == self.cancelled@[at as int]@);
                assert(shown.drop_last() =~= all.take(at as int));
            }
            if self.cancelled[at].serial == serial {
                return Some(at);
            }
        }
        None
    }

    /// Whether the request of a receiver was cancelled.
    pub fn is_cancelled(&self, receiver: &PendingSecretReceiver) -> (cancelled: bool)
        ensures
            cancelled == cancelled_at(self@.cancelled, receiver@.serial) is Some,
    {
        self.cancelled_place(receiver.serial).is_some()
    }

    /// Sends the reply to a request, unless the request is no longer open.
    /// Nothing is sent for one that was cancelled or has ended.
    pub fn send_reply_if_live<F: FnOnce() -> bool>(&mut self, id: &[u8; 16], send: F) -> (sent:
        bool)
        requires
            is_live(old(self)@, id@) ==> call_requires(send, ()),
        ensures
            if is_live(old(self)@, id@) {
                &&& call_ensures(send, (), sent)
                &&& final(self)@ == ExchangeView {
                    pending: Some(
                        RequestView { reply_started: true, ..old(self)@.pending->0 },
                    ),
                    ..old(self)@
                }
            } else {
                !sent && final(self)@ == old(self)@
            },
    {
        let live = match &self.pending {
            Some(request) => request.same_id(id),
            None => false,
        };
        if !live {
            return false;
        }
        if let Some(request) = self.pending.take() {
            let mut request = request;
            request.reply_started = true;
            self.pending = Some(request);
        }
        send()
    }
}

impl NetworkSecretExchange for NetworkManagerSecretExchange {
    open spec fn leases(&self, now: u64) -> Result<LeaseView, Fault> {
        lease_of(self@, now)
    }

    open spec fn takes(&self, lease: LeaseView, now: u64) -> Result<(), Fault> {
        may_submit(self@, lease, now)
    }

    fn acquire_lease(&self, now: u64) -> (lease: Result<SecretRequestLease, SessionError>) {
        let request = match &self.pending {
            Some(request) => request,
            None => {
                return Err(
                    SessionError::new(
                        ErrorKind::NotConnected,
                        "NetworkManager did not request a secret",
                    ),
                );
            },
        };
        if now >= request.deadline {
            return Err(
                SessionError::new(
                    ErrorKind::NotConnected,
                    "NetworkManager secret request is no longer live",
                ),
            );
        }
        Ok(
            SecretRequestLease {
                request_id: request.id,
                key: request.key.copy(),
                deadline: request.deadline,
                serial: Some(request.serial),
            },
        )
    }

    fn submit(
        &mut self,
        lease: &SecretRequestLease,
        secret: &mut LockedSecret,
        now: u64,
    ) -> (done: Result<(), SessionError>)
        ensures
            final(self)@ == if done is Ok {
                with_answer(old(self)@, old(secret).held())
            } else {
                old(self)@
            },
    {
        let request = match self.pending.take() {
            Some(request) => request,
            None => {
                secret.erase();
                return Err(
                    SessionError::new(
                        ErrorKind::NotConnected,
                        "NetworkManager did not request a secret",
                    ),
                );
            },
        };
        let mut request = request;
        let ghost before = request@;
        let serial_matches = match lease.serial {
            Some(serial) => serial == request.serial,
            None => false,
        };
        let matching = request.same_id(&lease.request_id) && request.key.same(&lease.key)
            && request.deadline == lease.deadline && serial_matches;
        let verdict = if !matching || now >= request.deadline {
            secret.erase();
            Err(
                SessionError::new(
                    ErrorKind::NotConnected,
                    "NetworkManager secret request lease is stale",
                ),
            )
        } else {
            let empty = match &request.slot {
                SecretSlot::Empty => true,
                _ => false,
            };
            if empty {
                request.slot = SecretSlot::Full(secret.take());
                Ok(())
            } else {
                secret.erase();
                Err(
                    SessionError::new(
                        ErrorKind::BrokenPipe,
                        "NetworkManager secret request was cancelled",
                    ),
                )
            }
        };
        self.pending = Some(request);
        verdict
    }
}

/// Hands the answer of a client on to the request of a lease. Only the answer to the
/// challenge that was posed is handed on; any other is wiped, and the exchange does
/// not see it.
pub fn hand_in<X: NetworkSecretExchange>(
    broker: &mut SecretBroker,
    exchange: &mut X,
    lease: &SecretRequestLease,
    locked: &mut LockedSecret,
    now: u64,
) -> (done: Result<(), SessionError>)
    ensures
        final(broker)@ == challenge_after(old(broker)@, old(locked).frame()),
        final(broker).observer() == old(broker).observer(),
        match answered(old(broker)@, old(locked).frame(), now) {
            Err(fault) => {
                &&& told(done) == Err::<(), Fault>(fault)
                &&& erased(*old(locked), *final(locked))
                &&& *final(exchange) == *old(exchange)
            },
            Ok(()) => {
                &&& told(done) == old(exchange).takes(lease@, now)
                &&& done is Ok ==> moved_out(*final(locked))
                &&& done is Err ==> moved_out(*final(locked)) && observer_told(
                    old(locked).observer(),
                    Seq::<u8>::empty(),
                )
            },
        },
{
    match broker.accept_locked_response(locked, now) {
        Ok(()) => exchange.submit(lease, locked, now),
        Err(error) => Err(error),
    }
}

/// Whether a client of the secret socket is the user of the session.
pub fn authorize_secret_peer(uid: u32, expected_uid: u32) -> (authorized: Result<(), SessionError>)
    ensures
        told(authorized) == if uid == expected_uid {
            Ok(())
        } else {
            Err((ErrorKind::PermissionDenied, "secret socket peer UID mismatch"@))
        },
{
    if uid != expected_uid {
        return Err(
            SessionError::new(ErrorKind::PermissionDenied, "secret socket peer UID mismatch"),
        );
    }
    Ok(())
}

// ---------------------------------------------------------------------------
// Waiting for an answer
// ---------------------------------------------------------------------------

/// What a look for the answer to a request finds.
pub enum SecretWait {
    /// Nothing yet; it is worth waiting this long.
    Pending(u64),
    Ready(LockedSecret),
    Failed(SessionError),
}

pub enum WaitView {
    Pending(u64),
    Ready(HeldView),
    Failed(Fault),
}

impl View for SecretWait {
    type V = WaitView;

    open spec fn view(&self) -> WaitView {
        match self {
            SecretWait::Pending(left) => WaitView::Pending(*left),
            SecretWait::Ready(secret) => WaitView::Ready(secret.held()),
            SecretWait::Failed(error) => WaitView::Failed(fault_of(*error)),
        }
    }
}

pub open spec fn response_late() -> Fault {
    (ErrorKind::TimedOut, "network secret response exceeded its total deadline"@)
}

pub open spec fn response_lost() -> Fault {
    (ErrorKind::BrokenPipe, "network secret response channel closed"@)
}

pub open spec fn request_cancelled() -> Fault {
    (ErrorKind::Interrupted, "NetworkManager secret request was cancelled"@)
}

/// What is found in the slot of a request that is still open.
pub open spec fn found_open(held: HeldView, deadline: u64, now: u64) -> WaitView {
    if now >= deadline {
        WaitView::Failed(request_cancelled())
    } else if !valid_utf8(held.secret) {
        WaitView::Failed((ErrorKind::InvalidData, "NetworkManager Wi-Fi secret must be UTF-8"@))
    } else {
        WaitView::Ready(held)
    }
}

/// Whether a wait is over before it began.
pub open spec fn too_late_to_wait(receiver: ReceiverView, now: u64) -> bool {
    !receiver.waiting && now >= receiver.deadline
}

/// What a look for the answer finds, and the exchange after it. An answer is
/// taken at most once, and none where the first look came too late.
pub open spec fn looked_for(exchange: ExchangeView, receiver: ReceiverView, now: u64) -> (
    ExchangeView,
    WaitView,
) {
    if too_late_to_wait(receiver, now) {
        (with_matching_cancelled(exchange, receiver.key), WaitView::Failed(response_late()))
    } else if exchange.pending is Some && exchange.pending->0.serial == receiver.serial {
        let request = exchange.pending->0;
        match request.slot {
            SlotView::Full(secret) => (
                ExchangeView {
                    pending: Some(RequestView { slot: SlotView::Closed, ..request }),
                    ..exchange
                },
                found_open(secret, receiver.deadline, now),
            ),
            _ => if now >= receiver.deadline {
                (
                    with_matching_cancelled(exchange, receiver.key),
                    WaitView::Failed(response_late()),
                )
            } else {
                (exchange, WaitView::Pending((receiver.deadline - now) as u64))
            },
        }
    } else {
        match cancelled_at(exchange.cancelled, receiver.serial) {
            Some(at) => match exchange.cancelled[at].slot {
                SlotView::Full(_) => (
                    ExchangeView {
                        cancelled: exchange.cancelled.update(
                            at,
                            RequestView { slot: SlotView::Closed, ..exchange.cancelled[at] },
                        ),
                        ..exchange
                    },
                    WaitView::Failed(request_cancelled()),
                ),
                _ => (
                    with_matching_cancelled(exchange, receiver.key),
                    WaitView::Failed(response_lost()),
                ),
            },
            None => (
                with_matching_cancelled(exchange, receiver.key),
                WaitView::Failed(response_lost()),
            ),
        }
    }
}

/// The request that a receiver waits for, if somebody still holds it.
pub open spec fn awaited(exchange: ExchangeView, receiver: ReceiverView) -> Option<RequestView> {
    if exchange.pending is Some && exchange.pending->0.serial == receiver.serial {
        exchange.pending
    } else {
        match cancelled_at(exchange.cancelled, receiver.serial) {
            Some(at) => Some(exchange.cancelled[at]),
            None => None,
        }
    }
}

impl PendingSecretRequest {
    /// Takes the answer out of a request, where there is one.
    fn take_answer(&mut self) -> (secret: Option<LockedSecret>)
        ensures
            match secret {
                Some(secret) => old(self)@.slot == SlotView::Full(secret.held()) && final(self)@ == (
                RequestView { slot: SlotView::Closed, ..old(self)@ }),
                None => !(old(self)@.slot is Full) && final(self)@ == old(self)@,
            },
    {
        let full = match &self.slot {
            SecretSlot::Full(_) => true,
            _ => false,
        };
        if !full {
            return None;
        }
        let mut slot = SecretSlot::Closed;
        core::mem::swap(&mut slot, &mut self.slot);
        match slot {
            SecretSlot::Full(secret) => Some(secret),
            _ => None,
        }
    }
}

impl NetworkManagerSecretExchange {
    /// Looks for the answer to a request. The first look begins the wait; a request
    /// whose time is over by then is cancelled. A secret that cannot be used is wiped.
    pub fn finish_get_secrets(&mut self, receiver: &mut PendingSecretReceiver, now: u64) -> (wait:
        SecretWait)
        ensures
            (final(self)@, wait@) == looked_for(old(self)@, old(receiver)@, now),
            final(receiver)@ == if too_late_to_wait(old(receiver)@, now) {
                old(receiver)@
            } else {
                ReceiverView { waiting: true, ..old(receiver)@ }
            },
            wait is Failed && awaited(old(self)@, old(receiver)@) is Some && !too_late_to_wait(
                old(receiver)@,
                now,
            ) ==> slot_wiped(awaited(old(self)@, old(receiver)@)->0),
    {
        if !receiver.waiting {
            if receiver.deadline <= now {
                self.cancel_matching(&receiver.key);
                return SecretWait::Failed(
                    SessionError::new(
                        ErrorKind::TimedOut,
                        "network secret response exceeded its total deadline",
                    ),
                );
            }
            receiver.waiting = true;
        }
        self.look(receiver, now)
    }

    /// Looks for the answer to a request whose wait began.
    fn look(&mut self, receiver: &PendingSecretReceiver, now: u64) -> (wait: SecretWait)
        requires
            receiver@.waiting,
        ensures
            (final(self)@, wait@) == looked_for(old(self)@, receiver@, now),
            wait is Failed && awaited(old(self)@, receiver@) is Some ==> slot_wiped(
                awaited(old(self)@, receiver@)->0,
            ),
    {
        let open = match &self.pending {
            Some(request) => request.serial == receiver.serial,
            None => false,
        };
        if open {
            return self.look_in_open(receiver, now);
        }
        if let Some(at) = self.cancelled_place(receiver.serial) {
            let ghost before = self.cancelled@;
            let mut request = self.cancelled.remove(at);
            let secret = request.take_answer();
            self.cancelled.insert(at, request);
            proof {
                assert(views(before)[at as int] == before[at as int]@);
                assert(views(self.cancelled@) =~= views(before).update(at as int, request@));
                assert(secret is None ==> views(self.cancelled@) =~= views(before));
            }
            if let Some(secret) = secret {
                let mut secret = secret;
                secret.erase();
                return SecretWait::Failed(
                    SessionError::new(
                        ErrorKind::Interrupted,
                        "NetworkManager secret request was cancelled",
                    ),
                );
            }
        }
        self.cancel_matching(&receiver.key);
        SecretWait::Failed(
            SessionError::new(ErrorKind::BrokenPipe, "network secret response channel closed"),
        )
    }

    fn look_in_open(&mut self, receiver: &PendingSecretReceiver, now: u64) -> (wait: SecretWait)
        requires
            receiver@.waiting,
            old(self)@.pending is Some,
            old(self)@.pending->0.serial == receiver@.serial,
        ensures
            (final(self)@, wait@) == looked_for(old(self)@, receiver@, now),
            wait is Failed && awaited(old(self)@, receiver@) is Some ==> slot_wiped(
                awaited(old(self)@, receiver@)->0,
            ),
    {
        let mut answer: Option<LockedSecret> = None;
        if let Some(request) = self.pending.take() {
            let mut request = request;
            answer = request.take_answer();
            self.pending = Some(request);
        }
        match answer {
            Some(secret) => {
                let mut secret = secret;
                if now >= receiver.deadline {
                    secret.erase();
                    return SecretWait::Failed(
                        SessionError::new(
                            ErrorKind::Interrupted,
                            "NetworkManager secret request was cancelled",
                        ),
                    );
                }
                if !is_utf8(secret.expose()) {
                    secret.erase();
                    return SecretWait::Failed(
                        SessionError::new(
                            ErrorKind::InvalidData,
                            "NetworkManager Wi-Fi secret must be UTF-8",
                        ),
                    );
                }
                SecretWait::Ready(secret)
            },
            None => {
                if now >= receiver.deadline {
                    self.cancel_matching(&receiver.key);
                    return SecretWait::Failed(
                        SessionError::new(
                            ErrorKind::TimedOut,
                            "network secret response exceeded its total deadline",
                        ),
                    );
                }
                SecretWait::Pending(receiver.deadline - now)
            },
        }
    }
}

// ---------------------------------------------------------------------------
// The peer on the bus
// ---------------------------------------------------------------------------

pub const NETWORK_MANAGER: &'static str = "org.freedesktop.NetworkManager";

/// The one connection on the bus whose requests are taken.
pub struct NetworkManagerPeerAuthority {
    unique_owner: Option<String>,
}

impl View for NetworkManagerPeerAuthority {
    type V = Option<Seq<char>>;

    closed spec fn view(&self) -> Option<Seq<char>> {
        optional_text(self.unique_owner)
    }
}

/// Whether a sender may make requests.
pub open spec fn authorized(owner: Option<Seq<char>>, sender: Option<Seq<char>>) -> Result<
    (),
    Fault,
> {
    match sender {
        None => Err(
            (
                ErrorKind::PermissionDenied,
                "NetworkManager request has no authenticated D-Bus sender"@,
            ),
        ),
        Some(_) => if owner != sender {
            Err(
                (
                    ErrorKind::PermissionDenied,
                    "NetworkManager request sender is not the pinned unique owner"@,
                ),
            )
        } else {
            Ok(())
        },
    }
}

/// Whether an owner of the name can be trusted to be NetworkManager: it is a
/// unique name, and it runs as root where that is known.
pub open spec fn trusted_owner(owner: Seq<char>, uid: Option<u32>) -> Result<(), Fault> {
    if !(owner.len() > 0 && owner[0] == ':') {
        Err(
            (
                ErrorKind::PermissionDenied,
                "NetworkManager did not resolve to a unique D-Bus owner"@,
            ),
        )
    } else if uid is Some && uid != Some(0u32) {
        Err((ErrorKind::PermissionDenied, "NetworkManager D-Bus owner is not privileged"@))
    } else {
        Ok(())
    }
}

/// Checks the name that an owner has before anything else is asked about it.
pub fn check_unique_owner(owner: &str) -> (checked: Result<(), SessionError>)
    ensures
        told(checked) == trusted_owner(owner@, None),
{
    check_network_manager_owner(owner, None)
}

pub fn check_network_manager_owner(owner: &str, uid: Option<u32>) -> (checked: Result<
    (),
    SessionError,
>)
    ensures
        told(checked) == trusted_owner(owner@, uid),
{
    let chars = chars_of(owner);
    if chars.len() == 0 || chars[0] != ':' {
        return Err(
            SessionError::new(
                ErrorKind::PermissionDenied,
                "NetworkManager did not resolve to a unique D-Bus owner",
            ),
        );
    }
    match uid {
        Some(uid) => if uid != 0 {
            Err(
                SessionError::new(
                    ErrorKind::PermissionDenied,
                    "NetworkManager D-Bus owner is not privileged",
                ),
            )
        } else {
            Ok(())
        },
        None => Ok(()),
    }
}

impl NetworkManagerPeerAuthority {
    pub fn new(unique_owner: String) -> (authority: NetworkManagerPeerAuthority)
        ensures
            authority@ == Some(unique_owner@),
    {
        NetworkManagerPeerAuthority { unique_owner: Some(unique_owner) }
    }

    pub fn authorize(&self, sender: Option<&str>) -> (verdict: Result<(), SessionError>)
        ensures
            told(verdict) == authorized(
                self@,
                match sender {
                    Some(sender) => Some(sender@),
                    None => None,
                },
            ),
    {
        let sender = match sender {
            Some(sender) => sender,
            None => {
                return Err(
                    SessionError::new(
                        ErrorKind::PermissionDenied,
                        "NetworkManager request has no authenticated D-Bus sender",
                    ),
                );
            },
        };
        let pinned = match &self.unique_owner {
            Some(owner) => same_text(owner.as_str(), sender),
            None => false,
        };
        if !pinned {
            return Err(
                SessionError::new(
                    ErrorKind::PermissionDenied,
                    "NetworkManager request sender is not the pinned unique owner",
                ),
            );
        }
        Ok(())
    }

    pub fn replace(&mut self, owner: Option<String>)
        ensures
            final(self)@ == optional_text(owner),
    {
        self.unique_owner = owner;
    }

    /// Takes note that a name on the bus has another owner. When it is that of
    /// NetworkManager, the open request is cancelled and nobody is trusted until
    /// the new owner was resolved; tells whether there is one to resolve.
    pub fn owner_changed(
        &mut self,
        exchange: &mut NetworkManagerSecretExchange,
        name: &str,
        new_owner: &str,
    ) -> (resolve: bool)
        ensures
            resolve == (name@ == NETWORK_MANAGER@ && new_owner@.len() > 0),
            if name@ == NETWORK_MANAGER@ {
                final(self)@ is None && final(exchange)@ == with_cancelled(old(exchange)@)
            } else {
                final(self)@ == old(self)@ && final(exchange)@ == old(exchange)@
            },
    {
        if !same_text(name, NETWORK_MANAGER) {
            return false;
        }
        exchange.cancel();
        self.replace(None);
        chars_of(new_owner).len() > 0
    }

    /// Pins the owner that was resolved, if it is the one that was announced;
    /// tells whether it was pinned.
    pub fn owner_resolved(
        &mut self,
        resolved: Result<String, SessionError>,
        new_owner: &str,
    ) -> (pinned: bool)
        ensures
            pinned == (resolved is Ok && resolved->Ok_0@ == new_owner@),
            final(self)@ == if pinned {
                Some(new_owner@)
            } else {
                old(self)@
            },
    {
        match resolved {
            Ok(owner) => {
                if !same_text(owner.as_str(), new_owner) {
                    return false;
                }
                self.replace(Some(owner));
                true
            },
            Err(_) => false,
        }
    }

    /// Trusts nobody where registering with the pinned owner failed.
    pub fn registered(&mut self, outcome: Result<(), SessionError>)
        ensures
            final(self)@ == if outcome is Ok {
                old(self)@
            } else {
                None
            },
    {
        if outcome.is_err() {
            self.replace(None);
        }
    }
}

// ---------------------------------------------------------------------------
// Methods of the agent
// ---------------------------------------------------------------------------

/// An argument of a method call: its signature, and its value where it is a
/// text or a path.
pub struct BusArgument {
    pub signature: String,
    pub text: String,
}

pub open spec fn signature_at(arguments: Seq<BusArgument>, at: int, signature: Seq<char>) -> bool {
    0 <= at < arguments.len() && arguments[at].signature@ == signature
}

fn has_signature(arguments: &[BusArgument], at: usize, signature: &str) -> (has: bool)
    ensures
        has == signature_at(arguments@, at as int, signature@),
{
    at < arguments.len() && same_text(arguments[at].signature.as_str(), signature)
}

/// Why the arguments of a call were not taken.
pub enum ArgumentFault {
    Failed(SessionError),
    /// The argument at this place is not of the type that is read there.
    Unreadable(usize),
}

pub enum ArgumentTrouble {
    Failed(Fault),
    Unreadable(int),
}

impl View for ArgumentFault {
    type V = ArgumentTrouble;

    open spec fn view(&self) -> ArgumentTrouble {
        match self {
            ArgumentFault::Failed(error) => ArgumentTrouble::Failed(fault_of(*error)),
            ArgumentFault::Unreadable(at) => ArgumentTrouble::Unreadable(*at as int),
        }
    }
}

pub open spec fn trouble<T>(message: Seq<char>) -> Result<T, ArgumentTrouble> {
    Err(ArgumentTrouble::Failed((ErrorKind::InvalidInput, message)))
}

/// Whether an argument is skipped: it has a signature, and others follow it.
pub open spec fn is_skipped(arguments: Seq<BusArgument>, at: int, signature: Seq<char>) -> bool {
    signature_at(arguments, at, signature) && at + 1 < arguments.len()
}

fn require_argument(arguments: &[BusArgument], at: usize, signature: &str) -> (skipped: bool)
    ensures
        skipped == is_skipped(arguments@, at as int, signature@),
{
    has_signature(arguments, at, signature) && at < arguments.len() - 1
}

/// What a request for secrets asks for.
pub open spec fn secrets_wanted(arguments: Seq<BusArgument>) -> Result<KeyView, ArgumentTrouble> {
    if !is_skipped(arguments, 0, "a{sa{sv}}"@) {
        trouble("NetworkManager connection settings has an invalid D-Bus type"@)
    } else if !signature_at(arguments, 1, "o"@) {
        Err(ArgumentTrouble::Unreadable(1))
    } else if !signature_at(arguments, 2, "s"@) {
        Err(ArgumentTrouble::Unreadable(2))
    } else if !is_skipped(arguments, 3, "as"@) {
        trouble("NetworkManager secret hints has an invalid D-Bus type"@)
    } else if !signature_at(arguments, 4, "u"@) {
        Err(ArgumentTrouble::Unreadable(4))
    } else if arguments.len() > 5 {
        trouble("NetworkManager secret request has trailing arguments"@)
    } else if arguments[2].text@ != "802-11-wireless-security"@ {
        Err(
            ArgumentTrouble::Failed(
                (ErrorKind::Unsupported, "only Wi-Fi security secrets are supported"@),
            ),
        )
    } else {
        Ok(KeyView { connection_path: arguments[1].text@, setting_name: arguments[2].text@ })
    }
}

/// What a key or the trouble with it says.
pub open spec fn key_seen(result: Result<SecretRequestKey, ArgumentFault>) -> Result<
    KeyView,
    ArgumentTrouble,
> {
    match result {
        Ok(key) => Ok(key@),
        Err(fault) => Err(fault@),
    }
}

fn argument_error<T>(message: &str) -> (result: Result<T, ArgumentFault>)
    ensures
        result is Err,
        result->Err_0@ == ArgumentTrouble::Failed((ErrorKind::InvalidInput, message@)),
{
    Err(ArgumentFault::Failed(SessionError::new(ErrorKind::InvalidInput, message)))
}

/// Reads the arguments of `GetSecrets`.
pub fn begin_get_secrets(arguments: &[BusArgument]) -> (key: Result<
    SecretRequestKey,
    ArgumentFault,
>)
    ensures
        key_seen(key) == secrets_wanted(arguments@),
{
    if !require_argument(arguments, 0, "a{sa{sv}}") {
        return argument_error("NetworkManager connection settings has an invalid D-Bus type");
    }
    if !has_signature(arguments, 1, "o") {
        return Err(ArgumentFault::Unreadable(1));
    }
    if !has_signature(arguments, 2, "s") {
        return Err(ArgumentFault::Unreadable(2));
    }
    if !require_argument(arguments, 3, "as") {
        return argument_error("NetworkManager secret hints has an invalid D-Bus type");
    }
    if !has_signature(arguments, 4, "u") {
        return Err(ArgumentFault::Unreadable(4));
    }
    if arguments.len() > 5 {
        return argument_error("NetworkManager secret request has trailing arguments");
    }
    if !same_text(arguments[2].text.as_str(), "802-11-wireless-security") {
        return Err(
            ArgumentFault::Failed(
                SessionError::new(
                    ErrorKind::Unsupported,
                    "only Wi-Fi security secrets are supported",
                ),
            ),
        );
    }
    Ok(
        SecretRequestKey {
            connection_path: arguments[1].text.clone(),
            setting_name: arguments[2].text.clone(),
        },
    )
}

/// What a cancellation cancels.
pub open spec fn cancellation_of(arguments: Seq<BusArgument>) -> Result<KeyView, ArgumentTrouble> {
    if !signature_at(arguments, 0, "o"@) {
        Err(ArgumentTrouble::Unreadable(0))
    } else if !signature_at(arguments, 1, "s"@) {
        Err(ArgumentTrouble::Unreadable(1))
    } else if arguments.len() > 2 {
        trouble("NetworkManager secret request has trailing arguments"@)
    } else {
        Ok(KeyView { connection_path: arguments[0].text@, setting_name: arguments[1].text@ })
    }
}

/// Reads the arguments of `CancelGetSecrets`.
pub fn read_cancel_args(arguments: &[BusArgument]) -> (key: Result<
    SecretRequestKey,
    ArgumentFault,
>)
    ensures
        key_seen(key) == cancellation_of(arguments@),
{
    if !has_signature(arguments, 0, "o") {
        return Err(ArgumentFault::Unreadable(0));
    }
    if !has_signature(arguments, 1, "s") {
        return Err(ArgumentFault::Unreadable(1));
    }
    if arguments.len() > 2 {
        return argument_error("NetworkManager secret request has trailing arguments");
    }
    Ok(
        SecretRequestKey {
            connection_path: arguments[0].text.clone(),
            setting_name: arguments[1].text.clone(),
        },
    )
}

/// Whether the arguments are the settings of a connection and its path.
pub open spec fn connection_and_path(arguments: Seq<BusArgument>) -> Result<(), ArgumentTrouble> {
    if !is_skipped(arguments, 0, "a{sa{sv}}"@) {
        trouble("NetworkManager connection settings has an invalid D-Bus type"@)
    } else if !signature_at(arguments, 1, "o"@) {
        Err(ArgumentTrouble::Unreadable(1))
    } else if arguments.len() > 2 {
        trouble("NetworkManager secret request has trailing arguments"@)
    } else {
        Ok(())
    }
}

/// What a reply without a value says.
pub open spec fn reply_seen(result: Result<(), ArgumentFault>) -> Result<(), ArgumentTrouble> {
    match result {
        Ok(()) => Ok(()),
        Err(fault) => Err(fault@),
    }
}

/// Reads the arguments of `SaveSecrets` and `DeleteSecrets`.
pub fn read_connection_and_path(arguments: &[BusArgument]) -> (read: Result<(), ArgumentFault>)
    ensures
        reply_seen(read) == connection_and_path(arguments@),
{
    if !require_argument(arguments, 0, "a{sa{sv}}") {
        return argument_error("NetworkManager connection settings has an invalid D-Bus type");
    }
    if !has_signature(arguments, 1, "o") {
        return Err(ArgumentFault::Unreadable(1));
    }
    if arguments.len() > 2 {
        return argument_error("NetworkManager secret request has trailing arguments");
    }
    Ok(())
}

/// What a method of the agent other than `GetSecrets` answers.
pub open spec fn method_reply(member: Option<Seq<char>>, arguments: Seq<BusArgument>) -> Result<
    (),
    ArgumentTrouble,
> {
    if member == Some("GetSecrets"@) {
        Err(
            ArgumentTrouble::Failed(
                (ErrorKind::WouldBlock, "NetworkManager secret request was already dispatched"@),
            ),
        )
    } else if member == Some("CancelGetSecrets"@) {
        match cancellation_of(arguments) {
            Ok(_) => Ok(()),
            Err(fault) => Err(fault),
        }
    } else if member == Some("SaveSecrets"@) || member == Some("DeleteSecrets"@) {
        connection_and_path(arguments)
    } else {
        Err(
            ArgumentTrouble::Failed(
                (ErrorKind::Unsupported, "unknown NetworkManager secret-agent method"@),
            ),
        )
    }
}

/// The exchange after a method of the agent: only a cancellation changes it.
pub open spec fn exchange_after_method(
    exchange: ExchangeView,
    member: Option<Seq<char>>,
    arguments: Seq<BusArgument>,
) -> ExchangeView {
    if member == Some("CancelGetSecrets"@) && cancellation_of(arguments) is Ok {
        with_matching_cancelled(exchange, cancellation_of(arguments)->Ok_0)
    } else {
        exchange
    }
}

/// Carries a method of the agent out.
pub fn handle_network_manager_method(
    member: Option<&str>,
    arguments: &[BusArgument],
    exchange: &mut NetworkManagerSecretExchange,
) -> (reply: Result<(), ArgumentFault>)
    ensures
        ({
            let name = match member {
                Some(member) => Some(member@),
                None => None,
            };
            &&& reply_seen(reply) == method_reply(name, arguments@)
            &&& final(exchange)@ == exchange_after_method(old(exchange)@, name, arguments@)
        }),
{
    let unknown = SessionError::new(
        ErrorKind::Unsupported,
        "unknown NetworkManager secret-agent method",
    );
    let member = match member {
        Some(member) => member,
        None => {
            return Err(ArgumentFault::Failed(unknown));
        },
    };
    proof {
        reveal_strlit("GetSecrets");
        reveal_strlit("CancelGetSecrets");
        reveal_strlit("SaveSecrets");
        reveal_strlit("DeleteSecrets");
        assert("GetSecrets"@.len() != "CancelGetSecrets"@.len());
        assert("SaveSecrets"@.len() != "CancelGetSecrets"@.len());
        assert("DeleteSecrets"@.len() != "CancelGetSecrets"@.len());
    }
    if same_text(member, "GetSecrets") {
        return Err(
            ArgumentFault::Failed(
                SessionError::new(
                    ErrorKind::WouldBlock,
                    "NetworkManager secret request was already dispatched",
                ),
            ),
        );
    }
    if same_text(member, "CancelGetSecrets") {
        return match read_cancel_args(arguments) {
            Ok(key) => {
                exchange.cancel_matching(&key);
                Ok(())
            },
            Err(fault) => Err(fault),
        };
    }
    if same_text(member, "SaveSecrets") || same_text(member, "DeleteSecrets") {
        return read_connection_and_path(arguments);
    }
    Err(ArgumentFault::Failed(unknown))
}

/// The text of an error on the bus, which cannot hold a zero character.
pub fn secret_error_text(error: &SessionError) -> (text: String)
    ensures
        text@ == replaced(error.message@, '\0', ' '),
{
    let chars = chars_of(error.message.as_str());
    string_of(replace_char(chars.as_slice(), '\0', ' ').as_slice())
}

/// The class of a failure that the bus names.
pub open spec fn bus_failure(name: Option<Seq<char>>) -> ErrorKind {
    if name == Some("org.freedesktop.DBus.Error.AccessDenied"@) {
        ErrorKind::PermissionDenied
    } else if name == Some("org.freedesktop.DBus.Error.NoReply"@) {
        ErrorKind::TimedOut
    } else if name == Some("org.freedesktop.DBus.Error.NameHasNoOwner"@) || name == Some(
        "org.freedesktop.DBus.Error.ServiceUnknown"@,
    ) {
        ErrorKind::NotFound
    } else {
        ErrorKind::Other
    }
}

/// The error for a failure that the bus names, with the text that it gives.
pub fn bus_error(name: Option<&str>, text: &str) -> (error: SessionError)
    ensures
        error_is(
            error,
            bus_failure(
                match name {
                    Some(name) => Some(name@),
                    None => None,
                },
            ),
            text@,
        ),
{
    let kind = match name {
        Some(name) => if same_text(name, "org.freedesktop.DBus.Error.AccessDenied") {
            ErrorKind::PermissionDenied
        } else if same_text(name, "org.freedesktop.DBus.Error.NoReply") {
            ErrorKind::TimedOut
        } else if same_text(name, "org.freedesktop.DBus.Error.NameHasNoOwner") || same_text(
            name,
            "org.freedesktop.DBus.Error.ServiceUnknown",
        ) {
            ErrorKind::NotFound
        } else {
            ErrorKind::Other
        },
        None => ErrorKind::Other,
    };
    SessionError::new(kind, text)
}

// ---------------------------------------------------------------------------
// The socket
// ---------------------------------------------------------------------------

/// Whether a path can be that of the socket.
pub open spec fn socket_path(bytes: Seq<u8>) -> Result<(), Fault> {
    if bytes.len() > 0 && bytes[0] == 0x2f && !bytes.contains(0u8) {
        Ok(())
    } else {
        refused("secret socket path must be an absolute non-NUL path"@)
    }
}

/// Accepts an absolute path without a zero byte.
pub fn validate_secret_socket_path(path: &[u8]) -> (valid: Result<(), SessionError>)
    ensures
        told(valid) == socket_path(path@),
{
    if path.len() == 0 || path[0] != 0x2f {
        return invalid_input("secret socket path must be an absolute non-NUL path");
    }
    for i in 0..path.len()
        invariant
            path@.len() > 0,
            path@[0] == 0x2f,
            forall|j: int| 0 <= j < i ==> path@[j] != 0u8,
    {
        if path[i] == 0 {
            assert(path@[i as int] == 0u8);
            return invalid_input("secret socket path must be an absolute non-NUL path");
        }
    }
    Ok(())
}

/// The frame that opens a conversation on the socket: the challenge. A
/// conversation that cannot be opened leaves no challenge behind, unless its
/// time was over before it began.
pub fn open_conversation(broker: &mut SecretBroker, lease: &SecretRequestLease, now: u64) -> (frame:
    Result<Vec<u8>, SessionError>)
    ensures
        match frame {
            Ok(frame) => {
                &&& now < lease@.deadline
                &&& old(broker)@ is None
                &&& final(broker)@ is Some
                &&& final(broker)@->0.deadline == lease@.deadline
                &&& final(broker)@->0.id.len() == CHALLENGE_BYTES
                &&& frame@ == framed(final(broker)@->0.id)
            },
            Err(error) => if lease@.deadline <= now {
                &&& final(broker)@ == old(broker)@
                &&& error_is(
                    error,
                    ErrorKind::TimedOut,
                    "network secret exchange exceeded its total deadline"@,
                )
            } else {
                &&& old(broker)@ is Some
                &&& final(broker)@ is None
                &&& error_is(
                    error,
                    ErrorKind::WouldBlock,
                    "a network secret challenge is already pending"@,
                )
            },
        },
{
    if lease.deadline <= now {
        return Err(
            SessionError::new(
                ErrorKind::TimedOut,
                "network secret exchange exceeded its total deadline",
            ),
        );
    }
    match broker.issue_until(lease.deadline) {
        Ok(challenge) => write_binary_frame(challenge.as_slice()),
        Err(error) => {
            broker.cancel_pending();
            Err(error)
        },
    }
}

/// How a conversation on the socket ended.
pub enum ConversationEnd {
    /// The connection was cancelled from outside.
    Cancelled,
    /// The time of the request was over.
    TimedOut,
    /// What was sent and read came to this.
    Ended(Result<(), SessionError>),
}

pub open spec fn conversation_result(end: ConversationEnd) -> Result<(), Fault> {
    match end {
        ConversationEnd::Cancelled => Err(
            (ErrorKind::Interrupted, "secret connection cancelled"@),
        ),
        ConversationEnd::TimedOut => Err((ErrorKind::TimedOut, "secret exchange timed out"@)),
        ConversationEnd::Ended(result) => told(result),
    }
}

/// Ends a conversation: no challenge outlives it.
pub fn close_conversation(broker: &mut SecretBroker, end: ConversationEnd) -> (result: Result<
    (),
    SessionError,
>)
    ensures
        final(broker)@ is None,
        told(result) == conversation_result(end),
{
    broker.cancel_pending();
    match end {
        ConversationEnd::Cancelled => Err(
            SessionError::new(ErrorKind::Interrupted, "secret connection cancelled"),
        ),
        ConversationEnd::TimedOut => Err(
            SessionError::new(ErrorKind::TimedOut, "secret exchange timed out"),
        ),
        ConversationEnd::Ended(result) => result,
    }
}

// ---------------------------------------------------------------------------
// Laws
// ---------------------------------------------------------------------------

/// A lease that was taken before its request was cancelled answers no request
/// that comes later: the secret of one request never reaches another.
pub proof fn a_stale_lease_answers_nothing(
    exchange: ExchangeView,
    taken: u64,
    id: Seq<u8>,
    key: KeyView,
    deadline: u64,
    now: u64,
)
    requires
        lease_of(exchange, taken) is Ok,
        exchange.pending is Some ==> exchange.pending->0.serial < exchange.begun,
    ensures
        ({
            let lease = lease_of(exchange, taken)->Ok_0;
            let later = with_begun(with_cancelled(exchange), id, key, deadline);
            &&& may_submit(with_cancelled(exchange), lease, now) is Err
            &&& may_submit(later, lease, now) is Err
        }),
{
}

/// Serial numbers tell requests apart: the open one and those that were
/// cancelled come before the next.
pub open spec fn serials_are_used_up(exchange: ExchangeView) -> bool {
    &&& exchange.pending is Some ==> exchange.pending->0.serial < exchange.begun
    &&& forall|i: int|
        0 <= i < exchange.cancelled.len() ==> (#[trigger] exchange.cancelled[i]).serial
            < exchange.begun
}

/// No operation of an exchange uses a serial number again.
pub proof fn serials_stay_used_up(
    exchange: ExchangeView,
    id: Seq<u8>,
    key: KeyView,
    deadline: u64,
    secret: HeldView,
    receiver: ReceiverView,
    now: u64,
)
    requires
        serials_are_used_up(exchange),
        exchange.begun < u64::MAX,
    ensures
        exchange.pending is None ==> serials_are_used_up(
            with_begun(exchange, id, key, deadline),
        ),
        serials_are_used_up(with_cancelled(exchange)),
        serials_are_used_up(with_matching_cancelled(exchange, key)),
        serials_are_used_up(with_answer(exchange, secret)),
        serials_are_used_up(with_completed(exchange, id)),
        serials_are_used_up(with_released(exchange, receiver.serial)),
        serials_are_used_up(looked_for(exchange, receiver, now).0),
{
    let keep = |request: RequestView| request.serial != receiver.serial;
    kept_serials_are_used_up(exchange.cancelled, keep, exchange.begun);
    cancelled_place_holds(exchange.cancelled, receiver.serial);
}

proof fn kept_serials_are_used_up(
    requests: Seq<RequestView>,
    keep: spec_fn(RequestView) -> bool,
    begun: u64,
)
    requires
        forall|i: int| 0 <= i < requests.len() ==> (#[trigger] requests[i]).serial < begun,
    ensures
        forall|i: int|
            0 <= i < requests.filter(keep).len() ==> (#[trigger] requests.filter(keep)[i]).serial
                < begun,
    decreases requests.len(),
{
    reveal(Seq::filter);
    if requests.len() > 0 {
        let rest = requests.drop_last();
        assert forall|i: int| 0 <= i < rest.len() implies (#[trigger] rest[i]).serial < begun by {
            assert(rest[i] == requests[i]);
        }
        kept_serials_are_used_up(rest, keep, begun);
        assert(requests.last() == requests[requests.len() - 1]);
    }
}

proof fn cancelled_place_holds(cancelled: Seq<RequestView>, serial: u64)
    ensures
        match cancelled_at(cancelled, serial) {
            Some(at) => 0 <= at < cancelled.len() && cancelled[at].serial == serial,
            None => true,
        },
    decreases cancelled.len(),
{
    if cancelled.len() > 0 && cancelled.last().serial != serial {
        cancelled_place_holds(cancelled.drop_last(), serial);
    }
}

/// Once a request was cancelled, no reply that bears a secret is sent for it.
pub proof fn a_cancelled_request_is_not_replied_to(exchange: ExchangeView, id: Seq<u8>)
    requires
        is_live(exchange, id),
    ensures
        !is_live(with_cancelled(exchange), id),
{
}

/// The end of a request that is not open changes nothing: neither the request
/// that came after it nor what is known of those that were cancelled.
pub proof fn a_stale_completion_changes_nothing(exchange: ExchangeView, id: Seq<u8>)
    requires
        !is_live(exchange, id),
    ensures
        with_completed(exchange, id) == exchange,
{
}

/// The end of an old request leaves the request that came after it open.
pub proof fn a_stale_completion_removes_nothing(
    exchange: ExchangeView,
    old_id: Seq<u8>,
    id: Seq<u8>,
    key: KeyView,
    deadline: u64,
)
    requires
        old_id != id,
    ensures
        with_completed(with_begun(exchange, id, key, deadline), old_id) == with_begun(
            exchange,
            id,
            key,
            deadline,
        ),
{
}

/// Once nobody looks for the answer to a request, none is taken for it.
pub proof fn a_released_request_takes_no_answer(
    exchange: ExchangeView,
    lease: LeaseView,
    now: u64,
)
    requires
        exchange.pending is Some,
    ensures
        may_submit(with_released(exchange, exchange.pending->0.serial), lease, now) is Err,
{
}

/// A secret reaches the one who asked for it: what was handed in with the lease
/// of a request is what a look for its answer finds, once.
pub proof fn a_submitted_secret_is_received_once(
    exchange: ExchangeView,
    receiver: ReceiverView,
    lease: LeaseView,
    secret: HeldView,
    submitted: u64,
    now: u64,
)
    requires
        exchange.pending is Some,
        exchange.pending->0.serial == receiver.serial,
        may_submit(exchange, lease, submitted) is Ok,
        now < receiver.deadline,
        valid_utf8(secret.secret),
    ensures
        ({
            let answered = with_answer(exchange, secret);
            let (after, found) = looked_for(answered, receiver, now);
            &&& found == WaitView::Ready(secret)
            &&& looked_for(after, receiver, now).1 is Pending
            &&& may_submit(after, lease, now) is Err
        }),
{
}

/// A secret that was handed in before its request was cancelled is not used.
pub proof fn a_cancelled_request_yields_no_secret(
    exchange: ExchangeView,
    receiver: ReceiverView,
    now: u64,
)
    requires
        exchange.pending is Some,
        exchange.pending->0.serial == receiver.serial,
    ensures
        looked_for(with_cancelled(exchange), receiver, now).1 is Failed,
{
    let after = with_cancelled(exchange);
    assert(after.cancelled.last() == exchange.pending->0);
}

/// After the owner of NetworkManager's name changed nobody is authorized, until
/// the owner that was announced was resolved; and then only that one.
pub proof fn only_the_resolved_owner_is_authorized(owner: Seq<char>, sender: Option<Seq<char>>)
    ensures
        authorized(None, sender) is Err,
        authorized(Some(owner), sender) is Ok <==> sender == Some(owner),
{
}

} // verus!
