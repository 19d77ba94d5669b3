//! A read-only summary of the snapshot of the session: which capabilities work,
//! without anything of what they hold.

use vstd::prelude::*;

use crate::desktop::domain::CapabilityAvailability;
use crate::text::same_text;

verus! {

/// The longest frame that is read.
pub const MAX_FRAME_BYTES: usize = 1024 * 1024;

/// The longest that the inspection may take, in milliseconds.
pub const DEADLINE: u64 = 2_000;

#[derive(Debug, Clone, Copy)]
pub struct Check {
    pub capability: &'static str,
    pub status: CapabilityAvailability,
    pub required: bool,
}

#[derive(Debug)]
pub struct Report {
    pub ok: bool,
    pub generation: Option<u64>,
    pub checks: Vec<Check>,
    pub error: Option<&'static str>,
}

// ---------------------------------------------------------------------------
// The frame
// ---------------------------------------------------------------------------

/// The place of the first line feed, or the number of bytes.
pub open spec fn line_end(bytes: Seq<u8>) -> int
    decreases bytes.len(),
{
    if bytes.len() == 0 || bytes[0] == 10 {
        0
    } else {
        1 + line_end(bytes.skip(1))
    }
}

proof fn line_end_facts(bytes: Seq<u8>)
    ensures
        0 <= line_end(bytes) <= bytes.len(),
        line_end(bytes) < bytes.len() ==> bytes[line_end(bytes)] == 10,
        forall|i: int| 0 <= i < line_end(bytes) ==> bytes[i] != 10,
    decreases bytes.len(),
{
    if bytes.len() > 0 && bytes[0] != 10 {
        line_end_facts(bytes.skip(1));
        assert forall|i: int| 0 <= i < line_end(bytes) implies bytes[i] != 10 by {
            if i > 0 {
                assert(bytes.skip(1)[i - 1] == bytes[i]);
            }
        }
    }
}

proof fn line_end_is(bytes: Seq<u8>, at: int)
    requires
        0 <= at <= bytes.len(),
        at < bytes.len() ==> bytes[at] == 10,
        forall|i: int| 0 <= i < at ==> bytes[i] != 10,
    ensures
        line_end(bytes) == at,
{
    line_end_facts(bytes);
}

/// A frame that is being read.
pub struct FrameReader {
    frame: Vec<u8>,
}

/// What a chunk leads to: whether the frame is complete and what it holds, or why
/// it is refused.
pub open spec fn with_chunk(frame: Seq<u8>, chunk: Seq<u8>) -> Result<(bool, Seq<u8>), Seq<char>> {
    if chunk.len() == 0 {
        Err("invalid-snapshot"@)
    } else if frame.len() + line_end(chunk) > MAX_FRAME_BYTES {
        Err("frame-too-large"@)
    } else {
        Ok((line_end(chunk) < chunk.len(), frame + chunk.take(line_end(chunk))))
    }
}

/// A frame does not depend on the chunks it comes in: a chunk that does not
/// complete it and the one after it lead to what both lead to at once.
pub proof fn chunks_do_not_matter(frame: Seq<u8>, first: Seq<u8>, second: Seq<u8>)
    requires
        first.len() > 0,
        second.len() > 0,
        with_chunk(frame, first) is Ok,
        !with_chunk(frame, first)->Ok_0.0,
    ensures
        with_chunk(with_chunk(frame, first)->Ok_0.1, second) == with_chunk(frame, first + second),
{
    line_end_facts(first);
    line_end_facts(second);
    let both = first + second;
    let end = first.len() + line_end(second);
    assert(line_end(first) == first.len());
    assert forall|i: int| 0 <= i < end implies both[i] != 10 by {
        if i < first.len() {
            assert(both[i] == first[i]);
        } else {
            assert(both[i] == second[i - first.len()]);
        }
    }
    line_end_is(both, end);
    assert(first.take(line_end(first)) =~= first);
    assert(both.take(end) =~= first + second.take(line_end(second)));
    assert((frame + first) + second.take(line_end(second)) =~= frame + both.take(end));
}

impl FrameReader {
    pub closed spec fn read(&self) -> Seq<u8> {
        self.frame@
    }

    pub fn new() -> (reader: FrameReader)
        ensures
            reader.read() == Seq::<u8>::empty(),
    {
        FrameReader { frame: Vec::new() }
    }

    /// Takes in a chunk. Says whether the frame is complete.
    pub fn push(&mut self, chunk: &[u8]) -> (complete: Result<bool, &'static str>)
        requires
            old(self).read().len() <= MAX_FRAME_BYTES,
        ensures
            match with_chunk(old(self).read(), chunk@) {
                Ok((complete_frame, bytes)) => {
                    &&& complete == Ok::<bool, &'static str>(complete_frame)
                    &&& final(self).read() == bytes
                },
                Err(code) => {
                    &&& complete is Err
                    &&& complete->Err_0@ == code
                    &&& final(self).read() == old(self).read()
                },
            },
            final(self).read().len() <= MAX_FRAME_BYTES,
    {
        if chunk.len() == 0 {
            return Err("invalid-snapshot");
        }
        let mut end: usize = 0;
        while end < chunk.len() && chunk[end] != 10
            invariant
                end <= chunk@.len(),
                forall|i: int| 0 <= i < end ==> chunk@[i] != 10,
            decreases chunk.len() - end,
        {
            end = end + 1;
        }
        proof {
            line_end_is(chunk@, end as int);
        }
        if end > MAX_FRAME_BYTES - self.frame.len() {
            return Err("frame-too-large");
        }
        let ghost before = self.frame@;
        for i in 0..end
            invariant
                end <= chunk@.len(),
                self.frame@ == before + chunk@.take(i as int),
        {
            self.frame.push(chunk[i]);
            assert(self.frame@ =~= before + chunk@.take(i + 1));
        }
        Ok(end < chunk.len())
    }

    /// The bytes of the frame.
    pub fn bytes(&self) -> (bytes: &[u8])
        ensures
            bytes@ == self.read(),
    {
        self.frame.as_slice()
    }
}

/// Refuses a session of another user.
pub fn check_peer(peer: u32, own: u32) -> (checked: Result<(), &'static str>)
    ensures
        peer == own <==> checked is Ok,
        checked is Err ==> checked->Err_0@ == "peer-mismatch"@,
{
    if peer != own {
        return Err("peer-mismatch");
    }
    Ok(())
}

// ---------------------------------------------------------------------------
// The report
// ---------------------------------------------------------------------------

/// The status of each capability of a snapshot.
#[derive(Debug, Clone, Copy)]
pub struct SnapshotStatuses {
    pub hyprland: CapabilityAvailability,
    pub lock: CapabilityAvailability,
    pub network: CapabilityAvailability,
    pub audio: CapabilityAvailability,
    pub bluetooth: CapabilityAvailability,
    pub battery: CapabilityAvailability,
    pub brightness: CapabilityAvailability,
    pub power: CapabilityAvailability,
    pub media: CapabilityAvailability,
    pub night_light: CapabilityAvailability,
    pub resources: CapabilityAvailability,
    pub screenshot: CapabilityAvailability,
    pub recording: CapabilityAvailability,
}

pub struct CheckView {
    pub capability: Seq<char>,
    pub status: CapabilityAvailability,
    pub required: bool,
}

impl View for Check {
    type V = CheckView;

    open spec fn view(&self) -> CheckView {
        CheckView {
            capability: self.capability@,
            status: self.status,
            required: self.required,
        }
    }
}

pub open spec fn required(capability: Seq<char>, status: CapabilityAvailability) -> CheckView {
    CheckView { capability, status, required: true }
}

pub open spec fn optional(capability: Seq<char>, status: CapabilityAvailability) -> CheckView {
    CheckView { capability, status, required: false }
}

/// The checks of a snapshot, in order.
pub open spec fn checks_of(statuses: SnapshotStatuses) -> Seq<CheckView> {
    seq![
        required("hyprland"@, statuses.hyprland),
        required("lock"@, statuses.lock),
        optional("network"@, statuses.network),
        optional("audio"@, statuses.audio),
        optional("bluetooth"@, statuses.bluetooth),
        optional("battery"@, statuses.battery),
        optional("brightness"@, statuses.brightness),
        optional("power"@, statuses.power),
        optional("media"@, statuses.media),
        optional("night-light"@, statuses.night_light),
        optional("resources"@, statuses.resources),
        optional("screenshot"@, statuses.screenshot),
        optional("recording"@, statuses.recording),
    ]
}

/// Whether a check is passed: the capability works, or is optional and missing.
pub open spec fn passes(check: CheckView) -> bool {
    match check.status {
        CapabilityAvailability::Available => true,
        CapabilityAvailability::Unavailable | CapabilityAvailability::Unsupported =>
            !check.required,
        _ => false,
    }
}

pub open spec fn check_views(checks: Seq<Check>) -> Seq<CheckView> {
    crate::rows::views(checks)
}

pub open spec fn all_pass(checks: Seq<CheckView>) -> bool {
    forall|i: int| 0 <= i < checks.len() ==> passes(#[trigger] checks[i])
}

fn check(capability: &'static str, status: CapabilityAvailability, required: bool) -> (check: Check)
    ensures
        check@ == (CheckView { capability: capability@, status, required }),
{
    Check { capability, status, required }
}

impl Report {
    /// The report of an inspection that failed.
    pub fn failure(code: &'static str) -> (report: Report)
        ensures
            !report.ok,
            report.generation is None,
            report.checks@.len() == 0,
            report.error == Some(code),
    {
        Report { ok: false, generation: None, checks: Vec::new(), error: Some(code) }
    }

    /// The report of a snapshot.
    pub fn of_snapshot(generation: u64, statuses: SnapshotStatuses) -> (report: Report)
        ensures
            report.generation == Some(generation),
            check_views(report.checks@) == checks_of(statuses),
            report.ok == all_pass(checks_of(statuses)),
            report.error is None,
    {
        let mut checks: Vec<Check> = Vec::new();
        checks.push(check("hyprland", statuses.hyprland, true));
        checks.push(check("lock", statuses.lock, true));
        checks.push(check("network", statuses.network, false));
        checks.push(check("audio", statuses.audio, false));
        checks.push(check("bluetooth", statuses.bluetooth, false));
        checks.push(check("battery", statuses.battery, false));
        checks.push(check("brightness", statuses.brightness, false));
        checks.push(check("power", statuses.power, false));
        checks.push(check("media", statuses.media, false));
        checks.push(check("night-light", statuses.night_light, false));
        checks.push(check("resources", statuses.resources, false));
        checks.push(check("screenshot", statuses.screenshot, false));
        checks.push(check("recording", statuses.recording, false));
        assert(check_views(checks@) =~= checks_of(statuses));
        let mut ok = true;
        for i in 0..checks.len()
            invariant
                ok == forall|j: int| 0 <= j < i ==> passes(#[trigger] check_views(checks@)[j]),
        {
            assert(check_views(checks@)[i as int] == checks@[i as int]@);
            let passed = match checks[i].status {
                CapabilityAvailability::Available => true,
                CapabilityAvailability::Unavailable | CapabilityAvailability::Unsupported =>
                    !checks[i].required,
                _ => false,
            };
            ok = ok && passed;
        }
        assert(check_views(checks@).len() == checks@.len());
        Report { ok, generation: Some(generation), checks, error: None }
    }

    /// The report as a text for people.
    pub fn human(&self) -> (text: String)
        ensures
            text@ == report_text(*self),
    {
        let mut text = "Sleepy desktop: ".to_owned();
        text.append(
            if self.ok {
                "ready"
            } else {
                "needs attention"
            },
        );
        text.append("\n");
        match self.error {
            Some(error) => {
                text.append(explain(error));
                text.append("\n");
            },
            None => {},
        }
        let ghost head = text@;
        let ghost views = check_views(self.checks@);
        assert(check_lines(views.take(0)) =~= Seq::empty());
        assert(text@ =~= head + check_lines(views.take(0)));
        for i in 0..self.checks.len()
            invariant
                views == check_views(self.checks@),
                text@ == head + check_lines(views.take(i as int)),
        {
            let check = &self.checks[i];
            proof {
                assert(views[i as int] == check@);
                assert(views.take(i + 1).drop_last() =~= views.take(i as int));
            }
            text.append("  ");
            text.append(check.capability);
            text.append(": ");
            text.append(status_name(check.status));
            if !check.required && matches!(
                check.status,
                CapabilityAvailability::Unavailable | CapabilityAvailability::Unsupported
            ) {
                text.append(" (optional)");
            }
            text.append("\n");
            assert(text@ =~= head + (check_lines(views.take(i as int)) + check_line(check@)));
        }
        assert(views.take(self.checks@.len() as int) =~= views);
        text
    }
}

pub open spec fn explanation(code: Seq<char>) -> Seq<char> {
    if code == "timeout"@ {
        "Session snapshot exceeded the two-second deadline."@
    } else if code == "invalid-snapshot"@ {
        "Session sent an invalid or unsupported desktop snapshot."@
    } else if code == "frame-too-large"@ {
        "Session snapshot exceeded the 1 MiB limit."@
    } else if code == "peer-mismatch"@ {
        "Session socket belongs to a different user."@
    } else if code == "runtime-unavailable"@ {
        "Run doctor inside your Sleepy desktop user session."@
    } else {
        "Session is unavailable. Check sleepy-session.service in your user session."@
    }
}

fn explain(code: &str) -> (text: &'static str)
    ensures
        text@ == explanation(code@),
{
    if same_text(code, "timeout") {
        "Session snapshot exceeded the two-second deadline."
    } else if same_text(code, "invalid-snapshot") {
        "Session sent an invalid or unsupported desktop snapshot."
    } else if same_text(code, "frame-too-large") {
        "Session snapshot exceeded the 1 MiB limit."
    } else if same_text(code, "peer-mismatch") {
        "Session socket belongs to a different user."
    } else if same_text(code, "runtime-unavailable") {
        "Run doctor inside your Sleepy desktop user session."
    } else {
        "Session is unavailable. Check sleepy-session.service in your user session."
    }
}

pub open spec fn status_text(status: CapabilityAvailability) -> Seq<char> {
    match status {
        CapabilityAvailability::Available => "available"@,
        CapabilityAvailability::Unavailable => "unavailable"@,
        CapabilityAvailability::Unsupported => "unsupported"@,
        CapabilityAvailability::PermissionDenied => "permission denied"@,
        CapabilityAvailability::Timeout => "timeout"@,
        CapabilityAvailability::Parse => "invalid provider response"@,
        CapabilityAvailability::Error => "provider error"@,
    }
}

fn status_name(status: CapabilityAvailability) -> (text: &'static str)
    ensures
        text@ == status_text(status),
{
    match status {
        CapabilityAvailability::Available => "available",
        CapabilityAvailability::Unavailable => "unavailable",
        CapabilityAvailability::Unsupported => "unsupported",
        CapabilityAvailability::PermissionDenied => "permission denied",
        CapabilityAvailability::Timeout => "timeout",
        CapabilityAvailability::Parse => "invalid provider response",
        CapabilityAvailability::Error => "provider error",
    }
}

/// The line of a check.
pub open spec fn check_line(check: CheckView) -> Seq<char> {
    let missing = check.status == CapabilityAvailability::Unavailable || check.status
        == CapabilityAvailability::Unsupported;
    let line = "  "@ + check.capability + ": "@ + status_text(check.status);
    if !check.required && missing {
        line + " (optional)"@ + "\n"@
    } else {
        line + "\n"@
    }
}

/// The lines of checks, in order.
pub open spec fn check_lines(checks: Seq<CheckView>) -> Seq<char>
    decreases checks.len(),
{
    if checks.len() == 0 {
        Seq::empty()
    } else {
        check_lines(checks.drop_last()) + check_line(checks.last())
    }
}

/// The report as a text for people.
pub open spec fn report_text(report: Report) -> Seq<char> {
    let verdict = if report.ok {
        "ready"@
    } else {
        "needs attention"@
    };
    let head = "Sleepy desktop: "@ + verdict + "\n"@;
    let head = match report.error {
        Some(code) => head + explanation(code@) + "\n"@,
        None => head,
    };
    head + check_lines(check_views(report.checks@))
}

} // verus!
