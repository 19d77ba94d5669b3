//! The use of the host, read from the files of the kernel.

use vstd::prelude::*;

use crate::error::{invalid, malformed, ErrorKind, Fault, SessionError};
use crate::text::{
    chars_of, is_blank, is_text, lines, lines_of, parse_u64, pieces, starts_with, strip_prefix,
    string_of, unsigned_value, words, words_of,
};

use super::domain::{
    CapabilityAvailability, DesktopDomainId, DesktopDomainState, DesktopDomainValue, Level,
    ResourceSample,
};
use super::fraction::{can_read, reads_by, Number, Reader};
use super::registry::{failed_as, terminal_state};

verus! {

/// How often the use is read, in milliseconds.
pub const REFRESH_INTERVAL: u64 = 2_000;

/// How long the processors have been idle, and running in all.
#[derive(Debug, Clone, Copy, PartialEq, Eq, Structural)]
pub struct CpuCounters {
    pub idle: u64,
    pub total: u64,
}

/// What the files of the kernel say.
#[derive(Debug, Clone, Copy, PartialEq, Eq, Structural)]
pub struct HostResources {
    pub cpu: CpuCounters,
    pub memory_total: u64,
    pub memory_available: u64,
    pub load_one: Level,
}

/// The first line about all processors.
pub open spec fn cpu_line(rows: Seq<Seq<char>>) -> Option<Seq<char>>
    decreases rows.len(),
{
    if rows.len() == 0 {
        None
    } else if starts_with(rows[0], "cpu "@) {
        Some(rows[0])
    } else {
        cpu_line(rows.skip(1))
    }
}

/// A list without its first member.
pub open spec fn rest_of(list: Seq<Seq<char>>) -> Seq<Seq<char>> {
    if list.len() == 0 {
        list
    } else {
        list.skip(1)
    }
}

/// The numbers that a list of words spells.
pub open spec fn numbers_in(list: Seq<Seq<char>>) -> Option<Seq<u64>>
    decreases list.len(),
{
    if list.len() == 0 {
        Some(Seq::empty())
    } else {
        match (numbers_in(list.drop_last()), unsigned_value(list.last(), u64::MAX as int)) {
            (Some(earlier), Some(value)) => Some(earlier.push(value as u64)),
            _ => None,
        }
    }
}

pub open spec fn sum_of(numbers: Seq<u64>) -> int
    decreases numbers.len(),
{
    if numbers.len() == 0 {
        0
    } else {
        sum_of(numbers.drop_last()) + numbers.last()
    }
}

/// What the line about all processors counts.
pub open spec fn counters_in(stat: Seq<char>) -> Result<CpuCounters, Fault> {
    match cpu_line(lines(stat)) {
        None => malformed("missing aggregate CPU line"@),
        Some(line) => match numbers_in(rest_of(words(line, true))) {
            None => malformed("invalid aggregate CPU counter"@),
            Some(numbers) => if numbers.len() < 4 {
                malformed("aggregate CPU line has too few counters"@)
            } else if sum_of(numbers) > u64::MAX {
                malformed("CPU counters overflow"@)
            } else {
                let waiting = if numbers.len() > 4 {
                    numbers[4]
                } else {
                    0
                };
                if numbers[3] + waiting > u64::MAX {
                    malformed("CPU idle counters overflow"@)
                } else {
                    Ok(
                        CpuCounters {
                            idle: (numbers[3] + waiting) as u64,
                            total: sum_of(numbers) as u64,
                        },
                    )
                }
            },
        },
    }
}

/// The second word of the first line that has a key and another word.
pub open spec fn keyed_word(rows: Seq<Seq<char>>, key: Seq<char>) -> Option<Seq<char>>
    decreases rows.len(),
{
    if rows.len() == 0 {
        None
    } else {
        let fields = words(rows[0], true);
        if fields.len() >= 2 && fields[0] == key {
            Some(fields[1])
        } else {
            keyed_word(rows.skip(1), key)
        }
    }
}

/// A number of the file about memory.
pub open spec fn memory_in(meminfo: Seq<char>, key: Seq<char>) -> Result<u64, Fault> {
    match keyed_word(lines(meminfo), key) {
        None => malformed("memory counter is missing"@),
        Some(word) => match unsigned_value(word, u64::MAX as int) {
            None => malformed("memory counter is invalid"@),
            Some(value) => Ok(value as u64),
        },
    }
}

pub open spec fn load_in(loadavg: Seq<char>, reader: Reader) -> Result<Level, Fault> {
    let fields = words(loadavg, true);
    if fields.len() == 0 {
        malformed("load average is empty"@)
    } else {
        match reader(fields[0]) {
            Number::NotNumeric => malformed("load average is invalid"@),
            Number::OutOfRange => malformed("load average is outside its valid range"@),
            Number::Level(level) => Ok(level),
        }
    }
}

/// What the three files say.
pub open spec fn resources_in(
    stat: Seq<char>,
    meminfo: Seq<char>,
    loadavg: Seq<char>,
    reader: Reader,
) -> Result<HostResources, Fault> {
    match counters_in(stat) {
        Err(fault) => Err(fault),
        Ok(cpu) => match memory_in(meminfo, "MemTotal:"@) {
            Err(fault) => Err(fault),
            Ok(memory_total) => match memory_in(meminfo, "MemAvailable:"@) {
                Err(fault) => Err(fault),
                Ok(memory_available) => if memory_total == 0 || memory_available > memory_total {
                    malformed("memory counters are inconsistent"@)
                } else {
                    match load_in(loadavg, reader) {
                        Err(fault) => Err(fault),
                        Ok(load_one) => Ok(
                            HostResources { cpu, memory_total, memory_available, load_one },
                        ),
                    }
                },
            },
        },
    }
}

fn find_cpu_line(rows: &Vec<Vec<char>>) -> (line: Option<&Vec<char>>)
    ensures
        match line {
            Some(line) => cpu_line(pieces(rows@)) == Some(line@),
            None => cpu_line(pieces(rows@)) is None,
        },
{
    let ghost all = pieces(rows@);
    assert(all.skip(0) =~= all);
    for i in 0..rows.len()
        invariant
            all == pieces(rows@),
            cpu_line(all) == cpu_line(all.skip(i as int)),
    {
        assert(all.skip(i as int)[0] == rows@[i as int]@);
        assert(all.skip(i as int).skip(1) =~= all.skip(i + 1));
        if strip_prefix(rows[i].as_slice(), "cpu ").is_some() {
            return Some(&rows[i]);
        }
    }
    assert(all.len() == rows@.len());
    None
}

proof fn missing_number_stays(list: Seq<Seq<char>>, count: int)
    requires
        0 <= count <= list.len(),
        numbers_in(list.take(count)) is None,
    ensures
        numbers_in(list) is None,
    decreases list.len() - count,
{
    if count < list.len() {
        assert(list.take(count + 1).drop_last() =~= list.take(count));
        missing_number_stays(list, count + 1);
    } else {
        assert(list.take(count) =~= list);
    }
}

/// The numbers that words spell, without the first word.
fn read_numbers(fields: &Vec<Vec<char>>) -> (numbers: Option<Vec<u64>>)
    ensures
        match numbers {
            Some(numbers) => numbers_in(rest_of(pieces(fields@))) == Some(numbers@),
            None => numbers_in(rest_of(pieces(fields@))) is None,
        },
{
    let ghost list = rest_of(pieces(fields@));
    let mut numbers: Vec<u64> = Vec::new();
    if fields.len() == 0 {
        assert(list =~= Seq::empty());
        assert(numbers@ =~= Seq::empty());
        return Some(numbers);
    }
    assert(pieces(fields@).len() == fields@.len());
    assert(list.take(0) =~= Seq::empty());
    assert(numbers@ =~= Seq::empty());
    for i in 1..fields.len()
        invariant
            list == rest_of(pieces(fields@)),
            list.len() == fields@.len() - 1,
            numbers_in(list.take(i - 1)) == Some(numbers@),
    {
        assert(list[i - 1] == fields@[i as int]@);
        assert(list.take(i as int).drop_last() =~= list.take(i - 1));
        match parse_u64(fields[i].as_slice()) {
            Some(value) => {
                numbers.push(value);
            },
            None => {
                proof {
                    missing_number_stays(list, i as int);
                }
                return None;
            },
        }
    }
    assert(list.take(list.len() as int) =~= list);
    Some(numbers)
}

proof fn sums_grow(numbers: Seq<u64>, count: int)
    requires
        0 <= count <= numbers.len(),
    ensures
        0 <= sum_of(numbers.take(count)) <= sum_of(numbers),
    decreases numbers.len(),
{
    if numbers.len() == 0 {
        assert(numbers.take(count) =~= numbers);
    } else if count == numbers.len() {
        assert(numbers.take(count) =~= numbers);
        sums_grow(numbers.drop_last(), count - 1);
    } else {
        sums_grow(numbers.drop_last(), count);
        assert(numbers.drop_last().take(count) =~= numbers.take(count));
    }
}

fn sum(numbers: &Vec<u64>) -> (total: Option<u64>)
    ensures
        match total {
            Some(total) => total == sum_of(numbers@),
            None => sum_of(numbers@) > u64::MAX,
        },
{
    let mut total: u64 = 0;
    for i in 0..numbers.len()
        invariant
            total == sum_of(numbers@.take(i as int)),
    {
        assert(numbers@.take(i + 1).drop_last() =~= numbers@.take(i as int));
        match total.checked_add(numbers[i]) {
            Some(next) => {
                total = next;
            },
            None => {
                proof {
                    sums_grow(numbers@, i + 1);
                }
                return None;
            },
        }
    }
    assert(numbers@.take(numbers@.len() as int) =~= numbers@);
    Some(total)
}

fn read_counters(stat: &str) -> (counters: Result<CpuCounters, SessionError>)
    ensures
        match counters {
            Ok(counters) => counters_in(stat@) == Ok::<CpuCounters, Fault>(counters),
            Err(error) => counters_in(stat@) == Err::<CpuCounters, Fault>(
                (error.kind, error.message@),
            ),
        },
{
    let rows = lines_of(chars_of(stat).as_slice());
    let line = match find_cpu_line(&rows) {
        Some(line) => line,
        None => return invalid("missing aggregate CPU line"),
    };
    let fields = words_of(line.as_slice(), true);
    let numbers = match read_numbers(&fields) {
        Some(numbers) => numbers,
        None => return invalid("invalid aggregate CPU counter"),
    };
    if numbers.len() < 4 {
        return invalid("aggregate CPU line has too few counters");
    }
    let total: u64 = match sum(&numbers) {
        Some(total) => total,
        None => return invalid("CPU counters overflow"),
    };
    let waiting: u64 = if numbers.len() > 4 {
        numbers[4]
    } else {
        0
    };
    match numbers[3].checked_add(waiting) {
        Some(idle) => Ok(CpuCounters { idle, total }),
        None => invalid("CPU idle counters overflow"),
    }
}

fn meminfo_value(meminfo: &str, key: &str) -> (value: Result<u64, SessionError>)
    ensures
        match value {
            Ok(value) => memory_in(meminfo@, key@) == Ok::<u64, Fault>(value),
            Err(error) => memory_in(meminfo@, key@) == Err::<u64, Fault>(
                (error.kind, error.message@),
            ),
        },
{
    let rows = lines_of(chars_of(meminfo).as_slice());
    let ghost all = lines(meminfo@);
    assert(all.skip(0) =~= all);
    for i in 0..rows.len()
        invariant
            all == pieces(rows@),
            all == lines(meminfo@),
            keyed_word(all, key@) == keyed_word(all.skip(i as int), key@),
    {
        assert(all.skip(i as int)[0] == rows@[i as int]@);
        assert(all.skip(i as int).skip(1) =~= all.skip(i + 1));
        let fields = words_of(rows[i].as_slice(), true);
        assert(pieces(fields@).len() == fields@.len());
        assert forall|j: int| 0 <= j < fields@.len() implies #[trigger] pieces(fields@)[j]
            == fields@[j]@ by {}
        if fields.len() >= 2 && is_text(fields[0].as_slice(), key) {
            return match parse_u64(fields[1].as_slice()) {
                Some(value) => Ok(value),
                None => invalid("memory counter is invalid"),
            };
        }
    }
    assert(all.len() == rows@.len());
    invalid("memory counter is missing")
}

/// Reads the use of the host from the three files.
pub fn parse_host_resources<F: Fn(&str) -> Number>(
    stat: &str,
    meminfo: &str,
    loadavg: &str,
    read: &F,
) -> (resources: Result<HostResources, SessionError>)
    requires
        can_read(*read),
    ensures
        forall|reader: Reader| #[trigger]
            reads_by(*read, reader) ==> match resources {
                Ok(resources) => resources_in(stat@, meminfo@, loadavg@, reader) == Ok::<
                    HostResources,
                    Fault,
                >(resources),
                Err(error) => resources_in(stat@, meminfo@, loadavg@, reader) == Err::<
                    HostResources,
                    Fault,
                >((error.kind, error.message@)),
            },
        resources is Ok ==> {
            &&& 0 < resources->Ok_0.memory_total
            &&& resources->Ok_0.memory_available <= resources->Ok_0.memory_total
        },
{
    let cpu = match read_counters(stat) {
        Ok(cpu) => cpu,
        Err(error) => return Err(error),
    };
    let memory_total: u64 = match meminfo_value(meminfo, "MemTotal:") {
        Ok(value) => value,
        Err(error) => return Err(error),
    };
    let memory_available: u64 = match meminfo_value(meminfo, "MemAvailable:") {
        Ok(value) => value,
        Err(error) => return Err(error),
    };
    if memory_total == 0 || memory_available > memory_total {
        return invalid("memory counters are inconsistent");
    }
    let fields = words_of(chars_of(loadavg).as_slice(), true);
    assert(pieces(fields@).len() == fields@.len());
    if fields.len() == 0 {
        return invalid("load average is empty");
    }
    assert(pieces(fields@)[0] == fields@[0]@);
    let token = string_of(fields[0].as_slice());
    let number = read(token.as_str());
    proof {
        assert forall|reader: Reader| #[trigger] reads_by(*read, reader) implies number == reader(
            token@,
        ) by {}
    }
    match number {
        Number::NotNumeric => invalid("load average is invalid"),
        Number::OutOfRange => invalid("load average is outside its valid range"),
        Number::Level(load_one) => Ok(
            HostResources { cpu, memory_total, memory_available, load_one },
        ),
    }
}

/// How much of the time since the last reading the processors were idle, as idle
/// and total time; nothing where no time has passed or the counters disagree.
pub open spec fn idle_share(previous: CpuCounters, current: CpuCounters) -> Option<(u64, u64)> {
    let total = if current.total > previous.total {
        current.total - previous.total
    } else {
        0
    };
    let idle = if current.idle > previous.idle {
        current.idle - previous.idle
    } else {
        0
    };
    if total == 0 || idle > total {
        None
    } else {
        Some((idle as u64, total as u64))
    }
}

/// The readings of the use of the host.
pub struct ResourceProducer {
    previous: Option<CpuCounters>,
}

impl ResourceProducer {
    pub closed spec fn last(&self) -> Option<CpuCounters> {
        self.previous
    }

    pub fn new() -> (producer: ResourceProducer)
        ensures
            producer.last() is None,
    {
        ResourceProducer { previous: None }
    }

    /// Takes in a reading: how much of the time since the last one the processors
    /// were idle.
    pub fn observe(&mut self, current: CpuCounters) -> (share: Option<(u64, u64)>)
        ensures
            final(self).last() == Some(current),
            share == match old(self).last() {
                Some(previous) => idle_share(previous, current),
                None => None,
            },
            share is Some ==> share->Some_0.0 <= share->Some_0.1 && share->Some_0.1 > 0,
    {
        let share = match self.previous {
            Some(previous) => {
                let total: u64 = current.total.saturating_sub(previous.total);
                let idle: u64 = current.idle.saturating_sub(previous.idle);
                if total == 0 || idle > total {
                    None
                } else {
                    Some((idle, total))
                }
            },
            None => None,
        };
        self.previous = Some(current);
        share
    }
}

pub open spec fn availability_of(kind: ErrorKind) -> CapabilityAvailability {
    match kind {
        ErrorKind::NotFound | ErrorKind::PermissionDenied => CapabilityAvailability::Unavailable,
        ErrorKind::InvalidData => CapabilityAvailability::Parse,
        ErrorKind::TimedOut => CapabilityAvailability::Timeout,
        _ => CapabilityAvailability::Error,
    }
}

/// The state of the domain with one sample of the host.
pub fn sampled_state(cpu_usage: Level, memory_usage: Level, load_one: Level) -> (state:
    DesktopDomainState)
    ensures
        state.of() == DesktopDomainId::Resources,
        state.state() == CapabilityAvailability::Available,
        state.data() is Some,
        state.data()->Some_0 is Resources,
        ({
            let samples = state.data()->Some_0->Resources_0@;
            &&& samples.len() == 1
            &&& samples[0].id@ == "host"@
            &&& samples[0].cpu_usage == cpu_usage
            &&& samples[0].memory_usage == memory_usage
            &&& samples[0].load_one == load_one
        }),
{
    let mut samples: Vec<ResourceSample> = Vec::new();
    samples.push(ResourceSample { id: "host".to_owned(), cpu_usage, memory_usage, load_one });
    match DesktopDomainState::available(
        DesktopDomainId::Resources,
        DesktopDomainValue::Resources(samples),
    ) {
        Ok(state) => state,
        Err(_) => vstd::pervasive::unreached(),
    }
}

/// The state of the domain after a reading that failed.
pub fn failed_state(error: &SessionError) -> (state: DesktopDomainState)
    ensures
        failed_as(
            state,
            DesktopDomainId::Resources,
            availability_of(error.kind),
            "resource probe failed: "@ + error.message@,
        ),
{
    let status = match error.kind {
        ErrorKind::NotFound | ErrorKind::PermissionDenied => CapabilityAvailability::Unavailable,
        ErrorKind::InvalidData => CapabilityAvailability::Parse,
        ErrorKind::TimedOut => CapabilityAvailability::Timeout,
        _ => CapabilityAvailability::Error,
    };
    let mut reason = "resource probe failed: ".to_owned();
    reason.append(error.message.as_str());
    proof {
        reveal_strlit("resource probe failed: ");
        assert(reason@[0] == 'r');
        assert(!is_blank(reason@));
    }
    terminal_state(DesktopDomainId::Resources, status, reason.as_str())
}

/// The state of the domain whose reading did not come back.
pub fn worker_failed_state() -> (state: DesktopDomainState)
    ensures
        failed_as(
            state,
            DesktopDomainId::Resources,
            CapabilityAvailability::Error,
            "resource probe worker failed"@,
        ),
{
    proof {
        reveal_strlit("resource probe worker failed");
        assert("resource probe worker failed"@[0] == 'r');
    }
    terminal_state(
        DesktopDomainId::Resources,
        CapabilityAvailability::Error,
        "resource probe worker failed",
    )
}

} // verus!
