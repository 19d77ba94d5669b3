//! How often entries are launched, and how they are ranked in a search.

use vstd::prelude::*;

use crate::error::{fails_with, ErrorKind, SessionError};
use crate::rows::{views, views_of_push};
use crate::text::{
    byte_len, chars_of, contains_char, encoding_of_concatenation, ends_with, find_char,
    first_index, first_index_facts, has_suffix, lex_less, lex_less_total, lex_less_transitive,
    same_text, string_of, text_before, text_bytes, texts,
};

verus! {

/// The version of the stored document.
pub const METRICS_VERSION: u32 = 1;

/// The largest stored document, in bytes.
pub const MAX_METRICS_BYTES: usize = 256 * 1024;

/// The text that `str::to_lowercase` gives.
pub uninterp spec fn lowercase_of(text: Seq<char>) -> Seq<char>;

/// Turns a text to lower case with `str::to_lowercase`. The outcome depends on
/// the text alone.
#[verifier::external_body]
fn lowercase(text: &str) -> (lower: String)
    ensures
        lower@ == lowercase_of(text@),
{
    text.to_lowercase()
}

/// How often an entry was launched, and when last.
#[derive(Debug, Clone, Copy, PartialEq, Eq, Structural)]
pub struct Usage {
    pub count: u64,
    pub last_used: u64,
}

pub struct UsageEntry {
    pub desktop_id: String,
    pub usage: Usage,
}

pub struct UsageView {
    pub desktop_id: Seq<char>,
    pub usage: Usage,
}

impl View for UsageEntry {
    type V = UsageView;

    open spec fn view(&self) -> UsageView {
        UsageView { desktop_id: self.desktop_id@, usage: self.usage }
    }
}

/// The stored document.
pub struct MetricsDocument {
    pub schema_version: u32,
    pub entries: Vec<UsageEntry>,
}

/// What was found on disk.
pub enum StoredMetrics {
    Missing,
    /// The document is this many bytes long and was not read as one.
    Malformed { size: usize, reason: String },
    /// The document is this many bytes long.
    Read { size: usize, document: MetricsDocument },
}

/// An entry that was never launched.
pub open spec fn unused() -> Usage {
    Usage { count: 0, last_used: 0 }
}

/// How often an entry was launched.
pub open spec fn usage_of(entries: Seq<UsageView>, desktop_id: Seq<char>) -> Usage
    decreases entries.len(),
{
    if entries.len() == 0 {
        unused()
    } else if entries[0].desktop_id == desktop_id {
        entries[0].usage
    } else {
        usage_of(entries.skip(1), desktop_id)
    }
}

proof fn usage_of_update(entries: Seq<UsageView>, at: int, usage: Usage, id: Seq<char>)
    requires
        0 <= at < entries.len(),
        forall|i: int|
            0 <= i < at ==> (#[trigger] entries[i]).desktop_id != entries[at].desktop_id,
    ensures
        usage_of(
            entries.update(at, UsageView { desktop_id: entries[at].desktop_id, usage }),
            id,
        ) == if id == entries[at].desktop_id {
            usage
        } else {
            usage_of(entries, id)
        },
        usage_of(entries, entries[at].desktop_id) == entries[at].usage,
    decreases entries.len(),
{
    let changed = entries.update(at, UsageView { desktop_id: entries[at].desktop_id, usage });
    if at == 0 {
        assert(changed.skip(1) =~= entries.skip(1));
    } else {
        assert(entries[0].desktop_id != entries[at].desktop_id);
        let rest = entries.skip(1);
        assert forall|i: int| 0 <= i < at - 1 implies (#[trigger] rest[i]).desktop_id
            != rest[at - 1].desktop_id by {
            assert(rest[i] == entries[i + 1]);
        }
        usage_of_update(rest, at - 1, usage, id);
        assert(changed.skip(1) =~= rest.update(
            at - 1,
            UsageView { desktop_id: rest[at - 1].desktop_id, usage },
        ));
    }
}

proof fn usage_of_push(entries: Seq<UsageView>, new: UsageView, id: Seq<char>)
    requires
        forall|i: int| 0 <= i < entries.len() ==> (#[trigger] entries[i]).desktop_id
            != new.desktop_id,
    ensures
        usage_of(entries.push(new), id) == if id == new.desktop_id {
            new.usage
        } else {
            usage_of(entries, id)
        },
        usage_of(entries, new.desktop_id) == unused(),
    decreases entries.len(),
{
    if entries.len() == 0 {
        assert(entries.push(new).skip(1) =~= entries);
    } else {
        let rest = entries.skip(1);
        assert(entries[0].desktop_id != new.desktop_id);
        assert forall|i: int| 0 <= i < rest.len() implies (#[trigger] rest[i]).desktop_id
            != new.desktop_id by {
            assert(rest[i] == entries[i + 1]);
        }
        usage_of_push(rest, new, id);
        assert(entries.push(new).skip(1) =~= rest.push(new));
    }
}

// ---------------------------------------------------------------------------
// Ranking
// ---------------------------------------------------------------------------

/// How well a text matches a query: its characters have to occur in order, and
/// the fewer bytes are passed over the better.
pub open spec fn fuzzy(query: Seq<char>, candidate: Seq<char>) -> Option<int>
    decreases query.len(),
{
    if query.len() == 0 {
        Some(0)
    } else {
        let at = first_index(candidate, query[0]);
        if at >= candidate.len() {
            None
        } else {
            match fuzzy(query.skip(1), candidate.skip(at + 1)) {
                Some(rest) => Some(100 - byte_len(candidate.take(at)) + rest),
                None => None,
            }
        }
    }
}

pub fn fuzzy_score(query: &[char], candidate: &[char]) -> (score: Option<i128>)
    ensures
        match score {
            Some(score) => fuzzy(query@, candidate@) == Some(score as int),
            None => fuzzy(query@, candidate@) is None,
        },
{
    let size: usize = text_bytes(string_of(candidate).as_str());
    let mut score: i128 = 0;
    let mut from: usize = 0;
    assert(candidate@.skip(0) =~= candidate@);
    assert(query@.skip(0) =~= query@);
    for i in 0..query.len()
        invariant
            from <= candidate@.len(),
            size == byte_len(candidate@),
            -byte_len(candidate@.take(from as int)) <= score <= 100 * i,
            match fuzzy(query@.skip(i as int), candidate@.skip(from as int)) {
                Some(rest) => fuzzy(query@, candidate@) == Some(score + rest),
                None => fuzzy(query@, candidate@) is None,
            },
    {
        let rest = vstd::slice::slice_subrange(candidate, from, candidate.len());
        assert(rest@ =~= candidate@.skip(from as int));
        let ghost left = query@.skip(i as int);
        proof {
            assert(left[0] == query@[i as int]);
            assert(left.skip(1) =~= query@.skip(i + 1));
            first_index_facts(rest@, query@[i as int]);
        }
        let at: usize = find_char(rest, query[i]);
        if at >= rest.len() {
            return None;
        }
        let head = vstd::slice::slice_subrange(rest, 0, at);
        assert(head@ =~= rest@.take(at as int));
        assert(rest@.skip(at + 1) =~= candidate@.skip(from + at + 1));
        let passed: usize = text_bytes(string_of(head).as_str());
        proof {
            let before = candidate@.take(from as int);
            let after = candidate@.take(from + at + 1);
            assert(after =~= before + (head@ + seq![rest@[at as int]]));
            encoding_of_concatenation(before, head@ + seq![rest@[at as int]]);
            encoding_of_concatenation(head@, seq![rest@[at as int]]);
            assert(candidate@ =~= after + candidate@.skip(from + at + 1));
            encoding_of_concatenation(after, candidate@.skip(from + at + 1));
        }
        score = score + 100 - passed as i128;
        from = from + at + 1;
    }
    proof {
        assert(query@.skip(query@.len() as int) =~= Seq::empty());
    }
    Some(score)
}

/// A candidate with what decides its rank.
pub struct Standing {
    pub name: Seq<char>,
    pub score: int,
    pub usage: Usage,
}

/// Whether a candidate goes before another: it matches better, was launched more
/// often, more recently, or has the earlier name.
pub open spec fn outranks(left: Standing, right: Standing) -> bool {
    if left.score != right.score {
        left.score > right.score
    } else if left.usage.count != right.usage.count {
        left.usage.count > right.usage.count
    } else if left.usage.last_used != right.usage.last_used {
        left.usage.last_used > right.usage.last_used
    } else {
        lex_less(left.name, right.name)
    }
}

/// How many candidates stay before a new one.
pub open spec fn rank_place(list: Seq<Standing>, new: Standing) -> int
    decreases list.len(),
{
    if list.len() == 0 || outranks(new, list[0]) {
        0
    } else {
        1 + rank_place(list.skip(1), new)
    }
}

/// The candidates, the best first.
pub open spec fn ranked(list: Seq<Standing>) -> Seq<Standing>
    decreases list.len(),
{
    if list.len() == 0 {
        Seq::empty()
    } else {
        let earlier = ranked(list.drop_last());
        earlier.insert(rank_place(earlier, list.last()), list.last())
    }
}

/// Whether no candidate goes before one that is listed earlier.
pub open spec fn is_ranked(list: Seq<Standing>) -> bool {
    forall|i: int, j: int|
        #![trigger list[i], list[j]]
        0 <= i < j < list.len() ==> !outranks(list[j], list[i])
}

/// Going before is a total order.
proof fn outranks_is_total(a: Standing, b: Standing, c: Standing)
    ensures
        !(outranks(a, b) && outranks(b, a)),
        !outranks(a, b) && !outranks(b, a) ==> a == b,
        outranks(a, b) && outranks(b, c) ==> outranks(a, c),
        outranks(a, b) && !outranks(c, b) ==> outranks(a, c),
{
    lex_less_total(a.name, b.name);
    lex_less_total(b.name, c.name);
    lex_less_total(c.name, b.name);
    if lex_less(a.name, b.name) && lex_less(b.name, c.name) {
        lex_less_transitive(a.name, b.name, c.name);
    }
}

proof fn rank_place_facts(list: Seq<Standing>, new: Standing)
    ensures
        0 <= rank_place(list, new) <= list.len(),
        forall|i: int| 0 <= i < rank_place(list, new) ==> !outranks(new, #[trigger] list[i]),
        rank_place(list, new) < list.len() ==> outranks(new, list[rank_place(list, new)]),
    decreases list.len(),
{
    if list.len() > 0 && !outranks(new, list[0]) {
        rank_place_facts(list.skip(1), new);
        assert forall|i: int| 0 <= i < rank_place(list, new) implies !outranks(
            new,
            #[trigger] list[i],
        ) by {
            if i > 0 {
                assert(list.skip(1)[i - 1] == list[i]);
            }
        }
    }
}

/// Ranking lists the same candidates, in the order of their rank.
pub proof fn ranking_is_sorted(list: Seq<Standing>)
    ensures
        is_ranked(ranked(list)),
        ranked(list).to_multiset() == list.to_multiset(),
        ranked(list).len() == list.len(),
    decreases list.len(),
{
    broadcast use vstd::seq_lib::group_to_multiset_ensures;

    if list.len() == 0 {
        assert(ranked(list) =~= list);
    } else {
        let earlier = ranked(list.drop_last());
        let new = list.last();
        ranking_is_sorted(list.drop_last());
        rank_place_facts(earlier, new);
        let at = rank_place(earlier, new);
        let all = ranked(list);
        assert(list =~= list.drop_last().push(new));
        assert(list.drop_last().push(new).to_multiset() =~= list.drop_last().to_multiset().insert(
            new,
        ));
        vstd::seq_lib::to_multiset_insert(earlier, at, new);
        assert forall|i: int, j: int|
            #![trigger all[i], all[j]]
            0 <= i < j < all.len() implies !outranks(all[j], all[i]) by {
            if j == at {
                assert(all[i] == earlier[i]);
            } else if i == at {
                assert(all[j] == earlier[j - 1]);
                if j - 1 == at {
                    outranks_is_total(new, earlier[at], new);
                } else {
                    assert(!outranks(earlier[j - 1], earlier[at]));
                    outranks_is_total(new, earlier[at], earlier[j - 1]);
                    outranks_is_total(new, earlier[j - 1], new);
                }
            } else {
                let a = if i < at {
                    i
                } else {
                    i - 1
                };
                let b = if j < at {
                    j
                } else {
                    j - 1
                };
                assert(all[i] == earlier[a] && all[j] == earlier[b]);
            }
        }
    }
}

/// A candidate, and its text in lower case.
pub struct Candidate {
    pub name: String,
    pub lower: String,
}

pub struct CandidateView {
    pub name: Seq<char>,
    pub lower: Seq<char>,
}

impl View for Candidate {
    type V = CandidateView;

    open spec fn view(&self) -> CandidateView {
        CandidateView { name: self.name@, lower: self.lower@ }
    }
}

/// The candidates that match a query, with what decides their rank.
pub open spec fn standings(
    entries: Seq<UsageView>,
    query: Seq<char>,
    candidates: Seq<CandidateView>,
) -> Seq<Standing>
    decreases candidates.len(),
{
    if candidates.len() == 0 {
        Seq::empty()
    } else {
        let earlier = standings(entries, query, candidates.drop_last());
        let candidate = candidates.last();
        match fuzzy(query, candidate.lower) {
            Some(score) => earlier.push(
                Standing {
                    name: candidate.name,
                    score,
                    usage: usage_of(entries, candidate.name),
                },
            ),
            None => earlier,
        }
    }
}

pub open spec fn names_of(list: Seq<Standing>) -> Seq<Seq<char>> {
    list.map_values(|standing: Standing| standing.name)
}

/// The candidates as they are ranked.
pub open spec fn candidates_of(names: Seq<Seq<char>>) -> Seq<CandidateView> {
    names.map_values(|name: Seq<char>| CandidateView { name, lower: lowercase_of(name) })
}

struct Scored {
    name: String,
    score: i128,
    usage: Usage,
}

impl View for Scored {
    type V = Standing;

    closed spec fn view(&self) -> Standing {
        Standing { name: self.name@, score: self.score as int, usage: self.usage }
    }
}

fn goes_before(left: &Scored, right: &Scored) -> (before: bool)
    ensures
        before == outranks(left@, right@),
{
    if left.score != right.score {
        left.score > right.score
    } else if left.usage.count != right.usage.count {
        left.usage.count > right.usage.count
    } else if left.usage.last_used != right.usage.last_used {
        left.usage.last_used > right.usage.last_used
    } else {
        text_before(left.name.as_str(), right.name.as_str())
    }
}

fn insert_ranked(list: &mut Vec<Scored>, new: Scored)
    ensures
        views(final(list)@) == views(old(list)@).insert(
            rank_place(views(old(list)@), new@),
            new@,
        ),
{
    let ghost all = views(list@);
    let mut at: usize = 0;
    assert(all.skip(0) =~= all);
    while at < list.len() && !goes_before(&new, &list[at])
        invariant
            at <= list@.len(),
            all == views(list@),
            rank_place(all, new@) == at + rank_place(all.skip(at as int), new@),
        decreases list.len() - at,
    {
        assert(all.skip(at as int)[0] == list@[at as int]@);
        assert(all.skip(at as int).skip(1) =~= all.skip(at + 1));
        at = at + 1;
    }
    proof {
        if at < list@.len() {
            assert(all.skip(at as int)[0] == list@[at as int]@);
        }
        assert(all.len() == list@.len());
    }
    list.insert(at, new);
    assert(views(list@) =~= all.insert(at as int, new@));
}

/// How often entries are launched.
pub struct LauncherMetrics {
    entries: Vec<UsageEntry>,
}

impl LauncherMetrics {
    pub closed spec fn recorded(&self) -> Seq<UsageView> {
        views(self.entries@)
    }

    /// How often an entry was launched.
    pub open spec fn usage(&self, desktop_id: Seq<char>) -> Usage {
        usage_of(self.recorded(), desktop_id)
    }

    /// Takes over what was found on disk.
    pub fn open(stored: StoredMetrics) -> (metrics: Result<LauncherMetrics, SessionError>)
        ensures
            match stored {
                StoredMetrics::Missing => metrics is Ok && metrics->Ok_0.recorded() == Seq::<
                    UsageView,
                >::empty(),
                StoredMetrics::Malformed { size, reason } => if size > MAX_METRICS_BYTES {
                    fails_with(
                        metrics,
                        ErrorKind::InvalidData,
                        "launcher metrics exceed limit"@,
                    )
                } else {
                    fails_with(metrics, ErrorKind::InvalidData, reason@)
                },
                StoredMetrics::Read { size, document } => if size > MAX_METRICS_BYTES {
                    fails_with(
                        metrics,
                        ErrorKind::InvalidData,
                        "launcher metrics exceed limit"@,
                    )
                } else if document.schema_version != METRICS_VERSION {
                    fails_with(
                        metrics,
                        ErrorKind::InvalidData,
                        "unknown launcher metrics schema"@,
                    )
                } else {
                    metrics is Ok && metrics->Ok_0.recorded() == views(document.entries@)
                },
            },
    {
        match stored {
            StoredMetrics::Missing => {
                let metrics = LauncherMetrics { entries: Vec::new() };
                assert(metrics.recorded() =~= Seq::empty());
                Ok(metrics)
            },
            StoredMetrics::Malformed { size, reason } => {
                if size > MAX_METRICS_BYTES {
                    return Err(
                        SessionError::new(ErrorKind::InvalidData, "launcher metrics exceed limit"),
                    );
                }
                Err(SessionError { kind: ErrorKind::InvalidData, message: reason })
            },
            StoredMetrics::Read { size, document } => {
                if size > MAX_METRICS_BYTES {
                    return Err(
                        SessionError::new(ErrorKind::InvalidData, "launcher metrics exceed limit"),
                    );
                }
                if document.schema_version != METRICS_VERSION {
                    return Err(
                        SessionError::new(
                            ErrorKind::InvalidData,
                            "unknown launcher metrics schema",
                        ),
                    );
                }
                Ok(LauncherMetrics { entries: document.entries })
            },
        }
    }

    /// Counts a launch. What is counted is to be stored afterwards.
    pub fn record_launch(&mut self, desktop_id: &str, now: u64) -> (counted: Result<
        (),
        SessionError,
    >)
        ensures
            if !ends_with(desktop_id@, ".desktop"@) || desktop_id@.contains('/') {
                &&& fails_with(counted, ErrorKind::InvalidInput, "invalid desktop id"@)
                &&& final(self).recorded() == old(self).recorded()
            } else {
                let before = old(self).usage(desktop_id@);
                &&& counted is Ok
                &&& final(self).usage(desktop_id@) == (Usage {
                    count: if before.count == u64::MAX {
                        u64::MAX
                    } else {
                        (before.count + 1) as u64
                    },
                    last_used: if before.last_used < now {
                        now
                    } else {
                        before.last_used
                    },
                })
                &&& forall|other: Seq<char>|
                    other != desktop_id@ ==> #[trigger] final(self).usage(other) == old(
                        self,
                    ).usage(other)
            },
    {
        let letters = chars_of(desktop_id);
        if !has_suffix(letters.as_slice(), chars_of(".desktop").as_slice()) || contains_char(
            letters.as_slice(),
            '/',
        ) {
            return Err(SessionError::new(ErrorKind::InvalidInput, "invalid desktop id"));
        }
        let ghost all = self.recorded();
        let mut at: usize = 0;
        while at < self.entries.len()
            invariant
                at <= self.entries@.len(),
                all == self.recorded(),
                all == old(self).recorded(),
                forall|i: int| 0 <= i < at ==> (#[trigger] all[i]).desktop_id != desktop_id@,
                ends_with(desktop_id@, ".desktop"@) && !desktop_id@.contains('/'),
            decreases self.entries.len() - at,
        {
            assert(all[at as int] == self.entries@[at as int]@);
            if same_text(self.entries[at].desktop_id.as_str(), desktop_id) {
                let usage = counted_once(self.entries[at].usage, now);
                proof {
                    assert forall|other: Seq<char>| #[trigger]
                        usage_of(
                            all.update(
                                at as int,
                                UsageView { desktop_id: desktop_id@, usage },
                            ),
                            other,
                        ) == if other == desktop_id@ {
                            usage
                        } else {
                            usage_of(all, other)
                        } by {
                        usage_of_update(all, at as int, usage, other);
                    }
                    usage_of_update(all, at as int, usage, desktop_id@);
                }
                let entry = UsageEntry { desktop_id: desktop_id.to_owned(), usage };
                self.entries.set(at, entry);
                assert(self.recorded() =~= all.update(
                    at as int,
                    UsageView { desktop_id: desktop_id@, usage },
                ));
                return Ok(());
            }
            at = at + 1;
        }
        let usage = counted_once(Usage { count: 0, last_used: 0 }, now);
        let entry = UsageEntry { desktop_id: desktop_id.to_owned(), usage };
        proof {
            assert(all.len() == self.entries@.len());
            views_of_push(self.entries@, entry);
            assert forall|other: Seq<char>| #[trigger] usage_of(all.push(entry@), other)
                == if other == desktop_id@ {
                usage
            } else {
                usage_of(all, other)
            } by {
                usage_of_push(all, entry@, other);
            }
            usage_of_push(all, entry@, desktop_id@);
        }
        self.entries.push(entry);
        Ok(())
    }

    fn find_usage(&self, desktop_id: &str) -> (usage: Usage)
        ensures
            usage == self.usage(desktop_id@),
    {
        let ghost all = self.recorded();
        assert(all.skip(0) =~= all);
        for i in 0..self.entries.len()
            invariant
                all == self.recorded(),
                usage_of(all, desktop_id@) == usage_of(all.skip(i as int), desktop_id@),
        {
            assert(all.skip(i as int)[0] == self.entries@[i as int]@);
            assert(all.skip(i as int).skip(1) =~= all.skip(i + 1));
            if same_text(self.entries[i].desktop_id.as_str(), desktop_id) {
                return self.entries[i].usage;
            }
        }
        assert(all.len() == self.entries@.len());
        Usage { count: 0, last_used: 0 }
    }

    /// The candidates that match a query, the best first. The query and the texts
    /// of the candidates are in lower case.
    pub fn rank_lowered(&self, query: &str, candidates: &Vec<Candidate>) -> (names: Vec<String>)
        ensures
            texts(names@) == names_of(
                ranked(standings(self.recorded(), query@, views(candidates@))),
            ),
    {
        let ghost all = views(candidates@);
        let letters = chars_of(query);
        let mut list: Vec<Scored> = Vec::new();
        assert(views(list@) =~= Seq::empty());
        assert(all.take(0) =~= Seq::empty());
        for i in 0..candidates.len()
            invariant
                all == views(candidates@),
                letters@ == query@,
                views(list@) == ranked(
                    standings(self.recorded(), query@, all.take(i as int)),
                ),
        {
            let candidate = &candidates[i];
            proof {
                assert(all.take(i + 1).drop_last() =~= all.take(i as int));
                assert(all[i as int] == candidate@);
            }
            let lower = chars_of(candidate.lower.as_str());
            match fuzzy_score(letters.as_slice(), lower.as_slice()) {
                Some(score) => {
                    let new = Scored {
                        name: candidate.name.clone(),
                        score,
                        usage: self.find_usage(candidate.name.as_str()),
                    };
                    proof {
                        let before = standings(self.recorded(), query@, all.take(i as int));
                        assert(before.push(new@).drop_last() =~= before);
                    }
                    insert_ranked(&mut list, new);
                },
                None => {},
            }
        }
        assert(all.take(candidates@.len() as int) =~= all);
        let ghost order = views(list@);
        let mut names: Vec<String> = Vec::new();
        for i in 0..list.len()
            invariant
                order == views(list@),
                texts(names@) == names_of(order).take(i as int),
        {
            let ghost before = names@;
            assert(order[i as int] == list@[i as int]@);
            names.push(list[i].name.clone());
            assert(texts(names@) =~= texts(before).push(order[i as int].name));
            assert(texts(names@) =~= names_of(order).take(i + 1));
        }
        assert(order.len() == list@.len());
        assert(names_of(order).take(list@.len() as int) =~= names_of(order));
        names
    }

    /// The candidates that match a query, the best first. Upper and lower case
    /// are the same.
    pub fn rank(&self, query: &str, candidates: &Vec<String>) -> (names: Vec<String>)
        ensures
            texts(names@) == names_of(
                ranked(
                    standings(
                        self.recorded(),
                        lowercase_of(query@),
                        candidates_of(texts(candidates@)),
                    ),
                ),
            ),
    {
        let query = lowercase(query);
        let ghost all = candidates_of(texts(candidates@));
        let mut lowered: Vec<Candidate> = Vec::new();
        assert(views(lowered@) =~= Seq::empty());
        for i in 0..candidates.len()
            invariant
                all == candidates_of(texts(candidates@)),
                views(lowered@) == all.take(i as int),
        {
            let candidate = Candidate {
                name: candidates[i].clone(),
                lower: lowercase(candidates[i].as_str()),
            };
            proof {
                views_of_push(lowered@, candidate);
                assert(all[i as int] == candidate@);
            }
            lowered.push(candidate);
            assert(views(lowered@) =~= all.take(i + 1));
        }
        assert(all.take(candidates@.len() as int) =~= all);
        self.rank_lowered(query.as_str(), &lowered)
    }

    /// What is to be stored.
    pub fn entries(&self) -> (entries: &Vec<UsageEntry>)
        ensures
            views(entries@) == self.recorded(),
    {
        &self.entries
    }
}

fn counted_once(usage: Usage, now: u64) -> (counted: Usage)
    ensures
        counted.count == if usage.count == u64::MAX {
            u64::MAX as int
        } else {
            usage.count + 1
        },
        counted.last_used == if usage.last_used < now {
            now
        } else {
            usage.last_used
        },
{
    Usage {
        count: usage.count.saturating_add(1),
        last_used: if usage.last_used < now {
            now
        } else {
            usage.last_used
        },
    }
}

/// Whether the characters of a query stand at these places of a text, in order.
pub open spec fn stands_at(query: Seq<char>, text: Seq<char>, places: Seq<int>) -> bool {
    &&& places.len() == query.len()
    &&& forall|i: int|
        0 <= i < places.len() ==> 0 <= #[trigger] places[i] < text.len() && text[places[i]]
            == query[i]
    &&& forall|i: int, j: int|
        0 <= i < j < places.len() ==> #[trigger] places[i] < #[trigger] places[j]
}

/// A text matches a query exactly where it holds the characters of the query in their
/// order, whatever stands between them.
pub proof fn a_match_holds_the_query_in_order(query: Seq<char>, text: Seq<char>)
    ensures
        fuzzy(query, text) is Some <==> exists|places: Seq<int>| #[trigger]
            stands_at(query, text, places),
    decreases query.len(),
{
    if query.len() == 0 {
        assert(stands_at(query, text, Seq::empty()));
    } else {
        let at = first_index(text, query[0]);
        first_index_facts(text, query[0]);
        let rest = text.skip(at + 1);
        if at < text.len() {
            a_match_holds_the_query_in_order(query.skip(1), rest);
        }
        if fuzzy(query, text) is Some {
            let later = choose|later: Seq<int>| #[trigger]
                stands_at(query.skip(1), rest, later);
            let places = seq![at] + later.map_values(|place: int| place + at + 1);
            assert forall|i: int| 0 <= i < places.len() implies 0 <= #[trigger] places[i]
                < text.len() && text[places[i]] == query[i] by {
                if i > 0 {
                    assert(0 <= later[i - 1] < rest.len());
                    assert(rest[later[i - 1]] == query.skip(1)[i - 1]);
                }
            }
            assert forall|i: int, j: int| 0 <= i < j < places.len() implies #[trigger] places[i]
                < #[trigger] places[j] by {
                assert(0 <= later[j - 1]);
                if i > 0 {
                    assert(later[i - 1] < later[j - 1]);
                }
            }
            assert(stands_at(query, text, places));
        }
        if exists|places: Seq<int>| #[trigger] stands_at(query, text, places) {
            let places = choose|places: Seq<int>| #[trigger] stands_at(query, text, places);
            assert(text[places[0]] == query[0]);
            assert(places[0] >= at);
            let later = places.skip(1).map_values(|place: int| place - at - 1);
            assert forall|i: int| 0 <= i < later.len() implies 0 <= #[trigger] later[i]
                < rest.len() && rest[later[i]] == query.skip(1)[i] by {
                assert(places[0] < places[i + 1]);
                assert(text[places[i + 1]] == query[i + 1]);
            }
            assert forall|i: int, j: int| 0 <= i < j < later.len() implies #[trigger] later[i]
                < #[trigger] later[j] by {
                assert(places[i + 1] < places[j + 1]);
            }
            assert(stands_at(query.skip(1), rest, later));
        }
    }
}

/// Every byte that is passed over before the first character of a query costs one,
/// and a text that begins with the query costs nothing: it scores a hundred for each
/// character, which is the most that there is.
pub proof fn what_is_passed_over_costs(query: Seq<char>, text: Seq<char>, passed: Seq<char>)
    ensures
        query.len() > 0 && !passed.contains(query[0]) ==> match fuzzy(query, text) {
            Some(score) => fuzzy(query, passed + text) == Some(score - byte_len(passed)),
            None => fuzzy(query, passed + text) is None,
        },
        fuzzy(query, query + text) == Some(100 * query.len() as int),
        fuzzy(query, text) matches Some(score) ==> score <= 100 * query.len(),
    decreases query.len(),
{
    if query.len() > 0 {
        let c = query[0];
        first_index_facts(text, c);
        let at = first_index(text, c);
        if !passed.contains(c) {
            let whole = passed + text;
            assert forall|i: int| 0 <= i < passed.len() + at implies whole[i] != c by {
                if i < passed.len() {
                    assert(passed[i] != c);
                }
            }
            crate::text::first_index_is(whole, c, passed.len() + at);
            if at < text.len() {
                assert(whole.skip(passed.len() + at + 1) =~= text.skip(at + 1));
                assert(whole.take(passed.len() + at) =~= passed + text.take(at));
                encoding_of_concatenation(passed, text.take(at));
            }
        }
        let rest = query.skip(1);
        let begun = query + text;
        assert(begun[0] == c);
        crate::text::first_index_is(begun, c, 0);
        assert(begun.skip(1) =~= rest + text);
        assert(begun.take(0) =~= Seq::<char>::empty());
        assert(byte_len(Seq::<char>::empty()) == 0) by {
            encoding_of_concatenation(Seq::<char>::empty(), Seq::<char>::empty());
            assert(Seq::<char>::empty() + Seq::<char>::empty() =~= Seq::<char>::empty());
        }
        what_is_passed_over_costs(rest, text, passed);
        if at < text.len() {
            what_is_passed_over_costs(rest, text.skip(at + 1), passed);
        }
    }
}

/// What is offered for a query, in its order.
pub open spec fn offered_for(
    entries: Seq<UsageView>,
    query: Seq<char>,
    candidates: Seq<CandidateView>,
) -> Seq<Standing> {
    ranked(standings(entries, query, candidates))
}

proof fn standings_stand_for_candidates(
    entries: Seq<UsageView>,
    query: Seq<char>,
    candidates: Seq<CandidateView>,
    at: int,
)
    requires
        0 <= at < standings(entries, query, candidates).len(),
    ensures
        exists|k: int|
            0 <= k < candidates.len() && (#[trigger] candidates[k]).name == standings(
                entries,
                query,
                candidates,
            )[at].name && fuzzy(query, candidates[k].lower) == Some(
                standings(entries, query, candidates)[at].score,
            ),
        standings(entries, query, candidates)[at].usage == usage_of(
            entries,
            standings(entries, query, candidates)[at].name,
        ),
    decreases candidates.len(),
{
    let shorter = candidates.drop_last();
    let earlier = standings(entries, query, shorter);
    let last = candidates.last();
    if at < earlier.len() {
        standings_stand_for_candidates(entries, query, shorter, at);
        let k = choose|k: int|
            0 <= k < shorter.len() && (#[trigger] shorter[k]).name == earlier[at].name && fuzzy(
                query,
                shorter[k].lower,
            ) == Some(earlier[at].score);
        assert(candidates[k] == shorter[k]);
    } else {
        assert(candidates[candidates.len() - 1] == last);
    }
}

/// The better match is offered first. Of two matches that are as good the one that was
/// launched more often comes first, then the one that was launched later, then the one
/// with the earlier name.
pub proof fn better_matches_come_first(
    entries: Seq<UsageView>,
    query: Seq<char>,
    candidates: Seq<CandidateView>,
    i: int,
    j: int,
)
    requires
        0 <= i < j < offered_for(entries, query, candidates).len(),
    ensures
        ({
            let first = offered_for(entries, query, candidates)[i];
            let second = offered_for(entries, query, candidates)[j];
            &&& first.score >= second.score
            &&& first.score == second.score ==> usage_of(entries, first.name).count >= usage_of(
                entries,
                second.name,
            ).count
            &&& first.score == second.score && usage_of(entries, first.name).count == usage_of(
                entries,
                second.name,
            ).count ==> usage_of(entries, first.name).last_used >= usage_of(
                entries,
                second.name,
            ).last_used
            &&& first.score == second.score && usage_of(entries, first.name) == usage_of(
                entries,
                second.name,
            ) ==> !lex_less(second.name, first.name)
        }),
{
    let list = standings(entries, query, candidates);
    ranking_is_sorted(list);
    ranked_is_made_of(list, i);
    ranked_is_made_of(list, j);
    let a = choose|a: int| 0 <= a < list.len() && list[a] == ranked(list)[i];
    let b = choose|b: int| 0 <= b < list.len() && list[b] == ranked(list)[j];
    standings_stand_for_candidates(entries, query, candidates, a);
    standings_stand_for_candidates(entries, query, candidates, b);
    assert(!outranks(ranked(list)[j], ranked(list)[i]));
    lex_less_total(ranked(list)[i].name, ranked(list)[j].name);
}

proof fn ranked_is_made_of(list: Seq<Standing>, at: int)
    requires
        0 <= at < ranked(list).len(),
    ensures
        exists|k: int| 0 <= k < list.len() && list[k] == ranked(list)[at],
    decreases list.len(),
{
    ranking_is_sorted(list);
    let shorter = list.drop_last();
    let earlier = ranked(shorter);
    ranking_is_sorted(shorter);
    rank_place_facts(earlier, list.last());
    let place = rank_place(earlier, list.last());
    if at == place {
        assert(list[list.len() - 1] == ranked(list)[at]);
    } else {
        let before = if at < place {
            at
        } else {
            at - 1
        };
        ranked_is_made_of(shorter, before);
        let k = choose|k: int| 0 <= k < shorter.len() && shorter[k] == earlier[before];
        assert(list[k] == ranked(list)[at]);
    }
}

/// What is offered is one of the candidates, with the score of its own text.
pub proof fn what_is_offered_is_a_match(
    entries: Seq<UsageView>,
    query: Seq<char>,
    candidates: Seq<CandidateView>,
    at: int,
)
    requires
        0 <= at < offered_for(entries, query, candidates).len(),
    ensures
        exists|k: int|
            0 <= k < candidates.len() && (#[trigger] candidates[k]).name == offered_for(
                entries,
                query,
                candidates,
            )[at].name && fuzzy(query, candidates[k].lower) == Some(
                offered_for(entries, query, candidates)[at].score,
            ),
{
    let list = standings(entries, query, candidates);
    ranked_is_made_of(list, at);
    let k = choose|k: int| 0 <= k < list.len() && list[k] == ranked(list)[at];
    standings_stand_for_candidates(entries, query, candidates, k);
}

/// Every candidate that matches is offered, as often as it is there.
pub proof fn every_match_is_offered(
    entries: Seq<UsageView>,
    query: Seq<char>,
    candidates: Seq<CandidateView>,
)
    ensures
        offered_for(entries, query, candidates).len() == candidates.filter(
            |candidate: CandidateView| fuzzy(query, candidate.lower) is Some,
        ).len(),
        forall|k: int|
            0 <= k < candidates.len() && fuzzy(query, (#[trigger] candidates[k]).lower) is Some
                ==> names_of(offered_for(entries, query, candidates)).contains(candidates[k].name),
    decreases candidates.len(),
{
    let list = standings(entries, query, candidates);
    let all = ranked(list);
    ranking_is_sorted(list);
    matching_candidates_stand(entries, query, candidates);
    assert forall|k: int|
        0 <= k < candidates.len() && fuzzy(
            query,
            (#[trigger] candidates[k]).lower,
        ) is Some implies names_of(all).contains(candidates[k].name) by {
        let a = choose|a: int|
            0 <= a < list.len() && (#[trigger] list[a]).name == candidates[k].name;
        all_are_ranked(list, a);
        let b = choose|b: int| 0 <= b < all.len() && all[b] == list[a];
        assert(names_of(all)[b] == candidates[k].name);
    }
}

proof fn matching_candidates_stand(
    entries: Seq<UsageView>,
    query: Seq<char>,
    candidates: Seq<CandidateView>,
)
    ensures
        standings(entries, query, candidates).len() == candidates.filter(
            |candidate: CandidateView| fuzzy(query, candidate.lower) is Some,
        ).len(),
        forall|k: int|
            0 <= k < candidates.len() && fuzzy(query, (#[trigger] candidates[k]).lower) is Some
                ==> exists|a: int|
                0 <= a < standings(entries, query, candidates).len() && (#[trigger] standings(
                    entries,
                    query,
                    candidates,
                )[a]).name == candidates[k].name,
    decreases candidates.len(),
{
    reveal(Seq::filter);
    if candidates.len() > 0 {
        let shorter = candidates.drop_last();
        let earlier = standings(entries, query, shorter);
        let list = standings(entries, query, candidates);
        matching_candidates_stand(entries, query, shorter);
        assert forall|k: int|
            0 <= k < candidates.len() && fuzzy(
                query,
                (#[trigger] candidates[k]).lower,
            ) is Some implies exists|a: int|
            0 <= a < list.len() && (#[trigger] list[a]).name == candidates[k].name by {
            if k < shorter.len() {
                assert(shorter[k] == candidates[k]);
                let a = choose|a: int|
                    0 <= a < earlier.len() && (#[trigger] earlier[a]).name == shorter[k].name;
                assert(list[a] == earlier[a]);
            } else {
                assert(list[earlier.len() as int].name == candidates[k].name);
            }
        }
    }
}

proof fn all_are_ranked(list: Seq<Standing>, at: int)
    requires
        0 <= at < list.len(),
    ensures
        exists|b: int| 0 <= b < ranked(list).len() && ranked(list)[b] == list[at],
    decreases list.len(),
{
    let shorter = list.drop_last();
    let earlier = ranked(shorter);
    ranking_is_sorted(shorter);
    rank_place_facts(earlier, list.last());
    let place = rank_place(earlier, list.last());
    if at == list.len() - 1 {
        assert(ranked(list)[place] == list[at]);
    } else {
        all_are_ranked(shorter, at);
        let b = choose|b: int| 0 <= b < earlier.len() && earlier[b] == shorter[at];
        let after = if b < place {
            b
        } else {
            b + 1
        };
        assert(ranked(list)[after] == list[at]);
    }
}

/// Launches are told of the entry that was launched, from the first on.
pub proof fn the_first_record_of_an_entry_counts(
    entries: Seq<UsageView>,
    at: int,
    desktop_id: Seq<char>,
)
    requires
        0 <= at < entries.len(),
        entries[at].desktop_id == desktop_id,
        forall|i: int| 0 <= i < at ==> (#[trigger] entries[i]).desktop_id != desktop_id,
    ensures
        usage_of(entries, desktop_id) == entries[at].usage,
        usage_of(Seq::empty(), desktop_id).count == 0,
{
    usage_of_update(entries, at, entries[at].usage, desktop_id);
}

/// The names are listed as their candidates are ranked, and a candidate is compared by
/// the lower case of its own name.
pub proof fn names_keep_their_places(list: Seq<Standing>, names: Seq<Seq<char>>, at: int)
    ensures
        names_of(list).len() == list.len(),
        0 <= at < list.len() ==> names_of(list)[at] == list[at].name,
        candidates_of(names).len() == names.len(),
        0 <= at < names.len() ==> candidates_of(names)[at].name == names[at]
            && candidates_of(names)[at].lower == lowercase_of(names[at]),
{
}

} // verus!
