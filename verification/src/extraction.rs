//! Extraction jobs: which ranges of a journal have been read for memory, by whom,
//! and with what result.
//!
//! Jobs of one stream cover ranges that do not overlap, a job is settled by the
//! lease that holds it, and the cursor moves over ranges without gaps.

use crate::backoff::{delay_within, doubled_delay, law_delays_grow_within_bounds};
use crate::columns::{i64_fault, narrow_fault, to_i64, to_narrow, to_unsigned, unsigned_fault};
use crate::error::{
    answers, fault, first, parsed_fault, parsed_value, ErrorCode, Fault, Parsed, StoreError,
};
use crate::journal::{check_fence, fence_fault, HostFence};
use crate::json::{json_string_list, json_strings};
use crate::memory::{
    record_fault, sources_fault, validate_record, write_version_sources, MemoryVerdicts,
    StoredMemoryAssetRecord,
};
use crate::seqs::{lemma_set_before_agrees, set_before};
use crate::text::{
    blank, cat, copy_option, decimal, decimal_text, has_text, is_blank, opt_text, same_text, same_texts,
    texts,
};
use vstd::prelude::*;

verus! {

/// One job: a range of a stream, read in one way.
#[derive(Clone, Debug, PartialEq, Eq)]
pub struct StoredExtractionJobRecord {
    pub job_id: String,
    pub source_stream: String,
    pub start_sequence: u64,
    pub end_sequence: u64,
    pub source_digest: String,
    pub source_event_ids: Vec<String>,
    pub extractor_version: String,
    pub strategy_digest: String,
    pub status: String,
    pub attempts: u32,
    pub lease_owner: Option<String>,
    pub lease_generation: u64,
    pub last_error: Option<String>,
    pub disposition: Option<String>,
}

/// A leased job with the events of its range.
#[derive(Clone, Debug, PartialEq, Eq)]
pub struct StoredExtractionLeaseRecord {
    pub job: StoredExtractionJobRecord,
    /// The events as JSON texts.
    pub source_events: Vec<String>,
    pub owner: String,
    pub generation: u64,
}

// ---------------------------------------------------------------------------
// Ranges

/// A run of committed sequences without a gap.
#[derive(Clone, Debug, PartialEq, Eq)]
pub struct SourceWorkRange {
    pub start_sequence: u64,
    pub end_sequence: u64,
    /// The events as JSON texts.
    pub events: Vec<String>,
}

/// One marked event of a stream, as its row is read.
#[derive(Clone, Debug)]
pub struct MarkedEvent {
    pub sequence: i64,
    pub event_json: String,
    /// Whether the event's text has the shape of an event.
    pub reads: bool,
}

/// Why a marked event cannot be used.
pub open spec fn marked_event_fault(event: MarkedEvent) -> Option<Fault> {
    first(
        unsigned_fault(
            event.sequence,
            ErrorCode::InvalidSequence,
            "stored source-work sequence is negative"@,
        ),
        if event.reads {
            None
        } else {
            fault(ErrorCode::InvalidPayload, "stored source event is invalid"@)
        },
    )
}

/// Why some marked events cannot be used: the first one that cannot.
pub open spec fn marked_events_fault(events: Seq<MarkedEvent>) -> Option<Fault>
    decreases events.len(),
{
    if events.len() == 0 {
        None
    } else {
        first(marked_events_fault(events.drop_last()), marked_event_fault(events.last()))
    }
}

proof fn lemma_first_marked_fault_stands(events: Seq<MarkedEvent>, count: int)
    requires
        0 <= count <= events.len(),
        marked_events_fault(events.take(count)) is Some,
    ensures
        marked_events_fault(events) == marked_events_fault(events.take(count)),
    decreases events.len() - count,
{
    if count == events.len() {
        assert(events.take(count) =~= events);
    } else {
        assert(events.take(count + 1).drop_last() =~= events.take(count));
        lemma_first_marked_fault_stands(events, count + 1);
    }
}

/// A range is a stretch of the marked events, whole and in order.
pub open spec fn covers(range: SourceWorkRange, events: Seq<MarkedEvent>, from: int, to: int) -> bool {
    &&& 0 <= from < to <= events.len()
    &&& range.start_sequence == events[from].sequence
    &&& range.end_sequence == events[to - 1].sequence
    &&& range.events@.len() == to - from
    &&& forall|i: int|
        from <= i < to ==> range.events@[i - from] == (#[trigger] events[i]).event_json
    &&& forall|i: int|
        from <= i < to ==> (#[trigger] events[i]).sequence == events[from].sequence + (i - from)
}

/// Ranges cut the marked events into the longest runs without a gap. `cuts` are
/// where they begin, with the end behind the last one.
pub open spec fn cut_into(ranges: Seq<SourceWorkRange>, events: Seq<MarkedEvent>, cuts: Seq<int>) -> bool {
    &&& cuts.len() == ranges.len() + 1
    &&& cuts[0] == 0
    &&& cuts.last() == events.len()
    &&& forall|k: int|
        0 <= k < ranges.len() ==> covers(#[trigger] ranges[k], events, cuts[k], cuts[k + 1])
    &&& forall|k: int|
        0 <= k < ranges.len() - 1 ==> (#[trigger] ranges[k]).end_sequence + 1
            != ranges[k + 1].start_sequence
}

/// The longest runs without a gap among the marked events of a stream.
pub fn source_work_ranges(events: &Vec<MarkedEvent>) -> (result: Result<
    Vec<SourceWorkRange>,
    StoreError,
>)
    ensures
        answers(result, marked_events_fault(events@)),
        result is Ok ==> exists|cuts: Seq<int>| #[trigger]
            cut_into(result->Ok_0@, events@, cuts),
{
    let mut ranges: Vec<SourceWorkRange> = Vec::new();
    let ghost mut cuts: Seq<int> = seq![0];
    let mut i: usize = 0;
    while i < events.len()
        invariant
            i <= events.len(),
            marked_events_fault(events@.take(i as int)) is None,
            cut_into(ranges@, events@.take(i as int), cuts),
        decreases events.len() - i,
    {
        let ghost head = events@.take(i as int);
        let ghost more = events@.take(i + 1);
        proof {
            assert(more.drop_last() =~= head);
            assert(more.last() == events@[i as int]);
        }
        let event: &MarkedEvent = &events[i];
        let sequence: u64 = match to_unsigned(
            event.sequence,
            ErrorCode::InvalidSequence,
            "stored source-work sequence is negative",
        ) {
            Ok(sequence) => sequence,
            Err(error) => {
                proof {
                    lemma_first_marked_fault_stands(events@, i + 1);
                }
                return Err(error);
            },
        };
        if !event.reads {
            proof {
                lemma_first_marked_fault_stands(events@, i + 1);
            }
            return Err(
                StoreError::new(ErrorCode::InvalidPayload, "stored source event is invalid"),
            );
        }
        let ghost before = ranges@;
        let ghost old_cuts = cuts;
        let joins: bool = ranges.len() > 0 && ranges[ranges.len() - 1].end_sequence < u64::MAX
            && ranges[ranges.len() - 1].end_sequence + 1 == sequence;
        if joins {
            let last: usize = ranges.len() - 1;
            ranges[last].end_sequence = sequence;
            ranges[last].events.push(event.event_json.clone());
            proof {
                cuts = old_cuts.update(old_cuts.len() - 1, i + 1);
                let k = before.len() - 1;
                assert(covers(before[k], head, old_cuts[k], old_cuts[k + 1]));
                assert(covers(ranges@[k], more, cuts[k], cuts[k + 1])) by {
                    assert forall|j: int| cuts[k] <= j < cuts[k + 1] implies ranges@[k].events@[j
                        - cuts[k]] == (#[trigger] more[j]).event_json by {
                        if j < i {
                            assert(head[j] == more[j]);
                        }
                    }
                    assert forall|j: int| cuts[k] <= j < cuts[k + 1] implies (
                    #[trigger] more[j]).sequence == more[cuts[k]].sequence + (j - cuts[k]) by {
                        assert(head[cuts[k]] == more[cuts[k]]);
                        if j < i {
                            assert(head[j] == more[j]);
                        } else {
                            assert(head[i - 1] == more[i - 1]);
                        }
                    }
                    assert(head[cuts[k]] == more[cuts[k]]);
                }
                assert forall|m: int| 0 <= m < ranges@.len() implies covers(
                    #[trigger] ranges@[m],
                    more,
                    cuts[m],
                    cuts[m + 1],
                ) by {
                    if m < k {
                        assert(ranges@[m] == before[m]);
                        lemma_covers_more(before[m], head, more, old_cuts[m], old_cuts[m + 1]);
                    }
                }
                assert forall|m: int| 0 <= m < ranges@.len() - 1 implies (
                #[trigger] ranges@[m]).end_sequence + 1 != ranges@[m + 1].start_sequence by {
                    assert(ranges@[m] == before[m]);
                    assert(before[m].end_sequence + 1 != before[m + 1].start_sequence);
                }
                assert(cut_into(ranges@, more, cuts));
            }
        } else {
            let mut first_event: Vec<String> = Vec::new();
            first_event.push(event.event_json.clone());
            ranges.push(
                SourceWorkRange {
                    start_sequence: sequence,
                    end_sequence: sequence,
                    events: first_event,
                },
            );
            proof {
                cuts = old_cuts.push(i + 1);
                let k = before.len() as int;
                assert(covers(ranges@[k], more, cuts[k], cuts[k + 1]));
                assert forall|m: int| 0 <= m < ranges@.len() implies covers(
                    #[trigger] ranges@[m],
                    more,
                    cuts[m],
                    cuts[m + 1],
                ) by {
                    if m < k {
                        assert(ranges@[m] == before[m]);
                        lemma_covers_more(before[m], head, more, old_cuts[m], old_cuts[m + 1]);
                    }
                }
                assert forall|m: int| 0 <= m < ranges@.len() - 1 implies (
                #[trigger] ranges@[m]).end_sequence + 1 != ranges@[m + 1].start_sequence by {
                    assert(ranges@[m] == before[m]);
                    if m + 1 < k {
                        assert(before[m].end_sequence + 1 != before[m + 1].start_sequence);
                    }
                }
                assert(cut_into(ranges@, more, cuts));
            }
        }
        i += 1;
    }
    assert(events@.take(i as int) =~= events@);
    let result: Result<Vec<SourceWorkRange>, StoreError> = Ok(ranges);
    assert(cut_into(result->Ok_0@, events@, cuts));
    result
}

proof fn lemma_covers_more(
    range: SourceWorkRange,
    events: Seq<MarkedEvent>,
    more: Seq<MarkedEvent>,
    from: int,
    to: int,
)
    requires
        covers(range, events, from, to),
        events.len() <= more.len(),
        forall|i: int| 0 <= i < events.len() ==> events[i] == more[i],
    ensures
        covers(range, more, from, to),
{
    assert forall|i: int| from <= i < to implies range.events@[i - from] == (
    #[trigger] more[i]).event_json by {
        assert(events[i] == more[i]);
    }
    assert forall|i: int| from <= i < to implies (#[trigger] more[i]).sequence
        == more[from].sequence + (i - from) by {
        assert(events[i] == more[i]);
    }
}

/// Nothing that was committed is lost between the ranges: every marked event lies
/// in one of them.
pub proof fn law_ranges_cover_every_event(
    ranges: Seq<SourceWorkRange>,
    events: Seq<MarkedEvent>,
    cuts: Seq<int>,
    i: int,
)
    requires
        cut_into(ranges, events, cuts),
        0 <= i < events.len(),
    ensures
        exists|k: int|
            0 <= k < ranges.len() && (#[trigger] ranges[k]).start_sequence <= events[i].sequence
                <= ranges[k].end_sequence,
{
    lemma_some_cut_holds(ranges, events, cuts, i, ranges.len() as int);
}

/// Marked events are used where each of them can be.
proof fn lemma_marked_events_are_each_used(
    events: Seq<MarkedEvent>,
)
    ensures
        marked_events_fault(events) is None <==> forall|i: int|
            0 <= i < events.len() ==> marked_event_fault(#[trigger] events[i]) is None,
    decreases events.len(),
{
    if events.len() > 0 {
        let head = events.drop_last();
        lemma_marked_events_are_each_used(head);
        assert forall|i: int| 0 <= i < head.len() implies head[i] == #[trigger] events[i] by {}
        if marked_events_fault(events) is None {
            assert forall|i: int| 0 <= i < events.len() implies marked_event_fault(#[trigger] events[i]) is None by {
                if i < head.len() {
                    assert(marked_event_fault(head[i]) is None);
                }
            }
        }
        if forall|i: int|
            0 <= i < events.len() ==> marked_event_fault(#[trigger] events[i]) is None {
            assert forall|i: int| 0 <= i < head.len() implies marked_event_fault(#[trigger] head[i]) is None by {
                assert(marked_event_fault(events[i]) is None);
            }
            assert(marked_event_fault(events[events.len() - 1]) is None);
        }
    }
}

/// The range that holds an event.
proof fn lemma_cut_of(
    ranges: Seq<SourceWorkRange>,
    events: Seq<MarkedEvent>,
    cuts: Seq<int>,
    i: int,
    count: int,
) -> (k: int)
    requires
        cut_into(ranges, events, cuts),
        0 <= count <= ranges.len(),
        0 <= i < cuts[count],
    ensures
        0 <= k < count,
        cuts[k] <= i < cuts[k + 1],
    decreases count,
{
    let last = count - 1;
    if count > 0 {
        assert(covers(ranges[last], events, cuts[last], cuts[last + 1]));
    }
    if i >= cuts[last] {
        last
    } else {
        lemma_cut_of(ranges, events, cuts, i, last)
    }
}

/// Events whose sequences follow each other lie in one range, and events with a gap between
/// them do not. Marked events are cut into ranges where each of them has a sequence that is no
/// less than nothing and can be read.
pub proof fn law_events_without_a_gap_share_a_range(
    ranges: Seq<SourceWorkRange>,
    events: Seq<MarkedEvent>,
    cuts: Seq<int>,
    i: int,
)
    requires
        cut_into(ranges, events, cuts),
        0 <= i < events.len() - 1,
    ensures
        exists|k: int|
            0 <= k < ranges.len() && #[trigger] cuts[k] <= i < cuts[k + 1] && (i + 1 < cuts[k + 1]
                <==> events[i].sequence + 1 == events[i + 1].sequence)
                && ranges[k].start_sequence <= events[i].sequence <= ranges[k].end_sequence
                && ranges[k].events@[i - cuts[k]] == events[i].event_json,
        marked_events_fault(events) is None <==> forall|j: int|
            0 <= j < events.len() ==> 0 <= (#[trigger] events[j]).sequence && events[j].reads,
{
    let k = lemma_cut_of(ranges, events, cuts, i, ranges.len() as int);
    assert(covers(ranges[k], events, cuts[k], cuts[k + 1]));
    assert(events[i].sequence == events[cuts[k]].sequence + (i - cuts[k]));
    let end = cuts[k + 1] - 1;
    assert(events[end].sequence == events[cuts[k]].sequence + (end - cuts[k]));
    if i + 1 < cuts[k + 1] {
        assert(events[i + 1].sequence == events[cuts[k]].sequence + (i + 1 - cuts[k]));
    } else {
        assert(k + 1 < ranges.len());
        assert(covers(ranges[k + 1], events, cuts[k + 1], cuts[k + 1 + 1]));
        assert(ranges[k].end_sequence + 1 != ranges[k + 1].start_sequence);
    }
    assert(ranges[k].events@[i - cuts[k]] == events[i].event_json);
    assert(cuts[k] <= i);
    lemma_marked_events_are_each_used(events);
    assert forall|j: int| 0 <= j < events.len() implies (marked_event_fault(
        #[trigger] events[j],
    ) is None) == (0 <= events[j].sequence && events[j].reads) by {}
}

proof fn lemma_some_cut_holds(
    ranges: Seq<SourceWorkRange>,
    events: Seq<MarkedEvent>,
    cuts: Seq<int>,
    i: int,
    count: int,
)
    requires
        cut_into(ranges, events, cuts),
        0 <= count <= ranges.len(),
        0 <= i < cuts[count],
    ensures
        exists|k: int|
            0 <= k < ranges.len() && (#[trigger] ranges[k]).start_sequence <= events[i].sequence
                <= ranges[k].end_sequence,
    decreases count,
{
    if count > 0 {
        let k = count - 1;
        assert(covers(ranges[k], events, cuts[k], cuts[k + 1]));
        if i >= cuts[k] {
            assert(events[i].sequence == events[cuts[k]].sequence + (i - cuts[k]));
            assert(events[cuts[k + 1] - 1].sequence == events[cuts[k]].sequence + (cuts[k + 1] - 1
                - cuts[k]));
            assert(ranges[k].start_sequence <= events[i].sequence <= ranges[k].end_sequence);
        } else {
            lemma_some_cut_holds(ranges, events, cuts, i, k);
        }
    }
}

// ---------------------------------------------------------------------------
// Cursors

/// Where a stream's cursor stands. A stream without one starts at zero.
pub fn extraction_cursor(stored: Option<i64>) -> (result: Result<u64, StoreError>)
    ensures
        answers(
            result,
            match stored {
                None => None,
                Some(value) => unsigned_fault(
                    value,
                    ErrorCode::InvalidSequence,
                    "stored extraction cursor is negative"@,
                ),
            },
        ),
        result is Ok ==> result->Ok_0 == match stored {
            None => 0,
            Some(value) => value as int,
        },
{
    match stored {
        None => Ok(0),
        Some(value) => to_unsigned(
            value,
            ErrorCode::InvalidSequence,
            "stored extraction cursor is negative",
        ),
    }
}

/// Why a stream's cursor cannot be read where it has to be there.
pub open spec fn cursor_fault(stored: Option<i64>) -> Option<Fault> {
    match stored {
        None => fault(ErrorCode::InvalidPayload, "extraction cursor is missing"@),
        Some(value) => unsigned_fault(
            value,
            ErrorCode::InvalidSequence,
            "stored extraction cursor is negative"@,
        ),
    }
}

/// Where a stream's cursor stands. It has to be there.
pub fn read_cursor(stored: Option<i64>) -> (result: Result<u64, StoreError>)
    ensures
        answers(result, cursor_fault(stored)),
        result is Ok ==> result->Ok_0 == stored->Some_0,
{
    match stored {
        None => Err(StoreError::new(ErrorCode::InvalidPayload, "extraction cursor is missing")),
        Some(value) => to_unsigned(
            value,
            ErrorCode::InvalidSequence,
            "stored extraction cursor is negative",
        ),
    }
}

/// Why the cursor of a stream is not started.
pub open spec fn start_cursor_fault(
    initial_sequence: u64,
    fence: HostFence,
    held: Option<i64>,
    stored: Option<i64>,
) -> Option<Fault> {
    first(
        fence_fault(held, fence),
        first(
            i64_fault(initial_sequence, "initial extraction sequence"@),
            match stored {
                None => None,
                Some(_) => cursor_fault(stored),
            },
        ),
    )
}

/// Starts a stream's cursor, or hands back where it stands.
pub fn ensure_extraction_cursor(
    initial_sequence: u64,
    fence: &HostFence,
    held: Option<i64>,
    stored: Option<i64>,
) -> (result: Result<u64, StoreError>)
    ensures
        answers(result, start_cursor_fault(initial_sequence, *fence, held, stored)),
        result is Ok ==> result->Ok_0 == match stored {
            None => initial_sequence as int,
            Some(value) => value as int,
        },
{
    check_fence(held, fence)?;
    let initial: i64 = to_i64(initial_sequence, "initial extraction sequence")?;
    match stored {
        None => Ok(initial_sequence),
        Some(_) => read_cursor(stored),
    }
}

/// Where the next job of a stream starts, behind its cursor and behind its last job.
pub open spec fn next_start(cursor: u64, latest: Option<i64>) -> int {
    let tail = match latest {
        None => 0,
        Some(value) => value as int,
    };
    let last = if cursor < tail {
        tail
    } else {
        cursor as int
    };
    if last < u64::MAX {
        last + 1
    } else {
        u64::MAX as int
    }
}

/// Where the next job of a stream starts: behind its cursor and behind its last
/// job.
pub fn extraction_schedule_start(cursor: u64, latest: Option<i64>) -> (result: Result<
    u64,
    StoreError,
>)
    ensures
        answers(
            result,
            match latest {
                None => None,
                Some(value) => unsigned_fault(
                    value,
                    ErrorCode::InvalidSequence,
                    "stored extraction range is negative"@,
                ),
            },
        ),
        result is Ok ==> result->Ok_0 == next_start(cursor, latest),
{
    let tail: u64 = match latest {
        None => 0,
        Some(value) => to_unsigned(
            value,
            ErrorCode::InvalidSequence,
            "stored extraction range is negative",
        )?,
    };
    let last: u64 = if cursor < tail {
        tail
    } else {
        cursor
    };
    Ok(last.saturating_add(1))
}

/// The next job starts right behind the later of the cursor and the last job. A cursor is
/// started by whoever may write, where it is not there or can be read.
pub proof fn law_next_job_starts_behind_the_last(
    cursor: u64,
    latest: i64,
    initial_sequence: u64,
    fence: HostFence,
    held: Option<i64>,
)
    requires
        0 <= latest,
        cursor < u64::MAX,
    ensures
        next_start(cursor, None) == cursor + 1,
        latest <= cursor ==> next_start(cursor, Some(latest)) == cursor + 1,
        latest > cursor ==> next_start(cursor, Some(latest)) == latest + 1,
        start_cursor_fault(initial_sequence, fence, held, None) is None <==> {
            &&& held is Some
            &&& held->Some_0 == fence.generation as int
            &&& initial_sequence <= i64::MAX
        },
        start_cursor_fault(initial_sequence, fence, held, Some(latest)) is None <==> {
            &&& held is Some
            &&& held->Some_0 == fence.generation as int
            &&& initial_sequence <= i64::MAX
        },
{
}

/// Refuses a page of marked events that holds none, or more than can be asked
/// for.
pub fn check_page_limit(limit: usize) -> (result: Result<i64, StoreError>)
    ensures
        answers(
            result,
            if limit == 0 {
                fault(ErrorCode::InvalidPayload, "memory source page limit must be positive"@)
            } else if limit > i64::MAX {
                fault(ErrorCode::InvalidPayload, "memory source page limit is too large"@)
            } else {
                None
            },
        ),
        result is Ok ==> result->Ok_0 == limit,
{
    if limit == 0 {
        return Err(
            StoreError::new(
                ErrorCode::InvalidPayload,
                "memory source page limit must be positive",
            ),
        );
    }
    if limit as u64 > i64::MAX as u64 {
        return Err(
            StoreError::new(ErrorCode::InvalidPayload, "memory source page limit is too large"),
        );
    }
    Ok(limit as i64)
}

// ---------------------------------------------------------------------------
// Jobs

/// A job names its range, event by event.
pub open spec fn is_valid_job(job: StoredExtractionJobRecord) -> bool {
    &&& !blank(job.job_id@)
    &&& !blank(job.extractor_version@)
    &&& 0 < job.start_sequence <= job.end_sequence
    &&& job.source_event_ids@.len() == job.end_sequence - job.start_sequence + 1
}

/// Refuses a job that does not name its range.
pub fn validate_job(job: &StoredExtractionJobRecord) -> (result: Result<(), StoreError>)
    ensures
        answers(
            result,
            if is_valid_job(*job) {
                None
            } else {
                fault(ErrorCode::InvalidPayload, "extraction job range is invalid"@)
            },
        ),
{
    if is_blank(job.job_id.as_str()) || is_blank(job.extractor_version.as_str())
        || job.start_sequence == 0 || job.end_sequence < job.start_sequence
        || job.source_event_ids.len() as u128 != (job.end_sequence - job.start_sequence) as u128 + 1 {
        return Err(
            StoreError::new(ErrorCode::InvalidPayload, "extraction job range is invalid"),
        );
    }
    Ok(())
}

/// Two ranges have a sequence in common.
pub open spec fn overlap(start: int, end: int, other_start: int, other_end: int) -> bool {
    !(other_end < start || other_start > end)
}

/// The range of a job that is there.
#[derive(Clone, Copy, Debug, PartialEq, Eq)]
pub struct JobRange {
    pub start_sequence: i64,
    pub end_sequence: i64,
}

/// A job's range meets one that is there.
pub open spec fn meets_any(job: StoredExtractionJobRecord, ranges: Seq<JobRange>) -> bool {
    exists|i: int|
        0 <= i < ranges.len() && overlap(
            job.start_sequence as int,
            job.end_sequence as int,
            (#[trigger] ranges[i]).start_sequence as int,
            ranges[i].end_sequence as int,
        )
}

/// Why a job is not stored. `ranges` are the ranges of the jobs that read the same
/// stream in the same way.
pub open spec fn insert_job_fault(
    job: StoredExtractionJobRecord,
    fence: HostFence,
    held: Option<i64>,
    ranges: Seq<JobRange>,
) -> Option<Fault> {
    if !is_valid_job(job) {
        fault(ErrorCode::InvalidPayload, "extraction job range is invalid"@)
    } else {
        first(
            fence_fault(held, fence),
            first(
                i64_fault(job.start_sequence, "extraction range start"@),
                first(
                    i64_fault(job.end_sequence, "extraction range end"@),
                    if meets_any(job, ranges) {
                        fault(
                            ErrorCode::IdempotencyConflict,
                            "extraction source ranges must not overlap"@,
                        )
                    } else {
                        i64_fault(job.lease_generation, "extraction lease generation"@)
                    },
                ),
            ),
        )
    }
}

/// Refuses a job whose range meets that of another one.
pub fn insert_extraction_job(
    job: &StoredExtractionJobRecord,
    fence: &HostFence,
    held: Option<i64>,
    ranges: &Vec<JobRange>,
) -> (result: Result<(), StoreError>)
    ensures
        answers(result, insert_job_fault(*job, *fence, held, ranges@)),
{
    validate_job(job)?;
    check_fence(held, fence)?;
    let start: i64 = to_i64(job.start_sequence, "extraction range start")?;
    let end: i64 = to_i64(job.end_sequence, "extraction range end")?;
    let mut i: usize = 0;
    while i < ranges.len()
        invariant
            i <= ranges.len(),
            is_valid_job(*job),
            fence_fault(held, *fence) is None,
            start == job.start_sequence,
            end == job.end_sequence,
            forall|j: int|
                0 <= j < i ==> !overlap(
                    job.start_sequence as int,
                    job.end_sequence as int,
                    (#[trigger] ranges@[j]).start_sequence as int,
                    ranges@[j].end_sequence as int,
                ),
        decreases ranges.len() - i,
    {
        if !(ranges[i].end_sequence < start || ranges[i].start_sequence > end) {
            assert(overlap(
                job.start_sequence as int,
                job.end_sequence as int,
                ranges@[i as int].start_sequence as int,
                ranges@[i as int].end_sequence as int,
            ));
            return Err(
                StoreError::new(
                    ErrorCode::IdempotencyConflict,
                    "extraction source ranges must not overlap",
                ),
            );
        }
        i += 1;
    }
    let generation: i64 = to_i64(job.lease_generation, "extraction lease generation")?;
    Ok(())
}

/// A host that may write stores a job if and only if the job has a name and an extractor,
/// names one event for each sequence of a range that does not start at zero, and shares no
/// sequence with a job that is there.
pub proof fn law_job_is_stored_where_its_range_is_free(
    job: StoredExtractionJobRecord,
    fence: HostFence,
    held: Option<i64>,
    ranges: Seq<JobRange>,
)
    ensures
        insert_job_fault(job, fence, held, ranges) is None <==> {
            &&& !blank(job.job_id@)
            &&& !blank(job.extractor_version@)
            &&& 1 <= job.start_sequence <= job.end_sequence <= i64::MAX
            &&& job.source_event_ids@.len() == job.end_sequence - job.start_sequence + 1
            &&& job.lease_generation <= i64::MAX
            &&& held is Some
            &&& held->Some_0 == fence.generation as int
            &&& forall|i: int|
                0 <= i < ranges.len() ==> (#[trigger] ranges[i]).end_sequence < job.start_sequence
                    || job.end_sequence < ranges[i].start_sequence
        },
{
    if insert_job_fault(job, fence, held, ranges) is None {
        assert forall|i: int| 0 <= i < ranges.len() implies (#[trigger] ranges[i]).end_sequence
            < job.start_sequence || job.end_sequence < ranges[i].start_sequence by {
            assert(!overlap(
                job.start_sequence as int,
                job.end_sequence as int,
                ranges[i].start_sequence as int,
                ranges[i].end_sequence as int,
            ));
        }
    }
}

/// No sequence is read twice in the same way: a job that was let in has no
/// sequence in common with any job that was there.
pub proof fn law_job_ranges_are_disjoint(
    job: StoredExtractionJobRecord,
    fence: HostFence,
    held: Option<i64>,
    ranges: Seq<JobRange>,
    i: int,
    sequence: int,
)
    requires
        insert_job_fault(job, fence, held, ranges) is None,
        0 <= i < ranges.len(),
        job.start_sequence <= sequence <= job.end_sequence,
    ensures
        !(ranges[i].start_sequence <= sequence <= ranges[i].end_sequence),
{
    assert(!overlap(
        job.start_sequence as int,
        job.end_sequence as int,
        ranges[i].start_sequence as int,
        ranges[i].end_sequence as int,
    ));
}

// ---------------------------------------------------------------------------
// Leases

/// A job can be leased: it waits, and where it waits for a retry, that is due.
pub open spec fn is_leaseable(status: Seq<char>, next_due_unix_ms: i64, now_unix_ms: i64) -> bool {
    ||| status == "pending"@
    ||| status == "paused"@
    ||| status == "blocked"@
    ||| status == "retry_wait"@ && next_due_unix_ms <= now_unix_ms
}

/// Why a job cannot be leased.
pub open spec fn lease_fault(
    owner: Seq<char>,
    fence: HostFence,
    held: Option<i64>,
    job: Option<StoredExtractionJobRecord>,
    next_due_unix_ms: i64,
    now_unix_ms: i64,
) -> Option<Fault> {
    if blank(owner) {
        fault(ErrorCode::InvalidPayload, "lease owner is required"@)
    } else {
        first(
            fence_fault(held, fence),
            if job is None || !is_leaseable(job->Some_0.status@, next_due_unix_ms, now_unix_ms) {
                fault(ErrorCode::RuntimeCommandConflict, "extraction job is not leaseable"@)
            } else if job->Some_0.attempts == u32::MAX {
                fault(ErrorCode::InvalidSequence, "job attempts are invalid"@)
            } else {
                None
            },
        )
    }
}

/// A job after it was leased: one more attempt, under a generation of its own.
pub open spec fn leased_as(
    before: StoredExtractionJobRecord,
    after: StoredExtractionJobRecord,
    owner: Seq<char>,
) -> bool {
    &&& after == (StoredExtractionJobRecord {
        status: after.status,
        lease_owner: after.lease_owner,
        lease_generation: (before.lease_generation + 1) as u64,
        attempts: (before.attempts + 1) as u32,
        last_error: None,
        ..before
    })
    &&& after.status@ == "leased"@
    &&& opt_text(after.lease_owner) == Some(owner)
}

/// Leases a job.
pub fn lease_extraction_job(
    owner: &str,
    fence: &HostFence,
    held: Option<i64>,
    job: Option<StoredExtractionJobRecord>,
    next_due_unix_ms: i64,
    now_unix_ms: i64,
) -> (result: Result<StoredExtractionJobRecord, StoreError>)
    requires
        job is Some ==> job->Some_0.lease_generation < i64::MAX,
    ensures
        answers(result, lease_fault(owner@, *fence, held, job, next_due_unix_ms, now_unix_ms)),
        result is Ok ==> leased_as(job->Some_0, result->Ok_0, owner@),
{
    if is_blank(owner) {
        return Err(StoreError::new(ErrorCode::InvalidPayload, "lease owner is required"));
    }
    check_fence(held, fence)?;
    match job {
        None => {},
        Some(current) => {
            let status: &str = current.status.as_str();
            if same_text(status, "pending") || same_text(status, "paused") || same_text(
                status,
                "blocked",
            ) || (same_text(status, "retry_wait") && next_due_unix_ms <= now_unix_ms) {
                if current.attempts == u32::MAX {
                    return Err(
                        StoreError::new(ErrorCode::InvalidSequence, "job attempts are invalid"),
                    );
                }
                let mut after: StoredExtractionJobRecord = current;
                after.status = "leased".to_owned();
                after.lease_owner = Some(owner.to_owned());
                after.lease_generation = after.lease_generation + 1;
                after.attempts = after.attempts + 1;
                after.last_error = None;
                return Ok(after);
            }
        },
    }
    Err(StoreError::new(ErrorCode::RuntimeCommandConflict, "extraction job is not leaseable"))
}

/// A named owner under a current fence leases a job if and only if the job waits and has an
/// attempt left: one that is pending, paused or blocked at once, and one that waits for a
/// retry from when it is due. The job is then leased to that owner, with one more attempt
/// and under the next generation, and nothing else of it has changed but that it has no
/// error any more.
pub proof fn law_waiting_job_is_leased(
    owner: Seq<char>,
    fence: HostFence,
    held: Option<i64>,
    job: StoredExtractionJobRecord,
    next_due_unix_ms: i64,
    now_unix_ms: i64,
)
    ensures
        lease_fault(owner, fence, held, Some(job), next_due_unix_ms, now_unix_ms) is None <==> {
            &&& !blank(owner)
            &&& held is Some
            &&& held->Some_0 == fence.generation as int
            &&& job.attempts < u32::MAX
            &&& job.status@ == "pending"@ || job.status@ == "paused"@ || job.status@
                == "blocked"@ || (job.status@ == "retry_wait"@ && next_due_unix_ms
                <= now_unix_ms)
        },
        lease_fault(owner, fence, held, None, next_due_unix_ms, now_unix_ms) is Some,
        forall|after: StoredExtractionJobRecord| #[trigger]
            leased_as(job, after, owner) && job.attempts < u32::MAX && job.lease_generation
                < i64::MAX ==> {
                &&& after.status@ == "leased"@
                &&& after.lease_owner is Some
                &&& after.lease_owner->Some_0@ == owner
                &&& after.attempts == job.attempts + 1
                &&& after.lease_generation == job.lease_generation + 1
                &&& after.last_error is None
                &&& after.job_id == job.job_id
                &&& after.source_stream == job.source_stream
                &&& after.start_sequence == job.start_sequence
                &&& after.end_sequence == job.end_sequence
                &&& after.source_digest == job.source_digest
                &&& after.source_event_ids == job.source_event_ids
                &&& after.extractor_version == job.extractor_version
                &&& after.strategy_digest == job.strategy_digest
                &&& after.disposition == job.disposition
            },
{
}

/// A stored job is still the one that a lease was given for.
pub open spec fn same_range(stored: StoredExtractionJobRecord, leased: StoredExtractionJobRecord) -> bool {
    &&& stored.source_stream@ == leased.source_stream@
    &&& stored.start_sequence == leased.start_sequence
    &&& stored.end_sequence == leased.end_sequence
    &&& texts(stored.source_event_ids@) == texts(leased.source_event_ids@)
    &&& stored.extractor_version@ == leased.extractor_version@
    &&& stored.strategy_digest@ == leased.strategy_digest@
}

/// A lease still holds its job.
pub open spec fn holds_job(
    stored: StoredExtractionJobRecord,
    lease: StoredExtractionLeaseRecord,
) -> bool {
    &&& stored.status@ == "leased"@
    &&& opt_text(stored.lease_owner) == Some(lease.owner@)
    &&& stored.lease_generation == lease.generation
    &&& stored.source_digest@ == lease.job.source_digest@
}

/// Why a lease does not let its holder settle its job.
pub open spec fn job_lease_fault(
    lease: StoredExtractionLeaseRecord,
    stored: Option<StoredExtractionJobRecord>,
) -> Option<Fault> {
    match stored {
        None => fault(ErrorCode::StaleWriter, "extraction job missing"@),
        Some(job) => if !same_range(job, lease.job) {
            fault(ErrorCode::StaleWriter, "immutable extraction range was altered"@)
        } else {
            first(
                i64_fault(lease.generation, "extraction lease generation"@),
                if holds_job(job, lease) {
                    None
                } else {
                    fault(
                        ErrorCode::StaleWriter,
                        "extraction lease owner or generation is stale"@,
                    )
                },
            )
        },
    }
}

/// Refuses a lease that no longer holds its job.
pub fn assert_job_lease(
    lease: &StoredExtractionLeaseRecord,
    stored: &Option<StoredExtractionJobRecord>,
) -> (result: Result<(), StoreError>)
    ensures
        answers(result, job_lease_fault(*lease, *stored)),
{
    let job: &StoredExtractionJobRecord = match stored {
        Some(job) => job,
        None => {
            return Err(StoreError::new(ErrorCode::StaleWriter, "extraction job missing"));
        },
    };
    if !same_text(job.source_stream.as_str(), lease.job.source_stream.as_str())
        || job.start_sequence != lease.job.start_sequence || job.end_sequence
        != lease.job.end_sequence || !same_texts(
        &job.source_event_ids,
        &lease.job.source_event_ids,
    ) || !same_text(job.extractor_version.as_str(), lease.job.extractor_version.as_str())
        || !same_text(job.strategy_digest.as_str(), lease.job.strategy_digest.as_str()) {
        return Err(
            StoreError::new(ErrorCode::StaleWriter, "immutable extraction range was altered"),
        );
    }
    let generation: i64 = to_i64(lease.generation, "extraction lease generation")?;
    let owned: bool = match &job.lease_owner {
        None => false,
        Some(owner) => same_text(owner.as_str(), lease.owner.as_str()),
    };
    if same_text(job.status.as_str(), "leased") && owned && job.lease_generation == lease.generation
        && same_text(job.source_digest.as_str(), lease.job.source_digest.as_str()) {
        Ok(())
    } else {
        Err(
            StoreError::new(
                ErrorCode::StaleWriter,
                "extraction lease owner or generation is stale",
            ),
        )
    }
}

/// Who leased a job holds it: right after a job was leased, its lease lets the holder settle
/// it or give it up, and a lease under another owner, another generation or with another
/// range does not.
pub proof fn law_lease_holds_its_job(
    before: StoredExtractionJobRecord,
    job: StoredExtractionJobRecord,
    lease: StoredExtractionLeaseRecord,
)
    requires
        before.lease_generation < i64::MAX,
        leased_as(before, job, lease.owner@),
    ensures
        lease.job == job && lease.generation == job.lease_generation ==> job_lease_fault(
            lease,
            Some(job),
        ) is None,
        job_lease_fault(lease, Some(job)) is None <==> {
            &&& lease.generation == job.lease_generation
            &&& lease.job.source_stream@ == job.source_stream@
            &&& lease.job.start_sequence == job.start_sequence
            &&& lease.job.end_sequence == job.end_sequence
            &&& texts(lease.job.source_event_ids@) == texts(job.source_event_ids@)
            &&& lease.job.extractor_version@ == job.extractor_version@
            &&& lease.job.strategy_digest@ == job.strategy_digest@
            &&& lease.job.source_digest@ == job.source_digest@
        },
{
}

/// A lease lets its holder settle a job if and only if the job is leased to that holder under
/// that generation, and the range is the one that was leased. Anyone else is stale.
pub proof fn law_lease_is_stale_where_it_differs(
    lease: StoredExtractionLeaseRecord,
    job: StoredExtractionJobRecord,
)
    requires
        lease.generation <= i64::MAX,
    ensures
        job_lease_fault(lease, Some(job)) is None <==> {
            &&& job.status@ == "leased"@
            &&& job.lease_owner is Some
            &&& job.lease_owner->Some_0@ == lease.owner@
            &&& lease.generation == job.lease_generation
            &&& lease.job.source_stream@ == job.source_stream@
            &&& lease.job.start_sequence == job.start_sequence
            &&& lease.job.end_sequence == job.end_sequence
            &&& texts(lease.job.source_event_ids@) == texts(job.source_event_ids@)
            &&& lease.job.extractor_version@ == job.extractor_version@
            &&& lease.job.strategy_digest@ == job.strategy_digest@
            &&& lease.job.source_digest@ == job.source_digest@
        },
        job_lease_fault(lease, Some(job)) is Some ==> job_lease_fault(lease, Some(job))->Some_0.code
            == ErrorCode::StaleWriter,
        job_lease_fault(lease, None) is Some,
        job_lease_fault(lease, None)->Some_0.code == ErrorCode::StaleWriter,
{
}

/// The job that a lease still holds.
fn held_job(
    lease: &StoredExtractionLeaseRecord,
    stored: Option<StoredExtractionJobRecord>,
) -> (result: Result<StoredExtractionJobRecord, StoreError>)
    ensures
        answers(result, job_lease_fault(*lease, stored)),
        result is Ok ==> stored == Some(result->Ok_0),
{
    assert_job_lease(lease, &stored)?;
    match stored {
        Some(job) => Ok(job),
        None => Err(StoreError::new(ErrorCode::StaleWriter, "extraction job missing")),
    }
}

/// A newer lease ends an older one: whoever held a job before it was leased again
/// can no longer settle it.
pub proof fn law_newer_lease_ends_the_older(
    lease: StoredExtractionLeaseRecord,
    before: StoredExtractionJobRecord,
    after: StoredExtractionJobRecord,
    owner: Seq<char>,
)
    requires
        lease.generation <= before.lease_generation < i64::MAX,
        leased_as(before, after, owner),
    ensures
        job_lease_fault(lease, Some(after)) is Some,
{
}

// ---------------------------------------------------------------------------
// Settling

/// What a settlement can say of a range.
pub open spec fn is_disposition(disposition: Seq<char>) -> bool {
    ||| disposition == "candidates"@
    ||| disposition == "filtered"@
    ||| disposition == "no_facts"@
    ||| disposition == "self_referential"@
}

/// What a job is recorded with: a range that gave assets has candidates, and one
/// that gave none says why, if the settlement does.
pub open spec fn recorded_disposition(disposition: Seq<char>, empty: bool) -> Seq<char> {
    if !empty {
        "candidates"@
    } else if disposition == "filtered"@ {
        "filtered"@
    } else if disposition == "self_referential"@ {
        "self_referential"@
    } else {
        "no_facts"@
    }
}

/// An asset rests on events of a job and on no others.
pub open spec fn rests_on(asset: StoredMemoryAssetRecord, job: StoredExtractionJobRecord) -> bool {
    let refs = texts(asset.current.record.source_event_refs@);
    &&& refs.len() > 0
    &&& forall|i: int|
        0 <= i < refs.len() ==> texts(job.source_event_ids@).contains(#[trigger] refs[i])
}

fn rests_on_job(asset: &StoredMemoryAssetRecord, job: &StoredExtractionJobRecord) -> (result: bool)
    ensures
        result == rests_on(*asset, *job),
{
    let refs: &Vec<String> = &asset.current.record.source_event_refs;
    if refs.len() == 0 {
        return false;
    }
    let mut i: usize = 0;
    while i < refs.len()
        invariant
            i <= refs.len(),
            refs@ == asset.current.record.source_event_refs@,
            refs@.len() > 0,
            forall|j: int|
                0 <= j < i ==> texts(job.source_event_ids@).contains(#[trigger] texts(refs@)[j]),
        decreases refs.len() - i,
    {
        if !has_text(&job.source_event_ids, refs[i].as_str()) {
            assert(!texts(job.source_event_ids@).contains(texts(refs@)[i as int]));
            return false;
        }
        i += 1;
    }
    true
}

/// An asset that was read from a range, with what its own rules say.
#[derive(Debug)]
pub struct ExtractedAsset {
    pub record: StoredMemoryAssetRecord,
    pub verdicts: MemoryVerdicts,
}

/// Why an asset that was read from a range is not stored.
pub open spec fn extracted_fault(asset: ExtractedAsset, job: StoredExtractionJobRecord) -> Option<
    Fault,
> {
    first(
        record_fault(asset.record, asset.verdicts),
        if !rests_on(asset.record, job) {
            fault(ErrorCode::InvalidPayload, "extracted asset has foreign sources"@)
        } else {
            first(
                i64_fault(asset.record.asset.current_version, "memory current version"@),
                first(
                    i64_fault(asset.record.current.record.version, "memory version"@),
                    sources_fault(asset.record.current.sources@),
                ),
            )
        },
    )
}

fn check_extracted(asset: &ExtractedAsset, job: &StoredExtractionJobRecord) -> (result: Result<
    (),
    StoreError,
>)
    ensures
        answers(result, extracted_fault(*asset, *job)),
{
    validate_record(&asset.record, &asset.verdicts)?;
    if !rests_on_job(&asset.record, job) {
        return Err(
            StoreError::new(ErrorCode::InvalidPayload, "extracted asset has foreign sources"),
        );
    }
    let current: i64 = to_i64(asset.record.asset.current_version, "memory current version")?;
    write_version_sources(asset.record.current.record.version, &asset.record.current.sources)
}

/// Why some assets that were read from a range are not stored: the first one in
/// the way.
pub open spec fn extracted_list_fault(
    assets: Seq<ExtractedAsset>,
    job: StoredExtractionJobRecord,
) -> Option<Fault>
    decreases assets.len(),
{
    if assets.len() == 0 {
        None
    } else {
        first(extracted_list_fault(assets.drop_last(), job), extracted_fault(assets.last(), job))
    }
}

proof fn lemma_first_extracted_fault_stands(
    assets: Seq<ExtractedAsset>,
    job: StoredExtractionJobRecord,
    count: int,
)
    requires
        0 <= count <= assets.len(),
        extracted_list_fault(assets.take(count), job) is Some,
    ensures
        extracted_list_fault(assets, job) == extracted_list_fault(assets.take(count), job),
    decreases assets.len() - count,
{
    if count == assets.len() {
        assert(assets.take(count) =~= assets);
    } else {
        assert(assets.take(count + 1).drop_last() =~= assets.take(count));
        lemma_first_extracted_fault_stands(assets, job, count + 1);
    }
}

/// Why a range is not settled. `stored` is its job and `cursor` its stream's
/// cursor.
pub open spec fn settle_fault(
    lease: StoredExtractionLeaseRecord,
    assets: Seq<ExtractedAsset>,
    disposition: Seq<char>,
    fence: HostFence,
    held: Option<i64>,
    stored: Option<StoredExtractionJobRecord>,
    cursor: Option<i64>,
) -> Option<Fault> {
    if !is_disposition(disposition) {
        fault(ErrorCode::InvalidPayload, "unsupported extraction disposition"@)
    } else {
        first(
            fence_fault(held, fence),
            first(
                job_lease_fault(lease, stored),
                first(
                    cursor_fault(cursor),
                    if lease.job.start_sequence != cursor->Some_0 + 1 {
                        fault(
                            ErrorCode::SequenceConflict,
                            "extraction settlement cannot advance across a cursor gap"@,
                        )
                    } else {
                        first(
                            extracted_list_fault(assets, lease.job),
                            i64_fault(lease.job.end_sequence, "extraction range end"@),
                        )
                    },
                ),
            ),
        )
    }
}

/// What settling a range writes besides its assets.
#[derive(Clone, Debug, PartialEq, Eq)]
pub struct ExtractionSettlement {
    /// The range's job afterwards.
    pub job: StoredExtractionJobRecord,
    /// Where the stream's cursor stands afterwards.
    pub cursor: u64,
}

/// A job after its range was settled: completed, with what the settlement says of
/// the range, and held by nobody.
pub open spec fn completed_as(
    before: StoredExtractionJobRecord,
    after: StoredExtractionJobRecord,
    disposition: Seq<char>,
) -> bool {
    &&& after == (StoredExtractionJobRecord {
        status: after.status,
        disposition: after.disposition,
        lease_owner: None,
        ..before
    })
    &&& after.status@ == "completed"@
    &&& opt_text(after.disposition) == Some(disposition)
}

/// Settles a range: its assets, its job and its stream's cursor together. The
/// cursor moves to the end of the range, and only from right before it.
pub fn settle_extraction_assets(
    lease: &StoredExtractionLeaseRecord,
    assets: &Vec<ExtractedAsset>,
    disposition: &str,
    fence: &HostFence,
    held: Option<i64>,
    stored: Option<StoredExtractionJobRecord>,
    cursor: Option<i64>,
) -> (result: Result<ExtractionSettlement, StoreError>)
    ensures
        answers(
            result,
            settle_fault(*lease, assets@, disposition@, *fence, held, stored, cursor),
        ),
        result is Ok ==> {
            let settlement = result->Ok_0;
            &&& completed_as(
                stored->Some_0,
                settlement.job,
                recorded_disposition(disposition@, assets@.len() == 0),
            )
            &&& settlement.cursor == lease.job.end_sequence
            &&& lease.job.start_sequence == cursor->Some_0 + 1
            &&& forall|i: int|
                0 <= i < assets@.len() ==> rests_on((#[trigger] assets@[i]).record, lease.job)
        },
{
    if !same_text(disposition, "candidates") && !same_text(disposition, "filtered") && !same_text(
        disposition,
        "no_facts",
    ) && !same_text(disposition, "self_referential") {
        return Err(
            StoreError::new(ErrorCode::InvalidPayload, "unsupported extraction disposition"),
        );
    }
    check_fence(held, fence)?;
    let mut job: StoredExtractionJobRecord = held_job(lease, stored)?;
    let current: u64 = read_cursor(cursor)?;
    if lease.job.start_sequence != current + 1 {
        return Err(
            StoreError::new(
                ErrorCode::SequenceConflict,
                "extraction settlement cannot advance across a cursor gap",
            ),
        );
    }
    let mut i: usize = 0;
    while i < assets.len()
        invariant
            i <= assets.len(),
            is_disposition(disposition@),
            fence_fault(held, *fence) is None,
            job_lease_fault(*lease, stored) is None,
            stored == Some(job),
            forall|k: int|
                0 <= k < i ==> rests_on((#[trigger] assets@[k]).record, lease.job),
            cursor_fault(cursor) is None,
            lease.job.start_sequence == cursor->Some_0 + 1,
            extracted_list_fault(assets@.take(i as int), lease.job) is None,
        decreases assets.len() - i,
    {
        assert(assets@.take(i + 1).drop_last() =~= assets@.take(i as int));
        assert(assets@.take(i + 1).last() == assets@[i as int]);
        match check_extracted(&assets[i], &lease.job) {
            Ok(_) => {},
            Err(error) => {
                proof {
                    lemma_first_extracted_fault_stands(assets@, lease.job, i + 1);
                }
                return Err(error);
            },
        }
        i += 1;
    }
    assert(assets@.take(i as int) =~= assets@);
    let end: i64 = to_i64(lease.job.end_sequence, "extraction range end")?;
    let said: &'static str = if assets.len() > 0 {
        "candidates"
    } else if same_text(disposition, "filtered") {
        "filtered"
    } else if same_text(disposition, "self_referential") {
        "self_referential"
    } else {
        "no_facts"
    };
    job.status = "completed".to_owned();
    job.disposition = Some(said.to_owned());
    job.lease_owner = None;
    Ok(ExtractionSettlement { job, cursor: lease.job.end_sequence })
}

/// The holder of a job settles its range, with any of the four things that can be said of a
/// range, if and only if the cursor stands right before the range and every asset is sound
/// and rests on events of the range. The job is then completed, the cursor stands at the end
/// of the range, and a range that gave assets says so.
pub proof fn law_held_range_is_settled_behind_the_cursor(
    lease: StoredExtractionLeaseRecord,
    assets: Seq<ExtractedAsset>,
    disposition: Seq<char>,
    fence: HostFence,
    held: Option<i64>,
    stored: Option<StoredExtractionJobRecord>,
    cursor: Option<i64>,
)
    ensures
        settle_fault(lease, assets, disposition, fence, held, stored, cursor) is None <==> {
            &&& disposition == "candidates"@ || disposition == "filtered"@ || disposition
                == "no_facts"@ || disposition == "self_referential"@
            &&& held is Some
            &&& held->Some_0 == fence.generation as int
            &&& job_lease_fault(lease, stored) is None
            &&& cursor is Some
            &&& 0 <= cursor->Some_0
            &&& lease.job.start_sequence == cursor->Some_0 + 1
            &&& lease.job.end_sequence <= i64::MAX
            &&& forall|i: int|
                0 <= i < assets.len() ==> {
                    let record = (#[trigger] assets[i]).record;
                    &&& record_fault(record, assets[i].verdicts) is None
                    &&& sources_fault(record.current.sources@) is None
                    &&& record.asset.current_version <= i64::MAX
                    &&& record.current.record.version <= i64::MAX
                    &&& record.current.record.source_event_refs@.len() > 0
                    &&& forall|k: int|
                        0 <= k < record.current.record.source_event_refs@.len() ==> texts(
                            lease.job.source_event_ids@,
                        ).contains((#[trigger] record.current.record.source_event_refs@[k])@)
                }
        },
        recorded_disposition(disposition, false) == "candidates"@,
        disposition == "filtered"@ || disposition == "self_referential"@ || disposition
            == "no_facts"@ ==> recorded_disposition(disposition, true) == disposition,
        disposition == "candidates"@ ==> recorded_disposition(disposition, true) == "no_facts"@,
        forall|job: StoredExtractionJobRecord, after: StoredExtractionJobRecord, said: Seq<char>|
            #[trigger]
            completed_as(job, after, said) ==> {
                &&& after.status@ == "completed"@
                &&& after.disposition is Some
                &&& after.disposition->Some_0@ == said
                &&& after.lease_owner is None
                &&& after.lease_generation == job.lease_generation
                &&& after.attempts == job.attempts
                &&& after.start_sequence == job.start_sequence
                &&& after.end_sequence == job.end_sequence
            },
{
    lemma_extracted_list(assets, lease.job);
    reveal_strlit("candidates");
    reveal_strlit("filtered");
    reveal_strlit("self_referential");
    assert("candidates"@.len() == 10);
    assert("filtered"@.len() == 8);
    assert("self_referential"@.len() == 16);
}

/// Some assets that were read from a range are stored where each of them is.
proof fn lemma_extracted_list(assets: Seq<ExtractedAsset>, job: StoredExtractionJobRecord)
    ensures
        extracted_list_fault(assets, job) is None <==> forall|i: int|
            0 <= i < assets.len() ==> {
                let record = (#[trigger] assets[i]).record;
                &&& record_fault(record, assets[i].verdicts) is None
                &&& sources_fault(record.current.sources@) is None
                &&& record.asset.current_version <= i64::MAX
                &&& record.current.record.version <= i64::MAX
                &&& record.current.record.source_event_refs@.len() > 0
                &&& forall|k: int|
                    0 <= k < record.current.record.source_event_refs@.len() ==> texts(
                        job.source_event_ids@,
                    ).contains((#[trigger] record.current.record.source_event_refs@[k])@)
            },
    decreases assets.len(),
{
    if assets.len() > 0 {
        let head = assets.drop_last();
        lemma_extracted_list(head, job);
        assert forall|i: int| 0 <= i < head.len() implies head[i] == #[trigger] assets[i] by {}
        let last = assets[assets.len() - 1];
        let refs = last.record.current.record.source_event_refs@;
        assert(rests_on(last.record, job) <==> refs.len() > 0 && forall|k: int|
            0 <= k < refs.len() ==> texts(job.source_event_ids@).contains((#[trigger] refs[k])@))
            by {
            assert forall|k: int| 0 <= k < refs.len() implies (#[trigger] refs[k])@ == texts(
                refs,
            )[k] by {}
            if refs.len() > 0 && forall|k: int|
                0 <= k < refs.len() ==> texts(job.source_event_ids@).contains(
                    (#[trigger] refs[k])@,
                ) {
                assert forall|k: int| 0 <= k < texts(refs).len() implies texts(
                    job.source_event_ids@,
                ).contains(#[trigger] texts(refs)[k]) by {
                    assert(refs[k]@ == texts(refs)[k]);
                }
            }
            if rests_on(last.record, job) {
                assert forall|k: int| 0 <= k < refs.len() implies texts(
                    job.source_event_ids@,
                ).contains((#[trigger] refs[k])@) by {
                    assert(refs[k]@ == texts(refs)[k]);
                }
            }
        }
        if extracted_list_fault(assets, job) is None {
            assert(extracted_list_fault(head, job) is None);
            assert(extracted_fault(last, job) is None);
            assert forall|i: int| 0 <= i < assets.len() implies {
                let record = (#[trigger] assets[i]).record;
                &&& record_fault(record, assets[i].verdicts) is None
                &&& sources_fault(record.current.sources@) is None
                &&& record.asset.current_version <= i64::MAX
                &&& record.current.record.version <= i64::MAX
                &&& record.current.record.source_event_refs@.len() > 0
                &&& forall|k: int|
                    0 <= k < record.current.record.source_event_refs@.len() ==> texts(
                        job.source_event_ids@,
                    ).contains((#[trigger] record.current.record.source_event_refs@[k])@)
            } by {
                if i < head.len() {
                    assert(head[i] == assets[i]);
                } else {
                    assert(assets[i] == last);
                }
            }
        } else if extracted_list_fault(head, job) is None {
            assert(extracted_fault(last, job) is Some);
            assert(assets[assets.len() - 1] == last);
        } else {
            let i = choose|i: int|
                0 <= i < head.len() && !({
                    let record = (#[trigger] head[i]).record;
                    &&& record_fault(record, head[i].verdicts) is None
                    &&& sources_fault(record.current.sources@) is None
                    &&& record.asset.current_version <= i64::MAX
                    &&& record.current.record.version <= i64::MAX
                    &&& record.current.record.source_event_refs@.len() > 0
                    &&& forall|k: int|
                        0 <= k < record.current.record.source_event_refs@.len() ==> texts(
                            job.source_event_ids@,
                        ).contains((#[trigger] record.current.record.source_event_refs@[k])@)
                });
            assert(assets[i] == head[i]);
        }
    }
}

/// A settled range stays settled: its job can be neither leased nor settled again,
/// and its holder can no longer give it up.
pub proof fn law_settled_range_stays_settled(
    lease: StoredExtractionLeaseRecord,
    before: StoredExtractionJobRecord,
    after: StoredExtractionJobRecord,
    disposition: Seq<char>,
    owner: Seq<char>,
    fence: HostFence,
    held: Option<i64>,
    next_due_unix_ms: i64,
    now_unix_ms: i64,
)
    requires
        completed_as(before, after, disposition),
    ensures
        lease_fault(owner, fence, held, Some(after), next_due_unix_ms, now_unix_ms) is Some,
        job_lease_fault(lease, Some(after)) is Some,
{
    reveal_strlit("completed");
    reveal_strlit("pending");
    reveal_strlit("paused");
    reveal_strlit("blocked");
    reveal_strlit("retry_wait");
    reveal_strlit("leased");
    assert("completed"@.len() == 9);
    assert("pending"@.len() == 7 && "paused"@.len() == 6 && "blocked"@.len() == 7);
    assert("retry_wait"@.len() == 10 && "leased"@.len() == 6);
}

/// The cursor moves without gaps: a range that was settled began right behind the
/// cursor, and the only range of the stream that can be settled next begins right
/// behind its end.
pub proof fn law_cursor_moves_without_gaps(
    lease: StoredExtractionLeaseRecord,
    assets: Seq<ExtractedAsset>,
    disposition: Seq<char>,
    fence: HostFence,
    held: Option<i64>,
    stored: Option<StoredExtractionJobRecord>,
    cursor: Option<i64>,
    next: StoredExtractionLeaseRecord,
    next_assets: Seq<ExtractedAsset>,
    next_stored: Option<StoredExtractionJobRecord>,
)
    requires
        settle_fault(lease, assets, disposition, fence, held, stored, cursor) is None,
        settle_fault(
            next,
            next_assets,
            disposition,
            fence,
            held,
            next_stored,
            Some(lease.job.end_sequence as i64),
        ) is None,
    ensures
        lease.job.start_sequence == cursor->Some_0 + 1,
        next.job.start_sequence == lease.job.end_sequence + 1,
{
}

/// A job with the note that all that was proposed for its range was known.
pub open spec fn noted_as(
    before: StoredExtractionJobRecord,
    after: StoredExtractionJobRecord,
    proposed: u64,
) -> bool {
    &&& after == (StoredExtractionJobRecord { last_error: after.last_error, ..before })
    &&& opt_text(after.last_error) == Some(
        decimal(proposed as nat) + " proposed candidate(s) already existed"@,
    )
}

/// Notes that all that was proposed for a range was known.
pub fn note_known_proposals(job: StoredExtractionJobRecord, proposed: u64) -> (noted:
    StoredExtractionJobRecord)
    ensures
        noted_as(job, noted, proposed),
{
    let count: String = decimal_text(proposed);
    let mut noted: StoredExtractionJobRecord = job;
    noted.last_error = Some(cat(count.as_str(), " proposed candidate(s) already existed"));
    noted
}

/// A note on known proposals says how many there were, and changes nothing else of the job.
pub proof fn law_note_says_how_many_were_known(
    before: StoredExtractionJobRecord,
    after: StoredExtractionJobRecord,
    proposed: u64,
)
    requires
        noted_as(before, after, proposed),
    ensures
        after.last_error is Some,
        after.last_error->Some_0@ == decimal(proposed as nat)
            + " proposed candidate(s) already existed"@,
        after.status == before.status,
        after.disposition == before.disposition,
        after.lease_owner == before.lease_owner,
        after.lease_generation == before.lease_generation,
        after.attempts == before.attempts,
{
}

// ---------------------------------------------------------------------------
// Failing

/// The states that a failed job can be left in.
pub open spec fn is_failure_state(status: Seq<char>) -> bool {
    ||| status == "retry_wait"@
    ||| status == "blocked"@
    ||| status == "paused"@
    ||| status == "dead_letter"@
}

/// How long a failed job waits, before it is spread: a tenth of a second, doubled
/// once for each attempt up to nine times, and never more than a minute.
pub open spec fn failure_delay(attempts: u32) -> int {
    let doublings: nat = if attempts < 9 {
        attempts as nat
    } else {
        9
    };
    delay_within(100, doublings, 60000)
}

/// How long a failed job waits, before it is spread.
pub fn failure_delay_ms(attempts: u32) -> (delay_ms: i64)
    ensures
        delay_ms == failure_delay(attempts),
        100 <= delay_ms <= 60000,
{
    let doublings: u32 = if attempts < 9 {
        attempts
    } else {
        9
    };
    proof {
        law_delays_grow_within_bounds(100, doublings as nat, doublings as nat, 60000);
    }
    doubled_delay(100, doublings as u64, 60000)
}

/// When a failed job may be tried again. A blocked one waits for nothing; any other
/// waits, spread by up to `spread` milliseconds.
pub open spec fn due_after_failure(
    status: Seq<char>,
    attempts: u32,
    now_unix_ms: i64,
    spread: u8,
) -> int {
    if status == "blocked"@ {
        0
    } else {
        now_unix_ms + failure_delay(attempts) + spread
    }
}

/// When a failed job may be tried again.
pub fn next_due(status: &str, attempts: u32, now_unix_ms: i64, spread: u8) -> (due_unix_ms: i64)
    requires
        now_unix_ms <= i64::MAX - 60255,
    ensures
        due_unix_ms == due_after_failure(status@, attempts, now_unix_ms, spread),
{
    if same_text(status, "blocked") {
        return 0;
    }
    now_unix_ms + failure_delay_ms(attempts) + spread as i64
}

/// A job that was given up, and when it may be tried again.
#[derive(Clone, Debug, PartialEq, Eq)]
pub struct FailedJob {
    pub job: StoredExtractionJobRecord,
    pub next_due_unix_ms: i64,
}

/// A job after its holder gave it up: in the state that the holder says, with the
/// reason, and held by nobody.
pub open spec fn failed_as(
    before: StoredExtractionJobRecord,
    after: StoredExtractionJobRecord,
    status: Seq<char>,
    message: Seq<char>,
) -> bool {
    &&& after == (StoredExtractionJobRecord {
        status: after.status,
        last_error: after.last_error,
        lease_owner: None,
        ..before
    })
    &&& after.status@ == status
    &&& opt_text(after.last_error) == Some(message)
}

/// Why a job is not given up.
pub open spec fn give_up_fault(
    lease: StoredExtractionLeaseRecord,
    status: Seq<char>,
    fence: HostFence,
    held: Option<i64>,
    stored: Option<StoredExtractionJobRecord>,
) -> Option<Fault> {
    if !is_failure_state(status) {
        fault(ErrorCode::InvalidPayload, "invalid extraction failure state"@)
    } else {
        first(fence_fault(held, fence), job_lease_fault(lease, stored))
    }
}

/// Lets the holder of a lease give its job up.
pub fn fail_extraction_job(
    lease: &StoredExtractionLeaseRecord,
    status: &str,
    message: &str,
    fence: &HostFence,
    held: Option<i64>,
    stored: Option<StoredExtractionJobRecord>,
    now_unix_ms: i64,
    spread: u8,
) -> (result: Result<FailedJob, StoreError>)
    requires
        now_unix_ms <= i64::MAX - 60255,
    ensures
        answers(result, give_up_fault(*lease, status@, *fence, held, stored)),
        result is Ok ==> failed_as(stored->Some_0, result->Ok_0.job, status@, message@),
        result is Ok ==> result->Ok_0.next_due_unix_ms == due_after_failure(
            status@,
            stored->Some_0.attempts,
            now_unix_ms,
            spread,
        ),
{
    if !same_text(status, "retry_wait") && !same_text(status, "blocked") && !same_text(
        status,
        "paused",
    ) && !same_text(status, "dead_letter") {
        return Err(
            StoreError::new(ErrorCode::InvalidPayload, "invalid extraction failure state"),
        );
    }
    check_fence(held, fence)?;
    let mut job: StoredExtractionJobRecord = held_job(lease, stored)?;
    let next_due_unix_ms: i64 = next_due(status, job.attempts, now_unix_ms, spread);
    job.status = status.to_owned();
    job.last_error = Some(message.to_owned());
    job.lease_owner = None;
    Ok(FailedJob { job, next_due_unix_ms })
}

/// Whoever holds a job gives it up in each of the four states of a failed job, whatever it has
/// been through, and in no other state.
pub proof fn law_held_job_is_given_up(
    lease: StoredExtractionLeaseRecord,
    status: Seq<char>,
    fence: HostFence,
    held: Option<i64>,
    stored: Option<StoredExtractionJobRecord>,
)
    ensures
        give_up_fault(lease, status, fence, held, stored) is None <==> {
            &&& status == "retry_wait"@ || status == "blocked"@ || status == "paused"@ || status
                == "dead_letter"@
            &&& held is Some
            &&& held->Some_0 == fence.generation as int
            &&& job_lease_fault(lease, stored) is None
        },
{
}

/// The holder of a job gives it up in each of the four states that a failed job can be left
/// in, and in no other. The wait before a retry doubles with each attempt, from a tenth of a
/// second on, until the ninth.
pub proof fn law_failed_job_waits_longer_each_time(status: Seq<char>, attempts: u32)
    ensures
        is_failure_state(status) <==> status == "retry_wait"@ || status == "blocked"@ || status
            == "paused"@ || status == "dead_letter"@,
        failure_delay(0) == 100,
        attempts < 9 ==> failure_delay((attempts + 1) as u32) == 2 * failure_delay(attempts),
        attempts >= 9 ==> failure_delay(attempts) == 51200,
{
    reveal_with_fuel(crate::backoff::doubled, 11);
    assert(crate::backoff::doubled(9) == 512);
}

/// A job that was given up is leased again: one that was paused or blocked at once, and one
/// that waits for a retry from the moment that it is due, which is no sooner than the delay
/// after it failed. A dead letter is not leased again.
pub proof fn law_failed_job_has_a_way_back(
    before: StoredExtractionJobRecord,
    after: StoredExtractionJobRecord,
    status: Seq<char>,
    message: Seq<char>,
    failed_unix_ms: i64,
    spread: u8,
    owner: Seq<char>,
    fence: HostFence,
    held: Option<i64>,
    now_unix_ms: i64,
)
    requires
        failed_unix_ms <= i64::MAX - 60255,
        failed_as(before, after, status, message),
        before.attempts < u32::MAX,
        !blank(owner),
        held is Some && held->Some_0 == fence.generation as int,
    ensures
        ({
            let due = due_after_failure(status, before.attempts, failed_unix_ms, spread);
            &&& after.lease_owner is None
            &&& after.last_error is Some
            &&& after.last_error->Some_0@ == message
            &&& after.attempts == before.attempts
            &&& after.lease_generation == before.lease_generation
            &&& status == "paused"@ || status == "blocked"@ ==> lease_fault(
                owner,
                fence,
                held,
                Some(after),
                due as i64,
                now_unix_ms,
            ) is None
            &&& status == "retry_wait"@ ==> (lease_fault(
                owner,
                fence,
                held,
                Some(after),
                due as i64,
                now_unix_ms,
            ) is None <==> due <= now_unix_ms)
            &&& status == "retry_wait"@ ==> failed_unix_ms + failure_delay(before.attempts) <= due
                <= failed_unix_ms + failure_delay(before.attempts) + 255
            &&& status == "dead_letter"@ ==> lease_fault(
                owner,
                fence,
                held,
                Some(after),
                due as i64,
                now_unix_ms,
            ) is Some
        }),
{
    reveal_strlit("retry_wait");
    reveal_strlit("blocked");
    reveal_strlit("paused");
    reveal_strlit("pending");
    reveal_strlit("dead_letter");
    assert("retry_wait"@.len() == 10);
    assert("blocked"@.len() == 7);
    assert("paused"@.len() == 6);
    assert("pending"@.len() == 7);
    assert("dead_letter"@.len() == 11);
    assert("pending"@[0] == 'p' && "blocked"@[0] == 'b');
    let doublings: nat = if before.attempts < 9 {
        before.attempts as nat
    } else {
        9
    };
    law_delays_grow_within_bounds(100, doublings, doublings, 60000);
}

/// A job, as far as recovering and pausing look at it.
#[derive(Clone, Debug, PartialEq, Eq)]
pub struct JobMark {
    pub job_id: String,
    pub source_stream: String,
    pub extractor_version: String,
    pub strategy_digest: String,
    pub status: String,
    pub lease_owner: Option<String>,
    pub last_error: Option<String>,
}

/// What a change of many jobs leaves.
#[derive(Clone, Debug, PartialEq, Eq)]
pub struct ChangedJobs {
    /// The jobs afterwards.
    pub jobs: Vec<JobMark>,
    /// Which of them changed.
    pub changed: Vec<bool>,
    /// How many of them changed.
    pub count: u64,
}

fn copy_mark(job: &JobMark) -> (copy: JobMark)
    ensures
        copy == *job,
{
    JobMark {
        job_id: job.job_id.clone(),
        source_stream: job.source_stream.clone(),
        extractor_version: job.extractor_version.clone(),
        strategy_digest: job.strategy_digest.clone(),
        status: job.status.clone(),
        lease_owner: copy_option(&job.lease_owner),
        last_error: copy_option(&job.last_error),
    }
}

/// A job that a stopped host held is waiting again; any other is as it was.
pub open spec fn recovered_as(before: JobMark, after: JobMark) -> bool {
    if before.status@ == "leased"@ {
        &&& after == (JobMark { status: after.status, lease_owner: None, ..before })
        &&& after.status@ == "pending"@
    } else {
        after == before
    }
}

/// Gives back the jobs that a stopped host held. `jobs` are all there are.
pub fn recover_extraction_jobs(jobs: Vec<JobMark>, fence: &HostFence, held: Option<i64>) -> (result:
    Result<ChangedJobs, StoreError>)
    ensures
        answers(result, fence_fault(held, *fence)),
        result is Ok ==> {
            let after = result->Ok_0;
            &&& after.jobs@.len() == jobs@.len()
            &&& after.changed@.len() == jobs@.len()
            &&& after.count == set_before(after.changed@, jobs@.len() as int)
            &&& forall|i: int|
                0 <= i < jobs@.len() ==> recovered_as(jobs@[i], #[trigger] after.jobs@[i])
            &&& forall|i: int|
                0 <= i < jobs@.len() ==> #[trigger] after.changed@[i] == (jobs@[i].status@
                    == "leased"@)
        },
{
    check_fence(held, fence)?;
    let ghost before = jobs@;
    let mut after: Vec<JobMark> = jobs;
    let mut changed: Vec<bool> = Vec::new();
    let mut count: u64 = 0;
    let mut i: usize = 0;
    while i < after.len()
        invariant
            i <= after.len(),
            after@.len() == before.len(),
            changed@.len() == i,
            count <= i,
            count == set_before(changed@, i as int),
            forall|j: int| 0 <= j < i ==> recovered_as(before[j], #[trigger] after@[j]),
            forall|j: int|
                0 <= j < i ==> #[trigger] changed@[j] == (before[j].status@ == "leased"@),
            forall|j: int| i <= j < after@.len() ==> #[trigger] after@[j] == before[j],
        decreases after.len() - i,
    {
        let ghost flags = changed@;
        let held_job: bool = same_text(after[i].status.as_str(), "leased");
        changed.push(held_job);
        proof {
            lemma_set_before_agrees(flags, changed@, i as int);
        }
        if held_job {
            let mut job: JobMark = copy_mark(&after[i]);
            job.status = "pending".to_owned();
            job.lease_owner = None;
            after.set(i, job);
            count = count + 1;
        }
        i += 1;
    }
    Ok(ChangedJobs { jobs: after, changed, count })
}

/// What was recovered is no longer held: recovering again changes nothing.
pub proof fn law_recovered_job_is_not_held(before: JobMark, after: JobMark, again: JobMark)
    requires
        recovered_as(before, after),
        recovered_as(after, again),
    ensures
        after.status@ != "leased"@,
        again == after,
{
    reveal_strlit("leased");
    reveal_strlit("pending");
    assert("leased"@.len() != "pending"@.len());
}

/// A job of a stream, under an extractor and a strategy, that waits.
pub open spec fn waits_for(
    job: JobMark,
    stream: Seq<char>,
    extractor: Seq<char>,
    strategy: Seq<char>,
) -> bool {
    &&& job.source_stream@ == stream
    &&& job.extractor_version@ == extractor
    &&& job.strategy_digest@ == strategy
    &&& job.status@ == "pending"@ || job.status@ == "retry_wait"@ || job.status@ == "paused"@
}

/// A job that waits is paused, without an owner and with what it waits for; any other
/// is as it was.
pub open spec fn paused_as(before: JobMark, after: JobMark, waits: bool) -> bool {
    if waits {
        &&& after == (JobMark {
            status: after.status,
            lease_owner: None,
            last_error: after.last_error,
            ..before
        })
        &&& after.status@ == "paused"@
        &&& opt_text(after.last_error) == Some("budget_or_shutdown"@)
    } else {
        after == before
    }
}

/// Pauses the jobs of a stream, under an extractor and a strategy, that wait. `jobs`
/// are all there are.
pub fn pause_extraction_jobs(
    jobs: Vec<JobMark>,
    stream: &str,
    extractor: &str,
    strategy: &str,
    fence: &HostFence,
    held: Option<i64>,
) -> (result: Result<ChangedJobs, StoreError>)
    ensures
        answers(result, fence_fault(held, *fence)),
        result is Ok ==> {
            let after = result->Ok_0;
            &&& after.jobs@.len() == jobs@.len()
            &&& after.changed@.len() == jobs@.len()
            &&& after.count == set_before(after.changed@, jobs@.len() as int)
            &&& forall|i: int|
                0 <= i < jobs@.len() ==> paused_as(
                    jobs@[i],
                    #[trigger] after.jobs@[i],
                    waits_for(jobs@[i], stream@, extractor@, strategy@),
                )
            &&& forall|i: int|
                0 <= i < jobs@.len() ==> #[trigger] after.changed@[i] == waits_for(
                    jobs@[i],
                    stream@,
                    extractor@,
                    strategy@,
                )
        },
{
    check_fence(held, fence)?;
    let ghost before = jobs@;
    let mut after: Vec<JobMark> = jobs;
    let mut changed: Vec<bool> = Vec::new();
    let mut count: u64 = 0;
    let mut i: usize = 0;
    while i < after.len()
        invariant
            i <= after.len(),
            after@.len() == before.len(),
            changed@.len() == i,
            count <= i,
            count == set_before(changed@, i as int),
            forall|j: int|
                0 <= j < i ==> paused_as(
                    before[j],
                    #[trigger] after@[j],
                    waits_for(before[j], stream@, extractor@, strategy@),
                ),
            forall|j: int|
                0 <= j < i ==> #[trigger] changed@[j] == waits_for(
                    before[j],
                    stream@,
                    extractor@,
                    strategy@,
                ),
            forall|j: int| i <= j < after@.len() ==> #[trigger] after@[j] == before[j],
        decreases after.len() - i,
    {
        let ghost flags = changed@;
        let status: &str = after[i].status.as_str();
        let waits: bool = same_text(after[i].source_stream.as_str(), stream) && same_text(
            after[i].extractor_version.as_str(),
            extractor,
        ) && same_text(after[i].strategy_digest.as_str(), strategy) && (same_text(
            status,
            "pending",
        ) || same_text(status, "retry_wait") || same_text(status, "paused"));
        changed.push(waits);
        proof {
            lemma_set_before_agrees(flags, changed@, i as int);
        }
        if waits {
            let mut job: JobMark = copy_mark(&after[i]);
            job.status = "paused".to_owned();
            job.lease_owner = None;
            job.last_error = Some("budget_or_shutdown".to_owned());
            after.set(i, job);
            count = count + 1;
        }
        i += 1;
    }
    Ok(ChangedJobs { jobs: after, changed, count })
}

/// Pausing reaches the jobs of a stream, an extractor and a strategy that are pending, wait
/// for a retry or are paused, and a job that it reached can be leased at once. Recovering
/// reaches the leased jobs, and likewise each of them can then be leased.
pub proof fn law_paused_and_recovered_jobs_are_leased_again(
    before: JobMark,
    after: JobMark,
    stream: Seq<char>,
    extractor: Seq<char>,
    strategy: Seq<char>,
    job: StoredExtractionJobRecord,
    owner: Seq<char>,
    fence: HostFence,
    held: Option<i64>,
    next_due_unix_ms: i64,
    now_unix_ms: i64,
)
    requires
        !blank(owner),
        held is Some && held->Some_0 == fence.generation as int,
        job.attempts < u32::MAX,
        job.status@ == after.status@,
    ensures
        waits_for(before, stream, extractor, strategy) <==> {
            &&& before.source_stream@ == stream
            &&& before.extractor_version@ == extractor
            &&& before.strategy_digest@ == strategy
            &&& before.status@ == "pending"@ || before.status@ == "retry_wait"@
                || before.status@ == "paused"@
        },
        paused_as(before, after, true) ==> {
            &&& after.status@ == "paused"@
            &&& after.lease_owner is None
            &&& after.last_error is Some
            &&& after.job_id == before.job_id
            &&& lease_fault(owner, fence, held, Some(job), next_due_unix_ms, now_unix_ms) is None
        },
        paused_as(before, after, false) ==> after == before,
        before.status@ == "leased"@ && recovered_as(before, after) ==> {
            &&& after.status@ == "pending"@
            &&& after.lease_owner is None
            &&& after.last_error == before.last_error
            &&& after.job_id == before.job_id
            &&& lease_fault(owner, fence, held, Some(job), next_due_unix_ms, now_unix_ms) is None
        },
        before.status@ != "leased"@ && recovered_as(before, after) ==> after == before,
{
}

// ---------------------------------------------------------------------------
// Reading back

/// A job as its row is read.
#[derive(Debug)]
pub struct JobRow {
    pub job_id: String,
    pub source_stream: Parsed,
    pub start_sequence: i64,
    pub end_sequence: i64,
    pub source_digest: Parsed,
    pub source_ids_json: String,
    pub extractor_version: String,
    pub strategy_digest: Parsed,
    pub status: String,
    pub attempts: i64,
    pub lease_owner: Option<String>,
    pub lease_generation: i64,
    pub last_error: Option<String>,
    pub disposition: Option<String>,
}

/// Why a stored job cannot be read.
pub open spec fn job_row_fault(row: JobRow) -> Option<Fault> {
    let sequence = ErrorCode::InvalidSequence;
    first(
        parsed_fault(row.source_stream),
        first(
            parsed_fault(row.source_digest),
            first(
                parsed_fault(row.strategy_digest),
                first(
                    if json_strings(row.source_ids_json@) is Some {
                        None
                    } else {
                        fault(
                            ErrorCode::InvalidPayload,
                            "stored extraction source IDs are invalid"@,
                        )
                    },
                    first(
                        unsigned_fault(row.start_sequence, sequence, "job start is negative"@),
                        first(
                            unsigned_fault(row.end_sequence, sequence, "job end is negative"@),
                            first(
                                narrow_fault(row.attempts, sequence, "job attempts are invalid"@),
                                unsigned_fault(
                                    row.lease_generation,
                                    sequence,
                                    "job generation is negative"@,
                                ),
                            ),
                        ),
                    ),
                ),
            ),
        ),
    )
}

/// A job is what a row holds.
pub open spec fn job_reads_as(row: JobRow, job: StoredExtractionJobRecord) -> bool {
    &&& job == (StoredExtractionJobRecord {
        job_id: row.job_id,
        source_stream: row.source_stream->Ok_0,
        start_sequence: row.start_sequence as u64,
        end_sequence: row.end_sequence as u64,
        source_digest: row.source_digest->Ok_0,
        source_event_ids: job.source_event_ids,
        extractor_version: row.extractor_version,
        strategy_digest: row.strategy_digest->Ok_0,
        status: row.status,
        attempts: row.attempts as u32,
        lease_owner: row.lease_owner,
        lease_generation: row.lease_generation as u64,
        last_error: row.last_error,
        disposition: row.disposition,
    })
    &&& Some(texts(job.source_event_ids@)) == json_strings(row.source_ids_json@)
}

/// Reads a job back.
pub fn decode_job(row: JobRow) -> (result: Result<StoredExtractionJobRecord, StoreError>)
    ensures
        answers(result, job_row_fault(row)),
        result is Ok ==> job_reads_as(row, result->Ok_0),
{
    let sequence: ErrorCode = ErrorCode::InvalidSequence;
    let source_stream: String = parsed_value(row.source_stream)?;
    let source_digest: String = parsed_value(row.source_digest)?;
    let strategy_digest: String = parsed_value(row.strategy_digest)?;
    let source_event_ids: Vec<String> = match json_string_list(row.source_ids_json.as_str()) {
        Some(list) => list,
        None => {
            return Err(
                StoreError::new(
                    ErrorCode::InvalidPayload,
                    "stored extraction source IDs are invalid",
                ),
            );
        },
    };
    let start_sequence: u64 = to_unsigned(row.start_sequence, sequence, "job start is negative")?;
    let end_sequence: u64 = to_unsigned(row.end_sequence, sequence, "job end is negative")?;
    let attempts: u32 = to_narrow(row.attempts, sequence, "job attempts are invalid")?;
    let lease_generation: u64 = to_unsigned(
        row.lease_generation,
        sequence,
        "job generation is negative",
    )?;
    Ok(
        StoredExtractionJobRecord {
            job_id: row.job_id,
            source_stream,
            start_sequence,
            end_sequence,
            source_digest,
            source_event_ids,
            extractor_version: row.extractor_version,
            strategy_digest,
            status: row.status,
            attempts,
            lease_owner: row.lease_owner,
            lease_generation,
            last_error: row.last_error,
            disposition: row.disposition,
        },
    )
}

/// A row holds a job as it is written: its identities and texts as they are, its
/// list as JSON, and its numbers, which columns can hold.
pub open spec fn job_is_stored_in(record: StoredExtractionJobRecord, row: JobRow) -> bool {
    &&& record.start_sequence <= i64::MAX
    &&& record.end_sequence <= i64::MAX
    &&& record.lease_generation <= i64::MAX
    &&& json_strings(row.source_ids_json@) == Some(texts(record.source_event_ids@))
    &&& row == (JobRow {
        job_id: record.job_id,
        source_stream: Ok(record.source_stream),
        start_sequence: record.start_sequence as i64,
        end_sequence: record.end_sequence as i64,
        source_digest: Ok(record.source_digest),
        extractor_version: record.extractor_version,
        strategy_digest: Ok(record.strategy_digest),
        status: record.status,
        attempts: record.attempts as i64,
        lease_owner: record.lease_owner,
        lease_generation: record.lease_generation as i64,
        last_error: record.last_error,
        disposition: record.disposition,
        source_ids_json: row.source_ids_json,
    })
}

/// What is written is read back: the row of a job reads without an error, as the
/// record that it was written from, with the same list.
pub proof fn law_stored_job_reads_back(record: StoredExtractionJobRecord, row: JobRow, read: StoredExtractionJobRecord)
    requires
        job_is_stored_in(record, row),
        job_reads_as(row, read),
    ensures
        job_row_fault(row) is None,
        texts(read.source_event_ids@) == texts(record.source_event_ids@),
        read == (StoredExtractionJobRecord { source_event_ids: read.source_event_ids, ..record }),
{
}

} // verus!
