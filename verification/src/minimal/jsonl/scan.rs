//! What a scan reads of a session log.
use crate::db::{SourceJsonlRecord, SourceJsonlRecordView};
use crate::digest::{hex_digest, hex_digest_of};
use crate::json::{Json, JsonView};
use crate::minimal::db::{EventRecord, EventRecordView, QuotaRecord, QuotaRecordView};
use crate::minimal::jsonl::{
    empty_file_context, event_read, parse_event, parse_turn_record, quota_key, quotas_in,
    rate_limit_records, source_quota_key, turn_read, CursorState, CursorStateView, FileContext,
    FileContextView,
};
use crate::pipelines::source::jsonl::lines::{
    complete_length, find_line_end, lemma_complete_length_is, lemma_line_end,
    lemma_rest_is_one_line, lines_in, take_bytes,
};
use crate::pipelines::source::jsonl::JsonlError;
use vstd::prelude::*;

verus! {

/// A fact of a log, in the order in which it is stored.
#[derive(Debug)]
pub enum LogFact {
    Turn(SourceJsonlRecord),
    Event(EventRecord),
    Quota(String, QuotaRecord),
}

/// A `LogFact` with its texts as sequences of characters.
#[verifier::ext_equal]
pub enum LogFactView {
    Turn(SourceJsonlRecordView),
    Event(EventRecordView),
    Quota(Seq<char>, QuotaRecordView),
}

impl DeepView for LogFact {
    type V = LogFactView;

    open spec fn deep_view(&self) -> LogFactView {
        match self {
            LogFact::Turn(record) => LogFactView::Turn(record.deep_view()),
            LogFact::Event(event) => LogFactView::Event(event.deep_view()),
            LogFact::Quota(key, sample) => LogFactView::Quota(key@, sample.deep_view()),
        }
    }
}

/// A line of a log: its bytes, and its value where it is JSON.
#[derive(Debug)]
pub struct LogLine {
    pub bytes: Vec<u8>,
    pub value: Option<Json>,
}

/// A `LogLine` with its texts as sequences of characters.
#[verifier::ext_equal]
pub struct LogLineView {
    pub bytes: Seq<u8>,
    pub value: Option<JsonView>,
}

impl DeepView for LogLine {
    type V = LogLineView;

    open spec fn deep_view(&self) -> LogLineView {
        LogLineView { bytes: self.bytes@, value: self.value.deep_view() }
    }
}

/// What was read of a log: its facts, and why the reading stopped where it did.
#[derive(Debug)]
pub struct LogRead {
    pub context: FileContext,
    pub facts: Vec<LogFact>,
    pub error: Option<JsonlError>,
}

/// A `LogRead` with its texts as sequences of characters.
#[verifier::ext_equal]
pub struct LogReadView {
    pub context: FileContextView,
    pub facts: Seq<LogFactView>,
    pub error: Option<Seq<char>>,
}

impl DeepView for LogRead {
    type V = LogReadView;

    open spec fn deep_view(&self) -> LogReadView {
        LogReadView {
            context: self.context.deep_view(),
            facts: self.facts.deep_view(),
            error: self.error.deep_view(),
        }
    }
}

/// States of quotas as facts.
pub open spec fn quota_facts(samples: Seq<QuotaRecordView>) -> Seq<LogFactView> {
    samples.map_values(|sample: QuotaRecordView| LogFactView::Quota(quota_key(sample), sample))
}

/// A turn as facts, of which there are none where there is no turn.
pub open spec fn turn_facts(turn: Option<SourceJsonlRecordView>) -> Seq<LogFactView> {
    match turn {
        Some(record) => seq![LogFactView::Turn(record)],
        None => Seq::empty(),
    }
}

/// An event, and the states of quotas that it gives, as facts.
pub open spec fn event_facts(event: Option<EventRecordView>, context: FileContextView) -> Seq<
    LogFactView,
> {
    match event {
        Some(event) => seq![LogFactView::Event(event)] + (match event.quota_json {
            Some(limits) => quota_facts(quotas_in(limits, context, event.observed_at_ms)),
            None => Seq::empty(),
        }),
        None => Seq::empty(),
    }
}

/// What is read of a log with one line more: a line that is no JSON tells nothing, one without an
/// instant ends the reading.
pub open spec fn with_line(read: LogReadView, line: LogLineView) -> LogReadView {
    match line.value {
        Some(value) => match turn_read(value, read.context) {
            Ok(turn) => match event_read(line.bytes, value, turn.context) {
                Ok(event) => LogReadView {
                    context: event.context,
                    facts: read.facts + turn_facts(turn.turn) + event_facts(
                        event.event,
                        event.context,
                    ),
                    error: None,
                },
                Err(reason) => LogReadView {
                    context: turn.context,
                    facts: read.facts + turn_facts(turn.turn),
                    error: Some(reason),
                },
            },
            Err(reason) => LogReadView { error: Some(reason), ..read },
        },
        None => read,
    }
}

/// What is read of a log.
pub open spec fn log_read(lines: Seq<LogLineView>) -> LogReadView
    decreases lines.len(),
{
    if lines.len() == 0 {
        LogReadView { context: empty_file_context(), facts: Seq::empty(), error: None }
    } else {
        let before = log_read(lines.drop_last());
        if before.error is Some {
            before
        } else {
            with_line(before, lines.last())
        }
    }
}

/// What ends the reading after some lines ends the reading of all.
proof fn lemma_error_stays(lines: Seq<LogLineView>, n: int)
    requires
        0 <= n <= lines.len(),
        log_read(lines.take(n)).error is Some,
    ensures
        log_read(lines) == log_read(lines.take(n)),
    decreases lines.len(),
{
    if n == lines.len() {
        assert(lines.take(n) =~= lines);
    } else {
        assert(lines.drop_last().take(n) =~= lines.take(n));
        lemma_error_stays(lines.drop_last(), n);
    }
}

fn add_fact(facts: &mut Vec<LogFact>, fact: LogFact)
    ensures
        final(facts).deep_view() == old(facts).deep_view() + seq![fact.deep_view()],
{
    let ghost before = facts.deep_view();
    let ghost told = fact.deep_view();
    facts.push(fact);
    assert(facts.deep_view() =~= before + seq![told]);
}

fn add_quotas(facts: &mut Vec<LogFact>, samples: Vec<QuotaRecord>)
    ensures
        final(facts).deep_view() == old(facts).deep_view() + quota_facts(samples.deep_view()),
{
    let ghost before = facts.deep_view();
    let ghost all = samples.deep_view();
    let ghost wanted = quota_facts(all);
    assert(before + wanted.take(0) =~= before);
    for sample in it: samples
        invariant
            all.len() == it.seq().len(),
            forall|k: int| 0 <= k < all.len() ==> #[trigger] all[k] == it.seq()[k].deep_view(),
            wanted == quota_facts(all),
            facts.deep_view() == before + wanted.take(it.index() as int),
    {
        let ghost n = it.index() as int;
        assert(all[n] == sample.deep_view());
        let key = source_quota_key(&sample);
        let ghost told = LogFactView::Quota(key@, sample.deep_view());
        assert(wanted[n] == told);
        add_fact(facts, LogFact::Quota(key, sample));
        assert(before + wanted.take(n) + seq![told] =~= before + wanted.take(n + 1));
    }
    assert(wanted.take(all.len() as int) =~= wanted);
}

fn read_line(read: &mut LogRead, line: &LogLine)
    requires
        old(read).error is None,
    ensures
        final(read).deep_view() == with_line(old(read).deep_view(), line.deep_view()),
{
    let ghost before = read.facts.deep_view();
    let value = match &line.value {
        Some(value) => value,
        None => return ,
    };
    let turn = match parse_turn_record(value, &mut read.context) {
        Ok(turn) => turn,
        Err(error) => {
            read.error = Some(error);
            return ;
        },
    };
    let ghost first = turn_facts(turn.deep_view());
    match turn {
        Some(record) => add_fact(&mut read.facts, LogFact::Turn(record)),
        None => {
            assert(before + Seq::<LogFactView>::empty() =~= before);
        },
    }
    assert(read.facts.deep_view() == before + first);
    let event = match parse_event(line.bytes.as_slice(), value, &mut read.context) {
        Ok(event) => event,
        Err(error) => {
            read.error = Some(error);
            return ;
        },
    };
    let ghost second = event_facts(event.deep_view(), read.context.deep_view());
    match event {
        Some(event) => {
            let samples = match &event.quota_json {
                Some(limits) => rate_limit_records(limits, &read.context, event.observed_at_ms),
                None => Vec::new(),
            };
            let ghost told = LogFactView::Event(event.deep_view());
            let ghost rest = quota_facts(samples.deep_view());
            assert(event.quota_json is None ==> rest =~= Seq::empty());
            add_fact(&mut read.facts, LogFact::Event(event));
            add_quotas(&mut read.facts, samples);
            assert(second =~= seq![told] + rest);
            assert(before + first + seq![told] + rest =~= before + first + second);
        },
        None => {
            assert(before + first + second =~= before + first);
        },
    }
}

/// Reads the lines of a log.
pub fn read_log(lines: &Vec<LogLine>) -> (r: LogRead)
    ensures
        r.deep_view() == log_read(lines.deep_view()),
{
    let ghost all = lines.deep_view();
    let mut read = LogRead { context: FileContext::default(), facts: Vec::new(), error: None };
    assert(read.facts.deep_view() =~= Seq::empty());
    let mut i: usize = 0;
    while i < lines.len()
        invariant
            i <= lines@.len(),
            all == lines.deep_view(),
            read.error is None,
            read.deep_view() == log_read(all.take(i as int)),
        decreases lines@.len() - i,
    {
        assert(all.take(i + 1).drop_last() =~= all.take(i as int));
        assert(all.take(i + 1).last() == lines@[i as int].deep_view());
        read_line(&mut read, &lines[i]);
        if read.error.is_some() {
            proof {
                lemma_error_stays(all, i + 1);
            }
            return read;
        }
        i = i + 1;
    }
    assert(all.take(i as int) =~= all);
    read
}

/// The lines that hold anything, without the character that ends each.
pub open spec fn held_lines(lines: Seq<Seq<u8>>) -> Seq<Seq<u8>>
    decreases lines.len(),
{
    if lines.len() == 0 {
        Seq::empty()
    } else {
        let before = held_lines(lines.drop_last());
        if lines.last().len() > 1 {
            before.push(lines.last().drop_last())
        } else {
            before
        }
    }
}

/// The complete lines of what was written to a log, and how many bytes they take.
pub fn split_lines(chunk: &Vec<u8>) -> (r: (Vec<Vec<u8>>, usize))
    ensures
        r.0.deep_view() == held_lines(lines_in(chunk@, false)),
        r.1 == complete_length(chunk@),
{
    let len: usize = chunk.len();
    let ghost all = lines_in(chunk@, false);
    let ghost mut done: Seq<Seq<u8>> = Seq::empty();
    let mut lines: Vec<Vec<u8>> = Vec::new();
    let mut at: usize = 0;
    assert(lines.deep_view() =~= held_lines(done));
    assert(chunk@.skip(0) =~= chunk@);
    assert(all =~= done + lines_in(chunk@.skip(0), false));
    loop
        invariant
            at <= len,
            len == chunk@.len(),
            all == lines_in(chunk@, false),
            all == done + lines_in(chunk@.skip(at as int), false),
            lines.deep_view() == held_lines(done),
            at > 0 ==> chunk@[at - 1] == 10,
        decreases chunk@.len() - at,
    {
        let ghost rest = chunk@.skip(at as int);
        proof {
            lemma_line_end(rest, 0);
        }
        match find_line_end(chunk, at) {
            Some(end) => {
                let ghost whole = rest.take(end - at + 1);
                proof {
                    assert(rest.skip(end - at + 1) =~= chunk@.skip(end + 1));
                    assert(all =~= done.push(whole) + lines_in(chunk@.skip(end + 1), false));
                    assert(done.push(whole).drop_last() =~= done);
                    assert(chunk@[end as int] == rest[end - at]);
                }
                if at < end {
                    let ghost before = lines.deep_view();
                    let line = take_bytes(chunk, at, end);
                    let ghost held = line@;
                    assert(line.deep_view() =~= held);
                    assert(held =~= whole.drop_last());
                    lines.push(line);
                    assert(lines.deep_view() =~= before.push(held));
                }
                proof {
                    done = done.push(whole);
                }
                at = end + 1;
            },
            None => {
                proof {
                    assert forall|i: int| at <= i < chunk@.len() implies #[trigger] chunk@[i]
                        != 10 by {
                        assert(rest[i - at] == chunk@[i]);
                    }
                    lemma_complete_length_is(chunk@, at as int);
                    assert(all =~= done);
                }
                return (lines, at);
            },
        }
    }
}

/// The byte from which on a log is read: where the last reading ended, or its first where the log
/// is shorter now.
pub open spec fn unread_start(existing: Option<CursorStateView>, length: nat) -> nat {
    match existing {
        Some(cursor) => if cursor.offset_bytes <= length {
            cursor.offset_bytes as nat
        } else {
            0
        },
        None => 0,
    }
}

/// The byte from which on a log is read.
pub fn unread_from(existing: Option<&CursorState>, length: usize) -> (r: usize)
    ensures
        r == unread_start(existing.deep_view(), length as nat),
        r <= length,
{
    match existing {
        Some(cursor) => if cursor.offset_bytes <= length as u64 {
            cursor.offset_bytes as usize
        } else {
            0
        },
        None => 0,
    }
}

/// How far a log was read after its complete lines from `start` on.
pub open spec fn cursor_after(
    bytes: Seq<u8>,
    start: nat,
    complete: nat,
    mtime_ms: Option<i64>,
) -> CursorStateView {
    CursorStateView {
        offset_bytes: (start + complete) as u64,
        mtime_ms,
        digest: if start + complete > 0 {
            Some(hex_digest_of(bytes.take((start + complete) as int)))
        } else {
            None
        },
    }
}

/// How far a log was read after its complete lines from `start` on.
pub fn next_cursor(bytes: &Vec<u8>, start: usize, complete: usize, mtime_ms: Option<i64>) -> (r:
    CursorState)
    requires
        start + complete <= bytes@.len(),
    ensures
        r.deep_view() == cursor_after(bytes@, start as nat, complete as nat, mtime_ms),
{
    let length: usize = bytes.len();
    assert(start + complete <= length);
    let end: usize = start + complete;
    let digest = if end > 0 {
        let part = take_bytes(bytes, 0, end);
        assert(part@ =~= bytes@.take(end as int));
        Some(hex_digest(part.as_slice()))
    } else {
        None
    };
    CursorState { offset_bytes: end as u64, mtime_ms, digest }
}

/// A log that was read to its last complete line, and has not grown since, has no complete line
/// that was not read.
pub proof fn lemma_read_lines_are_not_read_again(bytes: Seq<u8>, mtime_ms: Option<i64>)
    requires
        bytes.len() <= u64::MAX,
    ensures
        ({
            let cursor = cursor_after(bytes, 0, complete_length(bytes), mtime_ms);
            let start = unread_start(Some(cursor), bytes.len());
            &&& start == complete_length(bytes)
            &&& complete_length(bytes.skip(start as int)) == 0
            &&& lines_in(bytes.skip(start as int), false).len() == 0
        }),
{
    lemma_rest_is_one_line(bytes);
    let n = complete_length(bytes) as int;
    let rest = bytes.skip(n);
    assert forall|i: int| 0 <= i < rest.len() implies #[trigger] rest[i] != 10 by {
        assert(rest[i] == bytes[n + i]);
    }
    lemma_complete_length_is(rest, 0);
    lemma_line_end(rest, 0);
}

} // verus!
