//! How far a session log was read, and the events of what was written since.
use crate::collectors::jsonl::events::{
    empty_cursor_context, line_read, read_line, resolved, CursorContext, CursorContextView,
    JsonlEvent, JsonlEventView,
};
use crate::digest::{hex_digest, hex_digest_of};
use crate::json::{Json, JsonView};
use crate::pipelines::source::jsonl::lines::{
    bare_line, complete_length, find_line_end, lemma_complete_length_is, lemma_line_end,
    lemma_rest_is_one_line, lines_in, take_bytes, trim_line_end,
};
use crate::text::{copy_option, same_option};
use vstd::prelude::*;

verus! {

/// How many bytes before a cursor are read again to see whether the log is still the same.
pub const MAX_CURSOR_VERIFICATION_BYTES: u64 = 1_048_576;

/// Why a log cannot be collected.
#[derive(Debug)]
pub enum JsonlCollectorError {
    /// A line is no JSON.
    Json(String),
    /// An instant is missing, or its date cannot be told.
    Timestamp(String),
    /// The tokens of a day are more than can be counted.
    TokenOverflow,
}

/// A `JsonlCollectorError` with its texts as sequences of characters.
#[verifier::ext_equal]
pub enum JsonlCollectorErrorView {
    Json(Seq<char>),
    Timestamp(Seq<char>),
    TokenOverflow,
}

impl DeepView for JsonlCollectorError {
    type V = JsonlCollectorErrorView;

    open spec fn deep_view(&self) -> JsonlCollectorErrorView {
        match self {
            JsonlCollectorError::Json(reason) => JsonlCollectorErrorView::Json(reason@),
            JsonlCollectorError::Timestamp(reason) => JsonlCollectorErrorView::Timestamp(reason@),
            JsonlCollectorError::TokenOverflow => JsonlCollectorErrorView::TokenOverflow,
        }
    }
}

/// What is stored of a log.
#[derive(Debug)]
pub struct JsonlFileState {
    pub machine_id: i64,
    pub path_key: String,
    pub session_id: Option<String>,
    pub inode: Option<i64>,
    pub offset_bytes: i64,
    pub mtime_ms: Option<i64>,
    pub digest: Option<String>,
    pub active_state: String,
    pub cli_version: Option<String>,
    pub model_provider: Option<String>,
    pub thread_source: Option<String>,
    pub session_started_at_ms: Option<i64>,
    pub last_model: Option<String>,
    pub last_model_provider_id: Option<String>,
    pub last_service_tier: Option<String>,
}

/// A `JsonlFileState` with its texts as sequences of characters.
#[verifier::ext_equal]
pub struct JsonlFileStateView {
    pub machine_id: i64,
    pub path_key: Seq<char>,
    pub session_id: Option<Seq<char>>,
    pub inode: Option<i64>,
    pub offset_bytes: i64,
    pub mtime_ms: Option<i64>,
    pub digest: Option<Seq<char>>,
    pub active_state: Seq<char>,
    pub cli_version: Option<Seq<char>>,
    pub model_provider: Option<Seq<char>>,
    pub thread_source: Option<Seq<char>>,
    pub session_started_at_ms: Option<i64>,
    pub last_model: Option<Seq<char>>,
    pub last_model_provider_id: Option<Seq<char>>,
    pub last_service_tier: Option<Seq<char>>,
}

impl DeepView for JsonlFileState {
    type V = JsonlFileStateView;

    open spec fn deep_view(&self) -> JsonlFileStateView {
        JsonlFileStateView {
            machine_id: self.machine_id,
            path_key: self.path_key@,
            session_id: self.session_id.deep_view(),
            inode: self.inode,
            offset_bytes: self.offset_bytes,
            mtime_ms: self.mtime_ms,
            digest: self.digest.deep_view(),
            active_state: self.active_state@,
            cli_version: self.cli_version.deep_view(),
            model_provider: self.model_provider.deep_view(),
            thread_source: self.thread_source.deep_view(),
            session_started_at_ms: self.session_started_at_ms,
            last_model: self.last_model.deep_view(),
            last_model_provider_id: self.last_model_provider_id.deep_view(),
            last_service_tier: self.last_service_tier.deep_view(),
        }
    }
}

/// Where the reading of a log starts: whether from its beginning again, from which byte, and with
/// what is known.
#[derive(Debug)]
pub struct ScanStart {
    pub reset: bool,
    pub offset: u64,
    pub context: CursorContext,
}

/// A `ScanStart` with its texts as sequences of characters.
#[verifier::ext_equal]
pub struct ScanStartView {
    pub reset: bool,
    pub offset: u64,
    pub context: CursorContextView,
}

impl DeepView for ScanStart {
    type V = ScanStartView;

    open spec fn deep_view(&self) -> ScanStartView {
        ScanStartView {
            reset: self.reset,
            offset: self.offset,
            context: self.context.deep_view(),
        }
    }
}

/// What was read of a log.
#[derive(Debug)]
pub struct ParsedFile {
    pub events: Vec<JsonlEvent>,
    pub complete_line_count: usize,
    pub pending_bytes: usize,
    pub next_offset: i64,
    pub last_line_digest: Option<String>,
    pub context: CursorContext,
}

/// A `ParsedFile` with its texts as sequences of characters.
#[verifier::ext_equal]
pub struct ParsedFileView {
    pub events: Seq<JsonlEventView>,
    pub complete_line_count: usize,
    pub pending_bytes: usize,
    pub next_offset: i64,
    pub last_line_digest: Option<Seq<char>>,
    pub context: CursorContextView,
}

impl DeepView for ParsedFile {
    type V = ParsedFileView;

    open spec fn deep_view(&self) -> ParsedFileView {
        ParsedFileView {
            events: self.events.deep_view(),
            complete_line_count: self.complete_line_count,
            pending_bytes: self.pending_bytes,
            next_offset: self.next_offset,
            last_line_digest: self.last_line_digest.deep_view(),
            context: self.context.deep_view(),
        }
    }
}

/// What a stored state tells of the session of its log.
pub open spec fn context_of_state(state: JsonlFileStateView) -> CursorContextView {
    CursorContextView {
        session_id: state.session_id,
        cli_version: state.cli_version,
        model_provider: state.model_provider,
        thread_source: state.thread_source,
        session_started_at_ms: state.session_started_at_ms,
        last_model: state.last_model,
        last_model_provider_id: state.last_model_provider_id,
        last_service_tier: state.last_service_tier,
    }
}

impl CursorContext {
    /// What a stored state tells of the session of its log.
    pub fn from_state(state: &JsonlFileState) -> (r: CursorContext)
        ensures
            r.deep_view() == context_of_state(state.deep_view()),
    {
        CursorContext {
            session_id: copy_option(&state.session_id),
            cli_version: copy_option(&state.cli_version),
            model_provider: copy_option(&state.model_provider),
            thread_source: copy_option(&state.thread_source),
            session_started_at_ms: state.session_started_at_ms,
            last_model: copy_option(&state.last_model),
            last_model_provider_id: copy_option(&state.last_model_provider_id),
            last_service_tier: copy_option(&state.last_service_tier),
        }
    }
}

/// The last line of bytes that end with one, without the character that ends it.
pub open spec fn last_line_of(bytes: Seq<u8>) -> Option<Seq<u8>> {
    if bytes.len() == 0 || bytes.last() != 10 {
        None
    } else {
        let rest = bytes.drop_last();
        Some(rest.skip(complete_length(rest) as int))
    }
}

/// The last line of bytes that end with one, without the character that ends it.
pub fn last_complete_line(bytes: &Vec<u8>) -> (r: Option<Vec<u8>>)
    ensures
        match r {
            Some(line) => last_line_of(bytes@) == Some(line@),
            None => last_line_of(bytes@) is None,
        },
{
    let len: usize = bytes.len();
    if len == 0 || bytes[len - 1] != 10 {
        return None;
    }
    let ghost rest = bytes@.drop_last();
    let mut start: usize = len - 1;
    while start > 0 && bytes[start - 1] != 10
        invariant
            start < len,
            len == bytes@.len(),
            rest == bytes@.drop_last(),
            forall|i: int| start <= i < rest.len() ==> #[trigger] rest[i] != 10,
        decreases start,
    {
        start = start - 1;
    }
    proof {
        if start > 0 {
            assert(rest[start - 1] == bytes@[start - 1]);
        }
        lemma_complete_length_is(rest, start as int);
        assert(bytes@.subrange(start as int, len - 1) =~= rest.skip(start as int));
    }
    Some(take_bytes(bytes, start, len - 1))
}

/// The digest of the last line of the bytes from `start` to a cursor; none where it cannot be told
/// where that line starts.
pub open spec fn digest_before_cursor(bytes: Seq<u8>, start: u64) -> Option<Seq<char>> {
    match last_line_of(bytes) {
        Some(line) => if start > 0 && !bytes.take(bytes.len() - line.len()).contains(10u8) {
            None
        } else {
            Some(hex_digest_of(line))
        },
        None => None,
    }
}

fn has_line_end(bytes: &Vec<u8>, to: usize) -> (r: bool)
    requires
        to <= bytes@.len(),
    ensures
        r == bytes@.take(to as int).contains(10u8),
{
    let ghost part = bytes@.take(to as int);
    let mut i: usize = 0;
    while i < to
        invariant
            i <= to <= bytes@.len(),
            part == bytes@.take(to as int),
            forall|k: int| 0 <= k < i ==> #[trigger] part[k] != 10,
        decreases to - i,
    {
        assert(part[i as int] == bytes@[i as int]);
        if bytes[i] == 10 {
            return true;
        }
        i = i + 1;
    }
    false
}

/// The digest of the last line of the bytes from `start` to a cursor; none where it cannot be told
/// where that line starts.
pub fn line_digest_at_offset(bytes: &Vec<u8>, start: u64) -> (r: Option<String>)
    ensures
        r.deep_view() == digest_before_cursor(bytes@, start),
{
    match last_complete_line(bytes) {
        Some(line) => {
            proof {
                lemma_rest_is_one_line(bytes@.drop_last());
            }
            let to: usize = bytes.len() - line.len();
            if start > 0 && !has_line_end(bytes, to) {
                None
            } else {
                Some(hex_digest(line.as_slice()))
            }
        },
        None => None,
    }
}

/// The byte up to which a log was read.
pub open spec fn stored_offset(state: JsonlFileStateView) -> u64 {
    if state.offset_bytes > 0 {
        state.offset_bytes as u64
    } else {
        0
    }
}

/// Whether a log may be the one that was read: it is the same file, and not shorter.
pub open spec fn may_resume(
    previous: Option<JsonlFileStateView>,
    inode: Option<i64>,
    length: u64,
) -> bool {
    match previous {
        Some(state) => state.inode == inode && stored_offset(state) <= length,
        None => false,
    }
}

/// Where the bytes before a cursor start that are read again.
pub open spec fn verification_start(offset: u64) -> u64 {
    if offset <= MAX_CURSOR_VERIFICATION_BYTES {
        0
    } else {
        (offset - MAX_CURSOR_VERIFICATION_BYTES) as u64
    }
}

/// The bytes, from one to another, that show whether a log is the one that was read.
pub open spec fn span_to_verify(
    previous: Option<JsonlFileStateView>,
    inode: Option<i64>,
    length: u64,
) -> Option<(u64, u64)> {
    match previous {
        Some(state) => if may_resume(previous, inode, length) && state.digest is Some {
            Some((verification_start(stored_offset(state)), stored_offset(state)))
        } else {
            None
        },
        None => None,
    }
}

/// Where the reading of a log starts, with the digest before the cursor as it is now.
pub open spec fn start_of_scan(
    previous: Option<JsonlFileStateView>,
    inode: Option<i64>,
    length: u64,
    actual: Option<Seq<char>>,
) -> ScanStartView {
    let again = ScanStartView { reset: true, offset: 0, context: empty_cursor_context() };
    match previous {
        Some(state) => if may_resume(previous, inode, length) && (state.digest is None || actual
            == state.digest) {
            ScanStartView {
                reset: false,
                offset: stored_offset(state),
                context: context_of_state(state),
            }
        } else {
            again
        },
        None => again,
    }
}

fn offset_of(state: &JsonlFileState) -> (r: u64)
    ensures
        r == stored_offset(state.deep_view()),
{
    if state.offset_bytes > 0 {
        state.offset_bytes as u64
    } else {
        0
    }
}

fn same_inode(a: Option<i64>, b: Option<i64>) -> (r: bool)
    ensures
        r == (a == b),
{
    match (a, b) {
        (Some(x), Some(y)) => x == y,
        (None, None) => true,
        _ => false,
    }
}

/// The bytes, from one to another, that show whether a log is the one that was read.
pub fn span_before_cursor(
    previous: Option<&JsonlFileState>,
    inode: Option<i64>,
    length: u64,
) -> (r: Option<(u64, u64)>)
    ensures
        r == span_to_verify(previous.deep_view(), inode, length),
{
    match previous {
        Some(state) => {
            let offset = offset_of(state);
            if same_inode(state.inode, inode) && offset <= length && state.digest.is_some() {
                let start: u64 = if offset <= MAX_CURSOR_VERIFICATION_BYTES {
                    0
                } else {
                    offset - MAX_CURSOR_VERIFICATION_BYTES
                };
                Some((start, offset))
            } else {
                None
            }
        },
        None => None,
    }
}

/// Where the reading of a log starts, with the digest before the cursor as it is now.
pub fn scan_start(
    previous: Option<&JsonlFileState>,
    inode: Option<i64>,
    length: u64,
    actual: &Option<String>,
) -> (r: ScanStart)
    ensures
        r.deep_view() == start_of_scan(previous.deep_view(), inode, length, actual.deep_view()),
        r.offset <= length,
{
    match previous {
        Some(state) => {
            let offset = offset_of(state);
            if same_inode(state.inode, inode) && offset <= length && (state.digest.is_none()
                || same_option(actual, &state.digest)) {
                return ScanStart {
                    reset: false,
                    offset,
                    context: CursorContext::from_state(state),
                };
            }
        },
        None => {},
    }
    ScanStart { reset: true, offset: 0, context: CursorContext::default() }
}

/// The lines that hold anything, without the characters that end them.
pub open spec fn filled_lines(lines: Seq<Seq<u8>>) -> Seq<Seq<u8>>
    decreases lines.len(),
{
    if lines.len() == 0 {
        Seq::empty()
    } else {
        let before = filled_lines(lines.drop_last());
        let line = bare_line(lines.last());
        if line.len() > 0 {
            before.push(line)
        } else {
            before
        }
    }
}

/// The complete lines of a log.
#[derive(Debug)]
pub struct CompleteLines {
    pub lines: Vec<Vec<u8>>,
    pub count: usize,
    pub bytes: usize,
}

/// The complete lines of `bytes`: those that hold anything, how many there are, and how many bytes
/// they take.
pub fn complete_lines(bytes: &Vec<u8>) -> (r: CompleteLines)
    ensures
        r.lines.deep_view() == filled_lines(lines_in(bytes@, false)),
        r.count == lines_in(bytes@, false).len(),
        r.bytes == complete_length(bytes@),
        r.bytes <= bytes@.len(),
{
    let len: usize = bytes.len();
    let ghost all = lines_in(bytes@, false);
    let ghost mut done: Seq<Seq<u8>> = Seq::empty();
    let mut lines: Vec<Vec<u8>> = Vec::new();
    let mut count: usize = 0;
    let mut at: usize = 0;
    assert(lines.deep_view() =~= filled_lines(done));
    assert(bytes@.skip(0) =~= bytes@);
    assert(all =~= done + lines_in(bytes@.skip(0), false));
    loop
        invariant
            at <= len,
            len == bytes@.len(),
            all == lines_in(bytes@, false),
            all == done + lines_in(bytes@.skip(at as int), false),
            done.len() == count,
            count <= at,
            lines.deep_view() == filled_lines(done),
            at > 0 ==> bytes@[at - 1] == 10,
        decreases bytes@.len() - at,
    {
        let ghost rest = bytes@.skip(at as int);
        proof {
            lemma_line_end(rest, 0);
        }
        match find_line_end(bytes, at) {
            Some(end) => {
                let mut line = take_bytes(bytes, at, end + 1);
                let ghost whole = line@;
                proof {
                    assert(rest.take(end - at + 1) =~= whole);
                    assert(rest.skip(end - at + 1) =~= bytes@.skip(end + 1));
                    assert(all =~= done.push(whole) + lines_in(bytes@.skip(end + 1), false));
                    assert(done.push(whole).drop_last() =~= done);
                    assert(bytes@[end as int] == rest[end - at]);
                }
                trim_line_end(&mut line);
                let ghost before = lines.deep_view();
                if line.len() > 0 {
                    let ghost held = line@;
                    assert(line.deep_view() =~= held);
                    lines.push(line);
                    assert(lines.deep_view() =~= before.push(held));
                }
                proof {
                    done = done.push(whole);
                }
                count = count + 1;
                at = end + 1;
            },
            None => {
                proof {
                    assert forall|i: int| at <= i < bytes@.len() implies #[trigger] bytes@[i]
                        != 10 by {
                        assert(rest[i - at] == bytes@[i]);
                    }
                    lemma_complete_length_is(bytes@, at as int);
                    assert(all =~= done);
                }
                return CompleteLines { lines, count, bytes: at };
            },
        }
    }
}

/// A line of a log as it was read: its value, or why it is no JSON.
#[derive(Debug)]
pub enum Line {
    Value(Json),
    Broken(String),
}

/// A `Line` with its texts as sequences of characters.
#[verifier::ext_equal]
pub enum LineView {
    Value(JsonView),
    Broken(Seq<char>),
}

impl DeepView for Line {
    type V = LineView;

    open spec fn deep_view(&self) -> LineView {
        match self {
            Line::Value(value) => LineView::Value(value@),
            Line::Broken(reason) => LineView::Broken(reason@),
        }
    }
}

/// What is known after lines, and the events that they state.
#[verifier::ext_equal]
pub struct LinesRead {
    pub context: CursorContextView,
    pub events: Seq<JsonlEventView>,
}

/// What the lines of a log tell, or why the first of them that cannot be read cannot be.
pub open spec fn lines_read(lines: Seq<LineView>, context: CursorContextView) -> Result<
    LinesRead,
    JsonlCollectorErrorView,
>
    decreases lines.len(),
{
    if lines.len() == 0 {
        Ok(LinesRead { context, events: Seq::empty() })
    } else {
        match lines_read(lines.drop_last(), context) {
            Ok(before) => match lines.last() {
                LineView::Value(value) => match line_read(value, before.context) {
                    Ok(read) => Ok(
                        LinesRead {
                            context: read.context,
                            events: match read.event {
                                Some(event) => before.events.push(event),
                                None => before.events,
                            },
                        },
                    ),
                    Err(reason) => Err(JsonlCollectorErrorView::Timestamp(reason)),
                },
                LineView::Broken(reason) => Err(JsonlCollectorErrorView::Json(reason)),
            },
            Err(error) => Err(error),
        }
    }
}

/// What stops the reading after some lines stops the reading of all.
proof fn lemma_failure_stays(lines: Seq<LineView>, context: CursorContextView, n: int)
    requires
        0 <= n <= lines.len(),
        lines_read(lines.take(n), context) is Err,
    ensures
        lines_read(lines, context) == lines_read(lines.take(n), context),
    decreases lines.len(),
{
    if n == lines.len() {
        assert(lines.take(n) =~= lines);
    } else {
        assert(lines.drop_last().take(n) =~= lines.take(n));
        lemma_failure_stays(lines.drop_last(), context, n);
    }
}

/// Lines tell the same whether they are read at once or in two parts, the second with what the
/// first tells.
pub proof fn lemma_lines_in_two_parts(
    first: Seq<LineView>,
    second: Seq<LineView>,
    context: CursorContextView,
)
    requires
        lines_read(first, context) is Ok,
    ensures
        lines_read(first + second, context) == (match lines_read(
            second,
            lines_read(first, context)->Ok_0.context,
        ) {
            Ok(read) => Ok::<LinesRead, JsonlCollectorErrorView>(
                LinesRead {
                    context: read.context,
                    events: lines_read(first, context)->Ok_0.events + read.events,
                },
            ),
            Err(error) => Err(error),
        }),
    decreases second.len(),
{
    let told = lines_read(first, context)->Ok_0;
    if second.len() == 0 {
        assert(first + second =~= first);
        assert(told.events + Seq::<JsonlEventView>::empty() =~= told.events);
    } else {
        lemma_lines_in_two_parts(first, second.drop_last(), context);
        assert((first + second).drop_last() =~= first + second.drop_last());
        assert((first + second).last() == second.last());
        match lines_read(second.drop_last(), told.context) {
            Ok(before) => {
                if let LineView::Value(value) = second.last() {
                    if let Ok(read) = line_read(value, before.context) {
                        if let Some(event) = read.event {
                            assert((told.events + before.events).push(event) =~= told.events
                                + before.events.push(event));
                        }
                    }
                }
            },
            Err(_) => {},
        }
    }
}

/// Reads the lines of a log.
pub fn parse_complete_lines(lines: &Vec<Line>, context: CursorContext) -> (r: Result<
    (CursorContext, Vec<JsonlEvent>),
    JsonlCollectorError,
>)
    ensures
        match r {
            Ok((after, events)) => lines_read(lines.deep_view(), context.deep_view()) == Ok::<
                LinesRead,
                JsonlCollectorErrorView,
            >(LinesRead { context: after.deep_view(), events: events.deep_view() }),
            Err(error) => lines_read(lines.deep_view(), context.deep_view()) == Err::<
                LinesRead,
                JsonlCollectorErrorView,
            >(error.deep_view()),
        },
{
    let ghost all = lines.deep_view();
    let ghost start = context.deep_view();
    let mut known = context;
    let mut events: Vec<JsonlEvent> = Vec::new();
    assert(events.deep_view() =~= Seq::empty());
    let mut i: usize = 0;
    while i < lines.len()
        invariant
            i <= lines@.len(),
            all == lines.deep_view(),
            start == context.deep_view(),
            lines_read(all.take(i as int), start) == Ok::<LinesRead, JsonlCollectorErrorView>(
                LinesRead { context: known.deep_view(), events: events.deep_view() },
            ),
        decreases lines@.len() - i,
    {
        assert(all.take(i + 1).drop_last() =~= all.take(i as int));
        assert(all.take(i + 1).last() == lines@[i as int].deep_view());
        let ghost before = events.deep_view();
        match &lines[i] {
            Line::Value(value) => match read_line(value, &mut known) {
                Ok(Some(event)) => {
                    let ghost told = event.deep_view();
                    events.push(event);
                    assert(events.deep_view() =~= before.push(told));
                },
                Ok(None) => {},
                Err(reason) => {
                    proof {
                        lemma_failure_stays(all, start, i + 1);
                    }
                    return Err(JsonlCollectorError::Timestamp(reason));
                },
            },
            Line::Broken(reason) => {
                proof {
                    lemma_failure_stays(all, start, i + 1);
                }
                return Err(JsonlCollectorError::Json(reason.clone()));
            },
        }
        i = i + 1;
    }
    assert(all.take(i as int) =~= all);
    Ok((known, events))
}

/// Events of which those of no known session are ones of the session of the log.
pub open spec fn all_resolved(
    events: Seq<JsonlEventView>,
    session_id: Option<Seq<char>>,
) -> Seq<JsonlEventView> {
    match session_id {
        Some(session_id) => events.map_values(|event: JsonlEventView| resolved(event, session_id)),
        None => events,
    }
}

/// What was read of a log from `start` on: `bytes`, whose filled lines are `lines`.
pub open spec fn file_read(
    bytes: Seq<u8>,
    lines: Seq<LineView>,
    start: ScanStartView,
    digest: Option<Seq<char>>,
) -> Result<ParsedFileView, JsonlCollectorErrorView> {
    let complete = complete_length(bytes);
    match lines_read(lines, start.context) {
        Ok(read) => Ok(
            ParsedFileView {
                events: all_resolved(read.events, read.context.session_id),
                complete_line_count: lines_in(bytes, false).len() as usize,
                pending_bytes: (bytes.len() - complete) as usize,
                next_offset: if start.offset + complete <= i64::MAX {
                    (start.offset + complete) as i64
                } else {
                    i64::MAX
                },
                last_line_digest: if complete > 0 {
                    match last_line_of(bytes.take(complete as int)) {
                        Some(line) => Some(hex_digest_of(line)),
                        None => None,
                    }
                } else if start.reset {
                    None
                } else {
                    digest
                },
                context: read.context,
            },
        ),
        Err(error) => Err(error),
    }
}

fn resolve_events(events: Vec<JsonlEvent>, session_id: &str) -> (r: Vec<JsonlEvent>)
    ensures
        r.deep_view() == all_resolved(events.deep_view(), Some(session_id@)),
{
    let ghost all = events.deep_view();
    let ghost wanted = all_resolved(all, Some(session_id@));
    let mut r: Vec<JsonlEvent> = Vec::new();
    assert(r.deep_view() =~= wanted.take(0));
    for event in it: events
        invariant
            all.len() == it.seq().len(),
            forall|k: int| 0 <= k < all.len() ==> #[trigger] all[k] == it.seq()[k].deep_view(),
            wanted == all_resolved(all, Some(session_id@)),
            r.deep_view() == wanted.take(it.index() as int),
    {
        let ghost before = r.deep_view();
        let ghost n = it.index() as int;
        assert(all[n] == event.deep_view());
        let event = event.resolve_unknown_session(session_id);
        let ghost told = event.deep_view();
        r.push(event);
        assert(r.deep_view() =~= before.push(told));
        assert(wanted.take(n + 1) =~= wanted.take(n).push(told));
    }
    assert(wanted.take(all.len() as int) =~= wanted);
    r
}

/// What was read of a log from `start` on: `bytes`, whose filled lines are `lines`; `digest` is the
/// one that was stored before.
pub fn scan_file(
    bytes: &Vec<u8>,
    lines: &Vec<Line>,
    start: ScanStart,
    digest: &Option<String>,
) -> (r: Result<ParsedFile, JsonlCollectorError>)
    requires
        start.offset + bytes@.len() <= u64::MAX,
    ensures
        match r {
            Ok(file) => file_read(
                bytes@,
                lines.deep_view(),
                start.deep_view(),
                digest.deep_view(),
            ) == Ok::<ParsedFileView, JsonlCollectorErrorView>(file.deep_view()),
            Err(error) => file_read(
                bytes@,
                lines.deep_view(),
                start.deep_view(),
                digest.deep_view(),
            ) == Err::<ParsedFileView, JsonlCollectorErrorView>(error.deep_view()),
        },
{
    let complete = complete_lines(bytes);
    let offset: u64 = start.offset + complete.bytes as u64;
    let next_offset: i64 = if offset <= 9_223_372_036_854_775_807 {
        offset as i64
    } else {
        i64::MAX
    };
    let last_line_digest = if complete.bytes > 0 {
        let part = take_bytes(bytes, 0, complete.bytes);
        assert(part@ =~= bytes@.take(complete.bytes as int));
        match last_complete_line(&part) {
            Some(line) => Some(hex_digest(line.as_slice())),
            None => None,
        }
    } else if start.reset {
        None
    } else {
        copy_option(digest)
    };
    let pending_bytes: usize = bytes.len() - complete.bytes;
    match parse_complete_lines(lines, start.context) {
        Ok((context, events)) => {
            let events = match &context.session_id {
                Some(session_id) => resolve_events(events, session_id.as_str()),
                None => events,
            };
            Ok(
                ParsedFile {
                    events,
                    complete_line_count: complete.count,
                    pending_bytes,
                    next_offset,
                    last_line_digest,
                    context,
                },
            )
        },
        Err(error) => Err(error),
    }
}

/// A log that was read up to its last complete line, and has not changed since, is not read again:
/// the reading starts where it ended, with what was known, and finds no complete line. The last
/// complete line is one that the bytes that are read again hold whole.
pub proof fn lemma_nothing_is_read_twice(
    bytes: Seq<u8>,
    state: JsonlFileStateView,
    lines: Seq<LineView>,
)
    requires
        bytes.len() <= i64::MAX,
        complete_length(bytes) > 0,
        state.offset_bytes == complete_length(bytes),
        state.digest == Some(
            hex_digest_of(last_line_of(bytes.take(complete_length(bytes) as int))->0),
        ),
        last_line_of(bytes.take(complete_length(bytes) as int))->0.len()
            < MAX_CURSOR_VERIFICATION_BYTES - 1,
        lines.len() == 0,
    ensures
        ({
            let length = bytes.len() as u64;
            let span = span_to_verify(Some(state), state.inode, length)->0;
            let actual = digest_before_cursor(
                bytes.subrange(span.0 as int, span.1 as int),
                span.0,
            );
            let start = start_of_scan(Some(state), state.inode, length, actual);
            let rest = bytes.skip(start.offset as int);
            &&& span_to_verify(Some(state), state.inode, length) is Some
            &&& start == ScanStartView {
                reset: false,
                offset: state.offset_bytes as u64,
                context: context_of_state(state),
            }
            &&& filled_lines(lines_in(rest, false)).len() == 0
            &&& file_read(rest, lines, start, state.digest) matches Ok(file)
            &&& file.events.len() == 0
            &&& file.complete_line_count == 0
            &&& file.next_offset == state.offset_bytes
            &&& file.last_line_digest == state.digest
            &&& file.context == context_of_state(state)
        }),
{
    lemma_rest_is_one_line(bytes);
    let n = complete_length(bytes) as int;
    let start = verification_start(n as u64) as int;
    let (whole, part) = (bytes.take(n), bytes.subrange(start, n));
    assert(whole.last() == bytes[n - 1]);
    let line = last_line_of(whole)->0;
    let before = whole.drop_last();
    lemma_rest_is_one_line(before);
    let at = complete_length(before) as int;
    assert(line.len() == n - 1 - at);
    if start > 0 {
        assert(at > start);
        let shorter = part.drop_last();
        assert(part.last() == bytes[n - 1]);
        assert(shorter[at - start - 1] == before[at - 1]);
        assert forall|i: int| at - start <= i < shorter.len() implies #[trigger] shorter[i]
            != 10 by {
            assert(shorter[i] == before[i + start]);
        }
        lemma_complete_length_is(shorter, at - start);
        assert(shorter.skip(at - start) =~= line);
        assert(part.take(part.len() - line.len())[at - start - 1] == 10);
    } else {
        assert(part =~= whole);
    }
    let rest = bytes.skip(n);
    assert forall|i: int| 0 <= i < rest.len() implies #[trigger] rest[i] != 10 by {
        assert(rest[i] == bytes[n + i]);
    }
    lemma_complete_length_is(rest, 0);
    lemma_line_end(rest, 0);
    assert(lines_in(rest, false) =~= Seq::empty());
    let told = lines_read(lines, context_of_state(state))->Ok_0;
    assert(all_resolved(told.events, told.context.session_id) =~= Seq::empty());
}

} // verus!
