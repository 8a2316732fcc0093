//! A scan of the logs: which files are read, from where on, and what is kept of them.
use crate::calendar::{Date, DAY_MS, EPOCH_JULIAN_DAY, SHANGHAI_OFFSET_MS};
use crate::db::source_jsonl::{new_facts, normalized, SourceJsonlBatchReport};
use crate::db::{SourceJsonlRecord, SourceJsonlRecordView};
use crate::digest::{hex_digest, hex_digest_of, sha256, sha256_of};
use crate::domain::time::{has_local_time, shanghai_date_of, utc_epoch_ms_to_shanghai};
use crate::json::{text_member, text_of_first, views, Json, JsonView};
use crate::ordered::{lookup, put, sort, sorted, Key, OrderedMap, Ranking};
use crate::path::{components, components_of, path_before, Component, ComponentView};
use crate::pipelines::source::jsonl::{
    close_run, empty_file_context, enrich_record_from_metadata, enriched, from_date_of,
    leading_rewritten_burst_len, line_effect, member_or_null, parent_of_session, parse_date,
    parse_timestamp, record_tokens, records_for_line, replay_step, session_parent, timestamp_of,
    tokens_of_record, FileContext, FileContextView, JsonlCollector, JsonlScanReport,
    LocalSessionMetadata, LocalSessionMetadataView, ReplaySpec, ReplayState, ReplayStateView,
};
use crate::pricing::{tokens_observed, TokenCounts};
use crate::text::{
    characters, copy_option, first_some, from_characters, holds, same, same_option,
};
use vstd::prelude::*;
use vstd::string::*;

verus! {

/// How much of a log is sampled at its start, and at its end.
pub const SAMPLE_BYTES: u64 = 65_536;

/// How far a log was read, and what to go on with.
#[derive(Debug)]
pub struct CursorState {
    pub offset_bytes: u64,
    pub mtime_ms: Option<i64>,
    pub digest: Option<String>,
    pub context: FileContext,
}

/// A `CursorState` with its texts as sequences of characters.
#[verifier::ext_equal]
pub struct CursorStateView {
    pub offset_bytes: u64,
    pub mtime_ms: Option<i64>,
    pub digest: Option<Seq<char>>,
    pub context: FileContextView,
}

impl DeepView for CursorState {
    type V = CursorStateView;

    open spec fn deep_view(&self) -> CursorStateView {
        CursorStateView {
            offset_bytes: self.offset_bytes,
            mtime_ms: self.mtime_ms,
            digest: self.digest.deep_view(),
            context: self.context.deep_view(),
        }
    }
}

impl CursorState {
    /// A copy.
    pub fn copy(&self) -> (r: Self)
        ensures
            r.deep_view() == self.deep_view(),
    {
        CursorState {
            offset_bytes: self.offset_bytes,
            mtime_ms: self.mtime_ms,
            digest: copy_option(&self.digest),
            context: self.context.copy(),
        }
    }
}

/// How far each log was read, by path.
pub type CursorStore = OrderedMap<String, CursorState>;

/// What the first line of a log tells: its session, the one that it was forked from or spawned by,
/// and when.
#[derive(Debug)]
pub struct ReplayMetadata {
    pub session_id: Option<String>,
    pub parent_session_id: Option<String>,
    pub forked_at_ms: Option<i64>,
}

/// A `ReplayMetadata` with its texts as sequences of characters.
#[verifier::ext_equal]
pub struct ReplayMetadataView {
    pub session_id: Option<Seq<char>>,
    pub parent_session_id: Option<Seq<char>>,
    pub forked_at_ms: Option<i64>,
}

impl DeepView for ReplayMetadata {
    type V = ReplayMetadataView;

    open spec fn deep_view(&self) -> ReplayMetadataView {
        ReplayMetadataView {
            session_id: self.session_id.deep_view(),
            parent_session_id: self.parent_session_id.deep_view(),
            forked_at_ms: self.forked_at_ms,
        }
    }
}

impl Default for ReplayMetadata {
    fn default() -> (r: Self)
        ensures
            r.deep_view() == (ReplayMetadataView {
                session_id: None,
                parent_session_id: None,
                forked_at_ms: None,
            }),
    {
        ReplayMetadata { session_id: None, parent_session_id: None, forked_at_ms: None }
    }
}

/// By path, component for component.
pub struct ByPath;

impl Ranking<(String, &'static str)> for ByPath {
    open spec fn later(a: (Seq<char>, Seq<char>), b: (Seq<char>, Seq<char>)) -> bool {
        path_before(b.0, a.0)
    }

    fn is_later(a: &(String, &'static str), b: &(String, &'static str)) -> (r: bool) {
        components(b.0.as_str()).is_before(&components(a.0.as_str()))
    }
}

/// Whether a file is a log: its path ends in a name that is more than its ending, `.jsonl`.
pub open spec fn is_log(path: Seq<char>) -> bool {
    let parts = components_of(path);
    parts.len() > 0 && match parts.last() {
        ComponentView::Name(name) => {
            let n = name.len() - 6;
            n > 0 && name.skip(n) == ".jsonl"@
        },
        _ => false,
    }
}

fn check_log(path: &str) -> (r: bool)
    ensures
        r == is_log(path@),
{
    let parts = components(path);
    if parts.len() == 0 {
        return false;
    }
    assert(parts.deep_view().last() == parts@.last().deep_view());
    match &parts[parts.len() - 1] {
        Component::Name(name) => {
            let name = characters(name.as_str());
            let len: usize = name.len();
            if len <= 6 {
                return false;
            }
            let ending = from_characters(&name, len - 6, len);
            assert(name@.subrange(len - 6, len as int) =~= name@.skip(len - 6));
            same(ending.as_str(), ".jsonl")
        },
        _ => false,
    }
}

/// The logs among files, with the state of those files.
pub open spec fn logs_among(files: Seq<Seq<char>>, state: Seq<char>) -> Seq<(Seq<char>, Seq<char>)>
    decreases files.len(),
{
    if files.len() == 0 {
        Seq::empty()
    } else {
        let before = logs_among(files.drop_last(), state);
        if is_log(files.last()) {
            before.push((files.last(), state))
        } else {
            before
        }
    }
}

pub(crate) fn add_logs(logs: &mut Vec<(String, &'static str)>, files: &Vec<String>, state: &'static str)
    ensures
        final(logs).deep_view() == old(logs).deep_view() + logs_among(files.deep_view(), state@),
{
    let ghost all = files.deep_view();
    let ghost before = logs.deep_view();
    assert(before + logs_among(all.take(0), state@) =~= before);
    let mut i: usize = 0;
    while i < files.len()
        invariant
            i <= files@.len(),
            all == files.deep_view(),
            logs.deep_view() == before + logs_among(all.take(i as int), state@),
        decreases files@.len() - i,
    {
        assert(all.take(i + 1).drop_last() =~= all.take(i as int));
        assert(all.take(i + 1).last() == files@[i as int]@);
        let ghost held = logs.deep_view();
        if check_log(files[i].as_str()) {
            logs.push((files[i].clone(), state));
            assert(logs.deep_view() =~= held.push((files@[i as int]@, state@)));
            assert(logs.deep_view() =~= before + logs_among(all.take(i + 1), state@));
        }
        i = i + 1;
    }
    assert(all.take(i as int) =~= all);
}

impl JsonlCollector {
    /// The logs among the files below the two directories of sessions, in the order of their paths.
    pub fn discover_paths(&self, active: &Vec<String>, archived: &Vec<String>) -> (r: Vec<
        (String, &'static str),
    >)
        ensures
            r.deep_view() == sorted::<(String, &'static str), ByPath>(
                logs_among(active.deep_view(), "active"@) + logs_among(
                    archived.deep_view(),
                    "archived"@,
                ),
            ),
    {
        let mut logs: Vec<(String, &'static str)> = Vec::new();
        assert(logs.deep_view() =~= Seq::empty());
        add_logs(&mut logs, active, "active");
        assert(logs.deep_view() =~= logs_among(active.deep_view(), "active"@));
        add_logs(&mut logs, archived, "archived");
        sort::<(String, &'static str), ByPath>(logs)
    }
}

/// Whether ten characters look like a date, `YYYY-MM-DD`.
pub open spec fn has_date_shape(s: Seq<char>) -> bool {
    s.len() == 10 && forall|i: int|
        0 <= i < 10 ==> if i == 4 || i == 7 {
            #[trigger] s[i] == '-'
        } else {
            '0' <= s[i] && s[i] <= '9'
        }
}

/// The first date in a path from the character at `from` on.
pub open spec fn date_in_path(path: Seq<char>, from: int) -> Option<Date>
    decreases path.len() - from,
{
    if from < 0 || from + 10 > path.len() {
        None
    } else {
        let part = path.subrange(from, from + 10);
        if has_date_shape(part) && from_date_of(part) is Some {
            from_date_of(part)
        } else {
            date_in_path(path, from + 1)
        }
    }
}

fn check_date_shape(v: &Vec<char>, from: usize) -> (r: bool)
    requires
        from + 10 <= v@.len(),
    ensures
        r == has_date_shape(v@.subrange(from as int, from + 10)),
{
    let ghost part = v@.subrange(from as int, from + 10);
    let len: usize = v.len();
    let mut i: usize = 0;
    while i < 10
        invariant
            i <= 10,
            len == v@.len(),
            from + 10 <= len,
            part == v@.subrange(from as int, from + 10),
            forall|k: int|
                0 <= k < i ==> if k == 4 || k == 7 {
                    #[trigger] part[k] == '-'
                } else {
                    '0' <= part[k] && part[k] <= '9'
                },
        decreases 10 - i,
    {
        let c = v[from + i];
        assert(part[i as int] == c);
        let fits = if i == 4 || i == 7 {
            c == '-'
        } else {
            '0' <= c && c <= '9'
        };
        if !fits {
            return false;
        }
        i = i + 1;
    }
    true
}

/// The first date in a path.
pub fn path_date(path: &str) -> (r: Option<Date>)
    ensures
        r == date_in_path(path@, 0),
{
    let v = characters(path);
    let len: usize = v.len();
    let mut i: usize = 0;
    while i < len && 10 <= len - i
        invariant
            i <= len,
            len == v@.len(),
            v@ == path@,
            date_in_path(path@, 0) == date_in_path(path@, i as int),
        decreases len - i,
    {
        if check_date_shape(&v, i) {
            if let Ok(date) = parse_date(from_characters(&v, i, i + 10).as_str()) {
                return Some(date);
            }
        }
        i = i + 1;
    }
    None
}

/// When a date starts in Shanghai.
pub open spec fn start_of_date(date: Date) -> int {
    (date.julian_day() - EPOCH_JULIAN_DAY) * DAY_MS - SHANGHAI_OFFSET_MS
}

/// When a date starts in Shanghai.
pub fn date_start_ms(date: Date) -> (r: i64)
    requires
        date.valid(),
    ensures
        r == start_of_date(date),
{
    (date.to_julian_day() - EPOCH_JULIAN_DAY) * DAY_MS - SHANGHAI_OFFSET_MS
}

/// The date of an instant in Shanghai.
pub fn local_date_from_ms(value: i64) -> (r: Option<Date>)
    requires
        has_local_time(value),
    ensures
        r == shanghai_date_of(value),
        r is Some ==> r->0.valid(),
{
    match utc_epoch_ms_to_shanghai(value) {
        Ok(time) => Some(time.date),
        Err(_) => None,
    }
}

/// The date of a session: that of its first line, else the one in the path of its log.
pub open spec fn session_date(path: Seq<char>, header: ReplayMetadataView) -> Option<Date> {
    let forked = match header.forked_at_ms {
        Some(at) => shanghai_date_of(at),
        None => None,
    };
    first_some(forked, date_in_path(path, 0))
}

/// Whether a log may hold facts from a date on: its session started then or later, or the log was
/// written to since; one of which neither is known is read too.
pub open spec fn is_in_range(
    path: Seq<char>,
    header: ReplayMetadataView,
    mtime_ms: Option<i64>,
    from: Option<Date>,
) -> bool {
    match from {
        Some(from) => {
            let date = session_date(path, header);
            if date is Some && date->0.julian_day() >= from.julian_day() {
                true
            } else {
                match mtime_ms {
                    Some(mtime) => mtime >= start_of_date(from),
                    None => date is None,
                }
            }
        },
        None => true,
    }
}

/// Whether a log may hold facts from a date on.
pub fn file_is_in_range(
    path: &str,
    header: &ReplayMetadata,
    mtime_ms: Option<i64>,
    from: Option<Date>,
) -> (r: bool)
    requires
        header.forked_at_ms is Some ==> has_local_time(header.forked_at_ms->0),
        from is Some ==> from->0.valid(),
    ensures
        r == is_in_range(path@, header.deep_view(), mtime_ms, from),
{
    let from = match from {
        Some(from) => from,
        None => {
            return true;
        },
    };
    let forked = match header.forked_at_ms {
        Some(at) => local_date_from_ms(at),
        None => None,
    };
    let date = match forked {
        Some(date) => Some(date),
        None => path_date(path),
    };
    if let Some(date) = date {
        proof {
            lemma_path_date_is_valid(path@, 0);
        }
        if date.to_julian_day() >= from.to_julian_day() {
            return true;
        }
    }
    match mtime_ms {
        Some(mtime) => mtime >= date_start_ms(from),
        None => date.is_none(),
    }
}

proof fn lemma_path_date_is_valid(path: Seq<char>, from: int)
    ensures
        date_in_path(path, from) is Some ==> date_in_path(path, from)->0.valid(),
    decreases path.len() - from,
{
    if 0 <= from && from + 10 <= path.len() {
        lemma_path_date_is_valid(path, from + 1);
    }
}

/// A log that was found: its path, what its first line tells, and when it was last written to.
#[derive(Debug)]
pub struct LogFile {
    pub path: String,
    pub header: ReplayMetadata,
    pub mtime_ms: Option<i64>,
}

/// A `LogFile` with its texts as sequences of characters.
#[verifier::ext_equal]
pub struct LogFileView {
    pub path: Seq<char>,
    pub header: ReplayMetadataView,
    pub mtime_ms: Option<i64>,
}

impl DeepView for LogFile {
    type V = LogFileView;

    open spec fn deep_view(&self) -> LogFileView {
        LogFileView {
            path: self.path@,
            header: self.header.deep_view(),
            mtime_ms: self.mtime_ms,
        }
    }
}

/// The logs that are read, with how far they were read before: those that were read before, and
/// those that may hold facts from the date on.
pub open spec fn candidates_among(
    files: Seq<LogFileView>,
    cursors: Seq<(Seq<char>, CursorStateView)>,
    from: Option<Date>,
) -> Seq<(Seq<char>, Option<CursorStateView>)>
    decreases files.len(),
{
    if files.len() == 0 {
        Seq::empty()
    } else {
        let before = candidates_among(files.drop_last(), cursors, from);
        let file = files.last();
        let existing = lookup::<String, CursorStateView>(cursors, file.path);
        if existing is Some || is_in_range(file.path, file.header, file.mtime_ms, from) {
            before.push((file.path, existing))
        } else {
            before
        }
    }
}

/// Chooses the logs that are read.
pub fn select_candidates(files: &Vec<LogFile>, cursors: &CursorStore, from: Option<Date>) -> (r: Vec<
    (String, Option<CursorState>),
>)
    requires
        from is Some ==> from->0.valid(),
        forall|i: int|
            0 <= i < files@.len() ==> ((#[trigger] files.deep_view()[i]).header.forked_at_ms is Some
                ==> has_local_time(files.deep_view()[i].header.forked_at_ms->0)),
    ensures
        r.deep_view() == candidates_among(files.deep_view(), cursors.deep_view(), from),
{
    let ghost all = files.deep_view();
    let mut r: Vec<(String, Option<CursorState>)> = Vec::new();
    assert(r.deep_view() =~= Seq::empty());
    let mut i: usize = 0;
    while i < files.len()
        invariant
            i <= files@.len(),
            all == files.deep_view(),
            from is Some ==> from->0.valid(),
            forall|i: int|
                0 <= i < files@.len() ==> ((#[trigger] all[i]).header.forked_at_ms is Some
                    ==> has_local_time(all[i].header.forked_at_ms->0)),
            r.deep_view() == candidates_among(all.take(i as int), cursors.deep_view(), from),
        decreases files@.len() - i,
    {
        assert(all.take(i + 1).drop_last() =~= all.take(i as int));
        assert(all.take(i + 1).last() == files@[i as int].deep_view());
        assert(all[i as int] == files@[i as int].deep_view());
        let ghost before = r.deep_view();
        let file = &files[i];
        let existing = match cursors.get(&file.path) {
            Some(cursor) => Some(cursor.copy()),
            None => None,
        };
        if existing.is_some() || file_is_in_range(
            file.path.as_str(),
            &file.header,
            file.mtime_ms,
            from,
        ) {
            let ghost held = existing.deep_view();
            r.push((file.path.clone(), existing));
            assert(r.deep_view() =~= before.push((file.path@, held)));
        }
        i = i + 1;
    }
    assert(all.take(i as int) =~= all);
    r
}

/// The keys under which the identity of a session stands.
pub open spec fn session_keys() -> Seq<Seq<char>> {
    seq!["id"@, "session_id"@]
}

/// What the line that opens a session tells; none where a line does not.
pub open spec fn header_of(line: JsonView) -> Option<ReplayMetadataView> {
    if text_member(line, "type"@) == Some("session_meta"@) {
        let payload = member_or_null(line, "payload"@);
        let id = text_of_first(payload, session_keys());
        Some(
            ReplayMetadataView {
                session_id: match id {
                    Some(id) if id.len() > 0 => Some(id),
                    _ => None,
                },
                parent_session_id: parent_of_session(payload),
                forked_at_ms: match timestamp_of(line.get("timestamp"@)) {
                    Ok(at) => Some(at),
                    Err(_) => None,
                },
            },
        )
    } else {
        None
    }
}

/// Reads the line that opens a session.
pub fn read_header(line: &Json) -> (r: Option<ReplayMetadata>)
    ensures
        r.deep_view() == header_of(line@),
{
    match line.text_member("type") {
        Some(kind) => if !same(kind.as_str(), "session_meta") {
            return None;
        },
        None => {
            return None;
        },
    }
    let null = Json::Null;
    let payload = match line.get("payload") {
        Some(payload) => payload,
        None => &null,
    };
    let keys: [&str; 2] = ["id", "session_id"];
    assert(views(keys@) =~= session_keys());
    let session_id = match payload.text_of_first(keys.as_slice()) {
        Some(id) => if id.as_str().is_empty() {
            None
        } else {
            Some(id)
        },
        None => None,
    };
    Some(
        ReplayMetadata {
            session_id,
            parent_session_id: session_parent(payload),
            forked_at_ms: match parse_timestamp(line.get("timestamp")) {
                Ok(at) => Some(at),
                Err(_) => None,
            },
        },
    )
}

/// What the first line that opens a session tells; nothing where there is none.
pub open spec fn first_header(lines: Seq<Option<JsonView>>) -> ReplayMetadataView
    decreases lines.len(),
{
    if lines.len() == 0 {
        ReplayMetadataView { session_id: None, parent_session_id: None, forked_at_ms: None }
    } else {
        match lines[0] {
            Some(line) if header_of(line) is Some => header_of(line)->0,
            _ => first_header(lines.skip(1)),
        }
    }
}

/// Reads the first line that opens a session; lines that are not JSON are none.
pub fn read_headers(lines: &Vec<Option<Json>>) -> (r: ReplayMetadata)
    ensures
        r.deep_view() == first_header(lines.deep_view()),
{
    let ghost all = lines.deep_view();
    assert(all.skip(0) =~= all);
    let mut i: usize = 0;
    while i < lines.len()
        invariant
            i <= lines@.len(),
            all == lines.deep_view(),
            first_header(all) == first_header(all.skip(i as int)),
        decreases lines@.len() - i,
    {
        assert(all.skip(i as int)[0] == lines@[i as int].deep_view());
        assert(all.skip(i as int).skip(1) =~= all.skip(i + 1));
        if let Some(line) = &lines[i] {
            if let Some(header) = read_header(line) {
                return header;
            }
        }
        i = i + 1;
    }
    ReplayMetadata::default()
}

/// Parents by session that are known beside the logs.
pub open spec fn known_parents(metadata: Seq<(Seq<char>, LocalSessionMetadataView)>) -> Seq<
    (Seq<char>, Seq<char>),
>
    decreases metadata.len(),
{
    if metadata.len() == 0 {
        Seq::empty()
    } else {
        let before = known_parents(metadata.drop_last());
        match metadata.last().1.parent_session_id {
            Some(parent) => put::<String, Seq<char>>(before, metadata.last().0, parent),
            None => before,
        }
    }
}

/// Parents by session with those that logs tell; what a log tells goes before what is known beside
/// it.
pub open spec fn with_told_parents(
    graph: Seq<(Seq<char>, Seq<char>)>,
    files: Seq<LogFileView>,
) -> Seq<(Seq<char>, Seq<char>)>
    decreases files.len(),
{
    if files.len() == 0 {
        graph
    } else {
        let before = with_told_parents(graph, files.drop_last());
        let header = files.last().header;
        match (header.session_id, header.parent_session_id) {
            (Some(session), Some(parent)) => put::<String, Seq<char>>(before, session, parent),
            _ => before,
        }
    }
}

/// The parents by session.
pub fn parent_graph(
    files: &Vec<LogFile>,
    local_metadata: &OrderedMap<String, LocalSessionMetadata>,
) -> (r: OrderedMap<String, String>)
    ensures
        r.deep_view() == with_told_parents(
            known_parents(local_metadata.deep_view()),
            files.deep_view(),
        ),
{
    let ghost known = local_metadata.deep_view();
    let ghost all = files.deep_view();
    let mut graph: OrderedMap<String, String> = OrderedMap::new();
    let mut i: usize = 0;
    while i < local_metadata.entries.len()
        invariant
            i <= local_metadata.entries@.len(),
            known == local_metadata.deep_view(),
            graph.deep_view() == known_parents(known.take(i as int)),
        decreases local_metadata.entries@.len() - i,
    {
        let entry = &local_metadata.entries[i];
        assert(known.take(i + 1).drop_last() =~= known.take(i as int));
        assert(known.take(i + 1).last() == entry.deep_view());
        if let Some(parent) = &entry.1.parent_session_id {
            graph.put(entry.0.clone(), parent.clone());
        }
        i = i + 1;
    }
    assert(known.take(i as int) =~= known);
    let ghost first = graph.deep_view();
    let mut k: usize = 0;
    while k < files.len()
        invariant
            k <= files@.len(),
            all == files.deep_view(),
            graph.deep_view() == with_told_parents(first, all.take(k as int)),
        decreases files@.len() - k,
    {
        let header = &files[k].header;
        assert(all.take(k + 1).drop_last() =~= all.take(k as int));
        assert(all.take(k + 1).last() == files@[k as int].deep_view());
        if let (Some(session), Some(parent)) = (&header.session_id, &header.parent_session_id) {
            graph.put(session.clone(), parent.clone());
        }
        k = k + 1;
    }
    assert(all.take(k as int) =~= all);
    graph
}

/// Whether a log is as it was when it was read: as long, and not written to since.
pub open spec fn is_as_read(
    existing: Option<CursorStateView>,
    file_len: u64,
    mtime_ms: Option<i64>,
) -> bool {
    existing is Some && existing->0.offset_bytes == file_len && existing->0.mtime_ms == mtime_ms
}

/// Whether a log is as it was when it was read: as long, and not written to since.
pub fn is_unchanged(existing: &Option<CursorState>, file_len: u64, mtime_ms: Option<i64>) -> (r: bool)
    ensures
        r == is_as_read(existing.deep_view(), file_len, mtime_ms),
{
    match existing {
        Some(cursor) => cursor.offset_bytes == file_len && match (cursor.mtime_ms, mtime_ms) {
            (Some(a), Some(b)) => a == b,
            (None, None) => true,
            _ => false,
        },
        None => false,
    }
}

/// From where on a log is read, and with what context. A log that is shorter than what was read of
/// it, or whose sample has changed, is read from its start.
pub open spec fn resumed(
    existing: Option<CursorStateView>,
    file_len: u64,
    digest: Option<Seq<char>>,
) -> (u64, FileContextView) {
    match existing {
        Some(cursor) if cursor.offset_bytes <= file_len && cursor.digest == digest => (
            cursor.offset_bytes,
            if cursor.offset_bytes > 0 {
                cursor.context
            } else {
                empty_file_context()
            },
        ),
        _ => (0, empty_file_context()),
    }
}

/// Decides from where on a log is read; `digest` is that of the sample of what was read before.
pub fn resume(existing: &Option<CursorState>, file_len: u64, digest: &Option<String>) -> (r: (
    u64,
    FileContext,
))
    ensures
        (r.0, r.1.deep_view()) == resumed(existing.deep_view(), file_len, digest.deep_view()),
{
    match existing {
        Some(cursor) => if cursor.offset_bytes <= file_len && same_option(
            &cursor.digest,
            digest,
        ) {
            if cursor.offset_bytes > 0 {
                (cursor.offset_bytes, cursor.context.copy())
            } else {
                (0, FileContext::default())
            }
        } else {
            (0, FileContext::default())
        },
        None => (0, FileContext::default()),
    }
}

/// The sample of the first `length` bytes of a log: how many bytes from its start; and, where the
/// start is not all, from where on how many bytes to its end.
pub open spec fn sample_of(length: u64) -> (u64, Option<(u64, u64)>) {
    if length > SAMPLE_BYTES {
        (SAMPLE_BYTES, Some(((length - SAMPLE_BYTES) as u64, SAMPLE_BYTES)))
    } else {
        (length, None)
    }
}

/// Chooses the sample of the first `length` bytes of a log.
pub fn sample_ranges(length: u64) -> (r: (u64, Option<(u64, u64)>))
    ensures
        r == sample_of(length),
{
    if length > SAMPLE_BYTES {
        (SAMPLE_BYTES, Some((length - SAMPLE_BYTES, SAMPLE_BYTES)))
    } else {
        (length, None)
    }
}

/// The sample that is taken of the bytes that were read of a log.
pub open spec fn sampled(bytes: Seq<u8>) -> Seq<u8> {
    if bytes.len() > SAMPLE_BYTES {
        bytes.take(SAMPLE_BYTES as int) + bytes.skip(bytes.len() - SAMPLE_BYTES)
    } else {
        bytes
    }
}

/// The sample holds all that was read of a short log, and both ends of a long one.
pub proof fn lemma_sample_is_of_the_ranges(bytes: Seq<u8>)
    requires
        bytes.len() <= u64::MAX,
    ensures
        ({
            let (first, tail) = sample_of(bytes.len() as u64);
            sampled(bytes) == bytes.take(first as int) + (match tail {
                Some((start, len)) => bytes.subrange(start as int, start + len),
                None => Seq::empty(),
            })
        }),
{
    let (first, tail) = sample_of(bytes.len() as u64);
    assert(sampled(bytes) =~= bytes.take(first as int) + (match tail {
        Some((start, len)) => bytes.subrange(start as int, start + len),
        None => Seq::empty(),
    }));
}

/// The digest of the sample of a log: the digest of the digest of its two parts, in hexadecimal.
pub fn cursor_digest(first: &Vec<u8>, tail: &Vec<u8>) -> (r: String)
    ensures
        r@ == hex_digest_of(sha256_of(first@ + tail@)),
        r@.len() == 64,
{
    let mut sample: Vec<u8> = Vec::new();
    let mut i: usize = 0;
    while i < first.len()
        invariant
            i <= first@.len(),
            sample@ == first@.take(i as int),
        decreases first@.len() - i,
    {
        sample.push(first[i]);
        i = i + 1;
        assert(sample@ =~= first@.take(i as int));
    }
    assert(first@.take(i as int) =~= first@);
    let mut k: usize = 0;
    assert(sample@ =~= first@ + tail@.take(0));
    while k < tail.len()
        invariant
            k <= tail@.len(),
            sample@ == first@ + tail@.take(k as int),
        decreases tail@.len() - k,
    {
        sample.push(tail[k]);
        k = k + 1;
        assert(sample@ =~= first@ + tail@.take(k as int));
    }
    assert(tail@.take(k as int) =~= tail@);
    hex_digest(sha256(sample.as_slice()).as_slice())
}

/// What was read of a log: the facts of each line, the tokens of its requests with their times, and
/// the context.
#[derive(Debug)]
pub struct LogRead {
    pub lines: Vec<Vec<SourceJsonlRecord>>,
    pub usage_events: Vec<(i64, TokenCounts)>,
    pub context: FileContext,
}

/// A `LogRead` with its texts as sequences of characters.
#[verifier::ext_equal]
pub struct LogReadView {
    pub lines: Seq<Seq<SourceJsonlRecordView>>,
    pub usage_events: Seq<(i64, TokenCounts)>,
    pub context: FileContextView,
}

impl DeepView for LogRead {
    type V = LogReadView;

    open spec fn deep_view(&self) -> LogReadView {
        LogReadView {
            lines: self.lines.deep_view(),
            usage_events: self.usage_events@,
            context: self.context.deep_view(),
        }
    }
}

/// The tokens of the requests among facts, with their times.
pub open spec fn usage_events_of(records: Seq<SourceJsonlRecordView>) -> Seq<(i64, TokenCounts)>
    decreases records.len(),
{
    if records.len() == 0 {
        Seq::empty()
    } else {
        let before = usage_events_of(records.drop_last());
        let record = records.last();
        if record.kind == "usage"@ && tokens_observed(tokens_of_record(record)) {
            before.push((record.observed_at_ms, tokens_of_record(record)))
        } else {
            before
        }
    }
}

/// What was read of a log, with one more line. A line that is not JSON, or has no time stamp, adds
/// nothing.
pub open spec fn with_line(read: LogReadView, line: Option<JsonView>) -> LogReadView {
    match line {
        Some(line) => match line_effect(line, read.context) {
            Ok(effect) => LogReadView {
                lines: read.lines.push(effect.records),
                usage_events: read.usage_events + usage_events_of(effect.records),
                context: effect.context,
            },
            Err(_) => read,
        },
        None => read,
    }
}

/// What lines of a log tell that is read with a context.
pub open spec fn lines_read(lines: Seq<Option<JsonView>>, context: FileContextView) -> LogReadView
    decreases lines.len(),
{
    if lines.len() == 0 {
        LogReadView { lines: Seq::empty(), usage_events: Seq::empty(), context }
    } else {
        with_line(lines_read(lines.drop_last(), context), lines.last())
    }
}

/// A log that is read in two parts, the second with the context that the first left, tells what it
/// tells when it is read at once.
pub proof fn lemma_reading_in_parts(
    first: Seq<Option<JsonView>>,
    second: Seq<Option<JsonView>>,
    context: FileContextView,
)
    ensures
        ({
            let a = lines_read(first, context);
            let b = lines_read(second, a.context);
            let whole = lines_read(first + second, context);
            &&& whole.lines == a.lines + b.lines
            &&& whole.usage_events == a.usage_events + b.usage_events
            &&& whole.context == b.context
        }),
    decreases second.len(),
{
    let a = lines_read(first, context);
    let b = lines_read(second, a.context);
    let whole = lines_read(first + second, context);
    if second.len() == 0 {
        assert(first + second =~= first);
        assert(whole.lines =~= a.lines + b.lines);
        assert(whole.usage_events =~= a.usage_events + b.usage_events);
    } else {
        assert((first + second).drop_last() =~= first + second.drop_last());
        lemma_reading_in_parts(first, second.drop_last(), context);
        assert(whole.lines =~= a.lines + b.lines);
        assert(whole.usage_events =~= a.usage_events + b.usage_events);
    }
}

fn add_usage_events(events: &mut Vec<(i64, TokenCounts)>, records: &Vec<SourceJsonlRecord>)
    ensures
        final(events)@ == old(events)@ + usage_events_of(records.deep_view()),
{
    let ghost all = records.deep_view();
    let ghost before = events@;
    assert(before + usage_events_of(all.take(0)) =~= before);
    let mut i: usize = 0;
    while i < records.len()
        invariant
            i <= records@.len(),
            all == records.deep_view(),
            events@ == before + usage_events_of(all.take(i as int)),
        decreases records@.len() - i,
    {
        assert(all.take(i + 1).drop_last() =~= all.take(i as int));
        assert(all.take(i + 1).last() == records@[i as int].deep_view());
        if same(records[i].kind.as_str(), "usage") {
            let tokens = record_tokens(&records[i]);
            if tokens.observed() {
                events.push((records[i].observed_at_ms, tokens));
                assert(events@ =~= before + usage_events_of(all.take(i + 1)));
            }
        }
        i = i + 1;
    }
    assert(all.take(i as int) =~= all);
}

/// Reads lines of a log with a context.
pub fn read_lines(lines: &Vec<Option<Json>>, context: FileContext) -> (r: LogRead)
    ensures
        r.deep_view() == lines_read(lines.deep_view(), context.deep_view()),
{
    let ghost all = lines.deep_view();
    let ghost start = context.deep_view();
    let mut context = context;
    let mut groups: Vec<Vec<SourceJsonlRecord>> = Vec::new();
    let mut events: Vec<(i64, TokenCounts)> = Vec::new();
    assert(groups.deep_view() =~= Seq::empty());
    let mut i: usize = 0;
    while i < lines.len()
        invariant
            i <= lines@.len(),
            all == lines.deep_view(),
            groups.deep_view() == lines_read(all.take(i as int), start).lines,
            events@ == lines_read(all.take(i as int), start).usage_events,
            context.deep_view() == lines_read(all.take(i as int), start).context,
        decreases lines@.len() - i,
    {
        assert(all.take(i + 1).drop_last() =~= all.take(i as int));
        assert(all.take(i + 1).last() == lines@[i as int].deep_view());
        let ghost before = groups.deep_view();
        if let Some(line) = &lines[i] {
            match records_for_line(line, &mut context) {
                Ok(records) => {
                    let ghost held = records.deep_view();
                    add_usage_events(&mut events, &records);
                    groups.push(records);
                    assert(groups.deep_view() =~= before.push(held));
                },
                Err(_) => {},
            }
        }
        i = i + 1;
    }
    assert(all.take(i as int) =~= all);
    LogRead { lines: groups, usage_events: events, context }
}

/// A log that was read: what it told, and how far it was read.
#[derive(Debug)]
pub struct ParsedFile {
    pub path: String,
    pub session_id: Option<String>,
    pub lines: Vec<Vec<SourceJsonlRecord>>,
    pub usage_events: Vec<(i64, TokenCounts)>,
    pub cursor: CursorState,
    pub complete_lines: usize,
    pub changed: bool,
}

/// A `ParsedFile` with its texts as sequences of characters.
#[verifier::ext_equal]
pub struct ParsedFileView {
    pub path: Seq<char>,
    pub session_id: Option<Seq<char>>,
    pub lines: Seq<Seq<SourceJsonlRecordView>>,
    pub usage_events: Seq<(i64, TokenCounts)>,
    pub cursor: CursorStateView,
    pub complete_lines: usize,
    pub changed: bool,
}

impl DeepView for ParsedFile {
    type V = ParsedFileView;

    open spec fn deep_view(&self) -> ParsedFileView {
        ParsedFileView {
            path: self.path@,
            session_id: self.session_id.deep_view(),
            lines: self.lines.deep_view(),
            usage_events: self.usage_events@,
            cursor: self.cursor.deep_view(),
            complete_lines: self.complete_lines,
            changed: self.changed,
        }
    }
}

/// A log that has not changed since it was read.
pub open spec fn left_alone(path: Seq<char>, cursor: CursorStateView) -> ParsedFileView {
    ParsedFileView {
        path,
        session_id: cursor.context.session_id,
        lines: Seq::empty(),
        usage_events: Seq::empty(),
        cursor,
        complete_lines: 0,
        changed: false,
    }
}

/// A log that has not changed since it was read.
pub fn unchanged_file(path: &str, cursor: &CursorState) -> (r: ParsedFile)
    ensures
        r.deep_view() == left_alone(path@, cursor.deep_view()),
{
    let r = ParsedFile {
        path: path.to_owned(),
        session_id: copy_option(&cursor.context.session_id),
        lines: Vec::new(),
        usage_events: Vec::new(),
        cursor: cursor.copy(),
        complete_lines: 0,
        changed: false,
    };
    assert(r.lines.deep_view() =~= Seq::empty());
    r
}

/// How far a log was read after `complete_bytes` more bytes.
pub open spec fn next_offset(start: u64, complete_bytes: u64) -> u64 {
    if start + complete_bytes > u64::MAX {
        u64::MAX
    } else {
        (start + complete_bytes) as u64
    }
}

/// How far a log was read after `complete_bytes` more bytes.
pub fn offset_after(start: u64, complete_bytes: u64) -> (r: u64)
    ensures
        r == next_offset(start, complete_bytes),
{
    match start.checked_add(complete_bytes) {
        Some(offset) => offset,
        None => u64::MAX,
    }
}

/// A log of which the lines from `start` on were read; `digest` is that of the sample of what has
/// been read now.
pub open spec fn read_on(
    path: Seq<char>,
    read: LogReadView,
    start: u64,
    complete_bytes: u64,
    complete_lines: usize,
    mtime_ms: Option<i64>,
    digest: Option<Seq<char>>,
    is_new: bool,
) -> ParsedFileView {
    ParsedFileView {
        path,
        session_id: read.context.session_id,
        lines: read.lines,
        usage_events: read.usage_events,
        cursor: CursorStateView {
            offset_bytes: next_offset(start, complete_bytes),
            mtime_ms,
            digest,
            context: read.context,
        },
        complete_lines,
        changed: complete_bytes > 0 || is_new,
    }
}

/// A log of which the lines from `start` on were read.
pub fn parsed_file(
    path: &str,
    read: LogRead,
    start: u64,
    complete_bytes: u64,
    complete_lines: usize,
    mtime_ms: Option<i64>,
    digest: Option<String>,
    is_new: bool,
) -> (r: ParsedFile)
    ensures
        r.deep_view() == read_on(
            path@,
            read.deep_view(),
            start,
            complete_bytes,
            complete_lines,
            mtime_ms,
            digest.deep_view(),
            is_new,
        ),
{
    ParsedFile {
        path: path.to_owned(),
        session_id: copy_option(&read.context.session_id),
        lines: read.lines,
        usage_events: read.usage_events,
        cursor: CursorState {
            offset_bytes: offset_after(start, complete_bytes),
            mtime_ms,
            digest,
            context: read.context,
        },
        complete_lines,
        changed: complete_bytes > 0 || is_new,
    }
}

/// What the first line of the log at a path tells.
pub open spec fn header_at(files: Seq<LogFileView>, path: Seq<char>) -> Option<ReplayMetadataView>
    decreases files.len(),
{
    if files.len() == 0 {
        None
    } else if files[0].path == path {
        Some(files[0].header)
    } else {
        header_at(files.skip(1), path)
    }
}

/// The path of the first log of a session.
pub open spec fn path_of_session(files: Seq<LogFileView>, session: Seq<char>) -> Option<Seq<char>>
    decreases files.len(),
{
    if files.len() == 0 {
        None
    } else if files[0].header.session_id == Some(session) {
        Some(files[0].path)
    } else {
        path_of_session(files.skip(1), session)
    }
}

fn find_header<'a>(files: &'a Vec<LogFile>, path: &str) -> (r: Option<&'a ReplayMetadata>)
    ensures
        r.deep_view() == header_at(files.deep_view(), path@),
{
    let ghost all = files.deep_view();
    assert(all.skip(0) =~= all);
    let mut i: usize = 0;
    while i < files.len()
        invariant
            i <= files@.len(),
            all == files.deep_view(),
            header_at(all, path@) == header_at(all.skip(i as int), path@),
        decreases files@.len() - i,
    {
        assert(all.skip(i as int)[0] == files@[i as int].deep_view());
        assert(all.skip(i as int).skip(1) =~= all.skip(i + 1));
        if same(files[i].path.as_str(), path) {
            return Some(&files[i].header);
        }
        i = i + 1;
    }
    None
}

fn find_path(files: &Vec<LogFile>, session: &str) -> (r: Option<String>)
    ensures
        r.deep_view() == path_of_session(files.deep_view(), session@),
{
    let ghost all = files.deep_view();
    assert(all.skip(0) =~= all);
    let mut i: usize = 0;
    while i < files.len()
        invariant
            i <= files@.len(),
            all == files.deep_view(),
            path_of_session(all, session@) == path_of_session(all.skip(i as int), session@),
        decreases files@.len() - i,
    {
        assert(all.skip(i as int)[0] == files@[i as int].deep_view());
        assert(all.skip(i as int).skip(1) =~= all.skip(i + 1));
        if holds(&files[i].header.session_id, session) {
            return Some(files[i].path.clone());
        }
        i = i + 1;
    }
    None
}

/// The session of a log that was read: the one that it told, else that of its first line.
pub open spec fn session_of_file(file: ParsedFileView, files: Seq<LogFileView>) -> Option<Seq<char>> {
    first_some(
        file.session_id,
        match header_at(files, file.path) {
            Some(header) => header.session_id,
            None => None,
        },
    )
}

/// The requests by session that the logs tell that were read.
pub open spec fn usage_by_session(
    parsed: Seq<ParsedFileView>,
    files: Seq<LogFileView>,
) -> Seq<(Seq<char>, Seq<(i64, TokenCounts)>)>
    decreases parsed.len(),
{
    if parsed.len() == 0 {
        Seq::empty()
    } else {
        let before = usage_by_session(parsed.drop_last(), files);
        match session_of_file(parsed.last(), files) {
            Some(session) => put::<String, Seq<(i64, TokenCounts)>>(
                before,
                session,
                parsed.last().usage_events,
            ),
            None => before,
        }
    }
}

fn copy_events(events: &Vec<(i64, TokenCounts)>) -> (r: Vec<(i64, TokenCounts)>)
    ensures
        r@ == events@,
{
    let mut r: Vec<(i64, TokenCounts)> = Vec::new();
    let mut i: usize = 0;
    while i < events.len()
        invariant
            i <= events@.len(),
            r@ == events@.take(i as int),
        decreases events@.len() - i,
    {
        r.push(events[i]);
        i = i + 1;
        assert(r@ =~= events@.take(i as int));
    }
    assert(events@.take(i as int) =~= events@);
    r
}

/// The requests by session that the logs tell that were read.
pub fn gather_usage(parsed: &Vec<ParsedFile>, files: &Vec<LogFile>) -> (r: OrderedMap<
    String,
    Vec<(i64, TokenCounts)>,
>)
    ensures
        r.deep_view() == usage_by_session(parsed.deep_view(), files.deep_view()),
{
    let ghost all = parsed.deep_view();
    let mut usage: OrderedMap<String, Vec<(i64, TokenCounts)>> = OrderedMap::new();
    let mut i: usize = 0;
    while i < parsed.len()
        invariant
            i <= parsed@.len(),
            all == parsed.deep_view(),
            usage.deep_view() == usage_by_session(all.take(i as int), files.deep_view()),
        decreases parsed@.len() - i,
    {
        assert(all.take(i + 1).drop_last() =~= all.take(i as int));
        assert(all.take(i + 1).last() == parsed@[i as int].deep_view());
        let file = &parsed[i];
        let session = match &file.session_id {
            Some(id) => Some(id.clone()),
            None => match find_header(files, file.path.as_str()) {
                Some(header) => copy_option(&header.session_id),
                None => None,
            },
        };
        if let Some(session) = session {
            let events = copy_events(&file.usage_events);
            assert(events.deep_view() =~= file.usage_events@);
            usage.put(session, events);
        }
        i = i + 1;
    }
    assert(all.take(i as int) =~= all);
    usage
}

/// The parent of a log that was read, and the path of the parent's log, where that is another one.
pub open spec fn parent_log(file: ParsedFileView, files: Seq<LogFileView>) -> Option<
    (Seq<char>, Seq<char>),
> {
    match header_at(files, file.path) {
        Some(header) => match header.parent_session_id {
            Some(parent) => match path_of_session(files, parent) {
                Some(path) if path != file.path => Some((path, parent)),
                _ => None,
            },
            None => None,
        },
        None => None,
    }
}

/// Whether the log at a path was read.
pub open spec fn was_read(parsed: Seq<ParsedFileView>, path: Seq<char>) -> bool {
    exists|i: int| 0 <= i < parsed.len() && (#[trigger] parsed[i]).path == path
}

/// Whether the log of a parent has still to be read for its requests: it was not read, and what its
/// session requested is not known.
pub open spec fn is_missing(
    log: (Seq<char>, Seq<char>),
    parsed: Seq<ParsedFileView>,
    usage: Seq<(Seq<char>, Seq<(i64, TokenCounts)>)>,
) -> bool {
    !was_read(parsed, log.0) && lookup::<String, Seq<(i64, TokenCounts)>>(usage, log.1) is None
}

/// The logs of parents, by path and session, that have still to be read for their requests.
pub open spec fn missing_parents(
    children: Seq<ParsedFileView>,
    parsed: Seq<ParsedFileView>,
    files: Seq<LogFileView>,
) -> Seq<(Seq<char>, Seq<char>)>
    decreases children.len(),
{
    if children.len() == 0 {
        Seq::empty()
    } else {
        let before = missing_parents(children.drop_last(), parsed, files);
        match parent_log(children.last(), files) {
            Some(log) if is_missing(log, parsed, usage_by_session(parsed, files))
                && !before.contains(log) => before.push(log),
            _ => before,
        }
    }
}

fn check_read(parsed: &Vec<ParsedFile>, path: &str) -> (r: bool)
    ensures
        r == was_read(parsed.deep_view(), path@),
{
    let ghost all = parsed.deep_view();
    let mut i: usize = 0;
    while i < parsed.len()
        invariant
            i <= parsed@.len(),
            all == parsed.deep_view(),
            forall|k: int| 0 <= k < i ==> (#[trigger] all[k]).path != path@,
        decreases parsed@.len() - i,
    {
        assert(all[i as int] == parsed@[i as int].deep_view());
        if same(parsed[i].path.as_str(), path) {
            return true;
        }
        i = i + 1;
    }
    false
}

fn lists(logs: &Vec<(String, String)>, path: &str, session: &str) -> (r: bool)
    ensures
        r == logs.deep_view().contains((path@, session@)),
{
    let ghost all = logs.deep_view();
    let mut i: usize = 0;
    while i < logs.len()
        invariant
            i <= logs@.len(),
            all == logs.deep_view(),
            forall|k: int| 0 <= k < i ==> #[trigger] all[k] != (path@, session@),
        decreases logs@.len() - i,
    {
        assert(all[i as int] == logs@[i as int].deep_view());
        if same(logs[i].0.as_str(), path) && same(logs[i].1.as_str(), session) {
            assert(all[i as int] == (path@, session@));
            return true;
        }
        i = i + 1;
    }
    false
}

/// The logs of parents that have still to be read for their requests.
pub fn parents_to_read(parsed: &Vec<ParsedFile>, files: &Vec<LogFile>) -> (r: Vec<(String, String)>)
    ensures
        r.deep_view() == missing_parents(
            parsed.deep_view(),
            parsed.deep_view(),
            files.deep_view(),
        ),
{
    let usage = gather_usage(parsed, files);
    let ghost all = parsed.deep_view();
    let mut r: Vec<(String, String)> = Vec::new();
    assert(r.deep_view() =~= Seq::empty());
    let mut i: usize = 0;
    while i < parsed.len()
        invariant
            i <= parsed@.len(),
            all == parsed.deep_view(),
            usage.deep_view() == usage_by_session(all, files.deep_view()),
            r.deep_view() == missing_parents(all.take(i as int), all, files.deep_view()),
        decreases parsed@.len() - i,
    {
        assert(all.take(i + 1).drop_last() =~= all.take(i as int));
        assert(all.take(i + 1).last() == parsed@[i as int].deep_view());
        let ghost before = r.deep_view();
        let file = &parsed[i];
        let parent = match find_header(files, file.path.as_str()) {
            Some(header) => copy_option(&header.parent_session_id),
            None => None,
        };
        if let Some(parent) = parent {
            if let Some(path) = find_path(files, parent.as_str()) {
                if !same(path.as_str(), file.path.as_str()) {
                    assert(parent_log(file.deep_view(), files.deep_view()) == Some(
                        (path@, parent@),
                    ));
                    if !check_read(parsed, path.as_str()) && usage.get(&parent).is_none() && !lists(
                        &r,
                        path.as_str(),
                        parent.as_str(),
                    ) {
                        let ghost log = (path@, parent@);
                        r.push((path, parent));
                        assert(r.deep_view() =~= before.push(log));
                    }
                }
            }
        }
        i = i + 1;
    }
    assert(all.take(i as int) =~= all);
    r
}

/// The tokens of those requests that were made up to an instant.
pub open spec fn tokens_up_to(events: Seq<(i64, TokenCounts)>, at: Option<i64>) -> Seq<TokenCounts>
    decreases events.len(),
{
    if events.len() == 0 {
        Seq::empty()
    } else {
        let before = tokens_up_to(events.drop_last(), at);
        if at is None || events.last().0 <= at->0 {
            before.push(events.last().1)
        } else {
            before
        }
    }
}

/// How to tell what a log copied from its parent; none where it has no parent.
pub open spec fn replay_of(
    file: ParsedFileView,
    files: Seq<LogFileView>,
    usage: Seq<(Seq<char>, Seq<(i64, TokenCounts)>)>,
) -> Option<(Seq<TokenCounts>, nat)> {
    match header_at(files, file.path) {
        Some(header) => match header.parent_session_id {
            Some(parent) => {
                let events = match lookup::<String, Seq<(i64, TokenCounts)>>(usage, parent) {
                    Some(events) => events,
                    None => Seq::empty(),
                };
                let burst = close_run(file.usage_events);
                Some(
                    (
                        tokens_up_to(events, header.forked_at_ms),
                        if burst >= 2 {
                            burst
                        } else {
                            0
                        },
                    ),
                )
            },
            None => None,
        },
        None => None,
    }
}

/// How to tell what a log copied, as a pair.
pub open spec fn spec_pair(spec: Option<ReplaySpec>) -> Option<(Seq<TokenCounts>, nat)> {
    match spec {
        Some(spec) => Some((spec.parent_prefix@, spec.fallback_burst_len as nat)),
        None => None,
    }
}

/// How to tell what a log copied from its parent; `usage` holds the requests by session.
pub fn build_replay_spec(
    file: &ParsedFile,
    files: &Vec<LogFile>,
    usage: &OrderedMap<String, Vec<(i64, TokenCounts)>>,
) -> (r: Option<ReplaySpec>)
    ensures
        spec_pair(r) == replay_of(file.deep_view(), files.deep_view(), usage.deep_view()),
{
    let header = match find_header(files, file.path.as_str()) {
        Some(header) => header,
        None => {
            return None;
        },
    };
    let parent = match &header.parent_session_id {
        Some(parent) => parent,
        None => {
            return None;
        },
    };
    let mut parent_prefix: Vec<TokenCounts> = Vec::new();
    if let Some(events) = usage.get(parent) {
        let ghost all = events@;
        assert(events.deep_view() =~= all);
        assert(parent_prefix@ =~= tokens_up_to(all.take(0), header.forked_at_ms));
        let mut i: usize = 0;
        while i < events.len()
            invariant
                i <= events@.len(),
                all == events@,
                parent_prefix@ == tokens_up_to(all.take(i as int), header.forked_at_ms),
            decreases events@.len() - i,
        {
            assert(all.take(i + 1).drop_last() =~= all.take(i as int));
            let counts = match header.forked_at_ms {
                Some(at) => events[i].0 <= at,
                None => true,
            };
            if counts {
                parent_prefix.push(events[i].1);
            }
            i = i + 1;
        }
        assert(all.take(i as int) =~= all);
    }
    Some(
        ReplaySpec {
            parent_prefix,
            fallback_burst_len: leading_rewritten_burst_len(&file.usage_events),
        },
    )
}

/// The state after the facts of a line, and whether the line is a copy: whether one of its requests
/// is.
pub open spec fn line_step(
    state: Option<ReplayStateView>,
    records: Seq<SourceJsonlRecordView>,
) -> (Option<ReplayStateView>, bool)
    decreases records.len(),
{
    if records.len() == 0 {
        (state, false)
    } else {
        let (before, copied) = line_step(state, records.drop_last());
        match before {
            Some(held) if records.last().kind == "usage"@ => {
                let (after, copy) = replay_step(held, tokens_of_record(records.last()));
                (Some(after), copied || copy)
            },
            _ => (before, copied),
        }
    }
}

/// The facts of lines that are no copies, each with what is known of its session; those from before
/// an instant are left out.
pub open spec fn kept_records(
    lines: Seq<Seq<SourceJsonlRecordView>>,
    state: Option<ReplayStateView>,
    metadata: Seq<(Seq<char>, LocalSessionMetadataView)>,
    graph: Seq<(Seq<char>, Seq<char>)>,
    from_ms: Option<i64>,
) -> (Option<ReplayStateView>, Seq<SourceJsonlRecordView>)
    decreases lines.len(),
{
    if lines.len() == 0 {
        (state, Seq::empty())
    } else {
        let (held, before) = kept_records(lines.drop_last(), state, metadata, graph, from_ms);
        let (after, copy) = line_step(held, lines.last());
        (
            after,
            if copy {
                before
            } else {
                before + enriched_from(lines.last(), metadata, graph, from_ms)
            },
        )
    }
}

/// Facts with what is known of their sessions, without those from before an instant.
pub open spec fn enriched_from(
    records: Seq<SourceJsonlRecordView>,
    metadata: Seq<(Seq<char>, LocalSessionMetadataView)>,
    graph: Seq<(Seq<char>, Seq<char>)>,
    from_ms: Option<i64>,
) -> Seq<SourceJsonlRecordView>
    decreases records.len(),
{
    if records.len() == 0 {
        Seq::empty()
    } else {
        let before = enriched_from(records.drop_last(), metadata, graph, from_ms);
        let record = enriched(records.last(), metadata, graph);
        if from_ms is Some && record.observed_at_ms < from_ms->0 {
            before
        } else {
            before.push(record)
        }
    }
}

fn step_line(state: &mut Option<ReplayState>, records: &Vec<SourceJsonlRecord>) -> (copy: bool)
    ensures
        (final(state).deep_view(), copy) == line_step(old(state).deep_view(), records.deep_view()),
{
    let ghost all = records.deep_view();
    let ghost start = state.deep_view();
    let mut copied = false;
    let mut held: Option<ReplayState> = None;
    std::mem::swap(&mut held, state);
    let mut i: usize = 0;
    while i < records.len()
        invariant
            i <= records@.len(),
            all == records.deep_view(),
            (held.deep_view(), copied) == line_step(start, all.take(i as int)),
        decreases records@.len() - i,
    {
        assert(all.take(i + 1).drop_last() =~= all.take(i as int));
        assert(all.take(i + 1).last() == records@[i as int].deep_view());
        if same(records[i].kind.as_str(), "usage") {
            let tokens = record_tokens(&records[i]);
            held = match held {
                Some(state) => {
                    let mut state = state;
                    if state.should_skip(&tokens) {
                        copied = true;
                    }
                    Some(state)
                },
                None => None,
            };
        }
        i = i + 1;
    }
    assert(all.take(i as int) =~= all);
    *state = held;
    copied
}

/// The state before the first line of a log.
pub open spec fn replay_start(spec: Option<ReplaySpec>) -> Option<ReplayStateView> {
    match spec {
        Some(spec) if spec.parent_prefix@.len() > 0 || spec.fallback_burst_len > 0 => Some(
            ReplayStateView::Match {
                prefix: spec.parent_prefix@,
                index: 0,
                fallback_burst_len: spec.fallback_burst_len as nat,
            },
        ),
        _ => None,
    }
}

/// Keeps the facts of a log that are no copies of its parent's.
pub fn keep_records(
    lines: &Vec<Vec<SourceJsonlRecord>>,
    spec: &Option<ReplaySpec>,
    metadata: &OrderedMap<String, LocalSessionMetadata>,
    graph: &OrderedMap<String, String>,
    from_ms: Option<i64>,
) -> (r: Vec<SourceJsonlRecord>)
    ensures
        r.deep_view() == kept_records(
            lines.deep_view(),
            replay_start(*spec),
            metadata.deep_view(),
            graph.deep_view(),
            from_ms,
        ).1,
{
    let ghost all = lines.deep_view();
    let ghost (known, parents) = (metadata.deep_view(), graph.deep_view());
    let mut state = ReplayState::new(
        match spec {
            Some(spec) => Some(spec),
            None => None,
        },
    );
    let ghost start = state.deep_view();
    let mut r: Vec<SourceJsonlRecord> = Vec::new();
    assert(r.deep_view() =~= Seq::empty());
    let mut i: usize = 0;
    while i < lines.len()
        invariant
            i <= lines@.len(),
            all == lines.deep_view(),
            known == metadata.deep_view(),
            parents == graph.deep_view(),
            (state.deep_view(), r.deep_view()) == kept_records(
                all.take(i as int),
                start,
                known,
                parents,
                from_ms,
            ),
        decreases lines@.len() - i,
    {
        let records = &lines[i];
        assert(all.take(i + 1).drop_last() =~= all.take(i as int));
        assert(all.take(i + 1).last() == records.deep_view());
        if !step_line(&mut state, records) {
            let ghost before = r.deep_view();
            let ghost every = records.deep_view();
            assert(before + enriched_from(every.take(0), known, parents, from_ms) =~= before);
            let mut k: usize = 0;
            while k < records.len()
                invariant
                    k <= records@.len(),
                    every == records.deep_view(),
                    known == metadata.deep_view(),
                    parents == graph.deep_view(),
                    r.deep_view() == before + enriched_from(
                        every.take(k as int),
                        known,
                        parents,
                        from_ms,
                    ),
                decreases records@.len() - k,
            {
                assert(every.take(k + 1).drop_last() =~= every.take(k as int));
                assert(every.take(k + 1).last() == records@[k as int].deep_view());
                let ghost held = r.deep_view();
                let mut record = records[k].copy();
                enrich_record_from_metadata(&mut record, metadata, graph);
                let early = match from_ms {
                    Some(from) => record.observed_at_ms < from,
                    None => false,
                };
                if !early {
                    let ghost view = record.deep_view();
                    r.push(record);
                    assert(r.deep_view() =~= held.push(view));
                }
                k = k + 1;
                assert(r.deep_view() =~= before + enriched_from(
                    every.take(k as int),
                    known,
                    parents,
                    from_ms,
                ));
            }
            assert(every.take(k as int) =~= every);
        }
        i = i + 1;
    }
    assert(all.take(i as int) =~= all);
    r
}

/// Whether copies have to be looked for: at the first scan, and where a log is read for the first
/// time.
pub fn needs_replay(first_scan: bool, candidates: &Vec<(String, Option<CursorState>)>) -> (r: bool)
    ensures
        r == (first_scan || exists|i: int|
            0 <= i < candidates@.len() && (#[trigger] candidates@[i]).1 is None),
{
    let mut i: usize = 0;
    while i < candidates.len()
        invariant
            i <= candidates@.len(),
            forall|k: int| 0 <= k < i ==> (#[trigger] candidates@[k]).1 is Some,
        decreases candidates@.len() - i,
    {
        if candidates[i].1.is_none() {
            return true;
        }
        i = i + 1;
    }
    first_scan
}

/// How to tell what a log copied; nothing is looked for where `replay` does not ask for it.
pub open spec fn start_of_log(
    file: ParsedFileView,
    files: Seq<LogFileView>,
    usage: Seq<(Seq<char>, Seq<(i64, TokenCounts)>)>,
    replay: bool,
) -> Option<ReplayStateView> {
    match replay_of(file, files, usage) {
        Some((prefix, burst)) if replay && (prefix.len() > 0 || burst > 0) => Some(
            ReplayStateView::Match { prefix, index: 0, fallback_burst_len: burst },
        ),
        _ => None,
    }
}

/// The facts that are kept of the logs that were read.
pub open spec fn scanned(
    parsed: Seq<ParsedFileView>,
    files: Seq<LogFileView>,
    usage: Seq<(Seq<char>, Seq<(i64, TokenCounts)>)>,
    replay: bool,
    metadata: Seq<(Seq<char>, LocalSessionMetadataView)>,
    graph: Seq<(Seq<char>, Seq<char>)>,
    from_ms: Option<i64>,
) -> Seq<SourceJsonlRecordView>
    decreases parsed.len(),
{
    if parsed.len() == 0 {
        Seq::empty()
    } else {
        let before = scanned(parsed.drop_last(), files, usage, replay, metadata, graph, from_ms);
        let file = parsed.last();
        before + kept_records(
            file.lines,
            start_of_log(file, files, usage, replay),
            metadata,
            graph,
            from_ms,
        ).1
    }
}

/// Keeps the facts of the logs that were read. `usage` holds the requests by session, those of
/// parents that were read for them too.
pub fn scan_records(
    parsed: &Vec<ParsedFile>,
    files: &Vec<LogFile>,
    usage: &OrderedMap<String, Vec<(i64, TokenCounts)>>,
    replay: bool,
    metadata: &OrderedMap<String, LocalSessionMetadata>,
    graph: &OrderedMap<String, String>,
    from_date: Option<Date>,
) -> (r: Vec<SourceJsonlRecord>)
    requires
        from_date is Some ==> from_date->0.valid(),
    ensures
        r.deep_view() == scanned(
            parsed.deep_view(),
            files.deep_view(),
            usage.deep_view(),
            replay,
            metadata.deep_view(),
            graph.deep_view(),
            match from_date {
                Some(date) => Some(start_of_date(date) as i64),
                None => None,
            },
        ),
{
    let from_ms = match from_date {
        Some(date) => Some(date_start_ms(date)),
        None => None,
    };
    let ghost all = parsed.deep_view();
    let ghost (fs, us) = (files.deep_view(), usage.deep_view());
    let ghost (known, parents) = (metadata.deep_view(), graph.deep_view());
    let mut r: Vec<SourceJsonlRecord> = Vec::new();
    assert(r.deep_view() =~= Seq::empty());
    let mut i: usize = 0;
    while i < parsed.len()
        invariant
            i <= parsed@.len(),
            all == parsed.deep_view(),
            fs == files.deep_view(),
            us == usage.deep_view(),
            known == metadata.deep_view(),
            parents == graph.deep_view(),
            r.deep_view() == scanned(all.take(i as int), fs, us, replay, known, parents, from_ms),
        decreases parsed@.len() - i,
    {
        let file = &parsed[i];
        assert(all.take(i + 1).drop_last() =~= all.take(i as int));
        assert(all.take(i + 1).last() == file.deep_view());
        let spec = if replay {
            build_replay_spec(file, files, usage)
        } else {
            None
        };
        assert(replay_start(spec) == start_of_log(file.deep_view(), fs, us, replay));
        let kept = keep_records(&file.lines, &spec, metadata, graph, from_ms);
        let ghost before = r.deep_view();
        let ghost more = kept.deep_view();
        assert(r.deep_view() =~= before + more.take(0));
        for record in it: kept
            invariant
                it.seq().len() == more.len(),
                forall|k: int|
                    0 <= k < more.len() ==> (#[trigger] it.seq()[k]).deep_view() == more[k],
                r.deep_view() == before + more.take(it.index()),
        {
            let ghost held = r.deep_view();
            let ghost n = it.index();
            r.push(record);
            assert(r.deep_view() =~= held.push(more[n]));
            assert(r.deep_view() =~= before + more.take(n + 1));
        }
        assert(more.take(more.len() as int) =~= more);
        i = i + 1;
    }
    assert(all.take(i as int) =~= all);
    r
}

/// How many complete lines logs have.
pub open spec fn lines_of_files(parsed: Seq<ParsedFileView>) -> int
    decreases parsed.len(),
{
    if parsed.len() == 0 {
        0
    } else {
        lines_of_files(parsed.drop_last()) + parsed.last().complete_lines
    }
}

/// How many logs have changed.
pub open spec fn changed_files(parsed: Seq<ParsedFileView>) -> int
    decreases parsed.len(),
{
    if parsed.len() == 0 {
        0
    } else {
        changed_files(parsed.drop_last()) + (if parsed.last().changed {
            1int
        } else {
            0int
        })
    }
}

proof fn lemma_lines_grow(parsed: Seq<ParsedFileView>, n: int)
    requires
        0 <= n <= parsed.len(),
    ensures
        0 <= lines_of_files(parsed.take(n)) <= lines_of_files(parsed),
    decreases parsed.len(),
{
    if n < parsed.len() {
        lemma_lines_grow(parsed.drop_last(), n);
        assert(parsed.drop_last().take(n) =~= parsed.take(n));
    } else {
        assert(parsed.take(n) =~= parsed);
        if parsed.len() > 0 {
            lemma_lines_grow(parsed.drop_last(), n - 1);
            assert(parsed.drop_last().take(n - 1) =~= parsed.drop_last());
        }
    }
}

/// Whether nothing was read of a log.
pub open spec fn tells_nothing(file: ParsedFileView) -> bool {
    file.lines.len() == 0 && file.complete_lines == 0 && !file.changed
}

/// A log with a cursor to which no complete line was added: it is left alone, or read from where it
/// was read to, where it has grown by less than a line. `digest` is that of the sample of what was
/// read before.
pub open spec fn read_again(
    path: Seq<char>,
    cursor: CursorStateView,
    file_len: u64,
    mtime_ms: Option<i64>,
    digest: Option<Seq<char>>,
) -> ParsedFileView {
    if is_as_read(Some(cursor), file_len, mtime_ms) {
        left_alone(path, cursor)
    } else {
        let (start, context) = resumed(Some(cursor), file_len, digest);
        read_on(path, lines_read(Seq::empty(), context), start, 0, 0, mtime_ms, digest, false)
    }
}

/// Of a log that has not lost or changed what was read of it, and to which no complete line was
/// added, nothing is read, and it stays read to where it was.
pub proof fn lemma_unchanged_log_tells_nothing(
    path: Seq<char>,
    cursor: CursorStateView,
    file_len: u64,
    mtime_ms: Option<i64>,
    digest: Option<Seq<char>>,
)
    requires
        cursor.offset_bytes <= file_len,
        cursor.digest == digest,
    ensures
        ({
            let file = read_again(path, cursor, file_len, mtime_ms, digest);
            &&& tells_nothing(file)
            &&& file.cursor.offset_bytes == cursor.offset_bytes
            &&& file.cursor.digest == cursor.digest
            &&& cursor.offset_bytes > 0 ==> file.cursor.context == cursor.context
        }),
{
}

/// A scan that reads nothing of any log keeps no facts, counts no lines and no changed logs, and
/// leaves nothing to store.
pub proof fn lemma_scan_without_changes_is_empty(
    parsed: Seq<ParsedFileView>,
    files: Seq<LogFileView>,
    usage: Seq<(Seq<char>, Seq<(i64, TokenCounts)>)>,
    replay: bool,
    metadata: Seq<(Seq<char>, LocalSessionMetadataView)>,
    graph: Seq<(Seq<char>, Seq<char>)>,
    from_ms: Option<i64>,
    existing: Seq<Seq<char>>,
)
    requires
        forall|i: int| 0 <= i < parsed.len() ==> tells_nothing(#[trigger] parsed[i]),
    ensures
        scanned(parsed, files, usage, replay, metadata, graph, from_ms) == Seq::<
            SourceJsonlRecordView,
        >::empty(),
        lines_of_files(parsed) == 0,
        changed_files(parsed) == 0,
        normalized(scanned(parsed, files, usage, replay, metadata, graph, from_ms)).len() == 0,
        new_facts(
            normalized(scanned(parsed, files, usage, replay, metadata, graph, from_ms)),
            existing,
            false,
        ) == 0,
    decreases parsed.len(),
{
    if parsed.len() > 0 {
        let shorter = parsed.drop_last();
        assert forall|i: int| 0 <= i < shorter.len() implies tells_nothing(
            #[trigger] shorter[i],
        ) by {
            assert(shorter[i] == parsed[i]);
        }
        lemma_scan_without_changes_is_empty(
            shorter,
            files,
            usage,
            replay,
            metadata,
            graph,
            from_ms,
            existing,
        );
        assert(tells_nothing(parsed[parsed.len() - 1]));
        assert(scanned(parsed, files, usage, replay, metadata, graph, from_ms) =~= Seq::empty());
    }
}

/// What a scan did: `recognized` facts were kept, and `batch` says what storing them did.
pub fn scan_report(
    parsed: &Vec<ParsedFile>,
    recognized: usize,
    batch: &SourceJsonlBatchReport,
) -> (r: JsonlScanReport)
    requires
        lines_of_files(parsed.deep_view()) <= usize::MAX,
    ensures
        r.files_scanned == parsed@.len(),
        r.files_changed == changed_files(parsed.deep_view()),
        r.complete_lines == lines_of_files(parsed.deep_view()),
        r.recognized_events == recognized,
        r.inserted_events == batch.inserted_events,
        r.duplicate_events == batch.duplicate_events,
        r.inserted_quota_samples == batch.inserted_quota_samples,
{
    let ghost all = parsed.deep_view();
    let len: usize = parsed.len();
    let mut lines: usize = 0;
    let mut changed: usize = 0;
    let mut i: usize = 0;
    while i < len
        invariant
            i <= len,
            len == parsed@.len(),
            all == parsed.deep_view(),
            lines_of_files(all) <= usize::MAX,
            lines == lines_of_files(all.take(i as int)),
            changed == changed_files(all.take(i as int)),
            changed <= i,
        decreases len - i,
    {
        assert(all.take(i + 1).drop_last() =~= all.take(i as int));
        assert(all.take(i + 1).last() == parsed@[i as int].deep_view());
        proof {
            lemma_lines_grow(all, i + 1);
        }
        lines = lines + parsed[i].complete_lines;
        if parsed[i].changed {
            changed = changed + 1;
        }
        i = i + 1;
    }
    assert(all.take(i as int) =~= all);
    JsonlScanReport {
        files_scanned: len,
        files_changed: changed,
        complete_lines: lines,
        recognized_events: recognized,
        inserted_events: batch.inserted_events,
        duplicate_events: batch.duplicate_events,
        inserted_quota_samples: batch.inserted_quota_samples,
    }
}

/// All facts of a copied line are left out, its quotas too; those of a line that is no copy are
/// kept, where they are not from before the instant.
pub proof fn lemma_copies_leave_nothing(
    lines: Seq<Seq<SourceJsonlRecordView>>,
    line: Seq<SourceJsonlRecordView>,
    state: Option<ReplayStateView>,
    metadata: Seq<(Seq<char>, LocalSessionMetadataView)>,
    graph: Seq<(Seq<char>, Seq<char>)>,
    from_ms: Option<i64>,
)
    ensures
        ({
            let (held, before) = kept_records(lines, state, metadata, graph, from_ms);
            let after = kept_records(lines.push(line), state, metadata, graph, from_ms).1;
            if line_step(held, line).1 {
                after == before
            } else {
                after == before + enriched_from(line, metadata, graph, from_ms)
            }
        }),
{
    assert(lines.push(line).drop_last() =~= lines);
}

} // verus!
