//! A collector of the events of session logs.
use crate::collectors::jsonl::cursor::{
    digest_before_cursor, file_read, last_line_of, lemma_nothing_is_read_twice, span_to_verify,
    start_of_scan, JsonlFileState, JsonlFileStateView, LineView, ParsedFile, ParsedFileView,
    ScanStartView, MAX_CURSOR_VERIFICATION_BYTES,
};
use crate::collectors::jsonl::events::{
    empty_cursor_context, JsonlCredits, JsonlCreditsView, JsonlEvent, JsonlEventView,
    JsonlRateLimits, JsonlRateLimitsView, JsonlRateLimitWindow, JsonlRateLimitWindowView,
    JsonlTokenCountEventView,
};
use crate::domain::models::TokenCounts;
use crate::ordered::{sort, sorted};
use crate::pipelines::source::jsonl::fast::{add_logs, logs_among, ByPath};
use crate::pipelines::source::jsonl::lines::{complete_length, lemma_rest_is_one_line};
use crate::text::{copy_option, characters, same};
use vstd::prelude::*;
use vstd::string::*;

pub mod cursor;
pub mod events;
pub mod laws;
pub mod queue;
pub mod rollups;

verus! {

/// How long, in milliseconds, a log must not change before it is read again.
pub const JSONL_DEBOUNCE: u64 = 2_000;

/// How often, in milliseconds, all logs are read whatever has changed.
pub const JSONL_FULL_SCAN_INTERVAL: u64 = 21_600_000;

/// The stored start of a session.
#[derive(Debug)]
pub struct JsonlSessionMetadata {
    pub machine_id: i64,
    pub session_id: String,
    pub observed_at_ms: i64,
    pub cli_version: Option<String>,
    pub model_provider: Option<String>,
    pub thread_source: Option<String>,
    pub source_digest: String,
    pub collector_version: String,
}

/// A `JsonlSessionMetadata` with its texts as sequences of characters.
#[verifier::ext_equal]
pub struct JsonlSessionMetadataView {
    pub machine_id: i64,
    pub session_id: Seq<char>,
    pub observed_at_ms: i64,
    pub cli_version: Option<Seq<char>>,
    pub model_provider: Option<Seq<char>>,
    pub thread_source: Option<Seq<char>>,
    pub source_digest: Seq<char>,
    pub collector_version: Seq<char>,
}

impl DeepView for JsonlSessionMetadata {
    type V = JsonlSessionMetadataView;

    open spec fn deep_view(&self) -> JsonlSessionMetadataView {
        JsonlSessionMetadataView {
            machine_id: self.machine_id,
            session_id: self.session_id@,
            observed_at_ms: self.observed_at_ms,
            cli_version: self.cli_version.deep_view(),
            model_provider: self.model_provider.deep_view(),
            thread_source: self.thread_source.deep_view(),
            source_digest: self.source_digest@,
            collector_version: self.collector_version@,
        }
    }
}

/// Stored settings of a session.
#[derive(Debug)]
pub struct JsonlThreadSetting {
    pub machine_id: i64,
    pub session_id: String,
    pub observed_at_ms: i64,
    pub model: Option<String>,
    pub model_provider_id: Option<String>,
    pub service_tier: String,
    pub source_digest: String,
    pub collector_version: String,
}

/// A `JsonlThreadSetting` with its texts as sequences of characters.
#[verifier::ext_equal]
pub struct JsonlThreadSettingView {
    pub machine_id: i64,
    pub session_id: Seq<char>,
    pub observed_at_ms: i64,
    pub model: Option<Seq<char>>,
    pub model_provider_id: Option<Seq<char>>,
    pub service_tier: Seq<char>,
    pub source_digest: Seq<char>,
    pub collector_version: Seq<char>,
}

impl DeepView for JsonlThreadSetting {
    type V = JsonlThreadSettingView;

    open spec fn deep_view(&self) -> JsonlThreadSettingView {
        JsonlThreadSettingView {
            machine_id: self.machine_id,
            session_id: self.session_id@,
            observed_at_ms: self.observed_at_ms,
            model: self.model.deep_view(),
            model_provider_id: self.model_provider_id.deep_view(),
            service_tier: self.service_tier@,
            source_digest: self.source_digest@,
            collector_version: self.collector_version@,
        }
    }
}

/// A stored count of tokens.
#[derive(Debug)]
pub struct JsonlTokenObservation {
    pub machine_id: i64,
    pub context_interval_id: Option<i64>,
    pub session_id: String,
    pub turn_id: Option<String>,
    pub observed_at_ms: i64,
    pub tokens: TokenCounts,
    pub model: Option<String>,
    pub model_provider: Option<String>,
    pub service_tier: Option<String>,
    pub model_context_window: Option<i64>,
    pub rate_limits: Option<JsonlRateLimits>,
    pub source_digest: String,
    pub collector_version: String,
}

/// A `JsonlTokenObservation` with its texts as sequences of characters.
#[verifier::ext_equal]
pub struct JsonlTokenObservationView {
    pub machine_id: i64,
    pub context_interval_id: Option<i64>,
    pub session_id: Seq<char>,
    pub turn_id: Option<Seq<char>>,
    pub observed_at_ms: i64,
    pub tokens: TokenCounts,
    pub model: Option<Seq<char>>,
    pub model_provider: Option<Seq<char>>,
    pub service_tier: Option<Seq<char>>,
    pub model_context_window: Option<i64>,
    pub rate_limits: Option<JsonlRateLimitsView>,
    pub source_digest: Seq<char>,
    pub collector_version: Seq<char>,
}

impl DeepView for JsonlTokenObservation {
    type V = JsonlTokenObservationView;

    open spec fn deep_view(&self) -> JsonlTokenObservationView {
        JsonlTokenObservationView {
            machine_id: self.machine_id,
            context_interval_id: self.context_interval_id,
            session_id: self.session_id@,
            turn_id: self.turn_id.deep_view(),
            observed_at_ms: self.observed_at_ms,
            tokens: self.tokens,
            model: self.model.deep_view(),
            model_provider: self.model_provider.deep_view(),
            service_tier: self.service_tier.deep_view(),
            model_context_window: self.model_context_window,
            rate_limits: self.rate_limits.deep_view(),
            source_digest: self.source_digest@,
            collector_version: self.collector_version@,
        }
    }
}

/// Stored limits of an account.
#[derive(Debug)]
pub struct JsonlRateLimitObservation {
    pub machine_id: i64,
    pub session_id: String,
    pub observed_at_ms: i64,
    pub limit_id: String,
    pub limit_name: Option<String>,
    pub plan_type_raw: Option<String>,
    pub primary: JsonlRateLimitWindow,
    pub secondary: JsonlRateLimitWindow,
    pub credits: JsonlCredits,
    pub source_digest: String,
    pub collector_version: String,
}

/// A `JsonlRateLimitObservation` with its texts as sequences of characters.
#[verifier::ext_equal]
pub struct JsonlRateLimitObservationView {
    pub machine_id: i64,
    pub session_id: Seq<char>,
    pub observed_at_ms: i64,
    pub limit_id: Seq<char>,
    pub limit_name: Option<Seq<char>>,
    pub plan_type_raw: Option<Seq<char>>,
    pub primary: JsonlRateLimitWindowView,
    pub secondary: JsonlRateLimitWindowView,
    pub credits: JsonlCreditsView,
    pub source_digest: Seq<char>,
    pub collector_version: Seq<char>,
}

impl DeepView for JsonlRateLimitObservation {
    type V = JsonlRateLimitObservationView;

    open spec fn deep_view(&self) -> JsonlRateLimitObservationView {
        JsonlRateLimitObservationView {
            machine_id: self.machine_id,
            session_id: self.session_id@,
            observed_at_ms: self.observed_at_ms,
            limit_id: self.limit_id@,
            limit_name: self.limit_name.deep_view(),
            plan_type_raw: self.plan_type_raw.deep_view(),
            primary: self.primary.deep_view(),
            secondary: self.secondary.deep_view(),
            credits: self.credits.deep_view(),
            source_digest: self.source_digest@,
            collector_version: self.collector_version@,
        }
    }
}

/// What is stored of an event.
#[derive(Debug)]
pub enum JsonlRow {
    Session(JsonlSessionMetadata),
    Setting(JsonlThreadSetting),
    Tokens(JsonlTokenObservation),
    RateLimits(JsonlRateLimitObservation),
}

/// A `JsonlRow` with its texts as sequences of characters.
#[verifier::ext_equal]
pub enum JsonlRowView {
    Session(JsonlSessionMetadataView),
    Setting(JsonlThreadSettingView),
    Tokens(JsonlTokenObservationView),
    RateLimits(JsonlRateLimitObservationView),
}

impl DeepView for JsonlRow {
    type V = JsonlRowView;

    open spec fn deep_view(&self) -> JsonlRowView {
        match self {
            JsonlRow::Session(row) => JsonlRowView::Session(row.deep_view()),
            JsonlRow::Setting(row) => JsonlRowView::Setting(row.deep_view()),
            JsonlRow::Tokens(row) => JsonlRowView::Tokens(row.deep_view()),
            JsonlRow::RateLimits(row) => JsonlRowView::RateLimits(row.deep_view()),
        }
    }
}

/// What a scan of all logs found.
#[derive(Clone, Copy, Debug, PartialEq, Eq, Structural)]
pub struct JsonlScanReport {
    pub files_scanned: usize,
    pub files_changed: usize,
    pub complete_lines: usize,
    pub pending_bytes: usize,
    pub recognized_events: usize,
    pub inserted_session_metadata: usize,
    pub inserted_thread_settings: usize,
    pub inserted_token_observations: usize,
    pub inserted_rate_limits: usize,
    pub daily_rollups_rebuilt: usize,
}

impl Default for JsonlScanReport {
    fn default() -> (r: Self)
        ensures
            r == (JsonlScanReport {
                files_scanned: 0,
                files_changed: 0,
                complete_lines: 0,
                pending_bytes: 0,
                recognized_events: 0,
                inserted_session_metadata: 0,
                inserted_thread_settings: 0,
                inserted_token_observations: 0,
                inserted_rate_limits: 0,
                daily_rollups_rebuilt: 0,
            }),
    {
        JsonlScanReport {
            files_scanned: 0,
            files_changed: 0,
            complete_lines: 0,
            pending_bytes: 0,
            recognized_events: 0,
            inserted_session_metadata: 0,
            inserted_thread_settings: 0,
            inserted_token_observations: 0,
            inserted_rate_limits: 0,
            daily_rollups_rebuilt: 0,
        }
    }
}

impl JsonlScanReport {
    /// Counts a log that was scanned.
    pub fn add_file(&mut self, file: &ParsedFile, changed: bool)
        requires
            old(self).files_changed < usize::MAX,
            old(self).complete_lines + file.complete_line_count <= usize::MAX,
            old(self).pending_bytes + file.pending_bytes <= usize::MAX,
            old(self).recognized_events + file.events@.len() <= usize::MAX,
        ensures
            *final(self) == (JsonlScanReport {
                files_changed: if changed || file.events@.len() > 0 {
                    (old(self).files_changed + 1) as usize
                } else {
                    old(self).files_changed
                },
                complete_lines: (old(self).complete_lines + file.complete_line_count) as usize,
                pending_bytes: (old(self).pending_bytes + file.pending_bytes) as usize,
                recognized_events: (old(self).recognized_events + file.events@.len()) as usize,
                ..*old(self)
            }),
    {
        self.complete_lines = self.complete_lines + file.complete_line_count;
        self.pending_bytes = self.pending_bytes + file.pending_bytes;
        self.recognized_events = self.recognized_events + file.events.len();
        if changed || file.events.len() > 0 {
            self.files_changed = self.files_changed + 1;
        }
    }

    /// Counts a row that was inserted.
    pub fn add_inserted(&mut self, row: &JsonlRow)
        requires
            old(self).inserted_session_metadata < usize::MAX,
            old(self).inserted_thread_settings < usize::MAX,
            old(self).inserted_token_observations < usize::MAX,
            old(self).inserted_rate_limits < usize::MAX,
        ensures
            *final(self) == (match row {
                JsonlRow::Session(_) => JsonlScanReport {
                    inserted_session_metadata: (old(self).inserted_session_metadata + 1) as usize,
                    ..*old(self)
                },
                JsonlRow::Setting(_) => JsonlScanReport {
                    inserted_thread_settings: (old(self).inserted_thread_settings + 1) as usize,
                    ..*old(self)
                },
                JsonlRow::Tokens(_) => JsonlScanReport {
                    inserted_token_observations: (old(self).inserted_token_observations
                        + 1) as usize,
                    ..*old(self)
                },
                JsonlRow::RateLimits(_) => JsonlScanReport {
                    inserted_rate_limits: (old(self).inserted_rate_limits + 1) as usize,
                    ..*old(self)
                },
            }),
    {
        match row {
            JsonlRow::Session(_) => {
                self.inserted_session_metadata = self.inserted_session_metadata + 1;
            },
            JsonlRow::Setting(_) => {
                self.inserted_thread_settings = self.inserted_thread_settings + 1;
            },
            JsonlRow::Tokens(_) => {
                self.inserted_token_observations = self.inserted_token_observations + 1;
            },
            JsonlRow::RateLimits(_) => {
                self.inserted_rate_limits = self.inserted_rate_limits + 1;
            },
        }
    }
}

/// A collector of the logs below the directory `codex_home`.
#[derive(Debug)]
pub struct JsonlCollector {
    pub codex_home: String,
    pub machine_id: i64,
    pub collector_version: String,
    pub timezone: String,
}

/// The path of `name` within a directory.
pub open spec fn path_within(directory: Seq<char>, name: Seq<char>) -> Seq<char> {
    if directory.len() == 0 || directory.last() == '/' {
        directory + name
    } else {
        directory + "/"@ + name
    }
}

/// The path of `name` within a directory.
pub fn join_path(directory: &str, name: &str) -> (r: String)
    ensures
        r@ == path_within(directory@, name@),
{
    let v = characters(directory);
    let len: usize = v.len();
    let mut path = directory.to_owned();
    if len > 0 && v[len - 1] != '/' {
        path.append("/");
    }
    path.append(name);
    path
}

/// The counts of a count of tokens: those since the last one, else those of the session.
pub open spec fn counted(event: JsonlTokenCountEventView) -> TokenCounts {
    match event.last_token_usage {
        Some(counts) => counts,
        None => match event.total_token_usage {
            Some(counts) => counts,
            None => TokenCounts {
                input_tokens: 0,
                cached_input_tokens: 0,
                cache_write_input_tokens: 0,
                output_tokens: 0,
                reasoning_output_tokens: 0,
                total_tokens: 0,
            },
        },
    }
}

/// What a machine stores of an event.
pub open spec fn rows_of_event(
    event: JsonlEventView,
    machine_id: i64,
    collector_version: Seq<char>,
) -> Seq<JsonlRowView> {
    match event {
        JsonlEventView::SessionMeta(event) => seq![
            JsonlRowView::Session(
                JsonlSessionMetadataView {
                    machine_id,
                    session_id: event.session_id,
                    observed_at_ms: event.observed_at_ms,
                    cli_version: event.cli_version,
                    model_provider: event.model_provider,
                    thread_source: event.thread_source,
                    source_digest: event.source_digest,
                    collector_version,
                },
            ),
        ],
        JsonlEventView::ThreadSettings(event) => seq![
            JsonlRowView::Setting(
                JsonlThreadSettingView {
                    machine_id,
                    session_id: event.session_id,
                    observed_at_ms: event.observed_at_ms,
                    model: event.model,
                    model_provider_id: event.model_provider_id,
                    service_tier: event.service_tier,
                    source_digest: event.source_digest,
                    collector_version,
                },
            ),
        ],
        JsonlEventView::TokenCount(event) => {
            let tokens = JsonlRowView::Tokens(
                JsonlTokenObservationView {
                    machine_id,
                    context_interval_id: None,
                    session_id: event.session_id,
                    turn_id: event.turn_id,
                    observed_at_ms: event.observed_at_ms,
                    tokens: counted(event),
                    model: event.model,
                    model_provider: event.model_provider,
                    service_tier: Some(event.service_tier),
                    model_context_window: event.model_context_window,
                    rate_limits: event.rate_limits,
                    source_digest: event.source_digest,
                    collector_version,
                },
            );
            match event.rate_limits {
                Some(limits) => seq![
                    tokens,
                    JsonlRowView::RateLimits(
                        JsonlRateLimitObservationView {
                            machine_id,
                            session_id: event.session_id,
                            observed_at_ms: event.observed_at_ms,
                            limit_id: limits.limit_id,
                            limit_name: limits.limit_name,
                            plan_type_raw: limits.plan_type_raw,
                            primary: limits.primary,
                            secondary: limits.secondary,
                            credits: limits.credits,
                            source_digest: event.source_digest + ":rate_limits"@,
                            collector_version,
                        },
                    ),
                ],
                None => seq![tokens],
            }
        },
    }
}

/// What is stored of a log after it was read.
pub open spec fn state_after(
    file: ParsedFileView,
    machine_id: i64,
    path_key: Seq<char>,
    inode: Option<i64>,
    mtime_ms: Option<i64>,
    active_state: Seq<char>,
) -> JsonlFileStateView {
    JsonlFileStateView {
        machine_id,
        path_key,
        session_id: file.context.session_id,
        inode,
        offset_bytes: file.next_offset,
        mtime_ms,
        digest: file.last_line_digest,
        active_state,
        cli_version: file.context.cli_version,
        model_provider: file.context.model_provider,
        thread_source: file.context.thread_source,
        session_started_at_ms: file.context.session_started_at_ms,
        last_model: file.context.last_model,
        last_model_provider_id: file.context.last_model_provider_id,
        last_service_tier: file.context.last_service_tier,
    }
}

/// Whether a log stands elsewhere, or was read further, than was stored.
pub open spec fn has_changed(
    previous: Option<JsonlFileStateView>,
    path_key: Seq<char>,
    inode: Option<i64>,
    next_offset: i64,
) -> bool {
    match previous {
        Some(state) => state.path_key != path_key || state.offset_bytes != next_offset
            || state.inode != inode,
        None => true,
    }
}

/// Whether a log stands elsewhere, or was read further, than was stored.
pub fn is_changed(
    previous: Option<&JsonlFileState>,
    path_key: &str,
    inode: Option<i64>,
    next_offset: i64,
) -> (r: bool)
    ensures
        r == has_changed(previous.deep_view(), path_key@, inode, next_offset),
{
    match previous {
        Some(state) => {
            let moved = match (state.inode, inode) {
                (Some(x), Some(y)) => x != y,
                (None, None) => false,
                _ => true,
            };
            !same(state.path_key.as_str(), path_key) || state.offset_bytes != next_offset || moved
        },
        None => true,
    }
}

impl JsonlCollector {
    /// A collector of the logs below `codex_home`, whose days are those of Shanghai.
    pub fn new(codex_home: String, machine_id: i64, collector_version: String) -> (r: Self)
        ensures
            r.codex_home@ == codex_home@,
            r.machine_id == machine_id,
            r.collector_version@ == collector_version@,
            r.timezone@ == "Asia/Shanghai"@,
    {
        JsonlCollector {
            codex_home,
            machine_id,
            collector_version,
            timezone: "Asia/Shanghai".to_owned(),
        }
    }

    /// The collector with the days of `timezone`.
    pub fn with_timezone(self, timezone: String) -> (r: Self)
        ensures
            r.codex_home@ == self.codex_home@,
            r.machine_id == self.machine_id,
            r.collector_version@ == self.collector_version@,
            r.timezone@ == timezone@,
    {
        JsonlCollector { timezone, ..self }
    }

    /// The directory of the logs of sessions that go on.
    pub fn sessions_root(&self) -> (r: String)
        ensures
            r@ == path_within(self.codex_home@, "sessions"@),
    {
        join_path(self.codex_home.as_str(), "sessions")
    }

    /// The directory of the logs of sessions that have ended.
    pub fn archived_sessions_root(&self) -> (r: String)
        ensures
            r@ == path_within(self.codex_home@, "archived_sessions"@),
    {
        join_path(self.codex_home.as_str(), "archived_sessions")
    }

    /// The logs among the files below the two directories of sessions, in the order of their paths.
    pub fn discover_jsonl_paths(&self, active: &Vec<String>, archived: &Vec<String>) -> (r: Vec<
        (String, &'static str),
    >)
        ensures
            r.deep_view() == sorted::<(String, &'static str), ByPath>(
                logs_among(active.deep_view(), "active"@) + logs_among(
                    archived.deep_view(),
                    "archived"@,
                ),
            ),
    {
        let mut logs: Vec<(String, &'static str)> = Vec::new();
        assert(logs.deep_view() =~= Seq::empty());
        add_logs(&mut logs, active, "active");
        assert(logs.deep_view() =~= logs_among(active.deep_view(), "active"@));
        add_logs(&mut logs, archived, "archived");
        sort::<(String, &'static str), ByPath>(logs)
    }

    /// What is stored of an event.
    pub fn rows(&self, event: JsonlEvent) -> (r: Vec<JsonlRow>)
        ensures
            r.deep_view() == rows_of_event(
                event.deep_view(),
                self.machine_id,
                self.collector_version@,
            ),
    {
        let ghost stated = event.deep_view();
        let ghost wanted = rows_of_event(stated, self.machine_id, self.collector_version@);
        let mut rows: Vec<JsonlRow> = Vec::new();
        match event {
            JsonlEvent::SessionMeta(event) => {
                rows.push(
                    JsonlRow::Session(
                        JsonlSessionMetadata {
                            machine_id: self.machine_id,
                            session_id: event.session_id,
                            observed_at_ms: event.observed_at_ms,
                            cli_version: event.cli_version,
                            model_provider: event.model_provider,
                            thread_source: event.thread_source,
                            source_digest: event.source_digest,
                            collector_version: self.collector_version.clone(),
                        },
                    ),
                );
            },
            JsonlEvent::ThreadSettings(event) => {
                rows.push(
                    JsonlRow::Setting(
                        JsonlThreadSetting {
                            machine_id: self.machine_id,
                            session_id: event.session_id,
                            observed_at_ms: event.observed_at_ms,
                            model: event.model,
                            model_provider_id: event.model_provider_id,
                            service_tier: event.service_tier,
                            source_digest: event.source_digest,
                            collector_version: self.collector_version.clone(),
                        },
                    ),
                );
            },
            JsonlEvent::TokenCount(event) => {
                let tokens = match event.last_token_usage {
                    Some(counts) => counts,
                    None => match event.total_token_usage {
                        Some(counts) => counts,
                        None => TokenCounts::default(),
                    },
                };
                let rate_limits = match &event.rate_limits {
                    Some(limits) => Some(limits.copy()),
                    None => None,
                };
                rows.push(
                    JsonlRow::Tokens(
                        JsonlTokenObservation {
                            machine_id: self.machine_id,
                            context_interval_id: None,
                            session_id: event.session_id.clone(),
                            turn_id: event.turn_id,
                            observed_at_ms: event.observed_at_ms,
                            tokens,
                            model: event.model,
                            model_provider: event.model_provider,
                            service_tier: Some(event.service_tier),
                            model_context_window: event.model_context_window,
                            rate_limits,
                            source_digest: event.source_digest.clone(),
                            collector_version: self.collector_version.clone(),
                        },
                    ),
                );
                if let Some(limits) = event.rate_limits {
                    let mut source_digest = event.source_digest.clone();
                    source_digest.append(":rate_limits");
                    rows.push(
                        JsonlRow::RateLimits(
                            JsonlRateLimitObservation {
                                machine_id: self.machine_id,
                                session_id: event.session_id,
                                observed_at_ms: event.observed_at_ms,
                                limit_id: limits.limit_id,
                                limit_name: limits.limit_name,
                                plan_type_raw: limits.plan_type_raw,
                                primary: limits.primary,
                                secondary: limits.secondary,
                                credits: limits.credits,
                                source_digest,
                                collector_version: self.collector_version.clone(),
                            },
                        ),
                    );
                }
            },
        }
        assert(rows.deep_view() =~= wanted);
        rows
    }

    /// What is stored of a log after it was read.
    pub fn file_state(
        &self,
        file: &ParsedFile,
        path_key: String,
        inode: Option<i64>,
        mtime_ms: Option<i64>,
        active_state: &str,
    ) -> (r: JsonlFileState)
        ensures
            r.deep_view() == state_after(
                file.deep_view(),
                self.machine_id,
                path_key@,
                inode,
                mtime_ms,
                active_state@,
            ),
    {
        JsonlFileState {
            machine_id: self.machine_id,
            path_key,
            session_id: copy_option(&file.context.session_id),
            inode,
            offset_bytes: file.next_offset,
            mtime_ms,
            digest: copy_option(&file.last_line_digest),
            active_state: active_state.to_owned(),
            cli_version: copy_option(&file.context.cli_version),
            model_provider: copy_option(&file.context.model_provider),
            thread_source: copy_option(&file.context.thread_source),
            session_started_at_ms: file.context.session_started_at_ms,
            last_model: copy_option(&file.context.last_model),
            last_model_provider_id: copy_option(&file.context.last_model_provider_id),
            last_service_tier: copy_option(&file.context.last_service_tier),
        }
    }
}

/// A second scan of a log that has not changed finds no event, and stores what was stored. The last
/// complete line of the log is one that the bytes before the cursor that are read again hold whole.
pub proof fn lemma_second_scan_finds_nothing(
    bytes: Seq<u8>,
    lines: Seq<LineView>,
    machine_id: i64,
    path_key: Seq<char>,
    inode: Option<i64>,
    mtime_ms: Option<i64>,
    active_state: Seq<char>,
)
    requires
        bytes.len() <= i64::MAX,
        complete_length(bytes) > 0,
        last_line_of(bytes.take(complete_length(bytes) as int)) is Some,
        last_line_of(bytes.take(complete_length(bytes) as int))->0.len()
            < MAX_CURSOR_VERIFICATION_BYTES - 1,
        file_read(
            bytes,
            lines,
            ScanStartView { reset: true, offset: 0, context: empty_cursor_context() },
            None,
        ) is Ok,
    ensures
        ({
            let length = bytes.len() as u64;
            let begin = ScanStartView { reset: true, offset: 0, context: empty_cursor_context() };
            let first = file_read(bytes, lines, begin, None)->Ok_0;
            let state = state_after(first, machine_id, path_key, inode, mtime_ms, active_state);
            let span = span_to_verify(Some(state), inode, length)->0;
            let actual = digest_before_cursor(
                bytes.subrange(span.0 as int, span.1 as int),
                span.0,
            );
            let start = start_of_scan(Some(state), inode, length, actual);
            let second = file_read(
                bytes.skip(start.offset as int),
                Seq::empty(),
                start,
                state.digest,
            );
            &&& second matches Ok(file)
            &&& file.events.len() == 0
            &&& !has_changed(Some(state), path_key, inode, file.next_offset)
            &&& state_after(file, machine_id, path_key, inode, mtime_ms, active_state) == state
        }),
{
    let begin = ScanStartView { reset: true, offset: 0, context: empty_cursor_context() };
    let first = file_read(bytes, lines, begin, None)->Ok_0;
    let state = state_after(first, machine_id, path_key, inode, mtime_ms, active_state);
    lemma_rest_is_one_line(bytes);
    lemma_nothing_is_read_twice(bytes, state, Seq::empty());
}

} // verus!
