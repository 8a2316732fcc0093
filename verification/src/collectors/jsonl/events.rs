//! The events of session logs.
use crate::digest::{hex_digest, hex_digest_of};
use crate::domain::models::TokenCounts;
use crate::json::{
    add_field, field, first_text, flag_member, flag_or_null, integer_or_null, json_quoted,
    object_member, object_text, percentage_in, percentage_or_null, quoted, text_member,
    text_or_null, views, write_flag, write_integer, write_object, write_text, Json, JsonView,
    Percentage, PercentageView,
};
use crate::num::{clamp_i64, saturating_mul, truncating_div};
use crate::pipelines::source::jsonl::{nanos_to_millis, parse_rfc3339, rfc3339};
use crate::text::{
    add_bytes, ascii_lower, copy_option, decimal, first_of, first_some, integer_of, integer_text,
    parse_integer, same, text_or, to_ascii_lowercase,
};
use vstd::prelude::*;
use vstd::string::*;
use vstd::utf8::encode_utf8;

verus! {

/// The session of an event that names none.
pub const UNKNOWN_SESSION_ID: &'static str = "unknown-session";

/// What is used of a limit within a window of time.
#[derive(Debug)]
pub struct JsonlRateLimitWindow {
    pub used_percent: Option<Percentage>,
    pub window_minutes: Option<i64>,
    pub resets_at_ms: Option<i64>,
}

/// A `JsonlRateLimitWindow` with its texts as sequences of characters.
#[verifier::ext_equal]
pub struct JsonlRateLimitWindowView {
    pub used_percent: Option<PercentageView>,
    pub window_minutes: Option<i64>,
    pub resets_at_ms: Option<i64>,
}

impl DeepView for JsonlRateLimitWindow {
    type V = JsonlRateLimitWindowView;

    open spec fn deep_view(&self) -> JsonlRateLimitWindowView {
        JsonlRateLimitWindowView {
            used_percent: self.used_percent.deep_view(),
            window_minutes: self.window_minutes,
            resets_at_ms: self.resets_at_ms,
        }
    }
}

/// The credits of an account.
#[derive(Debug)]
pub struct JsonlCredits {
    pub has_credits: Option<bool>,
    pub unlimited: Option<bool>,
    pub balance: Option<String>,
}

/// A `JsonlCredits` with its texts as sequences of characters.
#[verifier::ext_equal]
pub struct JsonlCreditsView {
    pub has_credits: Option<bool>,
    pub unlimited: Option<bool>,
    pub balance: Option<Seq<char>>,
}

impl DeepView for JsonlCredits {
    type V = JsonlCreditsView;

    open spec fn deep_view(&self) -> JsonlCreditsView {
        JsonlCreditsView {
            has_credits: self.has_credits,
            unlimited: self.unlimited,
            balance: self.balance.deep_view(),
        }
    }
}

impl JsonlCredits {
    /// A copy of the record.
    pub fn copy(&self) -> (r: Self)
        ensures
            r.deep_view() == self.deep_view(),
    {
        JsonlCredits {
            has_credits: self.has_credits,
            unlimited: self.unlimited,
            balance: copy_option(&self.balance),
        }
    }
}

/// The limits of an account.
#[derive(Debug)]
pub struct JsonlRateLimits {
    pub limit_id: String,
    pub limit_name: Option<String>,
    pub plan_type_raw: Option<String>,
    pub primary: JsonlRateLimitWindow,
    pub secondary: JsonlRateLimitWindow,
    pub credits: JsonlCredits,
}

/// A `JsonlRateLimits` with its texts as sequences of characters.
#[verifier::ext_equal]
pub struct JsonlRateLimitsView {
    pub limit_id: Seq<char>,
    pub limit_name: Option<Seq<char>>,
    pub plan_type_raw: Option<Seq<char>>,
    pub primary: JsonlRateLimitWindowView,
    pub secondary: JsonlRateLimitWindowView,
    pub credits: JsonlCreditsView,
}

impl DeepView for JsonlRateLimits {
    type V = JsonlRateLimitsView;

    open spec fn deep_view(&self) -> JsonlRateLimitsView {
        JsonlRateLimitsView {
            limit_id: self.limit_id@,
            limit_name: self.limit_name.deep_view(),
            plan_type_raw: self.plan_type_raw.deep_view(),
            primary: self.primary.deep_view(),
            secondary: self.secondary.deep_view(),
            credits: self.credits.deep_view(),
        }
    }
}

impl JsonlRateLimits {
    /// A copy of the record.
    pub fn copy(&self) -> (r: Self)
        ensures
            r.deep_view() == self.deep_view(),
    {
        JsonlRateLimits {
            limit_id: self.limit_id.clone(),
            limit_name: copy_option(&self.limit_name),
            plan_type_raw: copy_option(&self.plan_type_raw),
            primary: self.primary.copy(),
            secondary: self.secondary.copy(),
            credits: self.credits.copy(),
        }
    }
}

/// The start of a session.
#[derive(Debug)]
pub struct JsonlSessionMetaEvent {
    pub session_id: String,
    pub observed_at_ms: i64,
    pub cli_version: Option<String>,
    pub model_provider: Option<String>,
    pub thread_source: Option<String>,
    pub source_digest: String,
}

/// A `JsonlSessionMetaEvent` with its texts as sequences of characters.
#[verifier::ext_equal]
pub struct JsonlSessionMetaEventView {
    pub session_id: Seq<char>,
    pub observed_at_ms: i64,
    pub cli_version: Option<Seq<char>>,
    pub model_provider: Option<Seq<char>>,
    pub thread_source: Option<Seq<char>>,
    pub source_digest: Seq<char>,
}

impl DeepView for JsonlSessionMetaEvent {
    type V = JsonlSessionMetaEventView;

    open spec fn deep_view(&self) -> JsonlSessionMetaEventView {
        JsonlSessionMetaEventView {
            session_id: self.session_id@,
            observed_at_ms: self.observed_at_ms,
            cli_version: self.cli_version.deep_view(),
            model_provider: self.model_provider.deep_view(),
            thread_source: self.thread_source.deep_view(),
            source_digest: self.source_digest@,
        }
    }
}

impl JsonlSessionMetaEvent {
    /// A copy of the record.
    pub fn copy(&self) -> (r: Self)
        ensures
            r.deep_view() == self.deep_view(),
    {
        JsonlSessionMetaEvent {
            session_id: self.session_id.clone(),
            observed_at_ms: self.observed_at_ms,
            cli_version: copy_option(&self.cli_version),
            model_provider: copy_option(&self.model_provider),
            thread_source: copy_option(&self.thread_source),
            source_digest: self.source_digest.clone(),
        }
    }
}

/// A change of the settings of a session.
#[derive(Debug)]
pub struct JsonlThreadSettingsEvent {
    pub session_id: String,
    pub observed_at_ms: i64,
    pub model: Option<String>,
    pub model_provider_id: Option<String>,
    pub service_tier: String,
    pub source_digest: String,
}

/// A `JsonlThreadSettingsEvent` with its texts as sequences of characters.
#[verifier::ext_equal]
pub struct JsonlThreadSettingsEventView {
    pub session_id: Seq<char>,
    pub observed_at_ms: i64,
    pub model: Option<Seq<char>>,
    pub model_provider_id: Option<Seq<char>>,
    pub service_tier: Seq<char>,
    pub source_digest: Seq<char>,
}

impl DeepView for JsonlThreadSettingsEvent {
    type V = JsonlThreadSettingsEventView;

    open spec fn deep_view(&self) -> JsonlThreadSettingsEventView {
        JsonlThreadSettingsEventView {
            session_id: self.session_id@,
            observed_at_ms: self.observed_at_ms,
            model: self.model.deep_view(),
            model_provider_id: self.model_provider_id.deep_view(),
            service_tier: self.service_tier@,
            source_digest: self.source_digest@,
        }
    }
}

impl JsonlThreadSettingsEvent {
    /// A copy of the record.
    pub fn copy(&self) -> (r: Self)
        ensures
            r.deep_view() == self.deep_view(),
    {
        JsonlThreadSettingsEvent {
            session_id: self.session_id.clone(),
            observed_at_ms: self.observed_at_ms,
            model: copy_option(&self.model),
            model_provider_id: copy_option(&self.model_provider_id),
            service_tier: self.service_tier.clone(),
            source_digest: self.source_digest.clone(),
        }
    }
}

/// A count of tokens.
#[derive(Debug)]
pub struct JsonlTokenCountEvent {
    pub session_id: String,
    pub turn_id: Option<String>,
    pub observed_at_ms: i64,
    pub last_token_usage: Option<TokenCounts>,
    pub total_token_usage: Option<TokenCounts>,
    pub model: Option<String>,
    pub model_provider: Option<String>,
    pub service_tier: String,
    pub model_context_window: Option<i64>,
    pub rate_limits: Option<JsonlRateLimits>,
    pub source_digest: String,
}

/// A `JsonlTokenCountEvent` with its texts as sequences of characters.
#[verifier::ext_equal]
pub struct JsonlTokenCountEventView {
    pub session_id: Seq<char>,
    pub turn_id: Option<Seq<char>>,
    pub observed_at_ms: i64,
    pub last_token_usage: Option<TokenCounts>,
    pub total_token_usage: Option<TokenCounts>,
    pub model: Option<Seq<char>>,
    pub model_provider: Option<Seq<char>>,
    pub service_tier: Seq<char>,
    pub model_context_window: Option<i64>,
    pub rate_limits: Option<JsonlRateLimitsView>,
    pub source_digest: Seq<char>,
}

impl DeepView for JsonlTokenCountEvent {
    type V = JsonlTokenCountEventView;

    open spec fn deep_view(&self) -> JsonlTokenCountEventView {
        JsonlTokenCountEventView {
            session_id: self.session_id@,
            turn_id: self.turn_id.deep_view(),
            observed_at_ms: self.observed_at_ms,
            last_token_usage: self.last_token_usage,
            total_token_usage: self.total_token_usage,
            model: self.model.deep_view(),
            model_provider: self.model_provider.deep_view(),
            service_tier: self.service_tier@,
            model_context_window: self.model_context_window,
            rate_limits: self.rate_limits.deep_view(),
            source_digest: self.source_digest@,
        }
    }
}

/// What the lines of a log that were read so far tell of its session.
#[derive(Debug)]
pub struct CursorContext {
    pub session_id: Option<String>,
    pub cli_version: Option<String>,
    pub model_provider: Option<String>,
    pub thread_source: Option<String>,
    pub session_started_at_ms: Option<i64>,
    pub last_model: Option<String>,
    pub last_model_provider_id: Option<String>,
    pub last_service_tier: Option<String>,
}

/// A `CursorContext` with its texts as sequences of characters.
#[verifier::ext_equal]
pub struct CursorContextView {
    pub session_id: Option<Seq<char>>,
    pub cli_version: Option<Seq<char>>,
    pub model_provider: Option<Seq<char>>,
    pub thread_source: Option<Seq<char>>,
    pub session_started_at_ms: Option<i64>,
    pub last_model: Option<Seq<char>>,
    pub last_model_provider_id: Option<Seq<char>>,
    pub last_service_tier: Option<Seq<char>>,
}

impl DeepView for CursorContext {
    type V = CursorContextView;

    open spec fn deep_view(&self) -> CursorContextView {
        CursorContextView {
            session_id: self.session_id.deep_view(),
            cli_version: self.cli_version.deep_view(),
            model_provider: self.model_provider.deep_view(),
            thread_source: self.thread_source.deep_view(),
            session_started_at_ms: self.session_started_at_ms,
            last_model: self.last_model.deep_view(),
            last_model_provider_id: self.last_model_provider_id.deep_view(),
            last_service_tier: self.last_service_tier.deep_view(),
        }
    }
}

/// A `CursorContext` of which nothing is known.
pub open spec fn empty_cursor_context() -> CursorContextView {
    CursorContextView {
        session_id: None,
        cli_version: None,
        model_provider: None,
        thread_source: None,
        session_started_at_ms: None,
        last_model: None,
        last_model_provider_id: None,
        last_service_tier: None,
    }
}

impl Default for CursorContext {
    fn default() -> (r: Self)
        ensures
            r.deep_view() == empty_cursor_context(),
    {
        let r = CursorContext {
            session_id: None,
            cli_version: None,
            model_provider: None,
            thread_source: None,
            session_started_at_ms: None,
            last_model: None,
            last_model_provider_id: None,
            last_service_tier: None,
        };
        assert(r.deep_view() =~= empty_cursor_context());
        r
    }
}

impl CursorContext {
    /// A copy of the record.
    pub fn copy(&self) -> (r: Self)
        ensures
            r.deep_view() == self.deep_view(),
    {
        CursorContext {
            session_id: copy_option(&self.session_id),
            cli_version: copy_option(&self.cli_version),
            model_provider: copy_option(&self.model_provider),
            thread_source: copy_option(&self.thread_source),
            session_started_at_ms: self.session_started_at_ms,
            last_model: copy_option(&self.last_model),
            last_model_provider_id: copy_option(&self.last_model_provider_id),
            last_service_tier: copy_option(&self.last_service_tier),
        }
    }
}

/// An event of a session.
#[derive(Debug)]
pub enum JsonlEvent {
    SessionMeta(JsonlSessionMetaEvent),
    ThreadSettings(JsonlThreadSettingsEvent),
    TokenCount(JsonlTokenCountEvent),
}

/// A `JsonlEvent` with its texts as sequences of characters.
#[verifier::ext_equal]
pub enum JsonlEventView {
    SessionMeta(JsonlSessionMetaEventView),
    ThreadSettings(JsonlThreadSettingsEventView),
    TokenCount(JsonlTokenCountEventView),
}

impl DeepView for JsonlEvent {
    type V = JsonlEventView;

    open spec fn deep_view(&self) -> JsonlEventView {
        match self {
            JsonlEvent::SessionMeta(event) => JsonlEventView::SessionMeta(event.deep_view()),
            JsonlEvent::ThreadSettings(event) => JsonlEventView::ThreadSettings(event.deep_view()),
            JsonlEvent::TokenCount(event) => JsonlEventView::TokenCount(event.deep_view()),
        }
    }
}

/// A window of which nothing is known.
pub open spec fn no_window() -> JsonlRateLimitWindowView {
    JsonlRateLimitWindowView { used_percent: None, window_minutes: None, resets_at_ms: None }
}

impl Default for JsonlRateLimitWindow {
    fn default() -> (r: Self)
        ensures
            r.deep_view() == no_window(),
    {
        JsonlRateLimitWindow { used_percent: None, window_minutes: None, resets_at_ms: None }
    }
}

impl JsonlRateLimitWindow {
    /// A copy of the record.
    pub fn copy(&self) -> (r: Self)
        ensures
            r.deep_view() == self.deep_view(),
    {
        JsonlRateLimitWindow {
            used_percent: match &self.used_percent {
                Some(percentage) => Some(percentage.copy()),
                None => None,
            },
            window_minutes: self.window_minutes,
            resets_at_ms: self.resets_at_ms,
        }
    }
}

/// Credits of which nothing is known.
pub open spec fn no_credits() -> JsonlCreditsView {
    JsonlCreditsView { has_credits: None, unlimited: None, balance: None }
}

impl Default for JsonlCredits {
    fn default() -> (r: Self)
        ensures
            r.deep_view() == no_credits(),
    {
        JsonlCredits { has_credits: None, unlimited: None, balance: None }
    }
}

/// Counts of tokens in writing, `null` where there are none.
pub open spec fn counts_text(value: Option<TokenCounts>) -> Seq<char> {
    match value {
        Some(counts) => object_text(
            seq![
                field("input_tokens"@, integer_text(counts.input_tokens as int)),
                field("cached_input_tokens"@, integer_text(counts.cached_input_tokens as int)),
                field(
                    "cache_write_input_tokens"@,
                    integer_text(counts.cache_write_input_tokens as int),
                ),
                field("output_tokens"@, integer_text(counts.output_tokens as int)),
                field(
                    "reasoning_output_tokens"@,
                    integer_text(counts.reasoning_output_tokens as int),
                ),
                field("total_tokens"@, integer_text(counts.total_tokens as int)),
            ],
        ),
        None => "null"@,
    }
}

/// A window in writing.
pub open spec fn window_text(window: JsonlRateLimitWindowView) -> Seq<char> {
    object_text(
        seq![
            field("used_percent"@, percentage_or_null(window.used_percent)),
            field("window_minutes"@, integer_or_null(window.window_minutes)),
            field("resets_at_ms"@, integer_or_null(window.resets_at_ms)),
        ],
    )
}

/// Credits in writing.
pub open spec fn credits_text(credits: JsonlCreditsView) -> Seq<char> {
    object_text(
        seq![
            field("has_credits"@, flag_or_null(credits.has_credits)),
            field("unlimited"@, flag_or_null(credits.unlimited)),
            field("balance"@, text_or_null(credits.balance)),
        ],
    )
}

/// Limits in writing, `null` where there are none.
pub open spec fn limits_text(value: Option<JsonlRateLimitsView>) -> Seq<char> {
    match value {
        Some(limits) => object_text(
            seq![
                field("limit_id"@, json_quoted(limits.limit_id)),
                field("limit_name"@, text_or_null(limits.limit_name)),
                field("plan_type_raw"@, text_or_null(limits.plan_type_raw)),
                field("primary"@, window_text(limits.primary)),
                field("secondary"@, window_text(limits.secondary)),
                field("credits"@, credits_text(limits.credits)),
            ],
        ),
        None => "null"@,
    }
}

/// The digest of a kind of event and the event in writing.
pub open spec fn digest_of_event(kind: Seq<char>, text: Seq<char>) -> Seq<char> {
    hex_digest_of(encode_utf8(kind) + seq![0u8] + encode_utf8(text))
}

/// The digest of an event: of its kind and of all that it states.
pub open spec fn event_digest_of(event: JsonlEventView) -> Seq<char> {
    match event {
        JsonlEventView::SessionMeta(event) => digest_of_event(
            "session_meta"@,
            object_text(
                seq![
                    field("session_id"@, json_quoted(event.session_id)),
                    field("observed_at_ms"@, integer_text(event.observed_at_ms as int)),
                    field("cli_version"@, text_or_null(event.cli_version)),
                    field("model_provider"@, text_or_null(event.model_provider)),
                    field("thread_source"@, text_or_null(event.thread_source)),
                ],
            ),
        ),
        JsonlEventView::ThreadSettings(event) => digest_of_event(
            "thread_settings_applied"@,
            object_text(
                seq![
                    field("session_id"@, json_quoted(event.session_id)),
                    field("observed_at_ms"@, integer_text(event.observed_at_ms as int)),
                    field("model"@, text_or_null(event.model)),
                    field("model_provider_id"@, text_or_null(event.model_provider_id)),
                    field("service_tier"@, json_quoted(event.service_tier)),
                ],
            ),
        ),
        JsonlEventView::TokenCount(event) => digest_of_event(
            "token_count"@,
            object_text(
                seq![
                    field("session_id"@, json_quoted(event.session_id)),
                    field("turn_id"@, text_or_null(event.turn_id)),
                    field("observed_at_ms"@, integer_text(event.observed_at_ms as int)),
                    field("last_token_usage"@, counts_text(event.last_token_usage)),
                    field("total_token_usage"@, counts_text(event.total_token_usage)),
                    field("model"@, text_or_null(event.model)),
                    field("model_provider"@, text_or_null(event.model_provider)),
                    field("service_tier"@, json_quoted(event.service_tier)),
                    field("model_context_window"@, integer_or_null(event.model_context_window)),
                    field("rate_limits"@, limits_text(event.rate_limits)),
                ],
            ),
        ),
    }
}

/// An event under its digest.
pub open spec fn with_digest(event: JsonlEventView) -> JsonlEventView {
    let digest = event_digest_of(event);
    match event {
        JsonlEventView::SessionMeta(event) => JsonlEventView::SessionMeta(
            JsonlSessionMetaEventView { source_digest: digest, ..event },
        ),
        JsonlEventView::ThreadSettings(event) => JsonlEventView::ThreadSettings(
            JsonlThreadSettingsEventView { source_digest: digest, ..event },
        ),
        JsonlEventView::TokenCount(event) => JsonlEventView::TokenCount(
            JsonlTokenCountEventView { source_digest: digest, ..event },
        ),
    }
}

/// The session of an event.
pub open spec fn session_of(event: JsonlEventView) -> Seq<char> {
    match event {
        JsonlEventView::SessionMeta(event) => event.session_id,
        JsonlEventView::ThreadSettings(event) => event.session_id,
        JsonlEventView::TokenCount(event) => event.session_id,
    }
}

/// An event as one of the session `session_id`.
pub open spec fn of_session(event: JsonlEventView, session_id: Seq<char>) -> JsonlEventView {
    match event {
        JsonlEventView::SessionMeta(event) => JsonlEventView::SessionMeta(
            JsonlSessionMetaEventView { session_id, ..event },
        ),
        JsonlEventView::ThreadSettings(event) => JsonlEventView::ThreadSettings(
            JsonlThreadSettingsEventView { session_id, ..event },
        ),
        JsonlEventView::TokenCount(event) => JsonlEventView::TokenCount(
            JsonlTokenCountEventView { session_id, ..event },
        ),
    }
}

/// An event of no known session as one of `session_id`, under the digest that it has then.
pub open spec fn resolved(event: JsonlEventView, session_id: Seq<char>) -> JsonlEventView {
    if session_of(event) == UNKNOWN_SESSION_ID@ {
        with_digest(of_session(event, session_id))
    } else {
        event
    }
}

fn write_counts(value: &Option<TokenCounts>) -> (r: String)
    ensures
        r@ == counts_text(*value),
{
    match value {
        Some(counts) => {
            let mut fields: Vec<String> = Vec::new();
            assert(fields.deep_view() =~= Seq::empty());
            add_field(&mut fields, "input_tokens", decimal(counts.input_tokens));
            add_field(&mut fields, "cached_input_tokens", decimal(counts.cached_input_tokens));
            add_field(
                &mut fields,
                "cache_write_input_tokens",
                decimal(counts.cache_write_input_tokens),
            );
            add_field(&mut fields, "output_tokens", decimal(counts.output_tokens));
            add_field(
                &mut fields,
                "reasoning_output_tokens",
                decimal(counts.reasoning_output_tokens),
            );
            add_field(&mut fields, "total_tokens", decimal(counts.total_tokens));
            assert(fields.deep_view() =~= seq![
                field("input_tokens"@, integer_text(counts.input_tokens as int)),
                field("cached_input_tokens"@, integer_text(counts.cached_input_tokens as int)),
                field(
                    "cache_write_input_tokens"@,
                    integer_text(counts.cache_write_input_tokens as int),
                ),
                field("output_tokens"@, integer_text(counts.output_tokens as int)),
                field(
                    "reasoning_output_tokens"@,
                    integer_text(counts.reasoning_output_tokens as int),
                ),
                field("total_tokens"@, integer_text(counts.total_tokens as int)),
            ]);
            write_object(&fields)
        },
        None => "null".to_owned(),
    }
}

fn write_window(window: &JsonlRateLimitWindow) -> (r: String)
    ensures
        r@ == window_text(window.deep_view()),
{
    let percentage = match &window.used_percent {
        Some(percentage) => percentage.text.clone(),
        None => "null".to_owned(),
    };
    let mut fields: Vec<String> = Vec::new();
    assert(fields.deep_view() =~= Seq::empty());
    add_field(&mut fields, "used_percent", percentage);
    add_field(&mut fields, "window_minutes", write_integer(window.window_minutes));
    add_field(&mut fields, "resets_at_ms", write_integer(window.resets_at_ms));
    assert(fields.deep_view() =~= seq![
        field("used_percent"@, percentage_or_null(window.deep_view().used_percent)),
        field("window_minutes"@, integer_or_null(window.window_minutes)),
        field("resets_at_ms"@, integer_or_null(window.resets_at_ms)),
    ]);
    write_object(&fields)
}

fn write_credits(credits: &JsonlCredits) -> (r: String)
    ensures
        r@ == credits_text(credits.deep_view()),
{
    let mut fields: Vec<String> = Vec::new();
    assert(fields.deep_view() =~= Seq::empty());
    add_field(&mut fields, "has_credits", write_flag(credits.has_credits));
    add_field(&mut fields, "unlimited", write_flag(credits.unlimited));
    add_field(&mut fields, "balance", write_text(&credits.balance));
    assert(fields.deep_view() =~= seq![
        field("has_credits"@, flag_or_null(credits.has_credits)),
        field("unlimited"@, flag_or_null(credits.unlimited)),
        field("balance"@, text_or_null(credits.balance.deep_view())),
    ]);
    write_object(&fields)
}

fn write_limits(value: &Option<JsonlRateLimits>) -> (r: String)
    ensures
        r@ == limits_text(value.deep_view()),
{
    match value {
        Some(limits) => {
            let mut fields: Vec<String> = Vec::new();
            assert(fields.deep_view() =~= Seq::empty());
            add_field(&mut fields, "limit_id", quoted(limits.limit_id.as_str()));
            add_field(&mut fields, "limit_name", write_text(&limits.limit_name));
            add_field(&mut fields, "plan_type_raw", write_text(&limits.plan_type_raw));
            add_field(&mut fields, "primary", write_window(&limits.primary));
            add_field(&mut fields, "secondary", write_window(&limits.secondary));
            add_field(&mut fields, "credits", write_credits(&limits.credits));
            assert(fields.deep_view() =~= seq![
                field("limit_id"@, json_quoted(limits.limit_id@)),
                field("limit_name"@, text_or_null(limits.limit_name.deep_view())),
                field("plan_type_raw"@, text_or_null(limits.plan_type_raw.deep_view())),
                field("primary"@, window_text(limits.primary.deep_view())),
                field("secondary"@, window_text(limits.secondary.deep_view())),
                field("credits"@, credits_text(limits.credits.deep_view())),
            ]);
            write_object(&fields)
        },
        None => "null".to_owned(),
    }
}

/// The digest of a kind of event and the event in writing.
pub fn event_digest(kind: &str, text: &str) -> (r: String)
    ensures
        r@ == digest_of_event(kind@, text@),
{
    let mut bytes: Vec<u8> = Vec::new();
    add_bytes(&mut bytes, kind.as_bytes());
    bytes.push(0);
    add_bytes(&mut bytes, text.as_bytes());
    assert(bytes@ =~= encode_utf8(kind@) + seq![0u8] + encode_utf8(text@));
    hex_digest(bytes.as_slice())
}

impl JsonlEvent {
    fn digest(&self) -> (r: String)
        ensures
            r@ == event_digest_of(self.deep_view()),
    {
        let mut fields: Vec<String> = Vec::new();
        assert(fields.deep_view() =~= Seq::empty());
        match self {
            JsonlEvent::SessionMeta(event) => {
                add_field(&mut fields, "session_id", quoted(event.session_id.as_str()));
                add_field(&mut fields, "observed_at_ms", decimal(event.observed_at_ms));
                add_field(&mut fields, "cli_version", write_text(&event.cli_version));
                add_field(&mut fields, "model_provider", write_text(&event.model_provider));
                add_field(&mut fields, "thread_source", write_text(&event.thread_source));
                assert(fields.deep_view() =~= seq![
                    field("session_id"@, json_quoted(event.session_id@)),
                    field("observed_at_ms"@, integer_text(event.observed_at_ms as int)),
                    field("cli_version"@, text_or_null(event.cli_version.deep_view())),
                    field("model_provider"@, text_or_null(event.model_provider.deep_view())),
                    field("thread_source"@, text_or_null(event.thread_source.deep_view())),
                ]);
                event_digest("session_meta", write_object(&fields).as_str())
            },
            JsonlEvent::ThreadSettings(event) => {
                add_field(&mut fields, "session_id", quoted(event.session_id.as_str()));
                add_field(&mut fields, "observed_at_ms", decimal(event.observed_at_ms));
                add_field(&mut fields, "model", write_text(&event.model));
                add_field(&mut fields, "model_provider_id", write_text(&event.model_provider_id));
                add_field(&mut fields, "service_tier", quoted(event.service_tier.as_str()));
                assert(fields.deep_view() =~= seq![
                    field("session_id"@, json_quoted(event.session_id@)),
                    field("observed_at_ms"@, integer_text(event.observed_at_ms as int)),
                    field("model"@, text_or_null(event.model.deep_view())),
                    field("model_provider_id"@, text_or_null(event.model_provider_id.deep_view())),
                    field("service_tier"@, json_quoted(event.service_tier@)),
                ]);
                event_digest("thread_settings_applied", write_object(&fields).as_str())
            },
            JsonlEvent::TokenCount(event) => {
                add_field(&mut fields, "session_id", quoted(event.session_id.as_str()));
                add_field(&mut fields, "turn_id", write_text(&event.turn_id));
                add_field(&mut fields, "observed_at_ms", decimal(event.observed_at_ms));
                add_field(&mut fields, "last_token_usage", write_counts(&event.last_token_usage));
                add_field(
                    &mut fields,
                    "total_token_usage",
                    write_counts(&event.total_token_usage),
                );
                add_field(&mut fields, "model", write_text(&event.model));
                add_field(&mut fields, "model_provider", write_text(&event.model_provider));
                add_field(&mut fields, "service_tier", quoted(event.service_tier.as_str()));
                add_field(
                    &mut fields,
                    "model_context_window",
                    write_integer(event.model_context_window),
                );
                add_field(&mut fields, "rate_limits", write_limits(&event.rate_limits));
                assert(fields.deep_view() =~= seq![
                    field("session_id"@, json_quoted(event.session_id@)),
                    field("turn_id"@, text_or_null(event.turn_id.deep_view())),
                    field("observed_at_ms"@, integer_text(event.observed_at_ms as int)),
                    field("last_token_usage"@, counts_text(event.last_token_usage)),
                    field("total_token_usage"@, counts_text(event.total_token_usage)),
                    field("model"@, text_or_null(event.model.deep_view())),
                    field("model_provider"@, text_or_null(event.model_provider.deep_view())),
                    field("service_tier"@, json_quoted(event.service_tier@)),
                    field("model_context_window"@, integer_or_null(event.model_context_window)),
                    field("rate_limits"@, limits_text(event.rate_limits.deep_view())),
                ]);
                event_digest("token_count", write_object(&fields).as_str())
            },
        }
    }

    /// The event under the digest of what it states.
    pub fn refresh_digest(self) -> (r: JsonlEvent)
        ensures
            r.deep_view() == with_digest(self.deep_view()),
    {
        let source_digest = self.digest();
        match self {
            JsonlEvent::SessionMeta(event) => JsonlEvent::SessionMeta(
                JsonlSessionMetaEvent { source_digest, ..event },
            ),
            JsonlEvent::ThreadSettings(event) => JsonlEvent::ThreadSettings(
                JsonlThreadSettingsEvent { source_digest, ..event },
            ),
            JsonlEvent::TokenCount(event) => JsonlEvent::TokenCount(
                JsonlTokenCountEvent { source_digest, ..event },
            ),
        }
    }

    /// The event as one of `session_id` where its own session is not known.
    pub fn resolve_unknown_session(self, session_id: &str) -> (r: JsonlEvent)
        ensures
            r.deep_view() == resolved(self.deep_view(), session_id@),
    {
        let unknown = match &self {
            JsonlEvent::SessionMeta(event) => same(event.session_id.as_str(), UNKNOWN_SESSION_ID),
            JsonlEvent::ThreadSettings(event) => same(
                event.session_id.as_str(),
                UNKNOWN_SESSION_ID,
            ),
            JsonlEvent::TokenCount(event) => same(event.session_id.as_str(), UNKNOWN_SESSION_ID),
        };
        if !unknown {
            return self;
        }
        let session_id = session_id.to_owned();
        let event = match self {
            JsonlEvent::SessionMeta(event) => JsonlEvent::SessionMeta(
                JsonlSessionMetaEvent { session_id, ..event },
            ),
            JsonlEvent::ThreadSettings(event) => JsonlEvent::ThreadSettings(
                JsonlThreadSettingsEvent { session_id, ..event },
            ),
            JsonlEvent::TokenCount(event) => JsonlEvent::TokenCount(
                JsonlTokenCountEvent { session_id, ..event },
            ),
        };
        event.refresh_digest()
    }
}

/// The integer that a value gives as a number or in writing.
pub open spec fn integer_value(value: JsonView) -> Option<i64> {
    match value.as_exact() {
        Some(n) => Some(n),
        None => match value.as_text() {
            Some(text) => integer_of(text),
            None => None,
        },
    }
}

/// The integer of a member.
pub open spec fn integer_member(value: JsonView, key: Seq<char>) -> Option<i64> {
    match value.get(key) {
        Some(found) => integer_value(found),
        None => None,
    }
}

/// The milliseconds since the Unix epoch of a number of seconds or of milliseconds.
pub open spec fn milliseconds(value: i64) -> i64 {
    if -1_000_000_000_000 < value < 1_000_000_000_000 {
        clamp_i64(value * 1_000)
    } else {
        value
    }
}

/// The instant of a member `timestamp`.
pub open spec fn instant_in(value: JsonView) -> Option<i64> {
    match value.get("timestamp"@) {
        Some(JsonView::Text(text)) => match rfc3339(text) {
            Ok(nanos) => Some(truncating_div(nanos, 1_000_000) as i64),
            Err(_) => None,
        },
        Some(found) => match integer_value(found) {
            Some(n) => Some(milliseconds(n)),
            None => None,
        },
        None => None,
    }
}

/// The service tier by its name.
pub open spec fn normal_tier(value: Option<Seq<char>>) -> Seq<char> {
    match value {
        Some(name) => {
            let lowered = ascii_lower(name);
            if lowered == "fast"@ || lowered == "priority"@ {
                "fast"@
            } else if lowered == "standard"@ || lowered == "default"@ {
                "standard"@
            } else {
                "unknown"@
            }
        },
        None => "unknown"@,
    }
}

/// The count of a member that is not negative.
pub open spec fn count_member(value: JsonView, key: Seq<char>) -> Option<i64> {
    match integer_member(value, key) {
        Some(n) => if n >= 0 {
            Some(n)
        } else {
            None
        },
        None => None,
    }
}

/// A count, nothing where it is not known.
pub open spec fn count_or_zero(value: Option<i64>) -> i64 {
    match value {
        Some(n) => n,
        None => 0,
    }
}

/// The counts of tokens of a value that gives any.
pub open spec fn counts_of(value: JsonView) -> Option<TokenCounts> {
    let input = count_member(value, "input_tokens"@);
    let cached = count_member(value, "cached_input_tokens"@);
    let cache_write = count_member(value, "cache_write_input_tokens"@);
    let output = count_member(value, "output_tokens"@);
    let reasoning = count_member(value, "reasoning_output_tokens"@);
    let total = count_member(value, "total_tokens"@);
    if input is Some || cached is Some || cache_write is Some || output is Some || reasoning is Some
        || total is Some {
        Some(
            TokenCounts {
                input_tokens: count_or_zero(input),
                cached_input_tokens: count_or_zero(cached),
                cache_write_input_tokens: count_or_zero(cache_write),
                output_tokens: count_or_zero(output),
                reasoning_output_tokens: count_or_zero(reasoning),
                total_tokens: count_or_zero(total),
            },
        )
    } else {
        None
    }
}

/// The counts of tokens of a member.
pub open spec fn counts_member(value: Option<JsonView>, key: Seq<char>) -> Option<TokenCounts> {
    match value {
        Some(value) => match value.get(key) {
            Some(found) => counts_of(found),
            None => None,
        },
        None => None,
    }
}

/// The window of a member.
pub open spec fn window_member(value: JsonView, key: Seq<char>) -> JsonlRateLimitWindowView {
    match object_member(value, key) {
        Some(window) => JsonlRateLimitWindowView {
            used_percent: percentage_in(window, "used_percent"@),
            window_minutes: integer_member(window, "window_minutes"@),
            resets_at_ms: match integer_member(window, "resets_at"@) {
                Some(n) => Some(milliseconds(n)),
                None => None,
            },
        },
        None => no_window(),
    }
}

/// The credits of a member.
pub open spec fn credits_member(value: JsonView, key: Seq<char>) -> JsonlCreditsView {
    match object_member(value, key) {
        Some(credits) => JsonlCreditsView {
            has_credits: flag_member(credits, "has_credits"@),
            unlimited: flag_member(credits, "unlimited"@),
            balance: text_member(credits, "balance"@),
        },
        None => no_credits(),
    }
}

/// The limits of an account by their description.
pub open spec fn limits_of(value: JsonView) -> JsonlRateLimitsView {
    JsonlRateLimitsView {
        limit_id: text_or(first_text(value, seq!["limit_id"@, "id"@]), "unknown-limit"@),
        limit_name: first_text(value, seq!["limit_name"@, "name"@]),
        plan_type_raw: text_member(value, "plan_type"@),
        primary: window_member(value, "primary"@),
        secondary: window_member(value, "secondary"@),
        credits: credits_member(value, "credits"@),
    }
}

/// The session that an event names, else that of the log.
pub open spec fn event_session(payload: JsonView, context: CursorContextView) -> Seq<char> {
    text_or(
        first_some(
            first_text(payload, seq!["session_id"@, "thread_id"@, "threadId"@]),
            context.session_id,
        ),
        UNKNOWN_SESSION_ID@,
    )
}

/// What is known after a line, and the event that it states.
#[verifier::ext_equal]
pub struct LineRead {
    pub context: CursorContextView,
    pub event: Option<JsonlEventView>,
}

/// The start of a session is read.
pub open spec fn session_read(payload: JsonView, context: CursorContextView, at: i64) -> LineRead {
    let session_id = text_or(first_text(payload, seq!["session_id"@, "id"@]), UNKNOWN_SESSION_ID@);
    let event = JsonlSessionMetaEventView {
        session_id,
        observed_at_ms: at,
        cli_version: text_member(payload, "cli_version"@),
        model_provider: text_member(payload, "model_provider"@),
        thread_source: text_member(payload, "thread_source"@),
        source_digest: Seq::empty(),
    };
    LineRead {
        context: CursorContextView {
            session_id: Some(session_id),
            cli_version: event.cli_version,
            model_provider: event.model_provider,
            thread_source: event.thread_source,
            session_started_at_ms: Some(at),
            ..context
        },
        event: Some(with_digest(JsonlEventView::SessionMeta(event))),
    }
}

/// Settings are read.
pub open spec fn settings_read(payload: JsonView, context: CursorContextView, at: i64) -> LineRead {
    let settings = match object_member(payload, "thread_settings"@) {
        Some(settings) => settings,
        None => payload,
    };
    let model = text_member(settings, "model"@);
    let provider = first_text(settings, seq!["model_provider_id"@, "provider"@]);
    let tier = normal_tier(text_member(settings, "service_tier"@));
    let after = CursorContextView {
        last_model: model,
        last_model_provider_id: provider,
        last_service_tier: Some(tier),
        model_provider: first_some(context.model_provider, provider),
        ..context
    };
    LineRead {
        context: after,
        event: Some(
            with_digest(
                JsonlEventView::ThreadSettings(
                    JsonlThreadSettingsEventView {
                        session_id: event_session(payload, after),
                        observed_at_ms: at,
                        model,
                        model_provider_id: provider,
                        service_tier: tier,
                        source_digest: Seq::empty(),
                    },
                ),
            ),
        ),
    }
}

/// The tier of a count of tokens: the one that it names, else that of the settings.
pub open spec fn count_tier(payload: JsonView, context: CursorContextView) -> Seq<char> {
    match text_member(payload, "service_tier"@) {
        Some(name) => normal_tier(Some(name)),
        None => text_or(context.last_service_tier, "unknown"@),
    }
}

/// The model of a count of tokens: the one that it names, else that of the settings.
pub open spec fn count_model(
    payload: JsonView,
    info: Option<JsonView>,
    context: CursorContextView,
) -> Option<Seq<char>> {
    let named = match info {
        Some(info) => text_member(info, "model"@),
        None => None,
    };
    first_some(text_member(payload, "model"@), first_some(named, context.last_model))
}

/// The event of a count of tokens.
pub open spec fn count_event(
    payload: JsonView,
    context: CursorContextView,
    at: i64,
) -> JsonlTokenCountEventView {
    let info = object_member(payload, "info"@);
    JsonlTokenCountEventView {
        session_id: event_session(payload, context),
        turn_id: first_text(payload, seq!["turn_id"@, "turnId"@]),
        observed_at_ms: at,
        last_token_usage: counts_member(info, "last_token_usage"@),
        total_token_usage: counts_member(info, "total_token_usage"@),
        model: count_model(payload, info, context),
        model_provider: first_some(text_member(payload, "model_provider"@), context.model_provider),
        service_tier: count_tier(payload, context),
        model_context_window: match info {
            Some(info) => integer_member(info, "model_context_window"@),
            None => None,
        },
        rate_limits: match object_member(payload, "rate_limits"@) {
            Some(limits) => Some(limits_of(limits)),
            None => None,
        },
        source_digest: Seq::empty(),
    }
}

/// A count of tokens is read: one that counts nothing states nothing.
pub open spec fn count_read(payload: JsonView, context: CursorContextView, at: i64) -> LineRead {
    let event = count_event(payload, context, at);
    LineRead {
        context,
        event: if event.last_token_usage is None && event.total_token_usage is None {
            None
        } else {
            Some(with_digest(JsonlEventView::TokenCount(event)))
        },
    }
}

/// What a line tells, given the instants of the line and of its payload.
pub open spec fn line_read_at(
    record: JsonView,
    context: CursorContextView,
    own: Option<i64>,
    inner: Option<i64>,
) -> Result<LineRead, Seq<char>> {
    let nothing = LineRead { context, event: None };
    let kind = text_member(record, "type"@);
    match object_member(record, "payload"@) {
        Some(payload) => if kind == Some("session_meta"@) {
            match first_some(own, inner) {
                Some(at) => Ok(session_read(payload, context, at)),
                None => Err("session_meta has no timestamp"@),
            }
        } else if kind == Some("event_msg"@) {
            match own {
                Some(at) => {
                    let event = text_member(payload, "type"@);
                    if event == Some("thread_settings_applied"@) {
                        Ok(settings_read(payload, context, at))
                    } else if event == Some("token_count"@) {
                        Ok(count_read(payload, context, at))
                    } else {
                        Ok(nothing)
                    }
                },
                None => Err("event_msg has no timestamp"@),
            }
        } else {
            Ok(nothing)
        },
        None => Ok(nothing),
    }
}

/// The instant of the payload of a line.
pub open spec fn payload_instant(record: JsonView) -> Option<i64> {
    match object_member(record, "payload"@) {
        Some(payload) => instant_in(payload),
        None => None,
    }
}

/// What a line of a log tells, or why it cannot be read.
pub open spec fn line_read(record: JsonView, context: CursorContextView) -> Result<
    LineRead,
    Seq<char>,
> {
    line_read_at(record, context, instant_in(record), payload_instant(record))
}

fn read_integer(value: &Json) -> (r: Option<i64>)
    ensures
        r == integer_value(value@),
{
    match value.as_exact() {
        Some(n) => Some(n),
        None => match value {
            Json::Text(text) => parse_integer(text.as_str()),
            _ => None,
        },
    }
}

fn read_integer_member(value: &Json, key: &str) -> (r: Option<i64>)
    ensures
        r == integer_member(value@, key@),
{
    match value.get(key) {
        Some(found) => read_integer(found),
        None => None,
    }
}

/// The milliseconds since the Unix epoch of a number of seconds or of milliseconds.
pub fn normalize_epoch_seconds_or_millis(value: i64) -> (r: i64)
    ensures
        r == milliseconds(value),
{
    if -1_000_000_000_000 < value && value < 1_000_000_000_000 {
        saturating_mul(value, 1_000)
    } else {
        value
    }
}

fn record_timestamp(value: &Json) -> (r: Option<i64>)
    ensures
        r == instant_in(value@),
{
    match value.get("timestamp") {
        Some(Json::Text(text)) => match parse_rfc3339(text.as_str()) {
            Ok(nanos) => Some(nanos_to_millis(nanos)),
            Err(_) => None,
        },
        Some(found) => match read_integer(found) {
            Some(n) => Some(normalize_epoch_seconds_or_millis(n)),
            None => None,
        },
        None => None,
    }
}

/// The service tier by its name.
pub fn normalize_service_tier(value: &Option<String>) -> (r: String)
    ensures
        r@ == normal_tier(value.deep_view()),
{
    match value {
        Some(name) => {
            let lowered = to_ascii_lowercase(name.as_str());
            let lowered = lowered.as_str();
            if same(lowered, "fast") || same(lowered, "priority") {
                "fast".to_owned()
            } else if same(lowered, "standard") || same(lowered, "default") {
                "standard".to_owned()
            } else {
                "unknown".to_owned()
            }
        },
        None => "unknown".to_owned(),
    }
}

fn read_count(value: &Json, key: &str, found: &mut bool) -> (r: i64)
    ensures
        r == count_or_zero(count_member(value@, key@)),
        *final(found) == (*old(found) || count_member(value@, key@) is Some),
{
    match read_integer_member(value, key) {
        Some(n) => if n >= 0 {
            *found = true;
            n
        } else {
            0
        },
        None => 0,
    }
}

/// The counts of tokens of a value that gives any.
pub fn parse_token_counts(value: &Json) -> (r: Option<TokenCounts>)
    ensures
        r == counts_of(value@),
{
    let mut found = false;
    let counts = TokenCounts {
        input_tokens: read_count(value, "input_tokens", &mut found),
        cached_input_tokens: read_count(value, "cached_input_tokens", &mut found),
        cache_write_input_tokens: read_count(value, "cache_write_input_tokens", &mut found),
        output_tokens: read_count(value, "output_tokens", &mut found),
        reasoning_output_tokens: read_count(value, "reasoning_output_tokens", &mut found),
        total_tokens: read_count(value, "total_tokens", &mut found),
    };
    if found {
        Some(counts)
    } else {
        None
    }
}

fn read_counts_member(value: Option<&Json>, key: &str) -> (r: Option<TokenCounts>)
    ensures
        r == counts_member(value.deep_view(), key@),
{
    match value {
        Some(value) => match value.get(key) {
            Some(found) => parse_token_counts(found),
            None => None,
        },
        None => None,
    }
}

fn parse_rate_limit_window(value: &Json, key: &str) -> (r: JsonlRateLimitWindow)
    ensures
        r.deep_view() == window_member(value@, key@),
{
    match value.object_member(key) {
        Some(window) => JsonlRateLimitWindow {
            used_percent: match window.get("used_percent") {
                Some(Json::Number(n)) => Some(
                    Percentage { value: n.float, text: n.float_text.clone() },
                ),
                _ => None,
            },
            window_minutes: read_integer_member(window, "window_minutes"),
            resets_at_ms: match read_integer_member(window, "resets_at") {
                Some(n) => Some(normalize_epoch_seconds_or_millis(n)),
                None => None,
            },
        },
        None => JsonlRateLimitWindow::default(),
    }
}

fn parse_credits(value: &Json, key: &str) -> (r: JsonlCredits)
    ensures
        r.deep_view() == credits_member(value@, key@),
{
    match value.object_member(key) {
        Some(credits) => JsonlCredits {
            has_credits: credits.flag_member("has_credits"),
            unlimited: credits.flag_member("unlimited"),
            balance: credits.text_member("balance"),
        },
        None => JsonlCredits::default(),
    }
}

fn text_or_else(value: Option<String>, fallback: &str) -> (r: String)
    ensures
        r@ == text_or(value.deep_view(), fallback@),
{
    match value {
        Some(text) => text,
        None => fallback.to_owned(),
    }
}

/// The limits of an account by their description.
pub fn parse_rate_limits(value: &Json) -> (r: JsonlRateLimits)
    ensures
        r.deep_view() == limits_of(value@),
{
    let id_keys: [&str; 2] = ["limit_id", "id"];
    let name_keys: [&str; 2] = ["limit_name", "name"];
    assert(views(id_keys@) =~= seq!["limit_id"@, "id"@]);
    assert(views(name_keys@) =~= seq!["limit_name"@, "name"@]);
    JsonlRateLimits {
        limit_id: text_or_else(value.first_text(id_keys.as_slice()), "unknown-limit"),
        limit_name: value.first_text(name_keys.as_slice()),
        plan_type_raw: value.text_member("plan_type"),
        primary: parse_rate_limit_window(value, "primary"),
        secondary: parse_rate_limit_window(value, "secondary"),
        credits: parse_credits(value, "credits"),
    }
}

fn event_session_id(payload: &Json, context: &CursorContext) -> (r: String)
    ensures
        r@ == event_session(payload@, context.deep_view()),
{
    let keys: [&str; 3] = ["session_id", "thread_id", "threadId"];
    assert(views(keys@) =~= seq!["session_id"@, "thread_id"@, "threadId"@]);
    let named = payload.first_text(keys.as_slice());
    text_or_else(first_of(&named, &context.session_id), UNKNOWN_SESSION_ID)
}

fn read_session(payload: &Json, context: &mut CursorContext, at: i64) -> (r: JsonlEvent)
    ensures
        session_read(payload@, old(context).deep_view(), at) == (LineRead {
            context: final(context).deep_view(),
            event: Some(r.deep_view()),
        }),
{
    let keys: [&str; 2] = ["session_id", "id"];
    assert(views(keys@) =~= seq!["session_id"@, "id"@]);
    let session_id = text_or_else(payload.first_text(keys.as_slice()), UNKNOWN_SESSION_ID);
    let event = JsonlSessionMetaEvent {
        session_id: session_id.clone(),
        observed_at_ms: at,
        cli_version: payload.text_member("cli_version"),
        model_provider: payload.text_member("model_provider"),
        thread_source: payload.text_member("thread_source"),
        source_digest: String::new(),
    };
    assert(event.deep_view().source_digest =~= Seq::empty());
    context.session_id = Some(session_id);
    context.cli_version = copy_option(&event.cli_version);
    context.model_provider = copy_option(&event.model_provider);
    context.thread_source = copy_option(&event.thread_source);
    context.session_started_at_ms = Some(at);
    JsonlEvent::SessionMeta(event).refresh_digest()
}

fn read_settings(payload: &Json, context: &mut CursorContext, at: i64) -> (r: JsonlEvent)
    ensures
        settings_read(payload@, old(context).deep_view(), at) == (LineRead {
            context: final(context).deep_view(),
            event: Some(r.deep_view()),
        }),
{
    let settings = match payload.object_member("thread_settings") {
        Some(settings) => settings,
        None => payload,
    };
    let keys: [&str; 2] = ["model_provider_id", "provider"];
    assert(views(keys@) =~= seq!["model_provider_id"@, "provider"@]);
    let model = settings.text_member("model");
    let provider = settings.first_text(keys.as_slice());
    let tier = normalize_service_tier(&settings.text_member("service_tier"));
    context.last_model = copy_option(&model);
    context.last_model_provider_id = copy_option(&provider);
    context.last_service_tier = Some(tier.clone());
    context.model_provider = first_of(&context.model_provider, &provider);
    let event = JsonlThreadSettingsEvent {
        session_id: event_session_id(payload, context),
        observed_at_ms: at,
        model,
        model_provider_id: provider,
        service_tier: tier,
        source_digest: String::new(),
    };
    assert(event.deep_view().source_digest =~= Seq::empty());
    JsonlEvent::ThreadSettings(event).refresh_digest()
}

fn read_count_event(payload: &Json, context: &CursorContext, at: i64) -> (r: JsonlTokenCountEvent)
    ensures
        r.deep_view() == count_event(payload@, context.deep_view(), at),
{
    let info = payload.object_member("info");
    let named = match info {
        Some(info) => info.text_member("model"),
        None => None,
    };
    let keys: [&str; 2] = ["turn_id", "turnId"];
    assert(views(keys@) =~= seq!["turn_id"@, "turnId"@]);
    let tier = payload.text_member("service_tier");
    let event = JsonlTokenCountEvent {
        session_id: event_session_id(payload, context),
        turn_id: payload.first_text(keys.as_slice()),
        observed_at_ms: at,
        last_token_usage: read_counts_member(info, "last_token_usage"),
        total_token_usage: read_counts_member(info, "total_token_usage"),
        model: first_of(&payload.text_member("model"), &first_of(&named, &context.last_model)),
        model_provider: first_of(&payload.text_member("model_provider"), &context.model_provider),
        service_tier: match &tier {
            Some(_) => normalize_service_tier(&tier),
            None => text_or_else(copy_option(&context.last_service_tier), "unknown"),
        },
        model_context_window: match info {
            Some(info) => read_integer_member(info, "model_context_window"),
            None => None,
        },
        rate_limits: match payload.object_member("rate_limits") {
            Some(limits) => Some(parse_rate_limits(limits)),
            None => None,
        },
        source_digest: String::new(),
    };
    assert(event.deep_view().source_digest =~= Seq::empty());
    event
}

/// What a line tells, given the instants of the line and of its payload; the context is brought up
/// to the line.
pub fn read_line_at(
    record: &Json,
    context: &mut CursorContext,
    own: Option<i64>,
    inner: Option<i64>,
) -> (r: Result<Option<JsonlEvent>, String>)
    ensures
        match r {
            Ok(event) => line_read_at(record@, old(context).deep_view(), own, inner) == Ok::<
                LineRead,
                Seq<char>,
            >(LineRead { context: final(context).deep_view(), event: event.deep_view() }),
            Err(reason) => line_read_at(record@, old(context).deep_view(), own, inner) == Err::<
                LineRead,
                Seq<char>,
            >(reason@) && *final(context) == *old(context),
        },
{
    let kind = match record.text_member("type") {
        Some(kind) => kind,
        None => return Ok(None),
    };
    let payload = match record.object_member("payload") {
        Some(payload) => payload,
        None => return Ok(None),
    };
    if same(kind.as_str(), "session_meta") {
        let at = match own {
            Some(at) => Some(at),
            None => inner,
        };
        match at {
            Some(at) => Ok(Some(read_session(payload, context, at))),
            None => Err("session_meta has no timestamp".to_owned()),
        }
    } else if same(kind.as_str(), "event_msg") {
        let at = match own {
            Some(at) => at,
            None => return Err("event_msg has no timestamp".to_owned()),
        };
        let event = match payload.text_member("type") {
            Some(event) => event,
            None => return Ok(None),
        };
        if same(event.as_str(), "thread_settings_applied") {
            Ok(Some(read_settings(payload, context, at)))
        } else if same(event.as_str(), "token_count") {
            let event = read_count_event(payload, context, at);
            if event.last_token_usage.is_none() && event.total_token_usage.is_none() {
                Ok(None)
            } else {
                Ok(Some(JsonlEvent::TokenCount(event).refresh_digest()))
            }
        } else {
            Ok(None)
        }
    } else {
        Ok(None)
    }
}

/// Reads a line of a log: what is known of the session, and the event that the line states, or why
/// the line cannot be read.
pub fn read_line(record: &Json, context: &mut CursorContext) -> (r: Result<
    Option<JsonlEvent>,
    String,
>)
    ensures
        match r {
            Ok(event) => line_read(record@, old(context).deep_view()) == Ok::<LineRead, Seq<char>>(
                LineRead { context: final(context).deep_view(), event: event.deep_view() },
            ),
            Err(reason) => line_read(record@, old(context).deep_view()) == Err::<
                LineRead,
                Seq<char>,
            >(reason@) && *final(context) == *old(context),
        },
{
    let inner = match record.object_member("payload") {
        Some(payload) => record_timestamp(payload),
        None => None,
    };
    read_line_at(record, context, record_timestamp(record), inner)
}

} // verus!
