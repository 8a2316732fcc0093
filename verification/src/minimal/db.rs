//! Records of the seven tables.
use crate::db::{
    empty_source_jsonl_record, seen_or_stored, seen_or_stored_value, SourceJsonlRecord,
    SourceJsonlRecordView,
};
use crate::json::{Json, JsonView, Percentage, PercentageView};
use crate::pricing::TokenCounts;
use crate::text::{copy_option, first_some, join, joined, same};
use vstd::prelude::*;
use vstd::string::*;

verus! {

/// An event of a log.
#[derive(Debug)]
pub struct EventRecord {
    pub source_digest: String,
    pub observed_at_ms: i64,
    pub kind: String,
    pub session_id: Option<String>,
    pub root_session_id: Option<String>,
    pub title: Option<String>,
    pub model: Option<String>,
    pub tier: Option<String>,
    pub provider: Option<String>,
    pub account_key: Option<String>,
    pub plan: Option<String>,
    pub last_tokens: Option<TokenCounts>,
    pub cumulative_tokens: Option<TokenCounts>,
    pub fast: Option<bool>,
    pub quota_json: Option<Json>,
    pub payload: Json,
    pub quality: Vec<String>,
}

/// A `EventRecord` with its texts as sequences of characters.
#[verifier::ext_equal]
pub struct EventRecordView {
    pub source_digest: Seq<char>,
    pub observed_at_ms: i64,
    pub kind: Seq<char>,
    pub session_id: Option<Seq<char>>,
    pub root_session_id: Option<Seq<char>>,
    pub title: Option<Seq<char>>,
    pub model: Option<Seq<char>>,
    pub tier: Option<Seq<char>>,
    pub provider: Option<Seq<char>>,
    pub account_key: Option<Seq<char>>,
    pub plan: Option<Seq<char>>,
    pub last_tokens: Option<TokenCounts>,
    pub cumulative_tokens: Option<TokenCounts>,
    pub fast: Option<bool>,
    pub quota_json: Option<JsonView>,
    pub payload: JsonView,
    pub quality: Seq<Seq<char>>,
}

impl DeepView for EventRecord {
    type V = EventRecordView;

    open spec fn deep_view(&self) -> EventRecordView {
        EventRecordView {
            source_digest: self.source_digest@,
            observed_at_ms: self.observed_at_ms,
            kind: self.kind@,
            session_id: self.session_id.deep_view(),
            root_session_id: self.root_session_id.deep_view(),
            title: self.title.deep_view(),
            model: self.model.deep_view(),
            tier: self.tier.deep_view(),
            provider: self.provider.deep_view(),
            account_key: self.account_key.deep_view(),
            plan: self.plan.deep_view(),
            last_tokens: self.last_tokens,
            cumulative_tokens: self.cumulative_tokens,
            fast: self.fast,
            quota_json: self.quota_json.deep_view(),
            payload: self.payload.deep_view(),
            quality: self.quality.deep_view(),
        }
    }
}

/// A state of a quota in a log.
#[derive(Debug)]
pub struct QuotaRecord {
    pub event_id: i64,
    pub source_digest: String,
    pub observed_at_ms: i64,
    pub account_key: Option<String>,
    pub limit_id: Option<String>,
    pub window_kind: String,
    pub used_percent: Option<Percentage>,
    pub window_minutes: Option<i64>,
    pub resets_at_ms: Option<i64>,
    pub plan: Option<String>,
    pub source: String,
    pub raw_json: Json,
}

/// A `QuotaRecord` with its texts as sequences of characters.
#[verifier::ext_equal]
pub struct QuotaRecordView {
    pub event_id: i64,
    pub source_digest: Seq<char>,
    pub observed_at_ms: i64,
    pub account_key: Option<Seq<char>>,
    pub limit_id: Option<Seq<char>>,
    pub window_kind: Seq<char>,
    pub used_percent: Option<PercentageView>,
    pub window_minutes: Option<i64>,
    pub resets_at_ms: Option<i64>,
    pub plan: Option<Seq<char>>,
    pub source: Seq<char>,
    pub raw_json: JsonView,
}

impl DeepView for QuotaRecord {
    type V = QuotaRecordView;

    open spec fn deep_view(&self) -> QuotaRecordView {
        QuotaRecordView {
            event_id: self.event_id,
            source_digest: self.source_digest@,
            observed_at_ms: self.observed_at_ms,
            account_key: self.account_key.deep_view(),
            limit_id: self.limit_id.deep_view(),
            window_kind: self.window_kind@,
            used_percent: self.used_percent.deep_view(),
            window_minutes: self.window_minutes,
            resets_at_ms: self.resets_at_ms,
            plan: self.plan.deep_view(),
            source: self.source@,
            raw_json: self.raw_json.deep_view(),
        }
    }
}

/// The names of the tables.
pub fn minimal_tables() -> (r: Vec<&'static str>)
    ensures
        r@ == seq![
            "source_jsonl",
            "source_app_server",
            "source_ccusage",
            "usage_daily",
            "usage_minute",
            "usage_session",
            "capacities_v2",
        ],
{
    let r = vec![
        "source_jsonl",
        "source_app_server",
        "source_ccusage",
        "usage_daily",
        "usage_minute",
        "usage_session",
        "capacities_v2",
    ];
    assert(r@ =~= seq![
        "source_jsonl",
        "source_app_server",
        "source_ccusage",
        "usage_daily",
        "usage_minute",
        "usage_session",
        "capacities_v2",
    ]);
    r
}

/// The relation of a session to others: one that has an origin is a fork.
pub open spec fn relation_of(root_session_id: Option<Seq<char>>) -> Seq<char> {
    if root_session_id is Some {
        "fork"@
    } else {
        "main"@
    }
}

/// One count of tokens, where they are known.
pub open spec fn count_of(tokens: Option<TokenCounts>, count: i64) -> Option<i64> {
    if tokens is Some {
        Some(count)
    } else {
        None
    }
}

/// Flags as one text, where there are any.
pub open spec fn flags_text(quality: Seq<Seq<char>>) -> Option<Seq<char>> {
    if quality.len() == 0 {
        None
    } else {
        Some(joined(quality, ","@))
    }
}

/// The kind and the key under which an event is stored, where it is.
pub open spec fn place_of_event(event: EventRecordView) -> Option<(Seq<char>, Seq<char>)> {
    if event.kind == "session_meta"@ {
        Some(
            (
                "session"@,
                match event.session_id {
                    Some(id) => "session:"@ + id,
                    None => "session:event:"@ + event.source_digest,
                },
            ),
        )
    } else if event.kind == "token_count"@ {
        Some(("usage"@, "usage:"@ + event.source_digest))
    } else {
        None
    }
}

/// What is stored of an event.
pub open spec fn row_of_event(event: EventRecordView) -> Option<SourceJsonlRecordView> {
    match place_of_event(event) {
        Some((kind, source_key)) => Some(
            SourceJsonlRecordView {
                source_key,
                kind,
                observed_at_ms: event.observed_at_ms,
                session_id: event.session_id,
                root_session_id: event.root_session_id,
                relation: Some(relation_of(event.root_session_id)),
                title: event.title,
                model: event.model,
                service_tier: event.tier,
                provider: event.provider,
                plan_type: event.plan,
                input_tokens: count_of(event.last_tokens, event.last_tokens->0.input),
                cache_read_tokens: count_of(event.last_tokens, event.last_tokens->0.cached),
                cache_write_tokens: count_of(event.last_tokens, event.last_tokens->0.cache_write),
                output_tokens: count_of(event.last_tokens, event.last_tokens->0.output),
                reasoning_tokens: count_of(event.last_tokens, event.last_tokens->0.reasoning),
                total_tokens: count_of(event.last_tokens, event.last_tokens->0.total),
                quality: flags_text(event.quality),
                ..empty_source_jsonl_record()
            },
        ),
        None => None,
    }
}

/// What is stored of a state of a quota.
pub open spec fn row_of_quota(
    source_key: Seq<char>,
    sample: QuotaRecordView,
) -> SourceJsonlRecordView {
    SourceJsonlRecordView {
        source_key,
        kind: "quota"@,
        observed_at_ms: sample.observed_at_ms,
        last_seen_at_ms: Some(sample.observed_at_ms),
        limit_id: sample.limit_id,
        window_kind: Some(sample.window_kind),
        used_percent: match sample.used_percent {
            Some(percentage) => Some(percentage.value),
            None => None,
        },
        window_minutes: sample.window_minutes,
        resets_at_ms: sample.resets_at_ms,
        plan_type: sample.plan,
        quality: Some("source="@ + sample.source),
        ..empty_source_jsonl_record()
    }
}

/// The relation of a session to others.
pub fn session_relation(root_session_id: &Option<String>) -> (r: String)
    ensures
        r@ == relation_of(root_session_id.deep_view()),
{
    if root_session_id.is_some() {
        "fork".to_owned()
    } else {
        "main".to_owned()
    }
}

/// What is stored of an event, where anything is.
pub fn event_row(event: &EventRecord) -> (r: Option<SourceJsonlRecord>)
    ensures
        r.deep_view() == row_of_event(event.deep_view()),
{
    let (kind, source_key) = if same(event.kind.as_str(), "session_meta") {
        let key = match &event.session_id {
            Some(id) => {
                let mut key = "session:".to_owned();
                key.append(id.as_str());
                key
            },
            None => {
                let mut key = "session:event:".to_owned();
                key.append(event.source_digest.as_str());
                key
            },
        };
        ("session", key)
    } else if same(event.kind.as_str(), "token_count") {
        let mut key = "usage:".to_owned();
        key.append(event.source_digest.as_str());
        ("usage", key)
    } else {
        return None;
    };
    let mut record = SourceJsonlRecord::default();
    record.source_key = source_key;
    record.kind = kind.to_owned();
    record.observed_at_ms = event.observed_at_ms;
    record.session_id = copy_option(&event.session_id);
    record.root_session_id = copy_option(&event.root_session_id);
    record.relation = Some(session_relation(&event.root_session_id));
    record.title = copy_option(&event.title);
    record.model = copy_option(&event.model);
    record.service_tier = copy_option(&event.tier);
    record.provider = copy_option(&event.provider);
    record.plan_type = copy_option(&event.plan);
    if let Some(tokens) = &event.last_tokens {
        record.input_tokens = Some(tokens.input);
        record.cache_read_tokens = Some(tokens.cached);
        record.cache_write_tokens = Some(tokens.cache_write);
        record.output_tokens = Some(tokens.output);
        record.reasoning_tokens = Some(tokens.reasoning);
        record.total_tokens = Some(tokens.total);
    }
    record.quality = if event.quality.len() == 0 {
        None
    } else {
        Some(join(&event.quality, ","))
    };
    Some(record)
}

/// What is stored of a state of a quota.
pub fn quota_row(source_key: String, sample: &QuotaRecord) -> (r: SourceJsonlRecord)
    ensures
        r.deep_view() == row_of_quota(source_key@, sample.deep_view()),
{
    let mut quality = "source=".to_owned();
    quality.append(sample.source.as_str());
    let mut record = SourceJsonlRecord::default();
    record.source_key = source_key;
    record.kind = "quota".to_owned();
    record.observed_at_ms = sample.observed_at_ms;
    record.last_seen_at_ms = Some(sample.observed_at_ms);
    record.limit_id = copy_option(&sample.limit_id);
    record.window_kind = Some(sample.window_kind.clone());
    record.used_percent = match &sample.used_percent {
        Some(percentage) => Some(percentage.value),
        None => None,
    };
    record.window_minutes = sample.window_minutes;
    record.resets_at_ms = sample.resets_at_ms;
    record.plan_type = copy_option(&sample.plan);
    record.quality = Some(quality);
    record
}

/// A stored fact after a fact with its key was stored: the time and the counts of the first stay,
/// and what else the second tells is taken over.
pub open spec fn stored_again(
    stored: SourceJsonlRecordView,
    seen: SourceJsonlRecordView,
) -> SourceJsonlRecordView {
    SourceJsonlRecordView {
        last_seen_at_ms: first_some(seen.last_seen_at_ms, stored.last_seen_at_ms),
        root_session_id: first_some(seen.root_session_id, stored.root_session_id),
        turn_id: first_some(seen.turn_id, stored.turn_id),
        relation: first_some(seen.relation, stored.relation),
        title: first_some(seen.title, stored.title),
        started_at_ms: first_some(seen.started_at_ms, stored.started_at_ms),
        ended_at_ms: first_some(seen.ended_at_ms, stored.ended_at_ms),
        model: first_some(seen.model, stored.model),
        service_tier: first_some(seen.service_tier, stored.service_tier),
        provider: first_some(seen.provider, stored.provider),
        plan_type: first_some(seen.plan_type, stored.plan_type),
        limit_id: first_some(seen.limit_id, stored.limit_id),
        window_kind: first_some(seen.window_kind, stored.window_kind),
        used_percent: first_some(seen.used_percent, stored.used_percent),
        window_minutes: first_some(seen.window_minutes, stored.window_minutes),
        resets_at_ms: first_some(seen.resets_at_ms, stored.resets_at_ms),
        quality: first_some(seen.quality, stored.quality),
        ..stored
    }
}

/// A fact that is stored twice is stored as it was, and once two facts with one key are stored,
/// storing the second again changes nothing.
pub proof fn lemma_storing_again_changes_nothing(
    stored: SourceJsonlRecordView,
    seen: SourceJsonlRecordView,
)
    ensures
        stored_again(stored, stored) == stored,
        stored_again(stored_again(stored, seen), seen) == stored_again(stored, seen),
{
}

/// A stored fact after a fact with its key was stored.
pub fn upsert_source_jsonl(stored: &SourceJsonlRecord, seen: &SourceJsonlRecord) -> (r:
    SourceJsonlRecord)
    ensures
        r.deep_view() == stored_again(stored.deep_view(), seen.deep_view()),
{
    let mut record = stored.copy();
    record.last_seen_at_ms = seen_or_stored_value(seen.last_seen_at_ms, stored.last_seen_at_ms);
    record.root_session_id = seen_or_stored(&seen.root_session_id, &stored.root_session_id);
    record.turn_id = seen_or_stored(&seen.turn_id, &stored.turn_id);
    record.relation = seen_or_stored(&seen.relation, &stored.relation);
    record.title = seen_or_stored(&seen.title, &stored.title);
    record.started_at_ms = seen_or_stored_value(seen.started_at_ms, stored.started_at_ms);
    record.ended_at_ms = seen_or_stored_value(seen.ended_at_ms, stored.ended_at_ms);
    record.model = seen_or_stored(&seen.model, &stored.model);
    record.service_tier = seen_or_stored(&seen.service_tier, &stored.service_tier);
    record.provider = seen_or_stored(&seen.provider, &stored.provider);
    record.plan_type = seen_or_stored(&seen.plan_type, &stored.plan_type);
    record.limit_id = seen_or_stored(&seen.limit_id, &stored.limit_id);
    record.window_kind = seen_or_stored(&seen.window_kind, &stored.window_kind);
    record.used_percent = seen_or_stored_value(seen.used_percent, stored.used_percent);
    record.window_minutes = seen_or_stored_value(seen.window_minutes, stored.window_minutes);
    record.resets_at_ms = seen_or_stored_value(seen.resets_at_ms, stored.resets_at_ms);
    record.quality = seen_or_stored(&seen.quality, &stored.quality);
    record
}

} // verus!
