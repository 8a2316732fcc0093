//! An independent check by `ccusage`.
use crate::db::{SourceCcusageRecord, SourceCcusageRecordView};
use crate::json::{integer_of_first, json_text, text_member, views, Json, JsonView};
use crate::pipelines::source::ccusage::{
    env_flag, is_on, rows_of_run, source_key_of, CommandResult, CommandResultView,
};
use crate::privacy::{is_private, names_private, sanitized, without_private};
use crate::text::{copy_option, decimal, same, text_or};
use vstd::prelude::*;
use vstd::string::*;

pub mod laws;

verus! {

/// How `ccusage` is run, and when.
#[derive(Debug)]
pub struct CcusageCollector {
    pub home: String,
    pub timezone: String,
    pub binary: String,
    pub run_on_boot: bool,
    pub run_on_refresh: bool,
}

/// The program that is run where no other is configured.
pub open spec fn program_or_default(binary: Option<Seq<char>>) -> Seq<char> {
    text_or(binary, "ccusage"@)
}

impl CcusageCollector {
    /// Runs the configured program over a directory, where variables switch it on.
    pub fn from_env(
        home: String,
        timezone: String,
        binary: Option<String>,
        on_boot: Option<&str>,
        on_refresh: Option<&str>,
    ) -> (r: Self)
        ensures
            r.home@ == home@,
            r.timezone@ == timezone@,
            r.binary@ == program_or_default(binary.deep_view()),
            r.run_on_boot == is_on(on_boot.deep_view()),
            r.run_on_refresh == is_on(on_refresh.deep_view()),
    {
        CcusageCollector {
            home,
            timezone,
            binary: match binary {
                Some(binary) => binary,
                None => "ccusage".to_owned(),
            },
            run_on_boot: env_flag(on_boot),
            run_on_refresh: env_flag(on_refresh),
        }
    }

    /// Never runs the program by itself.
    pub fn disabled(home: String, timezone: String, binary: Option<String>) -> (r: Self)
        ensures
            r.home@ == home@,
            r.timezone@ == timezone@,
            r.binary@ == program_or_default(binary.deep_view()),
            !r.run_on_boot,
            !r.run_on_refresh,
    {
        let mut collector = CcusageCollector::from_env(home, timezone, binary, None, None);
        collector.run_on_boot = false;
        collector.run_on_refresh = false;
        collector
    }

    /// Whether the program is run at the start.
    pub fn run_on_boot(&self) -> (r: bool)
        ensures
            r == self.run_on_boot,
    {
        self.run_on_boot
    }

    /// Whether the program is run with each refresh.
    pub fn run_on_refresh(&self) -> (r: bool)
        ensures
            r == self.run_on_refresh,
    {
        self.run_on_refresh
    }
}

/// The keys of members that are not kept.
pub open spec fn private_keys() -> Seq<Seq<char>> {
    seq![
        "directory"@,
        "sessionfile"@,
        "prompt"@,
        "message"@,
        "content"@,
        "access_token"@,
        "refresh_token"@,
        "api_key"@,
        "authorization"@,
        "email"@,
    ]
}

fn private_names() -> (r: [&'static str; 10])
    ensures
        views(r@) == private_keys(),
{
    let keys: [&'static str; 10] = [
        "directory",
        "sessionfile",
        "prompt",
        "message",
        "content",
        "access_token",
        "refresh_token",
        "api_key",
        "authorization",
        "email",
    ];
    assert(views(keys@) =~= private_keys());
    keys
}

/// Whether a member is not kept.
pub fn is_private_key(key: &str) -> (r: bool)
    ensures
        r == is_private(key@, private_keys()),
{
    let keys = private_names();
    names_private(key, keys.as_slice())
}

/// A value without the members that are not kept; nothing of one that stands under such a key.
pub fn sanitize_value(value: &Json, key: Option<&str>) -> (r: Json)
    ensures
        r@ == (if key is Some && is_private(key->0@, private_keys()) {
            JsonView::Null
        } else {
            sanitized(value@, private_keys())
        }),
{
    if let Some(key) = key {
        if is_private_key(key) {
            return Json::Null;
        }
    }
    let keys = private_names();
    without_private(value, keys.as_slice())
}

/// The record of a row of a run, or of the run itself.
pub open spec fn record_of_row(
    result: CommandResultView,
    scope_key: Seq<char>,
    row: JsonView,
) -> SourceCcusageRecordView {
    SourceCcusageRecordView {
        source_key: source_key_of(result, scope_key),
        run_at_ms: result.finished_at_ms,
        range_start_ms: result.started_at_ms,
        range_end_ms: result.finished_at_ms,
        scope: result.scope,
        scope_key,
        pricing_scheme: result.pricing,
        speed: result.speed,
        input_tokens: integer_of_first(row, seq!["inputTokens"@]),
        cache_read_tokens: integer_of_first(row, seq!["cacheReadTokens"@]),
        cache_write_tokens: integer_of_first(
            row,
            seq!["cacheCreationTokens"@],
        ),
        output_tokens: integer_of_first(row, seq!["outputTokens"@]),
        reasoning_tokens: integer_of_first(
            row,
            seq!["reasoningOutputTokens"@],
        ),
        total_tokens: integer_of_first(row, seq!["totalTokens"@]),
        amount: match row.find(seq!["costUSD"@]) {
            Some(value) => value.as_float(),
            None => None,
        },
        model_breakdown_json: match row.get("models"@) {
            Some(models) => Some(json_text(models)),
            None => None,
        },
        ccusage_version: result.version,
        pricing_version: Some("codex-meter:"@ + result.pricing),
        status: result.status,
    }
}

/// What a row is about: a day or a session.
pub open spec fn scope_key_of(scope: Seq<char>, row: JsonView) -> Seq<char> {
    if scope == "daily"@ {
        text_or(text_member(row, "date"@), "unknown"@)
    } else {
        text_or(text_member(row, "sessionId"@), "unknown"@)
    }
}

/// The records of a run: one for each row, or one for the run itself where it has none.
pub open spec fn records_of_run(result: CommandResultView, data: JsonView) -> Seq<
    SourceCcusageRecordView,
> {
    let rows = rows_of_run(result.scope, data);
    if rows.len() == 0 {
        seq![record_of_row(result, "__run__"@, JsonView::Null)]
    } else {
        Seq::new(
            rows.len(),
            |i: int| record_of_row(result, scope_key_of(result.scope, rows[i]), rows[i]),
        )
    }
}

/// The record of a row of a run, or of the run itself.
pub fn source_record(result: &CommandResult, scope_key: &str, row: Option<&Json>) -> (r:
    SourceCcusageRecord)
    ensures
        r.deep_view() == record_of_row(
            result.deep_view(),
            scope_key@,
            match row {
                Some(row) => row@,
                None => JsonView::Null,
            },
        ),
{
    let null = Json::Null;
    let row = match row {
        Some(row) => row,
        None => &null,
    };
    let input: [&str; 1] = ["inputTokens"];
    let read: [&str; 1] = ["cacheReadTokens"];
    let write: [&str; 1] = ["cacheCreationTokens"];
    let output: [&str; 1] = ["outputTokens"];
    let reasoning: [&str; 1] = ["reasoningOutputTokens"];
    let total: [&str; 1] = ["totalTokens"];
    let cost: [&str; 1] = ["costUSD"];
    assert(views(input@) =~= seq!["inputTokens"@]);
    assert(views(read@) =~= seq!["cacheReadTokens"@]);
    assert(views(write@) =~= seq!["cacheCreationTokens"@]);
    assert(views(output@) =~= seq!["outputTokens"@]);
    assert(views(reasoning@) =~= seq!["reasoningOutputTokens"@]);
    assert(views(total@) =~= seq!["totalTokens"@]);
    assert(views(cost@) =~= seq!["costUSD"@]);
    let mut source_key = "ccusage:".to_owned();
    source_key.append(decimal(result.started_at_ms).as_str());
    source_key.append(":");
    source_key.append(result.scope.as_str());
    source_key.append(":");
    source_key.append(scope_key);
    source_key.append(":");
    source_key.append(result.pricing.as_str());
    source_key.append(":");
    source_key.append(result.speed.as_str());
    let mut version = "codex-meter:".to_owned();
    version.append(result.pricing.as_str());
    SourceCcusageRecord {
        source_key,
        run_at_ms: result.finished_at_ms,
        range_start_ms: result.started_at_ms,
        range_end_ms: result.finished_at_ms,
        scope: result.scope.clone(),
        scope_key: scope_key.to_owned(),
        pricing_scheme: result.pricing.clone(),
        speed: result.speed.clone(),
        input_tokens: row.integer_of_first(input.as_slice()),
        cache_read_tokens: row.integer_of_first(read.as_slice()),
        cache_write_tokens: row.integer_of_first(write.as_slice()),
        output_tokens: row.integer_of_first(output.as_slice()),
        reasoning_tokens: row.integer_of_first(reasoning.as_slice()),
        total_tokens: row.integer_of_first(total.as_slice()),
        amount: match row.find(cost.as_slice()) {
            Some(value) => value.as_float(),
            None => None,
        },
        model_breakdown_json: match row.get("models") {
            Some(models) => Some(models.to_text()),
            None => None,
        },
        ccusage_version: copy_option(&result.version),
        pricing_version: Some(version),
        status: result.status.clone(),
    }
}

fn scope_key(scope: &str, row: &Json) -> (r: String)
    ensures
        r@ == scope_key_of(scope@, row@),
{
    let found = if same(scope, "daily") {
        row.text_member("date")
    } else {
        row.text_member("sessionId")
    };
    match found {
        Some(key) => key,
        None => "unknown".to_owned(),
    }
}

/// The records of a run, whose private members are taken out of `data`.
pub fn persist_source_rows(result: &CommandResult, data: &Json) -> (r: Vec<SourceCcusageRecord>)
    ensures
        r.deep_view() == records_of_run(result.deep_view(), data@),
{
    let ghost expected = records_of_run(result.deep_view(), data@);
    let mut records: Vec<SourceCcusageRecord> = Vec::new();
    let found = if same(result.scope.as_str(), "daily") {
        data.get("daily")
    } else if same(result.scope.as_str(), "session") {
        data.get("sessions")
    } else {
        None
    };
    if let Some(value) = found {
        if let Json::Array(rows) = value {
            let ghost all = rows_of_run(result.scope@, data@);
            assert(all == value@->Array_0);
            if rows.len() > 0 {
                let mut i: usize = 0;
                while i < rows.len()
                    invariant
                        i <= rows@.len(),
                        *value == Json::Array(*rows),
                        all == value@->Array_0,
                        all == rows_of_run(result.scope@, data@),
                        rows@.len() > 0,
                        expected == records_of_run(result.deep_view(), data@),
                        records.deep_view() == expected.take(i as int),
                    decreases rows@.len() - i,
                {
                    let ghost before = records.deep_view();
                    assert(all[i as int] == rows@[i as int]@);
                    let key = scope_key(result.scope.as_str(), &rows[i]);
                    records.push(source_record(result, key.as_str(), Some(&rows[i])));
                    assert(records.deep_view() =~= before.push(expected[i as int]));
                    i = i + 1;
                    assert(records.deep_view() =~= expected.take(i as int));
                }
                assert(expected.take(i as int) =~= expected);
                return records;
            }
        }
    }
    records.push(source_record(result, "__run__", None));
    assert(records.deep_view() =~= expected);
    records
}

} // verus!
