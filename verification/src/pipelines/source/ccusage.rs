//! Runs of `ccusage`, kept beside the own reckoning for comparison.
use crate::db::{SourceCcusageRecord, SourceCcusageRecordView};
use crate::json::{integer_of_first, json_text, text_member, text_of_first, views, Json, JsonView};
use crate::pricing::{embedded_pricing_version, lines, lines_of, pricing_version};
use crate::privacy::{is_private, names_private, sanitized, without_private};
use crate::text::{copy_option, decimal, integer_text, same, text_or, trim, trimmed};
use vstd::prelude::*;
use vstd::string::*;

pub mod laws;

verus! {

/// How `ccusage` is started: from a file, or by `npx`.
#[derive(Debug)]
pub enum CcusageLauncher {
    Binary(String),
    Npx,
}

/// How `ccusage` is run, and whether it is.
#[derive(Debug)]
pub struct CcusageCollector {
    pub home: String,
    pub timezone: String,
    pub launcher: CcusageLauncher,
    pub enabled: bool,
}

/// How runs went.
#[derive(Debug)]
pub struct CcusageRunSummary {
    pub status: String,
    pub runs: usize,
    pub succeeded: usize,
}

/// The result of one run.
#[derive(Debug)]
pub struct CommandResult {
    pub scope: String,
    pub pricing: String,
    pub speed: String,
    pub started_at_ms: i64,
    pub finished_at_ms: i64,
    pub version: Option<String>,
    pub status: String,
    pub data: Json,
}

/// A `CommandResult` with its texts as sequences of characters.
#[verifier::ext_equal]
pub struct CommandResultView {
    pub scope: Seq<char>,
    pub pricing: Seq<char>,
    pub speed: Seq<char>,
    pub started_at_ms: i64,
    pub finished_at_ms: i64,
    pub version: Option<Seq<char>>,
    pub status: Seq<char>,
    pub data: JsonView,
}

impl DeepView for CommandResult {
    type V = CommandResultView;

    open spec fn deep_view(&self) -> CommandResultView {
        CommandResultView {
            scope: self.scope@,
            pricing: self.pricing@,
            speed: self.speed@,
            started_at_ms: self.started_at_ms,
            finished_at_ms: self.finished_at_ms,
            version: self.version.deep_view(),
            status: self.status@,
            data: self.data@,
        }
    }
}

/// How a command ended: with a value, with something that is not JSON, with a code, or not started
/// at all.
#[derive(Debug)]
pub enum CommandOutcome {
    Value(Json),
    InvalidJson,
    Exit(Option<Json>),
    Unavailable(String),
}

impl CcusageLauncher {
    /// Chooses how `ccusage` is started: from the file that was found, else by `npx` where that was
    /// found, else by its name.
    pub fn from_env(binary: Option<String>, npx: bool) -> (r: Self)
        ensures
            match binary {
                Some(binary) => r == CcusageLauncher::Binary(binary),
                None => if npx {
                    r == CcusageLauncher::Npx
                } else {
                    r is Binary && r->Binary_0@ == "ccusage"@
                },
            },
    {
        match binary {
            Some(binary) => CcusageLauncher::Binary(binary),
            None => if npx {
                CcusageLauncher::Npx
            } else {
                CcusageLauncher::Binary("ccusage".to_owned())
            },
        }
    }

    /// The program, and the arguments that go before all others.
    pub fn command(&self) -> (r: (String, Vec<String>))
        ensures
            match *self {
                CcusageLauncher::Binary(binary) => r.0@ == binary@ && r.1@.len() == 0,
                CcusageLauncher::Npx => r.0@ == "npx"@ && r.1.deep_view() == seq![
                    "--yes"@,
                    "--registry"@,
                    "https://registry.npmjs.org"@,
                    "ccusage@latest"@,
                ],
            },
    {
        match self {
            CcusageLauncher::Binary(binary) => (binary.clone(), Vec::new()),
            CcusageLauncher::Npx => {
                let mut args: Vec<String> = Vec::new();
                args.push("--yes".to_owned());
                args.push("--registry".to_owned());
                args.push("https://registry.npmjs.org".to_owned());
                args.push("ccusage@latest".to_owned());
                assert(args.deep_view() =~= seq![
                    "--yes"@,
                    "--registry"@,
                    "https://registry.npmjs.org"@,
                    "ccusage@latest"@,
                ]);
                ("npx".to_owned(), args)
            },
        }
    }
}

/// Whether the value of a variable switches something on.
pub open spec fn is_on(value: Option<Seq<char>>) -> bool {
    value == Some("1"@) || value == Some("true"@) || value == Some("yes"@)
}

/// Whether the value of a variable switches something on.
pub fn env_flag(value: Option<&str>) -> (r: bool)
    ensures
        r == is_on(value.deep_view()),
{
    match value {
        Some(value) => same(value, "1") || same(value, "true") || same(value, "yes"),
        None => false,
    }
}

impl CcusageCollector {
    /// Runs `ccusage` over a directory, where the variable `CODEX_METER_CCUSAGE_ON` switches it on.
    pub fn from_env(home: &str, timezone: &str, launcher: CcusageLauncher, on: Option<&str>) -> (r:
        Self)
        ensures
            r.home@ == home@,
            r.timezone@ == timezone@,
            r.launcher == launcher,
            r.enabled == is_on(on.deep_view()),
    {
        CcusageCollector {
            home: home.to_owned(),
            timezone: timezone.to_owned(),
            launcher,
            enabled: env_flag(on),
        }
    }

    /// Never runs `ccusage` by itself.
    pub fn disabled(home: &str, timezone: &str, launcher: CcusageLauncher) -> (r: Self)
        ensures
            r.home@ == home@,
            r.timezone@ == timezone@,
            r.launcher == launcher,
            !r.enabled,
    {
        let mut collector = CcusageCollector::from_env(home, timezone, launcher, None);
        collector.enabled = false;
        collector
    }

    /// Whether `ccusage` is run.
    pub fn enabled(&self) -> (r: bool)
        ensures
            r == self.enabled,
    {
        self.enabled
    }
}

/// The runs that are made, by prices, scope and speed.
pub open spec fn planned_runs() -> Seq<(Seq<char>, Seq<char>, Seq<char>)> {
    seq![
        ("api"@, "daily"@, "auto"@),
        ("api"@, "daily"@, "standard"@),
        ("api"@, "session"@, "auto"@),
        ("api"@, "session"@, "standard"@),
        ("subscription"@, "daily"@, "auto"@),
        ("subscription"@, "daily"@, "standard"@),
        ("subscription"@, "session"@, "auto"@),
        ("subscription"@, "session"@, "standard"@),
    ]
}

/// The runs that are made, by prices, scope and speed.
pub fn run_plan() -> (r: Vec<(&'static str, &'static str, &'static str)>)
    ensures
        r.deep_view() == planned_runs(),
{
    let mut r: Vec<(&'static str, &'static str, &'static str)> = Vec::new();
    r.push(("api", "daily", "auto"));
    r.push(("api", "daily", "standard"));
    r.push(("api", "session", "auto"));
    r.push(("api", "session", "standard"));
    r.push(("subscription", "daily", "auto"));
    r.push(("subscription", "daily", "standard"));
    r.push(("subscription", "session", "auto"));
    r.push(("subscription", "session", "standard"));
    assert(r.deep_view() =~= planned_runs());
    r
}

/// The arguments of a run.
pub open spec fn arguments_of(
    scope: Seq<char>,
    speed: Seq<char>,
    timezone: Seq<char>,
    config_path: Option<Seq<char>>,
) -> Seq<Seq<char>> {
    seq![
        "codex"@,
        scope,
        "--json"@,
        "--offline"@,
        "--speed"@,
        speed,
        "--timezone"@,
        timezone,
    ] + match config_path {
        Some(path) => seq!["--config"@, path],
        None => Seq::empty(),
    }
}

/// The arguments of a run.
pub fn run_arguments(scope: &str, speed: &str, timezone: &str, config_path: Option<&str>) -> (r: Vec<
    String,
>)
    ensures
        r.deep_view() == arguments_of(scope@, speed@, timezone@, config_path.deep_view()),
{
    let mut args: Vec<String> = Vec::new();
    args.push("codex".to_owned());
    args.push(scope.to_owned());
    args.push("--json".to_owned());
    args.push("--offline".to_owned());
    args.push("--speed".to_owned());
    args.push(speed.to_owned());
    args.push("--timezone".to_owned());
    args.push(timezone.to_owned());
    if let Some(path) = config_path {
        args.push("--config".to_owned());
        args.push(path.to_owned());
    }
    assert(args.deep_view() =~= arguments_of(scope@, speed@, timezone@, config_path.deep_view()));
    args
}

/// The first line that is not empty, without white space at its ends.
pub open spec fn first_line_of(rows: Seq<Seq<char>>) -> Option<Seq<char>>
    decreases rows.len(),
{
    if rows.len() == 0 {
        None
    } else if trimmed(rows[0]).len() > 0 {
        Some(trimmed(rows[0]))
    } else {
        first_line_of(rows.skip(1))
    }
}

/// The version that the program tells: the first line that is not empty.
pub fn ccusage_version(output: &str) -> (r: Option<String>)
    ensures
        r.deep_view() == first_line_of(lines_of(output@)),
{
    let rows = lines(output);
    let ghost all = rows.deep_view();
    assert(all.skip(0) =~= all);
    let mut i: usize = 0;
    while i < rows.len()
        invariant
            i <= rows@.len(),
            all == rows.deep_view(),
            all == lines_of(output@),
            first_line_of(all) == first_line_of(all.skip(i as int)),
        decreases rows@.len() - i,
    {
        assert(all.skip(i as int)[0] == rows@[i as int]@);
        assert(all.skip(i as int).skip(1) =~= all.skip(i + 1));
        let line = trim(rows[i].as_str());
        if !line.as_str().is_empty() {
            return Some(line);
        }
        i = i + 1;
    }
    None
}

/// The status of a run, and what it told.
pub open spec fn outcome_of(outcome: CommandOutcome) -> (Seq<char>, JsonView) {
    match outcome {
        CommandOutcome::Value(value) => ("ok"@, value@),
        CommandOutcome::InvalidJson => (
            "failed"@,
            JsonView::Object(seq![("error"@, JsonView::Text("invalid_json"@))]),
        ),
        CommandOutcome::Exit(code) => (
            "failed"@,
            JsonView::Object(
                seq![
                    ("error"@, JsonView::Text("command_exit"@)),
                    (
                        "exit_code"@,
                        match code {
                            Some(code) => code@,
                            None => JsonView::Null,
                        },
                    ),
                ],
            ),
        ),
        CommandOutcome::Unavailable(kind) => (
            "failed"@,
            JsonView::Object(
                seq![
                    ("error"@, JsonView::Text("command_unavailable"@)),
                    ("kind"@, JsonView::Text(kind@)),
                ],
            ),
        ),
    }
}

/// The status of a run, and what it told.
pub fn read_outcome(outcome: CommandOutcome) -> (r: (String, Json))
    ensures
        (r.0@, r.1@) == outcome_of(outcome),
{
    let ghost expected = outcome_of(outcome);
    let mut members: Vec<(String, Json)> = Vec::new();
    match outcome {
        CommandOutcome::Value(value) => {
            return ("ok".to_owned(), value);
        },
        CommandOutcome::InvalidJson => {
            members.push(("error".to_owned(), Json::Text("invalid_json".to_owned())));
        },
        CommandOutcome::Exit(code) => {
            members.push(("error".to_owned(), Json::Text("command_exit".to_owned())));
            members.push(
                (
                    "exit_code".to_owned(),
                    match code {
                        Some(code) => code,
                        None => Json::Null,
                    },
                ),
            );
        },
        CommandOutcome::Unavailable(kind) => {
            members.push(("error".to_owned(), Json::Text("command_unavailable".to_owned())));
            members.push(("kind".to_owned(), Json::Text(kind)));
        },
    }
    let data = Json::Object(members);
    proof {
        reveal_with_fuel(Json::view, 2);
        assert(data@->Object_0 =~= expected.1->Object_0);
    }
    ("failed".to_owned(), data)
}

/// The keys of members that are not kept.
pub open spec fn private_keys() -> Seq<Seq<char>> {
    seq![
        "directory"@,
        "sessionfile"@,
        "session_file"@,
        "prompt"@,
        "message"@,
        "content"@,
        "accesstoken"@,
        "access_token"@,
        "refreshtoken"@,
        "refresh_token"@,
        "apikey"@,
        "api_key"@,
        "authorization"@,
        "email"@,
    ]
}

fn private_names() -> (r: [&'static str; 14])
    ensures
        views(r@) == private_keys(),
{
    let keys: [&'static str; 14] = [
        "directory",
        "sessionfile",
        "session_file",
        "prompt",
        "message",
        "content",
        "accesstoken",
        "access_token",
        "refreshtoken",
        "refresh_token",
        "apikey",
        "api_key",
        "authorization",
        "email",
    ];
    assert(views(keys@) =~= private_keys());
    keys
}

/// Whether a member is not kept.
pub fn is_private_key(key: &str) -> (r: bool)
    ensures
        r == is_private(key@, private_keys()),
{
    let keys = private_names();
    names_private(key, keys.as_slice())
}

/// A value without the members that are not kept; nothing of one that stands under such a key.
pub fn sanitize_value(value: &Json, key: Option<&str>) -> (r: Json)
    ensures
        r@ == (if key is Some && is_private(key->0@, private_keys()) {
            JsonView::Null
        } else {
            sanitized(value@, private_keys())
        }),
{
    if let Some(key) = key {
        if is_private_key(key) {
            return Json::Null;
        }
    }
    let keys = private_names();
    without_private(value, keys.as_slice())
}

/// The key of a record.
pub open spec fn source_key_of(result: CommandResultView, scope_key: Seq<char>) -> Seq<char> {
    "ccusage:"@ + integer_text(result.started_at_ms as int) + ":"@ + result.scope + ":"@ + scope_key
        + ":"@ + result.pricing + ":"@ + result.speed
}

/// The record of a row of a run, or of the run itself.
pub open spec fn record_of_row(
    result: CommandResultView,
    scope_key: Seq<char>,
    row: JsonView,
) -> SourceCcusageRecordView {
    SourceCcusageRecordView {
        source_key: source_key_of(result, scope_key),
        run_at_ms: result.finished_at_ms,
        range_start_ms: result.started_at_ms,
        range_end_ms: result.finished_at_ms,
        scope: result.scope,
        scope_key,
        pricing_scheme: result.pricing,
        speed: result.speed,
        input_tokens: integer_of_first(row, seq!["inputTokens"@, "input_tokens"@]),
        cache_read_tokens: integer_of_first(row, seq!["cacheReadTokens"@, "cache_read_tokens"@]),
        cache_write_tokens: integer_of_first(
            row,
            seq!["cacheCreationTokens"@, "cacheWriteTokens"@, "cache_write_tokens"@],
        ),
        output_tokens: integer_of_first(row, seq!["outputTokens"@, "output_tokens"@]),
        reasoning_tokens: integer_of_first(
            row,
            seq!["reasoningOutputTokens"@, "reasoning_tokens"@],
        ),
        total_tokens: integer_of_first(row, seq!["totalTokens"@, "total_tokens"@]),
        amount: match row.find(seq!["costUSD"@, "amount"@]) {
            Some(value) => value.as_float(),
            None => None,
        },
        model_breakdown_json: match row.get("models"@) {
            Some(models) => Some(json_text(models)),
            None => None,
        },
        ccusage_version: result.version,
        pricing_version: Some(embedded_pricing_version()),
        status: result.status,
    }
}

/// The rows of a run.
pub open spec fn rows_of_run(scope: Seq<char>, data: JsonView) -> Seq<JsonView> {
    let found = if scope == "daily"@ {
        data.get("daily"@)
    } else if scope == "session"@ {
        data.get("sessions"@)
    } else {
        None
    };
    match found {
        Some(JsonView::Array(rows)) => rows,
        _ => Seq::empty(),
    }
}

/// What a row is about: a day or a session.
pub open spec fn scope_key_of(scope: Seq<char>, row: JsonView) -> Seq<char> {
    if scope == "daily"@ {
        text_or(text_member(row, "date"@), "unknown"@)
    } else {
        text_or(text_of_first(row, seq!["sessionId"@, "session_id"@]), "unknown"@)
    }
}

/// The records of a run: one for each row, or one for the run itself where it has none.
pub open spec fn records_of_run(result: CommandResultView, data: JsonView) -> Seq<
    SourceCcusageRecordView,
> {
    let rows = rows_of_run(result.scope, data);
    if rows.len() == 0 {
        seq![record_of_row(result, "__run__"@, JsonView::Null)]
    } else {
        Seq::new(
            rows.len(),
            |i: int| record_of_row(result, scope_key_of(result.scope, rows[i]), rows[i]),
        )
    }
}

/// The record of a row of a run, or of the run itself.
pub fn source_record(result: &CommandResult, scope_key: &str, row: Option<&Json>) -> (r:
    SourceCcusageRecord)
    ensures
        r.deep_view() == record_of_row(
            result.deep_view(),
            scope_key@,
            match row {
                Some(row) => row@,
                None => JsonView::Null,
            },
        ),
{
    let null = Json::Null;
    let row = match row {
        Some(row) => row,
        None => &null,
    };
    let input: [&str; 2] = ["inputTokens", "input_tokens"];
    let read: [&str; 2] = ["cacheReadTokens", "cache_read_tokens"];
    let write: [&str; 3] = ["cacheCreationTokens", "cacheWriteTokens", "cache_write_tokens"];
    let output: [&str; 2] = ["outputTokens", "output_tokens"];
    let reasoning: [&str; 2] = ["reasoningOutputTokens", "reasoning_tokens"];
    let total: [&str; 2] = ["totalTokens", "total_tokens"];
    let cost: [&str; 2] = ["costUSD", "amount"];
    assert(views(input@) =~= seq!["inputTokens"@, "input_tokens"@]);
    assert(views(read@) =~= seq!["cacheReadTokens"@, "cache_read_tokens"@]);
    assert(views(write@) =~= seq!["cacheCreationTokens"@, "cacheWriteTokens"@, "cache_write_tokens"@]);
    assert(views(output@) =~= seq!["outputTokens"@, "output_tokens"@]);
    assert(views(reasoning@) =~= seq!["reasoningOutputTokens"@, "reasoning_tokens"@]);
    assert(views(total@) =~= seq!["totalTokens"@, "total_tokens"@]);
    assert(views(cost@) =~= seq!["costUSD"@, "amount"@]);
    let mut source_key = "ccusage:".to_owned();
    source_key.append(decimal(result.started_at_ms).as_str());
    source_key.append(":");
    source_key.append(result.scope.as_str());
    source_key.append(":");
    source_key.append(scope_key);
    source_key.append(":");
    source_key.append(result.pricing.as_str());
    source_key.append(":");
    source_key.append(result.speed.as_str());
    SourceCcusageRecord {
        source_key,
        run_at_ms: result.finished_at_ms,
        range_start_ms: result.started_at_ms,
        range_end_ms: result.finished_at_ms,
        scope: result.scope.clone(),
        scope_key: scope_key.to_owned(),
        pricing_scheme: result.pricing.clone(),
        speed: result.speed.clone(),
        input_tokens: row.integer_of_first(input.as_slice()),
        cache_read_tokens: row.integer_of_first(read.as_slice()),
        cache_write_tokens: row.integer_of_first(write.as_slice()),
        output_tokens: row.integer_of_first(output.as_slice()),
        reasoning_tokens: row.integer_of_first(reasoning.as_slice()),
        total_tokens: row.integer_of_first(total.as_slice()),
        amount: match row.find(cost.as_slice()) {
            Some(value) => value.as_float(),
            None => None,
        },
        model_breakdown_json: match row.get("models") {
            Some(models) => Some(models.to_text()),
            None => None,
        },
        ccusage_version: copy_option(&result.version),
        pricing_version: Some(pricing_version()),
        status: result.status.clone(),
    }
}

fn scope_key(scope: &str, row: &Json) -> (r: String)
    ensures
        r@ == scope_key_of(scope@, row@),
{
    let sessions: [&str; 2] = ["sessionId", "session_id"];
    assert(views(sessions@) =~= seq!["sessionId"@, "session_id"@]);
    let found = if same(scope, "daily") {
        row.text_member("date")
    } else {
        row.text_of_first(sessions.as_slice())
    };
    match found {
        Some(key) => key,
        None => "unknown".to_owned(),
    }
}

/// The records of a run, whose private members are taken out of `data`.
pub fn persist_source_rows(result: &CommandResult, data: &Json) -> (r: Vec<SourceCcusageRecord>)
    ensures
        r.deep_view() == records_of_run(result.deep_view(), data@),
{
    let ghost expected = records_of_run(result.deep_view(), data@);
    let mut records: Vec<SourceCcusageRecord> = Vec::new();
    let found = if same(result.scope.as_str(), "daily") {
        data.get("daily")
    } else if same(result.scope.as_str(), "session") {
        data.get("sessions")
    } else {
        None
    };
    if let Some(value) = found {
        if let Json::Array(rows) = value {
            let ghost all = rows_of_run(result.scope@, data@);
            assert(all == value@->Array_0);
            if rows.len() > 0 {
                let mut i: usize = 0;
                while i < rows.len()
                    invariant
                        i <= rows@.len(),
                        *value == Json::Array(*rows),
                        all == value@->Array_0,
                        all == rows_of_run(result.scope@, data@),
                        rows@.len() > 0,
                        expected == records_of_run(result.deep_view(), data@),
                        records.deep_view() == expected.take(i as int),
                    decreases rows@.len() - i,
                {
                    let ghost before = records.deep_view();
                    assert(all[i as int] == rows@[i as int]@);
                    let key = scope_key(result.scope.as_str(), &rows[i]);
                    records.push(source_record(result, key.as_str(), Some(&rows[i])));
                    assert(records.deep_view() =~= before.push(expected[i as int]));
                    i = i + 1;
                    assert(records.deep_view() =~= expected.take(i as int));
                }
                assert(expected.take(i as int) =~= expected);
                return records;
            }
        }
    }
    records.push(source_record(result, "__run__", None));
    assert(records.deep_view() =~= expected);
    records
}

/// How many runs succeeded.
pub open spec fn successes(results: Seq<CommandResultView>) -> nat
    decreases results.len(),
{
    if results.len() == 0 {
        0
    } else {
        successes(results.drop_last()) + (if results.last().status == "ok"@ {
            1nat
        } else {
            0nat
        })
    }
}

/// What runs together came to.
pub open spec fn overall_status(runs: nat, succeeded: nat) -> Seq<char> {
    if succeeded == runs {
        "ok"@
    } else if succeeded == 0 {
        "failed"@
    } else {
        "partial"@
    }
}

/// What runs together came to.
pub fn summarize(results: &Vec<CommandResult>) -> (r: CcusageRunSummary)
    ensures
        r.runs == results@.len(),
        r.succeeded == successes(results.deep_view()),
        r.succeeded <= r.runs,
        r.status@ == overall_status(results@.len(), successes(results.deep_view())),
{
    let ghost all = results.deep_view();
    let len: usize = results.len();
    let mut succeeded: usize = 0;
    let mut i: usize = 0;
    while i < len
        invariant
            i <= len,
            len == results@.len(),
            all == results.deep_view(),
            succeeded <= i,
            succeeded == successes(all.take(i as int)),
        decreases len - i,
    {
        assert(all.take(i + 1).drop_last() =~= all.take(i as int));
        assert(all.take(i + 1).last() == results@[i as int].deep_view());
        if same(results[i].status.as_str(), "ok") {
            succeeded = succeeded + 1;
        }
        i = i + 1;
    }
    assert(all.take(i as int) =~= all);
    let status = if succeeded == len {
        "ok"
    } else if succeeded == 0 {
        "failed"
    } else {
        "partial"
    };
    CcusageRunSummary { status: status.to_owned(), runs: len, succeeded }
}

} // verus!
