//! The tokens of each day.
use crate::calendar::{
    date_at, date_of_instant, in_calendar, out_of_range, SHANGHAI_OFFSET_MS,
};
use crate::collectors::jsonl::cursor::{JsonlCollectorError, JsonlCollectorErrorView};
use crate::collectors::jsonl::JsonlCollector;
use crate::digest::{digest_text, text_digest};
use crate::domain::models::{Quality, TokenCounts};
use crate::domain::time::{can_be_local, no_local_time, shanghai_date};
use crate::ordered::{copy_texts, lookup, put, OrderedMap};
use crate::text::same;
use vstd::prelude::*;
use vstd::string::*;

verus! {

/// A stored count of tokens.
#[derive(Debug)]
pub struct TokenRow {
    pub observed_at_ms: i64,
    pub tokens: TokenCounts,
    pub source_digest: String,
}

/// A `TokenRow` with its texts as sequences of characters.
#[verifier::ext_equal]
pub struct TokenRowView {
    pub observed_at_ms: i64,
    pub tokens: TokenCounts,
    pub source_digest: Seq<char>,
}

impl DeepView for TokenRow {
    type V = TokenRowView;

    open spec fn deep_view(&self) -> TokenRowView {
        TokenRowView {
            observed_at_ms: self.observed_at_ms,
            tokens: self.tokens,
            source_digest: self.source_digest@,
        }
    }
}

/// The tokens of a day.
#[derive(Debug)]
pub struct JsonlDailyTokenRollup {
    pub machine_id: i64,
    pub local_date: String,
    pub timezone: String,
    pub tokens: TokenCounts,
    pub source: String,
    pub quality: Quality,
    pub collector_version: String,
    pub source_digest: String,
}

/// A `JsonlDailyTokenRollup` with its texts as sequences of characters.
#[verifier::ext_equal]
pub struct JsonlDailyTokenRollupView {
    pub machine_id: i64,
    pub local_date: Seq<char>,
    pub timezone: Seq<char>,
    pub tokens: TokenCounts,
    pub source: Seq<char>,
    pub quality: Quality,
    pub collector_version: Seq<char>,
    pub source_digest: Seq<char>,
}

impl DeepView for JsonlDailyTokenRollup {
    type V = JsonlDailyTokenRollupView;

    open spec fn deep_view(&self) -> JsonlDailyTokenRollupView {
        JsonlDailyTokenRollupView {
            machine_id: self.machine_id,
            local_date: self.local_date@,
            timezone: self.timezone@,
            tokens: self.tokens,
            source: self.source@,
            quality: self.quality,
            collector_version: self.collector_version@,
            source_digest: self.source_digest@,
        }
    }
}

/// The tokens of a day, and the digests of the counts that they come from.
#[derive(Debug)]
pub struct Day {
    pub tokens: TokenCounts,
    pub digests: Vec<String>,
}

/// A `Day` with its texts as sequences of characters.
#[verifier::ext_equal]
pub struct DayView {
    pub tokens: TokenCounts,
    pub digests: Seq<Seq<char>>,
}

impl DeepView for Day {
    type V = DayView;

    open spec fn deep_view(&self) -> DayView {
        DayView {
            tokens: self.tokens,
            digests: self.digests.deep_view(),
        }
    }
}

/// Whether the days of a time zone are those of Shanghai.
pub open spec fn has_shanghai_days(timezone: Seq<char>) -> bool {
    timezone == "Asia/Shanghai"@ || timezone == "Asia/Chongqing"@ || timezone == "Asia/Harbin"@
        || timezone == "Asia/Urumqi"@ || timezone == "PRC"@
}

/// Whether the days of a time zone are those of UTC.
pub open spec fn has_utc_days(timezone: Seq<char>) -> bool {
    timezone == "UTC"@ || timezone == "Etc/UTC"@
}

/// The date of an instant in a time zone, or why it cannot be told.
pub open spec fn date_in(epoch_ms: i64, timezone: Seq<char>) -> Result<
    Seq<char>,
    JsonlCollectorErrorView,
> {
    if has_shanghai_days(timezone) {
        if !in_calendar(epoch_ms as int, 0) {
            Err(JsonlCollectorErrorView::Timestamp(out_of_range()))
        } else if !in_calendar(epoch_ms as int, SHANGHAI_OFFSET_MS as int) {
            Err(JsonlCollectorErrorView::Timestamp(no_local_time()))
        } else {
            Ok(date_at(epoch_ms as int, SHANGHAI_OFFSET_MS as int).text())
        }
    } else if has_utc_days(timezone) {
        if in_calendar(epoch_ms as int, 0) {
            Ok(date_at(epoch_ms as int, 0).text())
        } else {
            Err(JsonlCollectorErrorView::Timestamp(out_of_range()))
        }
    } else {
        Err(
            JsonlCollectorErrorView::Timestamp(
                "unsupported JSONL rollup timezone: "@ + timezone,
            ),
        )
    }
}

/// The date of an instant in a time zone, or why it cannot be told.
pub fn local_date_for_timezone(epoch_ms: i64, timezone: &str) -> (r: Result<
    String,
    JsonlCollectorError,
>)
    ensures
        match r {
            Ok(date) => date_in(epoch_ms, timezone@) == Ok::<Seq<char>, JsonlCollectorErrorView>(
                date@,
            ),
            Err(error) => date_in(epoch_ms, timezone@) == Err::<
                Seq<char>,
                JsonlCollectorErrorView,
            >(error.deep_view()),
        },
{
    if same(timezone, "Asia/Shanghai") || same(timezone, "Asia/Chongqing") || same(
        timezone,
        "Asia/Harbin",
    ) || same(timezone, "Asia/Urumqi") || same(timezone, "PRC") {
        if !can_be_local(epoch_ms) {
            return Err(
                JsonlCollectorError::Timestamp("local datetime out of valid range".to_owned()),
            );
        }
        match shanghai_date(epoch_ms) {
            Ok(date) => Ok(date),
            Err(error) => Err(JsonlCollectorError::Timestamp(error.message)),
        }
    } else if same(timezone, "UTC") || same(timezone, "Etc/UTC") {
        match date_of_instant(epoch_ms, 0) {
            Ok(date) => Ok(date.to_text()),
            Err(reason) => Err(JsonlCollectorError::Timestamp(reason)),
        }
    } else {
        let mut reason = "unsupported JSONL rollup timezone: ".to_owned();
        reason.append(timezone);
        Err(JsonlCollectorError::Timestamp(reason))
    }
}

/// Whether a number can be counted.
pub open spec fn fits(n: int) -> bool {
    i64::MIN <= n <= i64::MAX
}

/// The sum of counts, where it can be counted.
pub open spec fn added_counts(a: TokenCounts, b: TokenCounts) -> Option<TokenCounts> {
    if fits(a.input_tokens + b.input_tokens) && fits(a.cached_input_tokens + b.cached_input_tokens)
        && fits(a.cache_write_input_tokens + b.cache_write_input_tokens) && fits(
        a.output_tokens + b.output_tokens,
    ) && fits(a.reasoning_output_tokens + b.reasoning_output_tokens) && fits(
        a.total_tokens + b.total_tokens,
    ) {
        Some(
            TokenCounts {
                input_tokens: (a.input_tokens + b.input_tokens) as i64,
                cached_input_tokens: (a.cached_input_tokens + b.cached_input_tokens) as i64,
                cache_write_input_tokens: (a.cache_write_input_tokens
                    + b.cache_write_input_tokens) as i64,
                output_tokens: (a.output_tokens + b.output_tokens) as i64,
                reasoning_output_tokens: (a.reasoning_output_tokens
                    + b.reasoning_output_tokens) as i64,
                total_tokens: (a.total_tokens + b.total_tokens) as i64,
            },
        )
    } else {
        None
    }
}

/// The sum of counts, where it can be counted.
pub fn add_token_counts(a: TokenCounts, b: TokenCounts) -> (r: Option<TokenCounts>)
    ensures
        r == added_counts(a, b),
{
    match (
        a.input_tokens.checked_add(b.input_tokens),
        a.cached_input_tokens.checked_add(b.cached_input_tokens),
        a.cache_write_input_tokens.checked_add(b.cache_write_input_tokens),
        a.output_tokens.checked_add(b.output_tokens),
        a.reasoning_output_tokens.checked_add(b.reasoning_output_tokens),
        a.total_tokens.checked_add(b.total_tokens),
    ) {
        (
            Some(input_tokens),
            Some(cached_input_tokens),
            Some(cache_write_input_tokens),
            Some(output_tokens),
            Some(reasoning_output_tokens),
            Some(total_tokens),
        ) => Some(
            TokenCounts {
                input_tokens,
                cached_input_tokens,
                cache_write_input_tokens,
                output_tokens,
                reasoning_output_tokens,
                total_tokens,
            },
        ),
        _ => None,
    }
}

/// No tokens.
pub open spec fn no_counts() -> TokenCounts {
    TokenCounts {
        input_tokens: 0,
        cached_input_tokens: 0,
        cache_write_input_tokens: 0,
        output_tokens: 0,
        reasoning_output_tokens: 0,
        total_tokens: 0,
    }
}

/// What is known of a day of which nothing was counted yet.
pub open spec fn day_so_far(days: Seq<(Seq<char>, DayView)>, date: Seq<char>) -> DayView {
    match lookup::<String, DayView>(days, date) {
        Some(day) => day,
        None => DayView { tokens: no_counts(), digests: Seq::empty() },
    }
}

/// The days of stored counts, in their order, or why they cannot be told.
pub open spec fn days_of(rows: Seq<TokenRowView>, timezone: Seq<char>) -> Result<
    Seq<(Seq<char>, DayView)>,
    JsonlCollectorErrorView,
>
    decreases rows.len(),
{
    if rows.len() == 0 {
        Ok(Seq::empty())
    } else {
        match days_of(rows.drop_last(), timezone) {
            Ok(days) => match date_in(rows.last().observed_at_ms, timezone) {
                Ok(date) => {
                    let day = day_so_far(days, date);
                    match added_counts(day.tokens, rows.last().tokens) {
                        Some(tokens) => Ok(
                            put::<String, DayView>(
                                days,
                                date,
                                DayView {
                                    tokens,
                                    digests: day.digests.push(rows.last().source_digest),
                                },
                            ),
                        ),
                        None => Err(JsonlCollectorErrorView::TokenOverflow),
                    }
                },
                Err(error) => Err(error),
            },
            Err(error) => Err(error),
        }
    }
}

/// What stops the count of some rows stops the count of all.
proof fn lemma_failure_stays(rows: Seq<TokenRowView>, timezone: Seq<char>, n: int)
    requires
        0 <= n <= rows.len(),
        days_of(rows.take(n), timezone) is Err,
    ensures
        days_of(rows, timezone) == days_of(rows.take(n), timezone),
    decreases rows.len(),
{
    if n == rows.len() {
        assert(rows.take(n) =~= rows);
    } else {
        assert(rows.drop_last().take(n) =~= rows.take(n));
        lemma_failure_stays(rows.drop_last(), timezone, n);
    }
}

fn count_days(rows: &Vec<TokenRow>, timezone: &str) -> (r: Result<
    OrderedMap<String, Day>,
    JsonlCollectorError,
>)
    ensures
        match r {
            Ok(days) => days_of(rows.deep_view(), timezone@) == Ok::<
                Seq<(Seq<char>, DayView)>,
                JsonlCollectorErrorView,
            >(days.deep_view()),
            Err(error) => days_of(rows.deep_view(), timezone@) == Err::<
                Seq<(Seq<char>, DayView)>,
                JsonlCollectorErrorView,
            >(error.deep_view()),
        },
{
    let ghost all = rows.deep_view();
    let mut days: OrderedMap<String, Day> = OrderedMap::new();
    let mut i: usize = 0;
    while i < rows.len()
        invariant
            i <= rows@.len(),
            all == rows.deep_view(),
            days_of(all.take(i as int), timezone@) == Ok::<
                Seq<(Seq<char>, DayView)>,
                JsonlCollectorErrorView,
            >(days.deep_view()),
        decreases rows@.len() - i,
    {
        assert(all.take(i + 1).drop_last() =~= all.take(i as int));
        assert(all.take(i + 1).last() == rows@[i as int].deep_view());
        let date = match local_date_for_timezone(rows[i].observed_at_ms, timezone) {
            Ok(date) => date,
            Err(error) => {
                proof {
                    lemma_failure_stays(all, timezone@, i + 1);
                }
                return Err(error);
            },
        };
        let mut day = match days.get(&date) {
            Some(day) => Day { tokens: day.tokens, digests: copy_texts(&day.digests) },
            None => Day { tokens: TokenCounts::default(), digests: Vec::new() },
        };
        let ghost before = day_so_far(days.deep_view(), date@);
        assert(day.digests.deep_view() =~= before.digests);
        match add_token_counts(day.tokens, rows[i].tokens) {
            Some(tokens) => {
                day.tokens = tokens;
                day.digests.push(rows[i].source_digest.clone());
                assert(day.digests.deep_view() =~= before.digests.push(
                    rows@[i as int].source_digest@,
                ));
                days.put(date, day);
            },
            None => {
                proof {
                    lemma_failure_stays(all, timezone@, i + 1);
                }
                return Err(JsonlCollectorError::TokenOverflow);
            },
        }
        i = i + 1;
    }
    assert(all.take(i as int) =~= all);
    Ok(days)
}

/// Digests, each with a zero character after it.
pub open spec fn closed_digests(digests: Seq<Seq<char>>) -> Seq<char>
    decreases digests.len(),
{
    if digests.len() == 0 {
        Seq::empty()
    } else {
        closed_digests(digests.drop_last()) + digests.last() + "\0"@
    }
}

/// The digest of a day: of its date and of the digests of all that was counted.
pub open spec fn digest_of_day(date: Seq<char>, digests: Seq<Seq<char>>) -> Seq<char> {
    text_digest("jsonl-daily\0"@ + date + "\0"@ + closed_digests(digests))
}

fn day_digest(date: &str, digests: &Vec<String>) -> (r: String)
    ensures
        r@ == digest_of_day(date@, digests.deep_view()),
{
    let ghost all = digests.deep_view();
    let mut text = "jsonl-daily\0".to_owned();
    text.append(date);
    text.append("\0");
    let ghost head = text@;
    assert(head + closed_digests(all.take(0)) =~= head);
    let mut i: usize = 0;
    while i < digests.len()
        invariant
            i <= digests@.len(),
            all == digests.deep_view(),
            text@ == head + closed_digests(all.take(i as int)),
        decreases digests@.len() - i,
    {
        let ghost before = text@;
        assert(all.take(i + 1).drop_last() =~= all.take(i as int));
        assert(all.take(i + 1).last() == digests@[i as int]@);
        text.append(digests[i].as_str());
        text.append("\0");
        assert(text@ =~= head + closed_digests(all.take(i + 1)));
        i = i + 1;
    }
    assert(all.take(i as int) =~= all);
    digest_text(text.as_str())
}

/// The stored tokens of a day.
pub open spec fn rollup_of_day(
    date: Seq<char>,
    day: DayView,
    machine_id: i64,
    timezone: Seq<char>,
    collector_version: Seq<char>,
) -> JsonlDailyTokenRollupView {
    JsonlDailyTokenRollupView {
        machine_id,
        local_date: date,
        timezone,
        tokens: day.tokens,
        source: "jsonl"@,
        quality: Quality::Exact,
        collector_version,
        source_digest: digest_of_day(date, day.digests),
    }
}

/// The stored tokens of days.
pub open spec fn rollups_of(
    days: Seq<(Seq<char>, DayView)>,
    machine_id: i64,
    timezone: Seq<char>,
    collector_version: Seq<char>,
) -> Seq<JsonlDailyTokenRollupView> {
    days.map_values(
        |day: (Seq<char>, DayView)|
            rollup_of_day(day.0, day.1, machine_id, timezone, collector_version),
    )
}

impl JsonlCollector {
    /// The tokens of each day, from the stored counts in the order of their instants.
    pub fn rebuild_daily_token_rollups(&self, rows: &Vec<TokenRow>) -> (r: Result<
        Vec<JsonlDailyTokenRollup>,
        JsonlCollectorError,
    >)
        ensures
            match days_of(rows.deep_view(), self.timezone@) {
                Ok(days) => r is Ok && r->Ok_0.deep_view() == rollups_of(
                    days,
                    self.machine_id,
                    self.timezone@,
                    self.collector_version@,
                ),
                Err(error) => r is Err && r->Err_0.deep_view() == error,
            },
    {
        let days = match count_days(rows, self.timezone.as_str()) {
            Ok(days) => days,
            Err(error) => return Err(error),
        };
        let ghost all = days.deep_view();
        let ghost wanted = rollups_of(
            all,
            self.machine_id,
            self.timezone@,
            self.collector_version@,
        );
        let mut rollups: Vec<JsonlDailyTokenRollup> = Vec::new();
        assert(rollups.deep_view() =~= wanted.take(0));
        let mut i: usize = 0;
        while i < days.entries.len()
            invariant
                i <= days.entries@.len(),
                all == days.deep_view(),
                wanted == rollups_of(
                    all,
                    self.machine_id,
                    self.timezone@,
                    self.collector_version@,
                ),
                rollups.deep_view() == wanted.take(i as int),
            decreases days.entries@.len() - i,
        {
            let entry = &days.entries[i];
            assert(all[i as int] == entry.deep_view());
            let rollup = JsonlDailyTokenRollup {
                machine_id: self.machine_id,
                local_date: entry.0.clone(),
                timezone: self.timezone.clone(),
                tokens: entry.1.tokens,
                source: "jsonl".to_owned(),
                quality: Quality::Exact,
                collector_version: self.collector_version.clone(),
                source_digest: day_digest(entry.0.as_str(), &entry.1.digests),
            };
            let ghost before = rollups.deep_view();
            let ghost told = rollup.deep_view();
            rollups.push(rollup);
            assert(rollups.deep_view() =~= before.push(told));
            assert(wanted[i as int] =~= told);
            assert(wanted.take(i + 1) =~= wanted.take(i as int).push(told));
            i = i + 1;
        }
        assert(wanted.take(i as int) =~= wanted);
        Ok(rollups)
    }
}

} // verus!
