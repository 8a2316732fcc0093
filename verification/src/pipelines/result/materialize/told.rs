//! What the rows of the four tables tell of the requests that are stored.
use crate::db::{
    Coverage, ModelUsageView, UsageDailyRecordView, UsageMinuteRecordView, UsageSessionRecordView,
    UsageWindowRecordView,
};
use crate::json::Float;
use crate::ordered::{
    all_entries, all_values, keys_increase, lemma_entry_is_found, lemma_has, lemma_keys_differ,
    lemma_lookup_entry, lemma_lookup_value, lemma_put_entries, lemma_put_lookup, lemma_put_values,
    lemma_with_text, lookup, put, sum_values, texts_increase, with_text, Key,
};
use crate::pipelines::result::materialize::clock::local_date_of;
use crate::pipelines::result::materialize::laws::{
    bucket_step, lemma_gathered_in_order, lemma_official_in_order, session_step,
};
use crate::pipelines::result::materialize::metric::{api_usd_of, credit_of, if_used, with_usage};
use crate::pipelines::result::materialize::records::{
    empty_window_aggregate, DayAggregateView, MetricView, MinuteBucketView, QuotaObservationView,
    SessionAggregateView, UsageRecordView, WindowAggregateView, WindowSegmentView,
};
use crate::pipelines::result::materialize::rollup::{
    day_with_usage, fresh_windows, gathered, held_day, id_of, model_key, official_scan, price_of,
    quota_minutes, session_with_usage, window_with_percent, RollupView, SettingView, SliceView,
};
use crate::pipelines::result::materialize::load::account_of;
use crate::pipelines::result::materialize::rows::{fast_state, percents_between, tokens_in};
use crate::pipelines::result::materialize::tables::{
    adds_up, are_countable, credit_used, day_of, day_sum, dollars_of, first_in, is_of_model,
    knows_credit, knows_dollars, last_in, lemma_day_adds_up, lemma_day_says_its_minutes,
    lemma_fresh_windows_start, lemma_minute_adds_up, lemma_minute_of_step, lemma_minutes_are_keyed,
    lemma_model_adds_up, lemma_models_add_up, lemma_models_in_order, lemma_official_start,
    lemma_requests_keep_official, lemma_session_adds_up, lemma_session_of_step,
    lemma_unknown_sums_are_zero, lemma_window_adds_up, lemma_window_says_its_minutes,
    lemma_windows_are_keyed, minute_has_key, minute_of_request, minute_sum, model_sum, models_of,
    names_a_model, percents_of_day, percents_of_window, points_of, rises_in, row_of_request, select,
    session_sum, sum_over, tells_sums, told, whole_minute, Columns, Point,
};
use crate::pipelines::result::materialize::windows::{
    lemma_every_request_is_in_a_window, window_of_usage, windows_of,
};
use crate::pipelines::result::materialize::{
    quotas_in, refreshed, setting_in, usages_in, SourcesView,
};
use crate::pricing::ServiceTier;
use crate::text::{text_less, text_or};
use vstd::prelude::*;
use vstd::string::*;

verus! {

/// The columns of a day.
pub open spec fn daily_columns(row: UsageDailyRecordView) -> Columns {
    Columns {
        input: row.input_tokens,
        cache_read: row.cache_read_tokens,
        cache_write: row.cache_write_tokens,
        output: row.output_tokens,
        reasoning: row.reasoning_tokens,
        total: row.total_tokens,
        credit: row.credit_micros,
        api_usd: row.api_usd_micros,
    }
}

/// The columns of a minute.
pub open spec fn minute_columns(row: UsageMinuteRecordView) -> Columns {
    Columns {
        input: row.input_tokens,
        cache_read: row.cache_read_tokens,
        cache_write: row.cache_write_tokens,
        output: row.output_tokens,
        reasoning: row.reasoning_tokens,
        total: row.total_tokens,
        credit: row.credit_micros,
        api_usd: row.api_usd_micros,
    }
}

/// The columns of a window.
pub open spec fn window_columns(row: UsageWindowRecordView) -> Columns {
    Columns {
        input: row.input_tokens,
        cache_read: row.cache_read_tokens,
        cache_write: row.cache_write_tokens,
        output: row.output_tokens,
        reasoning: row.reasoning_tokens,
        total: row.total_tokens,
        credit: row.credit_micros,
        api_usd: row.api_usd_micros,
    }
}

/// The columns of a session.
pub open spec fn session_columns(row: UsageSessionRecordView) -> Columns {
    Columns {
        input: row.input_tokens,
        cache_read: row.cache_read_tokens,
        cache_write: row.cache_write_tokens,
        output: row.output_tokens,
        reasoning: row.reasoning_tokens,
        total: row.total_tokens,
        credit: row.credit_micros,
        api_usd: row.api_usd_micros,
    }
}

/// The columns that a sum is stored in.
spec fn columns_of(metric: MetricView) -> Columns {
    Columns {
        input: if_used(metric, metric.tokens.input),
        cache_read: if_used(metric, metric.tokens.cached),
        cache_write: if_used(metric, metric.tokens.cache_write),
        output: if_used(metric, metric.tokens.output),
        reasoning: if_used(metric, metric.tokens.reasoning),
        total: if_used(metric, metric.tokens.total),
        credit: credit_of(metric),
        api_usd: api_usd_of(metric),
    }
}

proof fn lemma_columns(
    metric: MetricView,
    usages: Seq<UsageRecordView>,
    configured: ServiceTier,
)
    requires
        adds_up(metric, usages, configured),
    ensures
        tells_sums(columns_of(metric), usages, configured),
{
    lemma_unknown_sums_are_zero(usages, configured);
    if knows_credit(usages, configured) {
        let i = choose|i: int|
            0 <= i < usages.len() && credit_used(#[trigger] usages[i], configured) is Some;
        assert(usages.len() > 0);
    }
    if knows_dollars(usages, configured) {
        let i = choose|i: int|
            0 <= i < usages.len() && dollars_of(#[trigger] usages[i], configured) is Some;
        assert(usages.len() > 0);
    }
}

/// What is wanted is picked.
proof fn lemma_wanted_is_selected(
    usages: Seq<UsageRecordView>,
    wanted: spec_fn(UsageRecordView) -> bool,
    at: int,
)
    requires
        0 <= at < usages.len(),
        wanted(usages[at]),
    ensures
        select(usages, wanted).len() > 0,
    decreases usages.len(),
{
    if at < usages.len() - 1 {
        assert(usages.drop_last()[at] == usages[at]);
        lemma_wanted_is_selected(usages.drop_last(), wanted, at);
    }
}

pub proof fn lemma_days_are_keyed(
    usages: Seq<UsageRecordView>,
    quotas: Seq<QuotaObservationView>,
    setting: SettingView,
)
    ensures
        all_entries::<String, DayAggregateView>(
            gathered(usages, quotas, setting).days,
            |date: Seq<char>, day: DayAggregateView| day.local_date == date,
        ),
    decreases usages.len(),
{
    let p = |date: Seq<char>, day: DayAggregateView| day.local_date == date;
    if usages.len() == 0 {
        lemma_official_start(quota_minutes(quotas, setting), setting.windows);
    } else {
        let (shorter, usage) = (usages.drop_last(), usages.last());
        lemma_days_are_keyed(shorter, quotas, setting);
        lemma_gathered_in_order(shorter, quotas, setting);
        lemma_minute_of_step(shorter, quotas, setting, usage);
        let before = gathered(shorter, quotas, setting);
        let date = day_of(usage);
        lemma_lookup_entry::<String, DayAggregateView>(before.days, date, p);
        lemma_put_entries::<String, DayAggregateView>(
            before.days,
            date,
            day_with_usage(
                held_day(before.days, date),
                usage,
                price_of(usage, setting.configured),
                setting,
            ),
            p,
        );
    }
}

/// A row of the days tells, in each column, the sum over the requests of its date; each date has
/// one row, and each request is of a date that has.
pub proof fn lemma_days_tell_their_requests(sources: SourcesView)
    requires
        are_countable(usages_in(sources), sources.configured),
    ensures
        ({
            let rows = refreshed(sources).daily;
            let usages = usages_in(sources);
            &&& forall|i: int|
                #![trigger rows[i]]
                0 <= i < rows.len() ==> tells_sums(
                    daily_columns(rows[i]),
                    select(usages, |u: UsageRecordView| day_of(u) == rows[i].local_date),
                    sources.configured,
                )
            &&& forall|i: int, j: int|
                0 <= i < j < rows.len() ==> (#[trigger] rows[i]).local_date != (
                #[trigger] rows[j]).local_date
            &&& forall|k: int|
                #![trigger usages[k]]
                0 <= k < usages.len() ==> exists|i: int|
                    0 <= i < rows.len() && (#[trigger] rows[i]).local_date == day_of(usages[k])
        }),
{
    let (usages, quotas, setting) = (usages_in(sources), quotas_in(sources), setting_in(sources));
    let rows = refreshed(sources).daily;
    let days = gathered(usages, quotas, setting).days;
    lemma_gathered_in_order(usages, quotas, setting);
    lemma_days_are_keyed(usages, quotas, setting);
    let p = |date: Seq<char>, day: DayAggregateView| day.local_date == date;
    assert forall|i: int| 0 <= i < rows.len() implies (#[trigger] rows[i]).local_date == days[i].0
        && tells_sums(
        daily_columns(rows[i]),
        select(usages, |u: UsageRecordView| day_of(u) == rows[i].local_date),
        sources.configured,
    ) by {
        assert(p(days[i].0, days[i].1));
        lemma_entry_is_found::<String, DayAggregateView>(days, i);
        lemma_day_adds_up(usages, quotas, setting, days[i].0);
        assert(day_sum(days, days[i].0) == days[i].1.metric);
        lemma_columns(
            days[i].1.metric,
            select(usages, |u: UsageRecordView| day_of(u) == rows[i].local_date),
            sources.configured,
        );
        assert(daily_columns(rows[i]) == columns_of(days[i].1.metric));
    }
    assert forall|i: int, j: int| 0 <= i < j < rows.len() implies (#[trigger] rows[i]).local_date
        != (#[trigger] rows[j]).local_date by {
        lemma_keys_differ::<String, DayAggregateView>(days, i, j);
    }
    assert forall|k: int| #![trigger usages[k]] 0 <= k < usages.len() implies exists|i: int|
        0 <= i < rows.len() && (#[trigger] rows[i]).local_date == day_of(usages[k]) by {
        let date = day_of(usages[k]);
        let wanted = |u: UsageRecordView| day_of(u) == date;
        lemma_day_adds_up(usages, quotas, setting, date);
        lemma_wanted_is_selected(usages, wanted, k);
        assert(lookup::<String, DayAggregateView>(days, date) is Some);
        lemma_has::<String, DayAggregateView>(days, date);
        let i = choose|i: int| 0 <= i < days.len() && (#[trigger] days[i]).0 == date;
        assert(rows[i].local_date == days[i].0);
    }
}

/// Whether a request is in the minute and the window of a row of the minutes.
pub open spec fn is_of_minute(
    usage: UsageRecordView,
    setting: SettingView,
    row: UsageMinuteRecordView,
) -> bool {
    &&& row.minute_start_ms == whole_minute(usage.observed_at_ms)
    &&& text_or(row.window_id, "none"@) == text_or(
        id_of(window_of_usage(setting.windows, usage.observed_at_ms)),
        "none"@,
    )
}

/// A row of the minutes tells, in each column, the sum over the requests of its minute and window,
/// and has the date of its minute; each minute and window has one row, and the rows stand in the
/// order of time; each request is of a minute and window that has a row.
pub proof fn lemma_minutes_tell_their_requests(sources: SourcesView)
    requires
        are_countable(usages_in(sources), sources.configured),
    ensures
        ({
            let rows = refreshed(sources).minutes;
            let usages = usages_in(sources);
            let setting = setting_in(sources);
            &&& forall|i: int|
                #![trigger rows[i]]
                0 <= i < rows.len() ==> tells_sums(
                    minute_columns(rows[i]),
                    select(usages, |u: UsageRecordView| is_of_minute(u, setting, rows[i])),
                    sources.configured,
                )
            &&& forall|i: int|
                #![trigger rows[i]]
                0 <= i < rows.len() ==> rows[i].local_date == text_or(
                    local_date_of(rows[i].minute_start_ms),
                    "unknown"@,
                )
            &&& forall|i: int, j: int|
                0 <= i < j < rows.len() ==> (#[trigger] rows[i]).minute_start_ms <= (
                #[trigger] rows[j]).minute_start_ms && (rows[i].minute_start_ms
                    == rows[j].minute_start_ms ==> text_or(rows[i].window_id, "none"@) != text_or(
                    rows[j].window_id,
                    "none"@,
                ))
            &&& forall|k: int|
                #![trigger usages[k]]
                0 <= k < usages.len() ==> exists|i: int|
                    0 <= i < rows.len() && is_of_minute(usages[k], setting, #[trigger] rows[i])
        }),
{
    let (usages, quotas, setting) = (usages_in(sources), quotas_in(sources), setting_in(sources));
    let rows = refreshed(sources).minutes;
    let minutes = gathered(usages, quotas, setting).minutes;
    lemma_gathered_in_order(usages, quotas, setting);
    lemma_minutes_are_keyed(usages, quotas, setting);
    let p = |key: (i64, Seq<char>), bucket: MinuteBucketView| minute_has_key(key, bucket);
    assert forall|i: int| #![trigger rows[i]] 0 <= i < rows.len() implies minute_has_key(
        minutes[i].0,
        minutes[i].1,
    ) && rows[i].minute_start_ms == (minutes[i].0).0 && text_or(rows[i].window_id, "none"@) == (
    minutes[i].0).1 && tells_sums(
        minute_columns(rows[i]),
        select(usages, |u: UsageRecordView| is_of_minute(u, setting, rows[i])),
        sources.configured,
    ) by {
        let key = minutes[i].0;
        assert(p(key, minutes[i].1));
        lemma_entry_is_found::<(i64, String), MinuteBucketView>(minutes, i);
        lemma_minute_adds_up(usages, quotas, setting, key);
        assert(minute_sum(minutes, key) == minutes[i].1.metric);
        let wanted = |u: UsageRecordView| is_of_minute(u, setting, rows[i]);
        let picked = |u: UsageRecordView| minute_of_request(u, setting) == key;
        lemma_selection_within(usages, wanted, picked);
        lemma_columns(minutes[i].1.metric, select(usages, wanted), sources.configured);
        assert(minute_columns(rows[i]) == columns_of(minutes[i].1.metric));
    }
    assert forall|i: int, j: int| 0 <= i < j < rows.len() implies (
    #[trigger] rows[i]).minute_start_ms <= (#[trigger] rows[j]).minute_start_ms && (
    rows[i].minute_start_ms == rows[j].minute_start_ms ==> text_or(rows[i].window_id, "none"@)
        != text_or(rows[j].window_id, "none"@)) by {
        lemma_keys_differ::<(i64, String), MinuteBucketView>(minutes, i, j);
        assert(<(i64, String) as Key>::before(minutes[i].0, minutes[j].0));
    }
    assert forall|k: int| #![trigger usages[k]] 0 <= k < usages.len() implies exists|i: int|
        0 <= i < rows.len() && is_of_minute(usages[k], setting, #[trigger] rows[i]) by {
        let key = minute_of_request(usages[k], setting);
        let wanted = |u: UsageRecordView| minute_of_request(u, setting) == key;
        lemma_minute_adds_up(usages, quotas, setting, key);
        lemma_wanted_is_selected(usages, wanted, k);
        assert(lookup::<(i64, String), MinuteBucketView>(minutes, key) is Some);
        lemma_has::<(i64, String), MinuteBucketView>(minutes, key);
        let i = choose|i: int| 0 <= i < minutes.len() && (#[trigger] minutes[i]).0 == key;
        assert(rows[i].minute_start_ms == (minutes[i].0).0);
    }
}

/// A row of the windows tells, in each column, the sum over the requests of its window; each window
/// has one row.
pub proof fn lemma_windows_tell_their_requests(sources: SourcesView)
    requires
        are_countable(usages_in(sources), sources.configured),
    ensures
        ({
            let rows = refreshed(sources).windows;
            let usages = usages_in(sources);
            let windows = setting_in(sources).windows;
            &&& forall|i: int|
                #![trigger rows[i]]
                0 <= i < rows.len() ==> tells_sums(
                    window_columns(rows[i]),
                    select(
                        usages,
                        |u: UsageRecordView|
                            id_of(window_of_usage(windows, u.observed_at_ms)) == Some(
                                rows[i].window_id,
                            ),
                    ),
                    sources.configured,
                )
            &&& forall|i: int, j: int|
                0 <= i < j < rows.len() ==> (#[trigger] rows[i]).window_id != (
                #[trigger] rows[j]).window_id
        }),
{
    let (usages, quotas, setting) = (usages_in(sources), quotas_in(sources), setting_in(sources));
    let rows = refreshed(sources).windows;
    let windows = gathered(usages, quotas, setting).windows;
    lemma_gathered_in_order(usages, quotas, setting);
    lemma_windows_are_keyed(usages, quotas, setting);
    let p = |id: Seq<char>, window: WindowAggregateView| window.segment.id == id;
    assert forall|i: int| #![trigger rows[i]] 0 <= i < rows.len() implies rows[i].window_id
        == windows[i].0 && tells_sums(
        window_columns(rows[i]),
        select(
            usages,
            |u: UsageRecordView|
                id_of(window_of_usage(setting.windows, u.observed_at_ms)) == Some(
                    rows[i].window_id,
                ),
        ),
        sources.configured,
    ) by {
        assert(p(windows[i].0, windows[i].1));
        lemma_entry_is_found::<String, WindowAggregateView>(windows, i);
        lemma_window_adds_up(usages, quotas, setting, windows[i].0);
        lemma_columns(
            windows[i].1.metric,
            select(
                usages,
                |u: UsageRecordView|
                    id_of(window_of_usage(setting.windows, u.observed_at_ms)) == Some(
                        rows[i].window_id,
                    ),
            ),
            sources.configured,
        );
        assert(window_columns(rows[i]) == columns_of(windows[i].1.metric));
    }
    assert forall|i: int, j: int| 0 <= i < j < rows.len() implies (#[trigger] rows[i]).window_id
        != (#[trigger] rows[j]).window_id by {
        lemma_keys_differ::<String, WindowAggregateView>(windows, i, j);
    }
}

/// A row of the sessions tells, in each column, the sum over the requests of its root, turn, day
/// and window; each of these has one row, and each request is of one that has.
pub proof fn lemma_sessions_tell_their_requests(sources: SourcesView)
    requires
        are_countable(usages_in(sources), sources.configured),
    ensures
        ({
            let rows = refreshed(sources).sessions;
            let usages = usages_in(sources);
            let setting = setting_in(sources);
            &&& forall|i: int|
                #![trigger rows[i]]
                0 <= i < rows.len() ==> tells_sums(
                    session_columns(rows[i]),
                    select(
                        usages,
                        |u: UsageRecordView| row_of_request(u, setting) == rows[i].row_key,
                    ),
                    sources.configured,
                )
            &&& forall|i: int, j: int|
                0 <= i < j < rows.len() ==> (#[trigger] rows[i]).row_key != (
                #[trigger] rows[j]).row_key
            &&& forall|k: int|
                #![trigger usages[k]]
                0 <= k < usages.len() ==> exists|i: int|
                    0 <= i < rows.len() && (#[trigger] rows[i]).row_key == row_of_request(
                        usages[k],
                        setting,
                    )
        }),
{
    let (usages, quotas, setting) = (usages_in(sources), quotas_in(sources), setting_in(sources));
    let rows = refreshed(sources).sessions;
    let sessions = gathered(usages, quotas, setting).sessions;
    lemma_gathered_in_order(usages, quotas, setting);
    assert forall|i: int| #![trigger rows[i]] 0 <= i < rows.len() implies rows[i].row_key
        == sessions[i].0 && tells_sums(
        session_columns(rows[i]),
        select(usages, |u: UsageRecordView| row_of_request(u, setting) == rows[i].row_key),
        sources.configured,
    ) by {
        lemma_entry_is_found::<String, SessionAggregateView>(sessions, i);
        lemma_session_adds_up(usages, quotas, setting, sessions[i].0);
        assert(session_sum(sessions, sessions[i].0) == sessions[i].1.metric);
        lemma_columns(
            sessions[i].1.metric,
            select(usages, |u: UsageRecordView| row_of_request(u, setting) == rows[i].row_key),
            sources.configured,
        );
        assert(session_columns(rows[i]) == columns_of(sessions[i].1.metric));
    }
    assert forall|i: int, j: int| 0 <= i < j < rows.len() implies (#[trigger] rows[i]).row_key != (
    #[trigger] rows[j]).row_key by {
        lemma_keys_differ::<String, SessionAggregateView>(sessions, i, j);
    }
    assert forall|k: int| #![trigger usages[k]] 0 <= k < usages.len() implies exists|i: int|
        0 <= i < rows.len() && (#[trigger] rows[i]).row_key == row_of_request(usages[k], setting) by {
        let key = row_of_request(usages[k], setting);
        let wanted = |u: UsageRecordView| row_of_request(u, setting) == key;
        lemma_session_adds_up(usages, quotas, setting, key);
        lemma_wanted_is_selected(usages, wanted, k);
        assert(lookup::<String, SessionAggregateView>(sessions, key) is Some);
        lemma_has::<String, SessionAggregateView>(sessions, key);
        let i = choose|i: int| 0 <= i < sessions.len() && (#[trigger] sessions[i]).0 == key;
        assert(rows[i].row_key == sessions[i].0);
    }
}

/// The tokens of models together.
pub open spec fn model_tokens(models: Seq<ModelUsageView>) -> int
    decreases models.len(),
{
    if models.len() == 0 {
        0
    } else {
        model_tokens(models.drop_last()) + models.last().tokens
    }
}

/// Whether an entry of the models of a row of sessions tells the total tokens, the credit and the
/// dollars of the requests of that row with its model, tier and effort.
pub open spec fn tells_model(
    entry: ModelUsageView,
    key: Seq<char>,
    usages: Seq<UsageRecordView>,
    setting: SettingView,
) -> bool {
    let own = select(
        usages,
        |u: UsageRecordView|
            is_of_model(u, setting, key, entry.model, entry.tier, entry.reasoning_effort),
    );
    &&& own.len() > 0
    &&& entry.tokens == sum_over(own, |u: UsageRecordView| u.tokens.total as int)
    &&& entry.credit_micros is Some <==> knows_credit(own, setting.configured)
    &&& told(entry.credit_micros) == sum_over(
        own,
        |u: UsageRecordView| told(credit_used(u, setting.configured)),
    )
    &&& entry.api_usd_micros is Some <==> knows_dollars(own, setting.configured)
    &&& told(entry.api_usd_micros) == sum_over(
        own,
        |u: UsageRecordView| told(dollars_of(u, setting.configured)),
    )
}

proof fn lemma_model_tokens(
    models: Seq<((Seq<char>, (Seq<char>, Seq<char>)), MetricView)>,
    entries: Seq<ModelUsageView>,
)
    requires
        entries.len() == models.len(),
        forall|i: int|
            0 <= i < models.len() ==> (#[trigger] entries[i]).tokens == models[i].1.tokens.total,
    ensures
        model_tokens(entries) == sum_values::<(String, (String, String)), MetricView>(
            models,
            |metric: MetricView| metric.tokens.total as int,
        ),
    decreases models.len(),
{
    if models.len() > 0 {
        let shorter = entries.drop_last();
        assert forall|i: int| 0 <= i < shorter.len() implies (#[trigger] shorter[i]).tokens
            == models.drop_last()[i].1.tokens.total by {
            assert(shorter[i] == entries[i]);
        }
        lemma_model_tokens(models.drop_last(), shorter);
        assert(entries[entries.len() - 1] == entries.last());
    }
}

proof fn lemma_models_are_used(
    usages: Seq<UsageRecordView>,
    quotas: Seq<QuotaObservationView>,
    setting: SettingView,
    key: Seq<char>,
)
    ensures
        all_values::<(String, (String, String)), MetricView>(
            models_of(gathered(usages, quotas, setting).sessions, key),
            |metric: MetricView| metric.has_usage,
        ),
    decreases usages.len(),
{
    let p = |metric: MetricView| metric.has_usage;
    if usages.len() > 0 {
        let (shorter, usage) = (usages.drop_last(), usages.last());
        lemma_models_are_used(shorter, quotas, setting, key);
        lemma_gathered_in_order(shorter, quotas, setting);
        let before = gathered(shorter, quotas, setting);
        let price = price_of(usage, setting.configured);
        let (own, held, slice) = session_step(before, usage, setting);
        let row = session_with_usage(held, usage, price, slice);
        lemma_put_lookup::<String, SessionAggregateView>(before.sessions, own, row, key);
        if own == key && usage.model is Some {
            assert(held.models == models_of(before.sessions, key));
            lemma_put_values::<(String, (String, String)), MetricView>(
                held.models,
                model_key(usage),
                with_usage(model_sum(held.models, model_key(usage)), usage, price),
                p,
            );
        }
    }
}

/// The models of a row of sessions: each entry tells the requests of its model, tier and effort,
/// of which no other entry is; each request that names a model is in one; and where all requests
/// of the row name a model, the tokens of the entries add up to the total of the row.
pub proof fn lemma_models_tell_their_requests(sources: SourcesView, at: int)
    requires
        are_countable(usages_in(sources), sources.configured),
        0 <= at < refreshed(sources).sessions.len(),
    ensures
        ({
            let row = refreshed(sources).sessions[at];
            let usages = usages_in(sources);
            let setting = setting_in(sources);
            &&& forall|i: int|
                0 <= i < row.models.len() ==> tells_model(
                    #[trigger] row.models[i],
                    row.row_key,
                    usages,
                    setting,
                )
            &&& forall|i: int, j: int|
                0 <= i < j < row.models.len() ==> !({
                    &&& (#[trigger] row.models[i]).model == (#[trigger] row.models[j]).model
                    &&& row.models[i].tier == row.models[j].tier
                    &&& row.models[i].reasoning_effort == row.models[j].reasoning_effort
                })
            &&& forall|k: int|
                #![trigger usages[k]]
                0 <= k < usages.len() && row_of_request(usages[k], setting) == row.row_key
                    && usages[k].model is Some ==> exists|i: int|
                    0 <= i < row.models.len() && is_of_model(
                        usages[k],
                        setting,
                        row.row_key,
                        (#[trigger] row.models[i]).model,
                        row.models[i].tier,
                        row.models[i].reasoning_effort,
                    )
            &&& (forall|k: int|
                #![trigger usages[k]]
                0 <= k < usages.len() && row_of_request(usages[k], setting) == row.row_key
                    ==> usages[k].model is Some) ==> model_tokens(row.models) == told(
                row.total_tokens,
            )
        }),
{
    let (usages, quotas, setting) = (usages_in(sources), quotas_in(sources), setting_in(sources));
    let row = refreshed(sources).sessions[at];
    let sessions = gathered(usages, quotas, setting).sessions;
    let key = sessions[at].0;
    lemma_gathered_in_order(usages, quotas, setting);
    lemma_entry_is_found::<String, SessionAggregateView>(sessions, at);
    let models = models_of(sessions, key);
    assert(models == sessions[at].1.models);
    lemma_models_in_order(usages, quotas, setting, key);
    lemma_models_are_used(usages, quotas, setting, key);
    let used = |metric: MetricView| metric.has_usage;
    assert forall|i: int| 0 <= i < row.models.len() implies tells_model(
        #[trigger] row.models[i],
        row.row_key,
        usages,
        setting,
    ) by {
        let (entry, name) = (row.models[i], models[i].0);
        lemma_entry_is_found::<(String, (String, String)), MetricView>(models, i);
        assert(used(models[i].1));
        lemma_model_adds_up(usages, quotas, setting, key, name.0, (name.1).0, (name.1).1);
        assert(model_sum(models, (name.0, ((name.1).0, (name.1).1))) == models[i].1);
        lemma_columns(
            models[i].1,
            select(
                usages,
                |u: UsageRecordView|
                    is_of_model(u, setting, key, entry.model, entry.tier, entry.reasoning_effort),
            ),
            setting.configured,
        );
    }
    assert forall|i: int, j: int| 0 <= i < j < row.models.len() implies !({
        &&& (#[trigger] row.models[i]).model == (#[trigger] row.models[j]).model
        &&& row.models[i].tier == row.models[j].tier
        &&& row.models[i].reasoning_effort == row.models[j].reasoning_effort
    }) by {
        lemma_keys_differ::<(String, (String, String)), MetricView>(models, i, j);
    }
    assert forall|k: int|
        #![trigger usages[k]]
        0 <= k < usages.len() && row_of_request(usages[k], setting) == row.row_key
            && usages[k].model is Some implies exists|i: int|
        0 <= i < row.models.len() && is_of_model(
            usages[k],
            setting,
            row.row_key,
            (#[trigger] row.models[i]).model,
            row.models[i].tier,
            row.models[i].reasoning_effort,
        ) by {
        let name = model_key(usages[k]);
        let wanted = |u: UsageRecordView|
            is_of_model(u, setting, key, name.0, (name.1).0, (name.1).1);
        lemma_model_adds_up(usages, quotas, setting, key, name.0, (name.1).0, (name.1).1);
        assert(wanted(usages[k]));
        lemma_wanted_is_selected(usages, wanted, k);
        assert(lookup::<(String, (String, String)), MetricView>(
            models,
            (name.0, ((name.1).0, (name.1).1)),
        ) is Some);
        assert((name.0, ((name.1).0, (name.1).1)) == name);
        lemma_has::<(String, (String, String)), MetricView>(models, name);
        let i = choose|i: int| 0 <= i < models.len() && (#[trigger] models[i]).0 == name;
        assert(row.models[i].model == name.0);
    }
    if forall|k: int|
        #![trigger usages[k]]
        0 <= k < usages.len() && row_of_request(usages[k], setting) == row.row_key
            ==> usages[k].model is Some {
        lemma_models_add_up(usages, quotas, setting, key);
        lemma_model_tokens(models, row.models);
        lemma_sessions_tell_their_requests(sources);
        let named = |u: UsageRecordView| names_a_model(u, setting, key);
        let own = |u: UsageRecordView| row_of_request(u, setting) == key;
        lemma_selection_within(usages, named, own);
    }
}

proof fn lemma_selection_within(
    usages: Seq<UsageRecordView>,
    one: spec_fn(UsageRecordView) -> bool,
    other: spec_fn(UsageRecordView) -> bool,
)
    requires
        forall|k: int| 0 <= k < usages.len() ==> one(#[trigger] usages[k]) == other(usages[k]),
    ensures
        select(usages, one) == select(usages, other),
    decreases usages.len(),
{
    if usages.len() > 0 {
        let shorter = usages.drop_last();
        assert forall|k: int| 0 <= k < shorter.len() implies one(#[trigger] shorter[k]) == other(
            shorter[k],
        ) by {
            assert(shorter[k] == usages[k]);
        }
        lemma_selection_within(shorter, one, other);
        assert(one(usages[usages.len() - 1]) == other(usages[usages.len() - 1]));
    }
}

/// What the rows of the minutes say of windows, in their order.
pub open spec fn row_points(rows: Seq<UsageMinuteRecordView>) -> Seq<Point> {
    Seq::new(
        rows.len(),
        |i: int|
            Point {
                minute_start_ms: rows[i].minute_start_ms,
                local_date: rows[i].local_date,
                window_id: rows[i].window_id,
                window_kind: rows[i].window_kind,
                percent: rows[i].official_used_percent,
            },
    )
}

/// The official percentages of a window are those of its minutes: the first, the last and the rises
/// between them, in the order of time, in which the rows of the minutes stand.
pub proof fn lemma_windows_say_what_minutes_say(sources: SourcesView, at: int)
    requires
        0 <= at < refreshed(sources).windows.len(),
    ensures
        ({
            let row = refreshed(sources).windows[at];
            let minutes = refreshed(sources).minutes;
            let percents = percents_of_window(row_points(minutes), row.window_id);
            &&& row.official_percent_start == first_in(percents)
            &&& row.official_percent_end == last_in(percents)
            &&& row.official_rises == rises_in(percents)
            &&& forall|i: int, j: int|
                0 <= i < j < minutes.len() ==> (#[trigger] minutes[i]).minute_start_ms <= (
                #[trigger] minutes[j]).minute_start_ms
        }),
{
    let (usages, quotas, setting) = (usages_in(sources), quotas_in(sources), setting_in(sources));
    let rollup = gathered(usages, quotas, setting);
    lemma_gathered_in_order(usages, quotas, setting);
    lemma_windows_are_keyed(usages, quotas, setting);
    lemma_entry_is_found::<String, WindowAggregateView>(rollup.windows, at);
    let p = |id: Seq<char>, window: WindowAggregateView| window.segment.id == id;
    assert(p(rollup.windows[at].0, rollup.windows[at].1));
    lemma_window_says_its_minutes(usages, quotas, setting, rollup.windows[at].0);
    lemma_points(sources);
}

proof fn lemma_points(sources: SourcesView)
    ensures
        ({
            let minutes = refreshed(sources).minutes;
            let rollup = gathered(usages_in(sources), quotas_in(sources), setting_in(sources));
            &&& row_points(minutes) == points_of(rollup.minutes)
            &&& forall|i: int, j: int|
                0 <= i < j < minutes.len() ==> (#[trigger] minutes[i]).minute_start_ms <= (
                #[trigger] minutes[j]).minute_start_ms
        }),
{
    let (usages, quotas, setting) = (usages_in(sources), quotas_in(sources), setting_in(sources));
    let rollup = gathered(usages, quotas, setting);
    let minutes = refreshed(sources).minutes;
    assert(row_points(minutes) =~= points_of(rollup.minutes));
    lemma_gathered_in_order(usages, quotas, setting);
    lemma_minutes_are_keyed(usages, quotas, setting);
    let p = |key: (i64, Seq<char>), bucket: MinuteBucketView| minute_has_key(key, bucket);
    assert forall|i: int, j: int| 0 <= i < j < minutes.len() implies (
    #[trigger] minutes[i]).minute_start_ms <= (#[trigger] minutes[j]).minute_start_ms by {
        assert(p(rollup.minutes[i].0, rollup.minutes[i].1));
        assert(p(rollup.minutes[j].0, rollup.minutes[j].1));
        assert(<(i64, String) as Key>::before(rollup.minutes[i].0, rollup.minutes[j].0));
    }
}

/// The official percentages of a day are those of its minutes in main windows: the first and the
/// last in the order of time.
pub proof fn lemma_days_say_what_minutes_say(sources: SourcesView, at: int)
    requires
        0 <= at < refreshed(sources).daily.len(),
    ensures
        ({
            let row = refreshed(sources).daily[at];
            let minutes = refreshed(sources).minutes;
            let percents = percents_of_day(row_points(minutes), row.local_date);
            &&& row.official_percent_start == first_in(percents)
            &&& row.official_percent_end == last_in(percents)
        }),
{
    let (usages, quotas, setting) = (usages_in(sources), quotas_in(sources), setting_in(sources));
    let days = gathered(usages, quotas, setting).days;
    lemma_gathered_in_order(usages, quotas, setting);
    lemma_days_are_keyed(usages, quotas, setting);
    lemma_entry_is_found::<String, DayAggregateView>(days, at);
    let p = |date: Seq<char>, day: DayAggregateView| day.local_date == date;
    assert(p(days[at].0, days[at].1));
    lemma_day_says_its_minutes(usages, quotas, setting, days[at].0);
    lemma_points(sources);
}

/// The time of the first of several requests.
pub open spec fn first_time(usages: Seq<UsageRecordView>) -> i64
    decreases usages.len(),
{
    if usages.len() <= 1 {
        usages.last().observed_at_ms
    } else {
        let before = first_time(usages.drop_last());
        if usages.last().observed_at_ms < before {
            usages.last().observed_at_ms
        } else {
            before
        }
    }
}

/// The time of the last of several requests.
pub open spec fn last_time(usages: Seq<UsageRecordView>) -> i64
    decreases usages.len(),
{
    if usages.len() <= 1 {
        usages.last().observed_at_ms
    } else {
        let before = last_time(usages.drop_last());
        if usages.last().observed_at_ms > before {
            usages.last().observed_at_ms
        } else {
            before
        }
    }
}

/// The percentages that minutes say of a window in a span of time, in the order of the minutes.
pub open spec fn percents_of_span(
    points: Seq<Point>,
    window_id: Option<Seq<char>>,
    first: i64,
    last: i64,
) -> Seq<Float>
    decreases points.len(),
{
    if points.len() == 0 {
        Seq::empty()
    } else {
        let point = points.last();
        let before = percents_of_span(points.drop_last(), window_id, first, last);
        if point.window_id == window_id && first <= point.minute_start_ms <= last
            && point.percent is Some {
            before.push(point.percent->0)
        } else {
            before
        }
    }
}

/// Whether a request names a model and has a tier; one that is not known is `unknown`.
pub open spec fn has_tier(usage: UsageRecordView, tier: Seq<char>) -> bool {
    usage.model is Some && tier == (if usage.tier is Some {
        usage.tier->0
    } else {
        "unknown"@
    })
}

/// Whether a row of the sessions is that of its requests: the first gives its identity, and all of
/// them the span of time in which they were made and the tiers.
spec fn is_of_requests(
    session: SessionAggregateView,
    own: Seq<UsageRecordView>,
    setting: SettingView,
) -> bool {
    &&& own.len() > 0
    &&& session.local_date == day_of(own[0])
    &&& session.window_id == id_of(window_of_usage(setting.windows, own[0].observed_at_ms))
    &&& session.root_session_id == own[0].root_session_id
    &&& session.session_id == Some(text_or(own[0].session_id, "unknown-session"@))
    &&& session.observed_start_ms == Some(first_time(own))
    &&& session.observed_end_ms == Some(last_time(own))
    &&& texts_increase(session.tiers)
    &&& forall|tier: Seq<char>| #[trigger]
        session.tiers.contains(tier) <==> exists|k: int|
            0 <= k < own.len() && has_tier(#[trigger] own[k], tier)
}

proof fn lemma_tier_step(own: Seq<UsageRecordView>, usage: UsageRecordView, tier: Seq<char>)
    ensures
        (exists|k: int| 0 <= k < own.push(usage).len() && has_tier(#[trigger] own.push(usage)[k], tier))
            <==> (exists|k: int| 0 <= k < own.len() && has_tier(#[trigger] own[k], tier)) || has_tier(
            usage,
            tier,
        ),
{
    let all = own.push(usage);
    assert(all[own.len() as int] == usage);
    if exists|k: int| 0 <= k < own.len() && has_tier(#[trigger] own[k], tier) {
        let k = choose|k: int| 0 <= k < own.len() && has_tier(#[trigger] own[k], tier);
        assert(all[k] == own[k]);
    }
    if exists|k: int| 0 <= k < all.len() && has_tier(#[trigger] all[k], tier) {
        let k = choose|k: int| 0 <= k < all.len() && has_tier(#[trigger] all[k], tier);
        if k < own.len() {
            assert(own[k] == all[k]);
        }
    }
}

proof fn lemma_session_step(
    session: SessionAggregateView,
    own: Seq<UsageRecordView>,
    usage: UsageRecordView,
    setting: SettingView,
    slice: SliceView,
)
    requires
        is_of_requests(session, own, setting),
    ensures
        is_of_requests(
            session_with_usage(session, usage, price_of(usage, setting.configured), slice),
            own.push(usage),
            setting,
        ),
{
    let all = own.push(usage);
    let after = session_with_usage(session, usage, price_of(usage, setting.configured), slice);
    assert(all.drop_last() =~= own);
    assert(all[0] == own[0]);
    let tier = text_or(usage.tier, "unknown"@);
    lemma_with_text(session.tiers, tier);
    assert forall|t: Seq<char>| #[trigger] after.tiers.contains(t) <==> exists|k: int|
        0 <= k < all.len() && has_tier(#[trigger] all[k], t) by {
        lemma_tier_step(own, usage, t);
        assert(session.tiers.contains(t) <==> exists|k: int|
            0 <= k < own.len() && has_tier(#[trigger] own[k], t));
        assert(with_text(session.tiers, tier).contains(t) <==> session.tiers.contains(t) || t == tier);
    }
}

proof fn lemma_session_starts(
    rollup: RollupView,
    usage: UsageRecordView,
    setting: SettingView,
)
    requires
        bucket_step(rollup, usage, setting).local_date == day_of(usage),
        lookup::<String, SessionAggregateView>(
            rollup.sessions,
            session_step(rollup, usage, setting).0,
        ) is None,
    ensures
        ({
            let (key, held, slice) = session_step(rollup, usage, setting);
            is_of_requests(
                session_with_usage(held, usage, price_of(usage, setting.configured), slice),
                seq![usage],
                setting,
            )
        }),
{
    let (key, held, slice) = session_step(rollup, usage, setting);
    let after = session_with_usage(held, usage, price_of(usage, setting.configured), slice);
    let own = seq![usage];
    let tier = text_or(usage.tier, "unknown"@);
    assert(own[0] == usage);
    assert(own.last() == usage);
    assert(held.tiers =~= Seq::empty());
    lemma_with_text(held.tiers, tier);
    assert forall|t: Seq<char>| #[trigger] after.tiers.contains(t) <==> exists|k: int|
        0 <= k < own.len() && has_tier(#[trigger] own[k], t) by {
        assert(with_text(held.tiers, tier).contains(t) <==> held.tiers.contains(t) || t == tier);
        assert(!held.tiers.contains(t));
        if has_tier(usage, t) {
            assert(has_tier(own[0], t));
        }
        if exists|k: int| 0 <= k < own.len() && has_tier(#[trigger] own[k], t) {
            let k = choose|k: int| 0 <= k < own.len() && has_tier(#[trigger] own[k], t);
            assert(own[k] == usage);
        }
    }
}

proof fn lemma_session_is_of_its_requests(
    usages: Seq<UsageRecordView>,
    quotas: Seq<QuotaObservationView>,
    setting: SettingView,
    key: Seq<char>,
)
    ensures
        ({
            let own = select(usages, |u: UsageRecordView| row_of_request(u, setting) == key);
            match lookup::<String, SessionAggregateView>(
                gathered(usages, quotas, setting).sessions,
                key,
            ) {
                Some(session) => is_of_requests(session, own, setting),
                None => own.len() == 0,
            }
        }),
    decreases usages.len(),
{
    let wanted = |u: UsageRecordView| row_of_request(u, setting) == key;
    if usages.len() > 0 {
        let (shorter, usage) = (usages.drop_last(), usages.last());
        lemma_session_is_of_its_requests(shorter, quotas, setting, key);
        lemma_gathered_in_order(shorter, quotas, setting);
        lemma_minute_of_step(shorter, quotas, setting, usage);
        lemma_session_of_step(shorter, quotas, setting, usage);
        let before = gathered(shorter, quotas, setting);
        let (own, held, slice) = session_step(before, usage, setting);
        let row = session_with_usage(held, usage, price_of(usage, setting.configured), slice);
        lemma_put_lookup::<String, SessionAggregateView>(before.sessions, own, row, key);
        if own == key {
            if lookup::<String, SessionAggregateView>(before.sessions, key) is Some {
                lemma_session_step(held, select(shorter, wanted), usage, setting, slice);
            } else {
                lemma_session_starts(before, usage, setting);
                assert(select(usages, wanted) =~= seq![usage]);
            }
        }
    }
}

proof fn lemma_percents_of_span(
    minutes: Seq<((i64, Seq<char>), MinuteBucketView)>,
    window_id: Option<Seq<char>>,
    first: i64,
    last: i64,
)
    ensures
        percents_of_span(points_of(minutes), window_id, first, last) == percents_between(
            minutes,
            window_id,
            first,
            last,
        ),
    decreases minutes.len(),
{
    if minutes.len() > 0 {
        lemma_percents_of_span(minutes.drop_last(), window_id, first, last);
        assert(points_of(minutes).drop_last() =~= points_of(minutes.drop_last()));
    }
}

/// A row of the sessions has the date, the window, the root and the session of its first request.
/// Its official percentages are the first and the last of the minutes of its window from its
/// earliest request to its latest. It has one model, where it says so, and is fast where the tier
/// of all requests that name a model is, and mixed where two of them have different tiers.
pub proof fn lemma_sessions_are_of_their_requests(sources: SourcesView, at: int)
    requires
        0 <= at < refreshed(sources).sessions.len(),
    ensures
        ({
            let row = refreshed(sources).sessions[at];
            let setting = setting_in(sources);
            let own = select(
                usages_in(sources),
                |u: UsageRecordView| row_of_request(u, setting) == row.row_key,
            );
            let percents = percents_of_span(
                row_points(refreshed(sources).minutes),
                row.window_id,
                whole_minute(first_time(own)),
                whole_minute(last_time(own)),
            );
            &&& own.len() > 0
            &&& row.local_date == day_of(own[0])
            &&& row.window_id == id_of(window_of_usage(setting.windows, own[0].observed_at_ms))
            &&& row.root_session_id == own[0].root_session_id
            &&& row.session_id == Some(text_or(own[0].session_id, "unknown-session"@))
            &&& row.official_percent_start == first_in(percents)
            &&& row.official_percent_end == last_in(percents)
            &&& row.primary_model is Some <==> row.models.len() == 1
            &&& row.primary_model is Some ==> row.primary_model == Some(row.models[0].model)
            &&& row.fast_state == Some("unknown"@) <==> forall|k: int|
                0 <= k < own.len() ==> (#[trigger] own[k]).model is None
            &&& row.fast_state == Some("mixed"@) <==> exists|j: int, k: int|
                0 <= j < k < own.len() && (#[trigger] own[j]).model is Some && (
                #[trigger] own[k]).model is Some && text_or(own[j].tier, "unknown"@) != text_or(
                    own[k].tier,
                    "unknown"@,
                )
            &&& row.fast_state == Some("fast"@) <==> (exists|k: int|
                0 <= k < own.len() && (#[trigger] own[k]).model is Some) && forall|k: int|
                0 <= k < own.len() && (#[trigger] own[k]).model is Some ==> own[k].tier == Some(
                    "fast"@,
                )
        }),
{
    let (usages, quotas, setting) = (usages_in(sources), quotas_in(sources), setting_in(sources));
    let row = refreshed(sources).sessions[at];
    let rollup = gathered(usages, quotas, setting);
    let session = rollup.sessions[at].1;
    let own = select(usages, |u: UsageRecordView| row_of_request(u, setting) == row.row_key);
    lemma_gathered_in_order(usages, quotas, setting);
    lemma_entry_is_found::<String, SessionAggregateView>(rollup.sessions, at);
    lemma_session_is_of_its_requests(usages, quotas, setting, row.row_key);
    lemma_points(sources);
    lemma_percents_of_span(
        rollup.minutes,
        row.window_id,
        whole_minute(first_time(own)),
        whole_minute(last_time(own)),
    );
    lemma_fast_state(session, own, setting);
}

proof fn lemma_fast_state(
    session: SessionAggregateView,
    own: Seq<UsageRecordView>,
    setting: SettingView,
)
    requires
        is_of_requests(session, own, setting),
    ensures
        fast_state(session.tiers) == "unknown"@ <==> forall|k: int|
            0 <= k < own.len() ==> (#[trigger] own[k]).model is None,
        fast_state(session.tiers) == "mixed"@ <==> exists|j: int, k: int|
            0 <= j < k < own.len() && (#[trigger] own[j]).model is Some && (
            #[trigger] own[k]).model is Some && text_or(own[j].tier, "unknown"@) != text_or(
                own[k].tier,
                "unknown"@,
            ),
        fast_state(session.tiers) == "fast"@ <==> (exists|k: int|
            0 <= k < own.len() && (#[trigger] own[k]).model is Some) && forall|k: int|
            0 <= k < own.len() && (#[trigger] own[k]).model is Some ==> own[k].tier == Some(
                "fast"@,
            ),
{
    reveal_strlit("unknown");
    reveal_strlit("mixed");
    reveal_strlit("fast");
    reveal_strlit("standard");
    assert("unknown"@.len() == 7 && "mixed"@.len() == 5 && "fast"@.len() == 4 && "standard"@.len()
        == 8);
    let tiers = session.tiers;
    assert forall|k: int| 0 <= k < own.len() && (#[trigger] own[k]).model is Some implies exists|i: int|
        0 <= i < tiers.len() && #[trigger] tiers[i] == text_or(own[k].tier, "unknown"@) by {
        assert(has_tier(own[k], text_or(own[k].tier, "unknown"@)));
        assert(tiers.contains(text_or(own[k].tier, "unknown"@)));
    }
    assert forall|i: int| 0 <= i < tiers.len() implies exists|k: int|
        0 <= k < own.len() && (#[trigger] own[k]).model is Some && text_or(own[k].tier, "unknown"@)
            == #[trigger] tiers[i] by {
        assert(tiers.contains(tiers[i]));
        let k = choose|k: int| 0 <= k < own.len() && has_tier(#[trigger] own[k], tiers[i]);
        assert(own[k].model is Some);
    }
    if tiers.len() > 1 {
        String::is_total(tiers[0], tiers[1]);
        assert(String::before(tiers[0], tiers[1]));
        assert(tiers[0] != tiers[1]);
        let j = choose|k: int|
            0 <= k < own.len() && (#[trigger] own[k]).model is Some && text_or(
                own[k].tier,
                "unknown"@,
            ) == tiers[0];
        let k = choose|k: int|
            0 <= k < own.len() && (#[trigger] own[k]).model is Some && text_or(
                own[k].tier,
                "unknown"@,
            ) == tiers[1];
        if j < k {
            assert(own[j].model is Some && own[k].model is Some);
        } else {
            assert(own[k].model is Some && own[j].model is Some);
        }
    }
}

/// A column of several rows, summed; what is not told counts for nothing.
pub open spec fn column_sum(rows: Seq<Columns>, column: spec_fn(Columns) -> Option<i64>) -> int
    decreases rows.len(),
{
    if rows.len() == 0 {
        0
    } else {
        column_sum(rows.drop_last(), column) + told(column(rows.last()))
    }
}

/// Whether each column of a table sums up to the sum over requests of its own kind.
pub open spec fn tells_all(
    rows: Seq<Columns>,
    usages: Seq<UsageRecordView>,
    configured: ServiceTier,
) -> bool {
    &&& column_sum(rows, |row: Columns| row.input) == sum_over(
        usages,
        |u: UsageRecordView| u.tokens.input as int,
    )
    &&& column_sum(rows, |row: Columns| row.cache_read) == sum_over(
        usages,
        |u: UsageRecordView| u.tokens.cached as int,
    )
    &&& column_sum(rows, |row: Columns| row.cache_write) == sum_over(
        usages,
        |u: UsageRecordView| u.tokens.cache_write as int,
    )
    &&& column_sum(rows, |row: Columns| row.output) == sum_over(
        usages,
        |u: UsageRecordView| u.tokens.output as int,
    )
    &&& column_sum(rows, |row: Columns| row.reasoning) == sum_over(
        usages,
        |u: UsageRecordView| u.tokens.reasoning as int,
    )
    &&& column_sum(rows, |row: Columns| row.total) == sum_over(
        usages,
        |u: UsageRecordView| u.tokens.total as int,
    )
    &&& column_sum(rows, |row: Columns| row.credit) == sum_over(
        usages,
        |u: UsageRecordView| told(credit_used(u, configured)),
    )
    &&& column_sum(rows, |row: Columns| row.api_usd) == sum_over(
        usages,
        |u: UsageRecordView| told(dollars_of(u, configured)),
    )
}

/// The sums over the requests of each of several keys, together.
spec fn sum_by_key<K>(
    usages: Seq<UsageRecordView>,
    keys: Seq<K>,
    key_of: spec_fn(UsageRecordView) -> K,
    number: spec_fn(UsageRecordView) -> int,
) -> int
    decreases keys.len(),
{
    if keys.len() == 0 {
        0
    } else {
        sum_by_key(usages, keys.drop_last(), key_of, number) + sum_over(
            select(usages, |u: UsageRecordView| key_of(u) == keys.last()),
            number,
        )
    }
}

proof fn lemma_sum_by_key_step<K>(
    usages: Seq<UsageRecordView>,
    keys: Seq<K>,
    key_of: spec_fn(UsageRecordView) -> K,
    number: spec_fn(UsageRecordView) -> int,
)
    requires
        usages.len() > 0,
        keys.no_duplicates(),
    ensures
        sum_by_key(usages, keys, key_of, number) == sum_by_key(
            usages.drop_last(),
            keys,
            key_of,
            number,
        ) + (if keys.contains(key_of(usages.last())) {
            number(usages.last())
        } else {
            0
        }),
    decreases keys.len(),
{
    if keys.len() > 0 {
        let shorter = keys.drop_last();
        let own = key_of(usages.last());
        lemma_sum_by_key_step(usages, shorter, key_of, number);
        let wanted = |u: UsageRecordView| key_of(u) == keys.last();
        if own == keys.last() {
            assert(select(usages, wanted).drop_last() =~= select(usages.drop_last(), wanted));
            assert(keys[keys.len() - 1] == own);
            assert(!shorter.contains(own)) by {
                if shorter.contains(own) {
                    let i = choose|i: int| 0 <= i < shorter.len() && shorter[i] == own;
                    assert(keys[i] == keys[keys.len() - 1]);
                }
            }
        } else {
            assert(keys.contains(own) <==> shorter.contains(own)) by {
                if keys.contains(own) {
                    let i = choose|i: int| 0 <= i < keys.len() && keys[i] == own;
                    assert(shorter[i] == own);
                }
                if shorter.contains(own) {
                    let i = choose|i: int| 0 <= i < shorter.len() && shorter[i] == own;
                    assert(keys[i] == own);
                }
            }
        }
    }
}

/// Where each request has one of the keys, the sums by key add up to the sum over all requests.
proof fn lemma_sum_by_key<K>(
    usages: Seq<UsageRecordView>,
    keys: Seq<K>,
    key_of: spec_fn(UsageRecordView) -> K,
    number: spec_fn(UsageRecordView) -> int,
)
    requires
        keys.no_duplicates(),
        forall|k: int| 0 <= k < usages.len() ==> keys.contains(key_of(#[trigger] usages[k])),
    ensures
        sum_by_key(usages, keys, key_of, number) == sum_over(usages, number),
    decreases usages.len(),
{
    if usages.len() == 0 {
        lemma_nothing_by_key(usages, keys, key_of, number);
    } else {
        let shorter = usages.drop_last();
        assert forall|k: int| 0 <= k < shorter.len() implies keys.contains(
            key_of(#[trigger] shorter[k]),
        ) by {
            assert(shorter[k] == usages[k]);
        }
        lemma_sum_by_key(shorter, keys, key_of, number);
        lemma_sum_by_key_step(usages, keys, key_of, number);
        assert(keys.contains(key_of(usages[usages.len() - 1])));
    }
}

proof fn lemma_nothing_by_key<K>(
    usages: Seq<UsageRecordView>,
    keys: Seq<K>,
    key_of: spec_fn(UsageRecordView) -> K,
    number: spec_fn(UsageRecordView) -> int,
)
    requires
        usages.len() == 0,
    ensures
        sum_by_key(usages, keys, key_of, number) == 0,
    decreases keys.len(),
{
    if keys.len() > 0 {
        lemma_nothing_by_key(usages, keys.drop_last(), key_of, number);
    }
}

proof fn lemma_column_by_key<K>(
    usages: Seq<UsageRecordView>,
    keys: Seq<K>,
    key_of: spec_fn(UsageRecordView) -> K,
    number: spec_fn(UsageRecordView) -> int,
    rows: Seq<Columns>,
    column: spec_fn(Columns) -> Option<i64>,
)
    requires
        rows.len() == keys.len(),
        forall|i: int|
            #![trigger rows[i]]
            0 <= i < rows.len() ==> told(column(rows[i])) == sum_over(
                select(usages, |u: UsageRecordView| key_of(u) == keys[i]),
                number,
            ),
    ensures
        column_sum(rows, column) == sum_by_key(usages, keys, key_of, number),
    decreases rows.len(),
{
    if rows.len() > 0 {
        let (shorter, fewer) = (rows.drop_last(), keys.drop_last());
        assert forall|i: int| #![trigger shorter[i]] 0 <= i < shorter.len() implies told(
            column(shorter[i]),
        ) == sum_over(select(usages, |u: UsageRecordView| key_of(u) == fewer[i]), number) by {
            assert(shorter[i] == rows[i]);
            assert(fewer[i] == keys[i]);
        }
        lemma_column_by_key(usages, fewer, key_of, number, shorter, column);
        assert(rows[rows.len() - 1] == rows.last());
        assert(keys[keys.len() - 1] == keys.last());
    }
}

/// Where each row tells the sums over the requests of its key, the table tells those over all.
proof fn lemma_table_tells_all<K>(
    usages: Seq<UsageRecordView>,
    keys: Seq<K>,
    key_of: spec_fn(UsageRecordView) -> K,
    rows: Seq<Columns>,
    configured: ServiceTier,
)
    requires
        keys.no_duplicates(),
        forall|k: int| 0 <= k < usages.len() ==> keys.contains(key_of(#[trigger] usages[k])),
        rows.len() == keys.len(),
        forall|i: int|
            #![trigger rows[i]]
            0 <= i < rows.len() ==> tells_sums(
                rows[i],
                select(usages, |u: UsageRecordView| key_of(u) == keys[i]),
                configured,
            ),
    ensures
        tells_all(rows, usages, configured),
{
    let ni = |u: UsageRecordView| u.tokens.input as int;
    let nc = |u: UsageRecordView| u.tokens.cached as int;
    let nw = |u: UsageRecordView| u.tokens.cache_write as int;
    let no = |u: UsageRecordView| u.tokens.output as int;
    let nr = |u: UsageRecordView| u.tokens.reasoning as int;
    let nt = |u: UsageRecordView| u.tokens.total as int;
    let nm = |u: UsageRecordView| told(credit_used(u, configured));
    let nd = |u: UsageRecordView| told(dollars_of(u, configured));
    lemma_column_by_key(usages, keys, key_of, ni, rows, |row: Columns| row.input);
    lemma_column_by_key(usages, keys, key_of, nc, rows, |row: Columns| row.cache_read);
    lemma_column_by_key(usages, keys, key_of, nw, rows, |row: Columns| row.cache_write);
    lemma_column_by_key(usages, keys, key_of, no, rows, |row: Columns| row.output);
    lemma_column_by_key(usages, keys, key_of, nr, rows, |row: Columns| row.reasoning);
    lemma_column_by_key(usages, keys, key_of, nt, rows, |row: Columns| row.total);
    lemma_column_by_key(usages, keys, key_of, nm, rows, |row: Columns| row.credit);
    lemma_column_by_key(usages, keys, key_of, nd, rows, |row: Columns| row.api_usd);
    lemma_sum_by_key(usages, keys, key_of, ni);
    lemma_sum_by_key(usages, keys, key_of, nc);
    lemma_sum_by_key(usages, keys, key_of, nw);
    lemma_sum_by_key(usages, keys, key_of, no);
    lemma_sum_by_key(usages, keys, key_of, nr);
    lemma_sum_by_key(usages, keys, key_of, nt);
    lemma_sum_by_key(usages, keys, key_of, nm);
    lemma_sum_by_key(usages, keys, key_of, nd);
}

/// Each kind of token and each amount, summed over the rows of the days, is that of the stored
/// requests, each counted once.
pub proof fn lemma_days_tell_all(sources: SourcesView)
    requires
        are_countable(usages_in(sources), sources.configured),
    ensures
        tells_all(
            refreshed(sources).daily.map_values(|row: UsageDailyRecordView| daily_columns(row)),
            usages_in(sources),
            sources.configured,
        ),
{
    lemma_days_tell_their_requests(sources);
    let rows = refreshed(sources).daily;
    let usages = usages_in(sources);
    let columns = rows.map_values(|row: UsageDailyRecordView| daily_columns(row));
    let keys = rows.map_values(|row: UsageDailyRecordView| row.local_date);
    let key_of = |u: UsageRecordView| day_of(u);
    assert forall|k: int| 0 <= k < usages.len() implies keys.contains(
        key_of(#[trigger] usages[k]),
    ) by {
        let i = choose|i: int|
            0 <= i < rows.len() && (#[trigger] rows[i]).local_date == day_of(usages[k]);
        assert(keys[i] == key_of(usages[k]));
    }
    assert forall|i: int| #![trigger columns[i]] 0 <= i < columns.len() implies tells_sums(
        columns[i],
        select(usages, |u: UsageRecordView| key_of(u) == keys[i]),
        sources.configured,
    ) by {
        let row = rows[i];
        lemma_selection_within(
            usages,
            |u: UsageRecordView| key_of(u) == keys[i],
            |u: UsageRecordView| day_of(u) == row.local_date,
        );
    }
    assert forall|i: int, j: int| 0 <= i < keys.len() && 0 <= j < keys.len() && i
        != j implies keys[i] != keys[j] by {
        if i < j {
            assert(rows[i].local_date != rows[j].local_date);
        } else {
            assert(rows[j].local_date != rows[i].local_date);
        }
    }
    lemma_table_tells_all(usages, keys, key_of, columns, sources.configured);
}

/// Each kind of token and each amount, summed over the rows of the minutes, is that of the stored
/// requests, each counted once.
pub proof fn lemma_minutes_tell_all(sources: SourcesView)
    requires
        are_countable(usages_in(sources), sources.configured),
    ensures
        tells_all(
            refreshed(sources).minutes.map_values(|row: UsageMinuteRecordView| minute_columns(row)),
            usages_in(sources),
            sources.configured,
        ),
{
    lemma_minutes_tell_their_requests(sources);
    let rows = refreshed(sources).minutes;
    let (usages, setting) = (usages_in(sources), setting_in(sources));
    let columns = rows.map_values(|row: UsageMinuteRecordView| minute_columns(row));
    let keys = rows.map_values(
        |row: UsageMinuteRecordView| (row.minute_start_ms, text_or(row.window_id, "none"@)),
    );
    let key_of = |u: UsageRecordView| minute_of_request(u, setting);
    assert forall|k: int| 0 <= k < usages.len() implies keys.contains(
        key_of(#[trigger] usages[k]),
    ) by {
        let i = choose|i: int|
            0 <= i < rows.len() && is_of_minute(usages[k], setting, #[trigger] rows[i]);
        assert(keys[i] == key_of(usages[k]));
    }
    assert forall|i: int| #![trigger columns[i]] 0 <= i < columns.len() implies tells_sums(
        columns[i],
        select(usages, |u: UsageRecordView| key_of(u) == keys[i]),
        sources.configured,
    ) by {
        let row = rows[i];
        lemma_selection_within(
            usages,
            |u: UsageRecordView| key_of(u) == keys[i],
            |u: UsageRecordView| is_of_minute(u, setting, row),
        );
    }
    assert forall|i: int, j: int| 0 <= i < keys.len() && 0 <= j < keys.len() && i
        != j implies keys[i] != keys[j] by {
        if i < j {
            assert(rows[i].minute_start_ms <= rows[j].minute_start_ms);
        } else {
            assert(rows[j].minute_start_ms <= rows[i].minute_start_ms);
        }
    }
    lemma_table_tells_all(usages, keys, key_of, columns, sources.configured);
}

/// Each kind of token and each amount, summed over the rows of the sessions, is that of the stored
/// requests, each counted once.
pub proof fn lemma_sessions_tell_all(sources: SourcesView)
    requires
        are_countable(usages_in(sources), sources.configured),
    ensures
        tells_all(
            refreshed(sources).sessions.map_values(
                |row: UsageSessionRecordView| session_columns(row),
            ),
            usages_in(sources),
            sources.configured,
        ),
{
    lemma_sessions_tell_their_requests(sources);
    let rows = refreshed(sources).sessions;
    let (usages, setting) = (usages_in(sources), setting_in(sources));
    let columns = rows.map_values(|row: UsageSessionRecordView| session_columns(row));
    let keys = rows.map_values(|row: UsageSessionRecordView| row.row_key);
    let key_of = |u: UsageRecordView| row_of_request(u, setting);
    assert forall|k: int| 0 <= k < usages.len() implies keys.contains(
        key_of(#[trigger] usages[k]),
    ) by {
        let i = choose|i: int|
            0 <= i < rows.len() && (#[trigger] rows[i]).row_key == row_of_request(
                usages[k],
                setting,
            );
        assert(keys[i] == key_of(usages[k]));
    }
    assert forall|i: int| #![trigger columns[i]] 0 <= i < columns.len() implies tells_sums(
        columns[i],
        select(usages, |u: UsageRecordView| key_of(u) == keys[i]),
        sources.configured,
    ) by {
        let row = rows[i];
        lemma_selection_within(
            usages,
            |u: UsageRecordView| key_of(u) == keys[i],
            |u: UsageRecordView| row_of_request(u, setting) == row.row_key,
        );
    }
    assert forall|i: int, j: int| 0 <= i < keys.len() && 0 <= j < keys.len() && i
        != j implies keys[i] != keys[j] by {
        if i < j {
            assert(rows[i].row_key != rows[j].row_key);
        } else {
            assert(rows[j].row_key != rows[i].row_key);
        }
    }
    lemma_table_tells_all(usages, keys, key_of, columns, sources.configured);
}

proof fn lemma_every_window_is_fresh(segments: Seq<WindowSegmentView>, at: int)
    requires
        0 <= at < segments.len(),
    ensures
        lookup::<String, WindowAggregateView>(fresh_windows(segments), segments[at].id) is Some,
        keys_increase::<String, WindowAggregateView>(fresh_windows(segments)),
    decreases segments.len(),
{
    let shorter = segments.drop_last();
    lemma_fresh_windows_start(shorter);
    lemma_fresh_windows_start(segments);
    lemma_put_lookup::<String, WindowAggregateView>(
        fresh_windows(shorter),
        segments.last().id,
        WindowAggregateView { segment: segments.last(), ..empty_window_aggregate() },
        segments[at].id,
    );
    if at < shorter.len() {
        assert(shorter[at] == segments[at]);
        lemma_every_window_is_fresh(shorter, at);
    }
}

proof fn lemma_official_keeps_windows(
    minutes: Seq<((i64, Seq<char>), MinuteBucketView)>,
    segments: Seq<WindowSegmentView>,
    id: Seq<char>,
)
    requires
        lookup::<String, WindowAggregateView>(fresh_windows(segments), id) is Some,
    ensures
        lookup::<String, WindowAggregateView>(official_scan(minutes, segments).windows, id) is Some,
    decreases minutes.len(),
{
    if minutes.len() > 0 {
        let shorter = minutes.drop_last();
        lemma_official_keeps_windows(shorter, segments, id);
        lemma_official_in_order(shorter, segments);
        let before = official_scan(shorter, segments).windows;
        let bucket = minutes.last().1;
        if bucket.official is Some && bucket.window_id is Some {
            let own = bucket.window_id->0;
            if let Some(window) = lookup::<String, WindowAggregateView>(before, own) {
                lemma_put_lookup::<String, WindowAggregateView>(
                    before,
                    own,
                    window_with_percent(window, bucket.official->0.percent),
                    id,
                );
            }
        }
    }
}

/// Each kind of token and each amount, summed over the rows of the windows, is that of the stored
/// requests, each counted once, where any window is known.
pub proof fn lemma_windows_tell_all(sources: SourcesView)
    requires
        are_countable(usages_in(sources), sources.configured),
        setting_in(sources).windows.len() > 0,
    ensures
        tells_all(
            refreshed(sources).windows.map_values(|row: UsageWindowRecordView| window_columns(row)),
            usages_in(sources),
            sources.configured,
        ),
        forall|k: int|
            #![trigger setting_in(sources).windows[k]]
            0 <= k < setting_in(sources).windows.len() ==> exists|i: int|
                0 <= i < refreshed(sources).windows.len() && (
                #[trigger] refreshed(sources).windows[i]).window_id
                    == setting_in(sources).windows[k].id,
{
    lemma_windows_tell_their_requests(sources);
    let rows = refreshed(sources).windows;
    let (usages, quotas, setting) = (usages_in(sources), quotas_in(sources), setting_in(sources));
    let windows = gathered(usages, quotas, setting).windows;
    lemma_gathered_in_order(usages, quotas, setting);
    lemma_windows_are_keyed(usages, quotas, setting);
    let p = |id: Seq<char>, window: WindowAggregateView| window.segment.id == id;
    assert forall|k: int| #![trigger setting.windows[k]] 0 <= k < setting.windows.len() implies exists|
        i: int,
    | 0 <= i < rows.len() && (#[trigger] rows[i]).window_id == setting.windows[k].id by {
        let id = setting.windows[k].id;
        lemma_every_window_is_fresh(setting.windows, k);
        lemma_official_keeps_windows(quota_minutes(quotas, setting), setting.windows, id);
        lemma_requests_keep_official(usages, quotas, setting, id, Seq::empty());
        lemma_has::<String, WindowAggregateView>(windows, id);
        let i = choose|i: int| 0 <= i < windows.len() && (#[trigger] windows[i]).0 == id;
        assert(p(windows[i].0, windows[i].1));
        assert(rows[i].window_id == id);
    }
    let columns = rows.map_values(|row: UsageWindowRecordView| window_columns(row));
    let keys = rows.map_values(|row: UsageWindowRecordView| Some(row.window_id));
    let key_of = |u: UsageRecordView| id_of(window_of_usage(setting.windows, u.observed_at_ms));
    assert forall|k: int| 0 <= k < usages.len() implies keys.contains(
        key_of(#[trigger] usages[k]),
    ) by {
        let place = lemma_every_request_is_in_a_window(setting.windows, usages[k].observed_at_ms);
        let segment = setting.windows[place];
        let i = choose|i: int| 0 <= i < rows.len() && (#[trigger] rows[i]).window_id == segment.id;
        assert(keys[i] == key_of(usages[k]));
    }
    assert forall|i: int| #![trigger columns[i]] 0 <= i < columns.len() implies tells_sums(
        columns[i],
        select(usages, |u: UsageRecordView| key_of(u) == keys[i]),
        sources.configured,
    ) by {
        let row = rows[i];
        lemma_selection_within(
            usages,
            |u: UsageRecordView| key_of(u) == keys[i],
            |u: UsageRecordView|
                id_of(window_of_usage(setting.windows, u.observed_at_ms)) == Some(row.window_id),
        );
    }
    assert forall|i: int, j: int| 0 <= i < keys.len() && 0 <= j < keys.len() && i
        != j implies keys[i] != keys[j] by {
        if i < j {
            assert(rows[i].window_id != rows[j].window_id);
        } else {
            assert(rows[j].window_id != rows[i].window_id);
        }
    }
    lemma_table_tells_all(usages, keys, key_of, columns, sources.configured);
}

/// Whether a row holds its total against the tokens that the account counts: what the account
/// counts more, as far as 64 bits can hold it, and how much of it was seen, where it counts any.
pub open spec fn is_held_against(
    account_tokens: Option<i64>,
    total: Option<i64>,
    unobserved: Option<i64>,
    coverage: Option<Coverage>,
) -> bool {
    &&& unobserved is Some <==> account_tokens is Some && total is Some
    &&& unobserved is Some && i64::MIN <= account_tokens->0 - total->0 <= i64::MAX
        ==> unobserved->0 + total->0 == account_tokens->0
    &&& unobserved is Some && account_tokens->0 - total->0 > i64::MAX ==> unobserved->0 == i64::MAX
    &&& unobserved is Some && account_tokens->0 - total->0 < i64::MIN ==> unobserved->0 == i64::MIN
    &&& coverage is Some <==> account_tokens is Some && total is Some && account_tokens->0 > 0
    &&& coverage is Some ==> (coverage->0).local == total->0 && (coverage->0).remote
        == account_tokens->0
}

/// A row of the days has the tokens that the account counts for its date, holds its total against
/// them, and says whether they are known.
pub proof fn lemma_days_are_held_against_the_account(sources: SourcesView, at: int)
    requires
        0 <= at < refreshed(sources).daily.len(),
    ensures
        ({
            let row = refreshed(sources).daily[at];
            let account = account_of(sources.app_server, sources.daily);
            &&& row.account_tokens == lookup::<String, i64>(account.daily_tokens, row.local_date)
            &&& is_held_against(
                row.account_tokens,
                row.total_tokens,
                row.unobserved_tokens,
                row.coverage,
            )
            &&& row.account_token_freshness == Some("settled"@) <==> row.account_tokens is Some
            &&& row.account_token_freshness == Some("unavailable"@) <==> row.account_tokens is None
            &&& row.account_key == account.account_key
            &&& row.auth_kind == account.auth_kind
        }),
{
    reveal_strlit("settled");
    reveal_strlit("unavailable");
    assert("settled"@.len() == 7 && "unavailable"@.len() == 11);
}

/// The tokens that the account counts from one date to another, both counted in.
pub open spec fn tokens_from_to(
    days: Seq<(Seq<char>, i64)>,
    first: Seq<char>,
    last: Seq<char>,
) -> int
    decreases days.len(),
{
    if days.len() == 0 {
        0
    } else {
        tokens_from_to(days.drop_last(), first, last) + (if is_between(
            first,
            days.last().0,
            last,
        ) {
            days.last().1 as int
        } else {
            0
        })
    }
}

/// Whether a date is neither before the first nor after the last.
pub open spec fn is_between(first: Seq<char>, date: Seq<char>, last: Seq<char>) -> bool {
    !text_less(date, first) && !text_less(last, date)
}

proof fn lemma_tokens_from_to(days: Seq<(Seq<char>, i64)>, first: Seq<char>, last: Seq<char>)
    requires
        forall|i: int| 0 <= i < days.len() ==> (#[trigger] days[i]).1 >= 0,
        tokens_from_to(days, first, last) <= i64::MAX,
    ensures
        tokens_in(days, first, last) is Some <==> exists|i: int|
            0 <= i < days.len() && is_between(first, (#[trigger] days[i]).0, last),
        told(tokens_in(days, first, last)) == tokens_from_to(days, first, last),
        tokens_from_to(days, first, last) >= 0,
    decreases days.len(),
{
    if days.len() > 0 {
        let shorter = days.drop_last();
        assert forall|i: int| 0 <= i < shorter.len() implies (#[trigger] shorter[i]).1 >= 0 by {
            assert(shorter[i] == days[i]);
        }
        assert(days[days.len() - 1].1 >= 0);
        lemma_tokens_from_to(shorter, first, last);
        if exists|i: int| 0 <= i < shorter.len() && is_between(first, (#[trigger] shorter[i]).0, last) {
            let i = choose|i: int|
                0 <= i < shorter.len() && is_between(first, (#[trigger] shorter[i]).0, last);
            assert(days[i] == shorter[i]);
        }
        if exists|i: int| 0 <= i < days.len() && is_between(first, (#[trigger] days[i]).0, last) {
            let i = choose|i: int|
                0 <= i < days.len() && is_between(first, (#[trigger] days[i]).0, last);
            if i < shorter.len() {
                assert(shorter[i] == days[i]);
            }
        }
    }
}

/// A row of the windows holds its total against the tokens that the account counts from the date of
/// its start to that of its reset, or to the end; these are known where any of those days is.
pub proof fn lemma_windows_are_held_against_the_account(sources: SourcesView, at: int)
    requires
        0 <= at < refreshed(sources).windows.len(),
    ensures
        ({
            let row = refreshed(sources).windows[at];
            let days = account_of(sources.app_server, sources.daily).daily_tokens;
            let last = match row.resets_at_ms {
                Some(end) if local_date_of(end) is Some => local_date_of(end)->0,
                _ => "9999-12-31"@,
            };
            &&& is_held_against(
                row.account_tokens,
                row.total_tokens,
                row.unobserved_tokens,
                row.coverage,
            )
            &&& row.window_start_ms is Some
            &&& local_date_of(row.window_start_ms->0) is None ==> row.account_tokens is None
            &&& (forall|i: int| 0 <= i < days.len() ==> (#[trigger] days[i]).1 >= 0)
                && local_date_of(row.window_start_ms->0) is Some ==> ({
                let first = local_date_of(row.window_start_ms->0)->0;
                tokens_from_to(days, first, last) <= i64::MAX ==> {
                    &&& row.account_tokens is Some <==> exists|i: int|
                        0 <= i < days.len() && is_between(first, (#[trigger] days[i]).0, last)
                    &&& told(row.account_tokens) == tokens_from_to(days, first, last)
                }
            })
        }),
{
    let row = refreshed(sources).windows[at];
    let days = account_of(sources.app_server, sources.daily).daily_tokens;
    let last = match row.resets_at_ms {
        Some(end) if local_date_of(end) is Some => local_date_of(end)->0,
        _ => "9999-12-31"@,
    };
    if (forall|i: int| 0 <= i < days.len() ==> (#[trigger] days[i]).1 >= 0) && local_date_of(
        row.window_start_ms->0,
    ) is Some {
        let first = local_date_of(row.window_start_ms->0)->0;
        if tokens_from_to(days, first, last) <= i64::MAX {
            lemma_tokens_from_to(days, first, last);
        }
    }
}

proof fn lemma_windows_are_segments(
    usages: Seq<UsageRecordView>,
    quotas: Seq<QuotaObservationView>,
    setting: SettingView,
)
    ensures
        all_values::<String, WindowAggregateView>(
            gathered(usages, quotas, setting).windows,
            |window: WindowAggregateView| setting.windows.contains(window.segment),
        ),
    decreases usages.len(),
{
    let p = |window: WindowAggregateView| setting.windows.contains(window.segment);
    if usages.len() == 0 {
        lemma_official_segments(quota_minutes(quotas, setting), setting.windows);
    } else {
        let (shorter, usage) = (usages.drop_last(), usages.last());
        lemma_windows_are_segments(shorter, quotas, setting);
        lemma_gathered_in_order(shorter, quotas, setting);
        let before = gathered(shorter, quotas, setting).windows;
        if let Some(id) = id_of(window_of_usage(setting.windows, usage.observed_at_ms)) {
            lemma_lookup_value::<String, WindowAggregateView>(before, id, p);
            assert forall|window: WindowAggregateView| p(window) implies all_values::<
                String,
                WindowAggregateView,
            >(#[trigger] put::<String, WindowAggregateView>(before, id, window), p) by {
                lemma_put_values::<String, WindowAggregateView>(before, id, window, p);
            }
        }
    }
}

proof fn lemma_official_segments(
    minutes: Seq<((i64, Seq<char>), MinuteBucketView)>,
    segments: Seq<WindowSegmentView>,
)
    ensures
        all_values::<String, WindowAggregateView>(
            official_scan(minutes, segments).windows,
            |window: WindowAggregateView| segments.contains(window.segment),
        ),
    decreases minutes.len(),
{
    let p = |window: WindowAggregateView| segments.contains(window.segment);
    if minutes.len() == 0 {
        lemma_fresh_segments(segments, segments.len() as int);
        assert(segments.take(segments.len() as int) =~= segments);
    } else {
        let shorter = minutes.drop_last();
        lemma_official_segments(shorter, segments);
        lemma_official_in_order(shorter, segments);
        let before = official_scan(shorter, segments).windows;
        let bucket = minutes.last().1;
        if bucket.official is Some && bucket.window_id is Some {
            let id = bucket.window_id->0;
            lemma_lookup_value::<String, WindowAggregateView>(before, id, p);
            if let Some(window) = lookup::<String, WindowAggregateView>(before, id) {
                lemma_put_values::<String, WindowAggregateView>(
                    before,
                    id,
                    window_with_percent(window, bucket.official->0.percent),
                    p,
                );
            }
        }
    }
}

proof fn lemma_fresh_segments(segments: Seq<WindowSegmentView>, n: int)
    requires
        0 <= n <= segments.len(),
    ensures
        all_values::<String, WindowAggregateView>(
            fresh_windows(segments.take(n)),
            |window: WindowAggregateView| segments.contains(window.segment),
        ),
    decreases n,
{
    let p = |window: WindowAggregateView| segments.contains(window.segment);
    if n > 0 {
        let some = segments.take(n);
        assert(some.drop_last() =~= segments.take(n - 1));
        assert(some.last() == segments[n - 1]);
        lemma_fresh_segments(segments, n - 1);
        lemma_put_values::<String, WindowAggregateView>(
            fresh_windows(segments.take(n - 1)),
            some.last().id,
            WindowAggregateView { segment: some.last(), ..empty_window_aggregate() },
            p,
        );
    }
}

/// A row of the windows is of a window that quotas make: it has its kind, its limit, its start, its
/// reset, its minutes and its account, or where it has none that of the account.
pub proof fn lemma_windows_are_those_of_quotas(sources: SourcesView, at: int)
    requires
        0 <= at < refreshed(sources).windows.len(),
    ensures
        ({
            let row = refreshed(sources).windows[at];
            let account = account_of(sources.app_server, sources.daily);
            exists|segment: WindowSegmentView| #[trigger]
                windows_of(quotas_in(sources)).contains(segment) && {
                    &&& row.window_id == segment.id
                    &&& row.limit_id == segment.limit_id
                    &&& row.window_kind == segment.window_kind
                    &&& row.window_start_ms == Some(segment.start_at_ms)
                    &&& row.resets_at_ms == segment.reset_at_ms
                    &&& row.window_minutes == segment.window_minutes
                    &&& row.account_key == (if segment.account_key is Some {
                        segment.account_key
                    } else {
                        account.account_key
                    })
                    &&& row.auth_kind == account.auth_kind
                    &&& row.provider == account.provider
                }
        }),
{
    let (usages, quotas, setting) = (usages_in(sources), quotas_in(sources), setting_in(sources));
    let windows = gathered(usages, quotas, setting).windows;
    lemma_windows_are_segments(usages, quotas, setting);
    let p = |window: WindowAggregateView| setting.windows.contains(window.segment);
    assert(p(windows[at].1));
    let segment = windows[at].1.segment;
    assert(windows_of(quotas).contains(segment));
}

} // verus!
