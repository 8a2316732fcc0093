//! Usage by day, minute, quota window and session, rebuilt from the stored facts.
pub mod capacity;
pub mod clock;
pub mod dedupe;
pub mod detail;
pub mod gather;
pub mod laws;
pub mod load;
pub mod metric;
pub mod records;
pub mod rollup;
pub mod rows;
pub mod shares;
pub mod spans;
pub mod stored;
pub mod tables;
pub mod told;
pub mod windows;

use crate::db::{
    CapacityRecord, CapacityRecordView, SourceAppServerRecord, SourceAppServerRecordView,
    SourceJsonlRecord, SourceJsonlRecordView, UsageDailyRecord, UsageDailyRecordView,
    UsageMinuteRecord, UsageMinuteRecordView, UsageSessionRecord, UsageSessionRecordView,
    UsageWindowRecord, UsageWindowRecordView,
};
use crate::domain::time::can_be_local;
use crate::json::{Json, JsonView};
use crate::ordered::{sort, sorted, sum_values, Key};
use crate::pipelines::result::materialize::clock::{
    is_datable, lemma_first_minute, local_date, MaterializeError, MaterializeErrorView, FIRST_MINUTE_MS,
};
use crate::pipelines::result::materialize::dedupe::{dedupe_usages, deduped};
use crate::pipelines::result::materialize::gather::roll_up;
use crate::pipelines::result::materialize::laws::{
    count, gathered_is_datable, has_requests, is_told, lemma_gathered_is_datable,
    lemma_tokens_are_counted_once, lemma_unused_rows_are_empty, total_count, ALL_TOKENS,
};
use crate::pipelines::result::materialize::load::{
    account_of, capacities_of, facts_of, load_account_and_quotas, load_capacities, load_jsonl,
    quotas_of,
};
use crate::pipelines::result::materialize::records::{
    AccountContext, AccountContextView, Capacity, CapacityView, DayAggregateView, MinuteBucketView,
    QuotaObservation, QuotaObservationView, SessionAggregateView, UsageRecord, UsageRecordView,
    WindowAggregateView, WindowSegment,
};
use crate::pipelines::result::materialize::rollup::{
    are_datable, rolled_up, window_is_datable, Rollup, RollupView, Setting, SettingView,
};
use crate::pipelines::result::materialize::rows::{
    daily_row, minute_row, session_row, to_daily_row, to_minute_row, to_session_row, to_window_row,
    window_row,
};
use crate::pipelines::result::materialize::windows::{build_windows, windows_of, ByTime};
use crate::pricing::ServiceTier;
use vstd::prelude::*;

verus! {

/// How many rows were made.
#[derive(Clone, Copy, Debug, PartialEq, Eq, Structural)]
pub struct MaterializeSummary {
    pub days: usize,
    pub minutes: usize,
    pub sessions: usize,
    pub windows: usize,
}

impl Default for MaterializeSummary {
    fn default() -> (r: Self)
        ensures
            r == (MaterializeSummary { days: 0, minutes: 0, sessions: 0, windows: 0 }),
    {
        MaterializeSummary { days: 0, minutes: 0, sessions: 0, windows: 0 }
    }
}

/// The rows of the four tables.
#[derive(Debug)]
pub struct RollupRows {
    pub daily: Vec<UsageDailyRecord>,
    pub minutes: Vec<UsageMinuteRecord>,
    pub windows: Vec<UsageWindowRecord>,
    pub sessions: Vec<UsageSessionRecord>,
}

/// `RollupRows` with its texts as sequences of characters.
#[verifier::ext_equal]
pub struct RollupRowsView {
    pub daily: Seq<UsageDailyRecordView>,
    pub minutes: Seq<UsageMinuteRecordView>,
    pub windows: Seq<UsageWindowRecordView>,
    pub sessions: Seq<UsageSessionRecordView>,
}

impl DeepView for RollupRows {
    type V = RollupRowsView;

    open spec fn deep_view(&self) -> RollupRowsView {
        RollupRowsView {
            daily: self.daily.deep_view(),
            minutes: self.minutes.deep_view(),
            windows: self.windows.deep_view(),
            sessions: self.sessions.deep_view(),
        }
    }
}

/// The rows of what was gathered.
pub open spec fn rows_of(
    rollup: RollupView,
    account: AccountContextView,
    capacities: Seq<CapacityView>,
) -> RollupRowsView {
    RollupRowsView {
        daily: Seq::new(
            rollup.days.len(),
            |i: int| daily_row(rollup.days[i].1, account, capacities),
        ),
        minutes: Seq::new(
            rollup.minutes.len(),
            |i: int| minute_row(rollup.minutes[i].1, account, capacities),
        ),
        windows: Seq::new(
            rollup.windows.len(),
            |i: int| window_row(rollup.windows[i].1, account, capacities),
        ),
        sessions: Seq::new(
            rollup.sessions.len(),
            |i: int|
                session_row(
                    rollup.sessions[i].0,
                    rollup.sessions[i].1,
                    account,
                    capacities,
                    rollup.minutes,
                ),
        ),
    }
}

/// What is stored: rows of logs, of the account, with the list of days that each of these tells,
/// and capacities; and the tier of requests that tell none.
#[verifier::ext_equal]
pub struct SourcesView {
    pub jsonl: Seq<SourceJsonlRecordView>,
    pub app_server: Seq<SourceAppServerRecordView>,
    pub daily: Seq<Option<JsonView>>,
    pub capacities: Seq<CapacityRecordView>,
    pub configured: ServiceTier,
}

/// The requests that are stored, each once.
pub open spec fn usages_in(sources: SourcesView) -> Seq<UsageRecordView> {
    deduped(facts_of(sources.jsonl).usages)
}

/// The quotas that are stored and count, in the order of time.
pub open spec fn quotas_in(sources: SourcesView) -> Seq<QuotaObservationView> {
    sorted::<QuotaObservation, ByTime>(
        quotas_of(
            sources.jsonl,
            sources.app_server,
            account_of(sources.app_server, sources.daily),
        ),
    )
}

/// What the stored usage is gathered by.
pub open spec fn setting_in(sources: SourcesView) -> SettingView {
    SettingView {
        windows: windows_of(quotas_in(sources)),
        account: account_of(sources.app_server, sources.daily),
        capacities: capacities_of(sources.capacities),
        sessions: facts_of(sources.jsonl).sessions,
        turns: facts_of(sources.jsonl).turns,
        configured: sources.configured,
    }
}

/// The rows that the stored facts give.
pub open spec fn refreshed(sources: SourcesView) -> RollupRowsView {
    let setting = setting_in(sources);
    rows_of(
        rolled_up(usages_in(sources), quotas_in(sources), setting),
        setting.account,
        setting.capacities,
    )
}

/// Token counts together, where those that are not told count for nothing.
pub open spec fn told_tokens(counts: Seq<Option<i64>>) -> int
    decreases counts.len(),
{
    if counts.len() == 0 {
        0
    } else {
        told_tokens(counts.drop_last()) + match counts.last() {
            Some(count) => count as int,
            None => 0,
        }
    }
}

proof fn lemma_told_tokens<K: Key, V>(
    rows: Seq<(K::V, V)>,
    counts: Seq<Option<i64>>,
    f: spec_fn(V) -> int,
)
    requires
        counts.len() == rows.len(),
        forall|i: int|
            0 <= i < rows.len() ==> f((#[trigger] rows[i]).1) == (match counts[i] {
                Some(count) => count as int,
                None => 0,
            }),
    ensures
        told_tokens(counts) == sum_values::<K, V>(rows, f),
    decreases rows.len(),
{
    if rows.len() > 0 {
        let shorter = rows.drop_last();
        assert forall|i: int| 0 <= i < shorter.len() implies f((#[trigger] shorter[i]).1) == (
        match counts.drop_last()[i] {
            Some(count) => count as int,
            None => 0,
        }) by {
            assert(shorter[i] == rows[i]);
        }
        lemma_told_tokens::<K, V>(shorter, counts.drop_last(), f);
        assert(rows[rows.len() - 1] == rows.last());
    }
}

/// The total tokens of the days, of the minutes, of the sessions and, where the table of windows
/// has rows, of the windows are those of the requests that are stored, each counted once.
pub proof fn lemma_tables_tell_every_token(sources: SourcesView)
    requires
        forall|i: int|
            0 <= i < usages_in(sources).len() ==> (#[trigger] usages_in(sources)[i]).tokens.total
                >= 0,
        total_count(usages_in(sources), ALL_TOKENS as int) <= i64::MAX,
    ensures
        ({
            let rows = refreshed(sources);
            let all = total_count(usages_in(sources), ALL_TOKENS as int);
            &&& told_tokens(rows.daily.map_values(|row: UsageDailyRecordView| row.total_tokens))
                == all
            &&& told_tokens(rows.minutes.map_values(|row: UsageMinuteRecordView| row.total_tokens))
                == all
            &&& told_tokens(
                rows.sessions.map_values(|row: UsageSessionRecordView| row.total_tokens),
            ) == all
            &&& rows.windows.len() > 0 ==> told_tokens(
                rows.windows.map_values(|row: UsageWindowRecordView| row.total_tokens),
            ) == all
        }),
{
    let kind = ALL_TOKENS as int;
    let (usages, quotas, setting) = (usages_in(sources), quotas_in(sources), setting_in(sources));
    let rollup = rolled_up(usages, quotas, setting);
    let rows = refreshed(sources);
    assert forall|i: int| 0 <= i < usages.len() implies count((#[trigger] usages[i]).tokens, kind)
        >= 0 by {}
    lemma_tokens_are_counted_once(usages, quotas, setting, kind);
    lemma_unused_rows_are_empty(usages, quotas, setting, kind);
    let pd = |day: DayAggregateView| is_told(day.metric, kind);
    let fd = |day: DayAggregateView| count(day.metric.tokens, kind);
    let days = rows.daily.map_values(|row: UsageDailyRecordView| row.total_tokens);
    assert forall|i: int| 0 <= i < rollup.days.len() implies fd((#[trigger] rollup.days[i]).1) == (
    match days[i] {
        Some(count) => count as int,
        None => 0,
    }) by {
        assert(pd(rollup.days[i].1));
    }
    lemma_told_tokens::<String, DayAggregateView>(rollup.days, days, fd);
    let pm = |bucket: MinuteBucketView| is_told(bucket.metric, kind);
    let fm = |bucket: MinuteBucketView| count(bucket.metric.tokens, kind);
    let minutes = rows.minutes.map_values(|row: UsageMinuteRecordView| row.total_tokens);
    assert forall|i: int| 0 <= i < rollup.minutes.len() implies fm(
        (#[trigger] rollup.minutes[i]).1,
    ) == (match minutes[i] {
        Some(count) => count as int,
        None => 0,
    }) by {
        assert(pm(rollup.minutes[i].1));
    }
    lemma_told_tokens::<(i64, String), MinuteBucketView>(rollup.minutes, minutes, fm);
    let pw = |window: WindowAggregateView| is_told(window.metric, kind);
    let fw = |window: WindowAggregateView| count(window.metric.tokens, kind);
    let windows = rows.windows.map_values(|row: UsageWindowRecordView| row.total_tokens);
    assert forall|i: int| 0 <= i < rollup.windows.len() implies fw(
        (#[trigger] rollup.windows[i]).1,
    ) == (match windows[i] {
        Some(count) => count as int,
        None => 0,
    }) by {
        assert(pw(rollup.windows[i].1));
    }
    lemma_told_tokens::<String, WindowAggregateView>(rollup.windows, windows, fw);
    let ps = |session: SessionAggregateView| is_told(session.metric, kind);
    let fs = |session: SessionAggregateView| count(session.metric.tokens, kind);
    let sessions = rows.sessions.map_values(|row: UsageSessionRecordView| row.total_tokens);
    assert forall|i: int| 0 <= i < rollup.sessions.len() implies fs(
        (#[trigger] rollup.sessions[i]).1,
    ) == (match sessions[i] {
        Some(count) => count as int,
        None => 0,
    }) by {
        assert(ps(rollup.sessions[i].1));
    }
    lemma_told_tokens::<String, SessionAggregateView>(rollup.sessions, sessions, fs);
}

fn check_instants(
    usages: &Vec<UsageRecord>,
    quotas: &Vec<QuotaObservation>,
    windows: &Vec<WindowSegment>,
) -> (r: bool)
    ensures
        r == are_datable(usages.deep_view(), quotas.deep_view(), windows.deep_view()),
{
    let ghost (us, qs, ws) = (usages.deep_view(), quotas.deep_view(), windows.deep_view());
    let mut i: usize = 0;
    while i < usages.len()
        invariant
            i <= usages@.len(),
            us == usages.deep_view(),
            forall|k: int| 0 <= k < i ==> is_datable((#[trigger] us[k]).observed_at_ms),
        decreases usages@.len() - i,
    {
        let at: i64 = usages[i].observed_at_ms;
        assert(us[i as int].observed_at_ms == at);
        if !datable(at) {
            return false;
        }
        i = i + 1;
    }
    i = 0;
    while i < quotas.len()
        invariant
            i <= quotas@.len(),
            qs == quotas.deep_view(),
            forall|k: int| 0 <= k < i ==> is_datable((#[trigger] qs[k]).first_seen_at_ms),
        decreases quotas@.len() - i,
    {
        let at: i64 = quotas[i].first_seen_at_ms;
        assert(qs[i as int].first_seen_at_ms == at);
        if !datable(at) {
            return false;
        }
        i = i + 1;
    }
    i = 0;
    while i < windows.len()
        invariant
            i <= windows@.len(),
            ws == windows.deep_view(),
            forall|k: int| 0 <= k < i ==> window_is_datable(#[trigger] ws[k]),
        decreases windows@.len() - i,
    {
        let window = &windows[i];
        assert(ws[i as int] == window.deep_view());
        if !datable(window.start_at_ms) {
            return false;
        }
        if let Some(reset) = window.reset_at_ms {
            if !can_be_local(reset) && local_date(window.start_at_ms).is_ok() {
                return false;
            }
        }
        i = i + 1;
    }
    true
}

fn datable(at: i64) -> (r: bool)
    ensures
        r == is_datable(at),
{
    proof {
        lemma_first_minute(at);
    }
    FIRST_MINUTE_MS <= at && can_be_local(at)
}

fn make_rows(rollup: &Rollup, account: &AccountContext, capacities: &Vec<Capacity>) -> (r:
    RollupRows)
    requires
        forall|i: int|
            0 <= i < rollup.windows.entries@.len() ==> gathered_is_datable(
                (#[trigger] rollup.deep_view().windows[i]).1,
            ),
        forall|i: int|
            0 <= i < rollup.sessions.entries@.len() ==> has_requests(
                (#[trigger] rollup.deep_view().sessions[i]).1,
            ),
    ensures
        r.deep_view() == rows_of(
            rollup.deep_view(),
            account.deep_view(),
            capacities.deep_view(),
        ),
{
    let ghost view = rollup.deep_view();
    let ghost expected = rows_of(view, account.deep_view(), capacities.deep_view());
    let mut daily: Vec<UsageDailyRecord> = Vec::new();
    let mut i: usize = 0;
    while i < rollup.days.entries.len()
        invariant
            i <= rollup.days.entries@.len(),
            view == rollup.deep_view(),
            expected == rows_of(view, account.deep_view(), capacities.deep_view()),
            daily.deep_view() == expected.daily.take(i as int),
        decreases rollup.days.entries@.len() - i,
    {
        let ghost before = daily.deep_view();
        assert(view.days[i as int] == rollup.days.entries@[i as int].deep_view());
        daily.push(to_daily_row(&rollup.days.entries[i].1, account, capacities));
        assert(daily.deep_view() =~= before.push(expected.daily[i as int]));
        i = i + 1;
        assert(daily.deep_view() =~= expected.daily.take(i as int));
    }
    assert(daily.deep_view() =~= expected.daily);
    let mut minutes: Vec<UsageMinuteRecord> = Vec::new();
    i = 0;
    while i < rollup.minutes.entries.len()
        invariant
            i <= rollup.minutes.entries@.len(),
            view == rollup.deep_view(),
            expected == rows_of(view, account.deep_view(), capacities.deep_view()),
            minutes.deep_view() == expected.minutes.take(i as int),
        decreases rollup.minutes.entries@.len() - i,
    {
        let ghost before = minutes.deep_view();
        assert(view.minutes[i as int] == rollup.minutes.entries@[i as int].deep_view());
        minutes.push(to_minute_row(&rollup.minutes.entries[i].1, account, capacities));
        assert(minutes.deep_view() =~= before.push(expected.minutes[i as int]));
        i = i + 1;
        assert(minutes.deep_view() =~= expected.minutes.take(i as int));
    }
    assert(minutes.deep_view() =~= expected.minutes);
    let mut windows: Vec<UsageWindowRecord> = Vec::new();
    i = 0;
    while i < rollup.windows.entries.len()
        invariant
            i <= rollup.windows.entries@.len(),
            view == rollup.deep_view(),
            expected == rows_of(view, account.deep_view(), capacities.deep_view()),
            forall|i: int|
                0 <= i < rollup.windows.entries@.len() ==> gathered_is_datable(
                    (#[trigger] view.windows[i]).1,
                ),
            windows.deep_view() == expected.windows.take(i as int),
        decreases rollup.windows.entries@.len() - i,
    {
        let ghost before = windows.deep_view();
        assert(view.windows[i as int] == rollup.windows.entries@[i as int].deep_view());
        windows.push(to_window_row(&rollup.windows.entries[i].1, account, capacities));
        assert(windows.deep_view() =~= before.push(expected.windows[i as int]));
        i = i + 1;
        assert(windows.deep_view() =~= expected.windows.take(i as int));
    }
    assert(windows.deep_view() =~= expected.windows);
    let mut sessions: Vec<UsageSessionRecord> = Vec::new();
    i = 0;
    while i < rollup.sessions.entries.len()
        invariant
            i <= rollup.sessions.entries@.len(),
            view == rollup.deep_view(),
            expected == rows_of(view, account.deep_view(), capacities.deep_view()),
            forall|i: int|
                0 <= i < rollup.sessions.entries@.len() ==> has_requests(
                    (#[trigger] view.sessions[i]).1,
                ),
            sessions.deep_view() == expected.sessions.take(i as int),
        decreases rollup.sessions.entries@.len() - i,
    {
        let ghost before = sessions.deep_view();
        assert(view.sessions[i as int] == rollup.sessions.entries@[i as int].deep_view());
        sessions.push(
            to_session_row(
                rollup.sessions.entries[i].0.as_str(),
                &rollup.sessions.entries[i].1,
                account,
                capacities,
                &rollup.minutes,
            ),
        );
        assert(sessions.deep_view() =~= before.push(expected.sessions[i as int]));
        i = i + 1;
        assert(sessions.deep_view() =~= expected.sessions.take(i as int));
    }
    assert(sessions.deep_view() =~= expected.sessions);
    RollupRows { daily, minutes, windows, sessions }
}

/// Rebuilds the rows of the four tables from the stored facts. `daily` holds, for each row of the
/// account, the list of days that it tells. Instants without a minute or a date are an error.
pub fn refresh_rollups(
    jsonl: &Vec<SourceJsonlRecord>,
    app_server: &Vec<SourceAppServerRecord>,
    daily: &Vec<Option<Json>>,
    capacities: &Vec<CapacityRecord>,
    configured: ServiceTier,
) -> (r: Result<RollupRows, MaterializeError>)
    requires
        daily@.len() == app_server@.len(),
    ensures
        ({
            let sources = SourcesView {
                jsonl: jsonl.deep_view(),
                app_server: app_server.deep_view(),
                daily: daily.deep_view(),
                capacities: capacities.deep_view(),
                configured,
            };
            let datable = are_datable(
                usages_in(sources),
                quotas_in(sources),
                setting_in(sources).windows,
            );
            match r {
                Ok(rows) => datable && rows.deep_view() == refreshed(sources),
                Err(error) => !datable && error.deep_view() == MaterializeErrorView::Undatable,
            }
        }),
{
    let facts = load_jsonl(jsonl);
    let usages = dedupe_usages(facts.usages);
    let (quotas, account) = load_account_and_quotas(jsonl, app_server, daily);
    let quotas = sort::<QuotaObservation, ByTime>(quotas);
    let setting = Setting {
        windows: build_windows(&quotas),
        account,
        capacities: load_capacities(capacities),
        sessions: facts.sessions,
        turns: facts.turns,
        configured,
    };
    if !check_instants(&usages, &quotas, &setting.windows) {
        return Err(MaterializeError::Undatable);
    }
    let rollup = roll_up(&usages, &quotas, &setting);
    proof {
        let (us, qs, context) = (usages.deep_view(), quotas.deep_view(), setting.deep_view());
        lemma_gathered_is_datable(us, qs, context);
        let p = |w: WindowAggregateView| gathered_is_datable(w);
        let q = |s: SessionAggregateView| has_requests(s);
        let view = rollup.deep_view();
        assert forall|i: int| 0 <= i < view.windows.len() implies gathered_is_datable(
            (#[trigger] view.windows[i]).1,
        ) by {
            assert(p(view.windows[i].1));
        }
        assert forall|i: int| 0 <= i < view.sessions.len() implies has_requests(
            (#[trigger] view.sessions[i]).1,
        ) by {
            assert(q(view.sessions[i].1));
        }
    }
    Ok(make_rows(&rollup, &setting.account, &setting.capacities))
}

impl RollupRows {
    /// How many rows there are.
    pub fn summary(&self) -> (r: MaterializeSummary)
        ensures
            r.days == self.daily@.len(),
            r.minutes == self.minutes@.len(),
            r.sessions == self.sessions@.len(),
            r.windows == self.windows@.len(),
    {
        MaterializeSummary {
            days: self.daily.len(),
            minutes: self.minutes.len(),
            sessions: self.sessions.len(),
            windows: self.windows.len(),
        }
    }
}

} // verus!
