//! What a report says of the rows that it is made of.
use crate::json::{Float, JsonView};
use crate::minimal::report::rows::{
    RollupCapacityView, RollupDayRowView, RollupMinuteRowView, RollupSessionRowView, RowMetric,
};
use crate::minimal::report::sessions::{
    model_views, model_with, models_with_parts, new_model, new_view, part_of, parts_of,
    parts_of_items, session_views, shown_id, view_with, ModelPartView, RollupModelViewView,
    RollupSessionViewView,
};
use crate::minimal::report::sums::{filled, is_observed, no_sum, sum_with, RollupMetricView};
use crate::minimal::report::validation::{
    comparison, comparisons_of_groups, day_of, grouped_runs, is_latest, is_ok, latest_runs, run_key,
    run_status, turn_of, validation, with_row, with_rows, with_tokens, Figures,
    RollupCcusageRowView, RollupComparisonView,
};
use crate::minimal::report::windows::{
    new_window, quota_windows, window_with, windows_of, RollupWindowView,
};
use crate::ordered::{
    all_entries, all_values, keys_increase, lemma_entry_is_found, lemma_lookup_entry,
    lemma_lookup_value, lemma_put_entries, lemma_put_in_order, lemma_put_lookup, lemma_put_values,
    lookup,
};
use crate::pipelines::result::materialize::load::or_zero;
use crate::pipelines::result::materialize::tables::{first_in, last_in, told};
use vstd::prelude::*;
use vstd::string::*;

verus! {

/// One of the six counts of a row.
pub open spec fn count_of(row: RowMetric, n: int) -> int {
    if n == 0 {
        told(row.input)
    } else if n == 1 {
        told(row.cached)
    } else if n == 2 {
        told(row.cache_write)
    } else if n == 3 {
        told(row.output)
    } else if n == 4 {
        told(row.reasoning)
    } else {
        told(row.total)
    }
}

/// One of the six counts of a sum.
pub open spec fn count_in(sum: RollupMetricView, n: int) -> int {
    if n == 0 {
        sum.tokens.input as int
    } else if n == 1 {
        sum.tokens.cached as int
    } else if n == 2 {
        sum.tokens.cache_write as int
    } else if n == 3 {
        sum.tokens.output as int
    } else if n == 4 {
        sum.tokens.reasoning as int
    } else {
        sum.tokens.total as int
    }
}

/// A sum with one more row has more by what the row counts, kind by kind, as far as 64 bits can hold
/// it. An amount is known only where that of each row is. A row that tells nothing adds nothing.
pub proof fn lemma_row_adds_its_counts(sum: RollupMetricView, row: RowMetric, n: int)
    requires
        0 <= n < 6,
        i64::MIN <= count_in(sum, n) + count_of(row, n) <= i64::MAX,
    ensures
        count_in(sum_with(sum, row), n) == count_in(sum, n) + count_of(row, n),
        row.credit is Some ==> sum_with(sum, row).credits == sum.credits.push(row.credit->0),
        row.credit is None ==> sum_with(sum, row).credits == sum.credits,
        row.api_usd is Some ==> sum_with(sum, row).api_usd == sum.api_usd.push(row.api_usd->0),
        row.api_usd is None ==> sum_with(sum, row).api_usd == sum.api_usd,
        row.total is Some && row.credit is None ==> !sum_with(sum, row).credit_known,
        row.total is Some && row.api_usd is None ==> !sum_with(sum, row).api_known,
        row.credit is Some && sum.has_usage ==> sum_with(sum, row).credit_known == sum.credit_known,
        row.api_usd is Some && sum.has_usage ==> sum_with(sum, row).api_known == sum.api_known,
{
}

/// One of the counts over the minutes of a window.
pub open spec fn minutes_sum(minutes: Seq<RollupMinuteRowView>, id: Seq<char>, n: int) -> int
    decreases minutes.len(),
{
    if minutes.len() == 0 {
        0
    } else {
        minutes_sum(minutes.drop_last(), id, n) + (if minutes.last().window_id == Some(id) {
            count_of(minutes.last().metric, n)
        } else {
            0
        })
    }
}

/// The official percentages of the minutes of a window, in their order.
pub open spec fn minutes_percents(minutes: Seq<RollupMinuteRowView>, id: Seq<char>) -> Seq<Float>
    decreases minutes.len(),
{
    if minutes.len() == 0 {
        Seq::empty()
    } else {
        let before = minutes_percents(minutes.drop_last(), id);
        if minutes.last().window_id == Some(id) && minutes.last().official_percent is Some {
            before.push(minutes.last().official_percent->0)
        } else {
            before
        }
    }
}

/// The places of the minutes of a window.
pub open spec fn minutes_places(minutes: Seq<RollupMinuteRowView>, id: Seq<char>) -> Seq<int>
    decreases minutes.len(),
{
    if minutes.len() == 0 {
        Seq::empty()
    } else {
        let before = minutes_places(minutes.drop_last(), id);
        if minutes.last().window_id == Some(id) {
            before.push(minutes.len() - 1)
        } else {
            before
        }
    }
}

/// Whether minutes count nothing negative and their sums can be held.
pub open spec fn minutes_are_countable(minutes: Seq<RollupMinuteRowView>, id: Seq<char>) -> bool {
    &&& minutes.len() <= usize::MAX
    &&& forall|i: int, n: int|
        0 <= i < minutes.len() && 0 <= n < 6 ==> #[trigger] count_of(minutes[i].metric, n) >= 0
    &&& forall|n: int| 0 <= n < 6 ==> #[trigger] minutes_sum(minutes, id, n) <= i64::MAX
}

/// The window as it is known, or a new one.
spec fn window_known(windows: Seq<(Seq<char>, RollupWindowView)>, id: Seq<char>) -> RollupWindowView {
    match lookup::<String, RollupWindowView>(windows, id) {
        Some(window) => window,
        None => new_window(id),
    }
}

/// Whether a window is that of its minutes.
spec fn is_of_minutes(
    window: RollupWindowView,
    minutes: Seq<RollupMinuteRowView>,
    id: Seq<char>,
) -> bool {
    &&& forall|n: int|
        0 <= n < 6 ==> #[trigger] count_in(window.metric, n) == minutes_sum(minutes, id, n)
            && minutes_sum(minutes, id, n) >= 0
    &&& window.first_official == first_in(minutes_percents(minutes, id))
    &&& window.last_official == last_in(minutes_percents(minutes, id))
    &&& window.minutes.len() == minutes_places(minutes, id).len()
    &&& forall|i: int|
        0 <= i < window.minutes.len() ==> (#[trigger] window.minutes[i]) == minutes_places(
            minutes,
            id,
        )[i]
}

proof fn lemma_window_step(
    window: RollupWindowView,
    minutes: Seq<RollupMinuteRowView>,
    id: Seq<char>,
)
    requires
        minutes.len() > 0,
        minutes_are_countable(minutes, id),
        minutes.last().window_id == Some(id),
        is_of_minutes(window, minutes.drop_last(), id),
    ensures
        is_of_minutes(
            window_with(window, minutes.last(), (minutes.len() - 1) as usize),
            minutes,
            id,
        ),
{
    let shorter = minutes.drop_last();
    let minute = minutes.last();
    let after = window_with(window, minute, (minutes.len() - 1) as usize);
    assert forall|n: int| 0 <= n < 6 implies #[trigger] count_in(after.metric, n) == minutes_sum(
        minutes,
        id,
        n,
    ) && minutes_sum(minutes, id, n) >= 0 by {
        assert(count_in(window.metric, n) == minutes_sum(shorter, id, n));
        assert(count_of(minutes[minutes.len() - 1].metric, n) >= 0);
        assert(minutes_sum(minutes, id, n) <= i64::MAX);
        lemma_row_adds_its_counts(window.metric, filled(minute.metric), n);
        assert(count_of(filled(minute.metric), n) == count_of(minute.metric, n));
        if !is_observed(minute.metric) {
            assert(count_of(minute.metric, n) == 0);
        }
    }
    assert(after.minutes.drop_last() =~= window.minutes);
}

proof fn lemma_windows_adds_up(minutes: Seq<RollupMinuteRowView>, id: Seq<char>)
    requires
        minutes_are_countable(minutes, id),
    ensures
        keys_increase::<String, RollupWindowView>(windows_of(minutes)),
        all_entries::<String, RollupWindowView>(
            windows_of(minutes),
            |key: Seq<char>, window: RollupWindowView| window.window_id == key,
        ),
        is_of_minutes(window_known(windows_of(minutes), id), minutes, id),
    decreases minutes.len(),
{
    let p = |key: Seq<char>, window: RollupWindowView| window.window_id == key;
    if minutes.len() == 0 {
        assert forall|n: int| 0 <= n < 6 implies #[trigger] count_in(no_sum(), n) == minutes_sum(
            minutes,
            id,
            n,
        ) && minutes_sum(minutes, id, n) >= 0 by {}
    } else {
        let (shorter, minute) = (minutes.drop_last(), minutes.last());
        assert(minutes_are_countable(shorter, id)) by {
            assert forall|i: int, n: int| 0 <= i < shorter.len() && 0 <= n < 6 implies
                #[trigger] count_of(shorter[i].metric, n) >= 0 by {
                assert(count_of(minutes[i].metric, n) >= 0);
            }
            assert forall|n: int| 0 <= n < 6 implies #[trigger] minutes_sum(shorter, id, n)
                <= i64::MAX by {
                assert(count_of(minutes[minutes.len() - 1].metric, n) >= 0);
                assert(minutes_sum(minutes, id, n) <= i64::MAX);
            }
        }
        lemma_windows_adds_up(shorter, id);
        let before = windows_of(shorter);
        if let Some(own) = minute.window_id {
            let held = window_known(before, own);
            let after = window_with(held, minute, (minutes.len() - 1) as usize);
            lemma_lookup_entry::<String, RollupWindowView>(before, own, p);
            lemma_put_in_order::<String, RollupWindowView>(before, own, after);
            lemma_put_entries::<String, RollupWindowView>(before, own, after, p);
            lemma_put_lookup::<String, RollupWindowView>(before, own, after, id);
            if own == id {
                lemma_window_step(held, minutes, id);
            } else {
                lemma_other_minute(window_known(before, id), minutes, id);
            }
        } else {
            lemma_other_minute(window_known(before, id), minutes, id);
        }
    }
}

proof fn lemma_other_minute(
    window: RollupWindowView,
    minutes: Seq<RollupMinuteRowView>,
    id: Seq<char>,
)
    requires
        minutes.len() > 0,
        minutes.last().window_id != Some(id),
        is_of_minutes(window, minutes.drop_last(), id),
    ensures
        is_of_minutes(window, minutes, id),
{
    assert forall|n: int| 0 <= n < 6 implies #[trigger] count_in(window.metric, n) == minutes_sum(
        minutes,
        id,
        n,
    ) && minutes_sum(minutes, id, n) >= 0 by {
        assert(count_in(window.metric, n) == minutes_sum(minutes.drop_last(), id, n));
    }
}

/// A window of a report tells the counts of its minutes, kind by kind, its official percentages are
/// the first and the last of them, and it has the places of these minutes and of no others.
pub proof fn lemma_windows_tell_their_minutes(
    minutes: Seq<RollupMinuteRowView>,
    sessions: Seq<RollupSessionRowView>,
    capacities: Seq<RollupCapacityView>,
    at: int,
)
    requires
        0 <= at < quota_windows(minutes, sessions, capacities).len(),
        minutes_are_countable(
            minutes,
            quota_windows(minutes, sessions, capacities)[at].window.window_id,
        ),
    ensures
        ({
            let window = quota_windows(minutes, sessions, capacities)[at].window;
            let id = window.window_id;
            &&& window.metric.tokens.input == minutes_sum(minutes, id, 0)
            &&& window.metric.tokens.cached == minutes_sum(minutes, id, 1)
            &&& window.metric.tokens.cache_write == minutes_sum(minutes, id, 2)
            &&& window.metric.tokens.output == minutes_sum(minutes, id, 3)
            &&& window.metric.tokens.reasoning == minutes_sum(minutes, id, 4)
            &&& window.metric.tokens.total == minutes_sum(minutes, id, 5)
            &&& window.first_official == first_in(minutes_percents(minutes, id))
            &&& window.last_official == last_in(minutes_percents(minutes, id))
            &&& window.minutes.len() == minutes_places(minutes, id).len()
            &&& forall|i: int|
                0 <= i < window.minutes.len() ==> (#[trigger] window.minutes[i]) == minutes_places(
                    minutes,
                    id,
                )[i]
        }),
{
    let windows = windows_of(minutes);
    let window = quota_windows(minutes, sessions, capacities)[at].window;
    let id = window.window_id;
    lemma_windows_adds_up(minutes, id);
    let p = |key: Seq<char>, window: RollupWindowView| window.window_id == key;
    assert(p(windows[at].0, windows[at].1));
    lemma_entry_is_found::<String, RollupWindowView>(windows, at);
    assert(window_known(windows, id) == window);
    assert(count_in(window.metric, 0) == minutes_sum(minutes, id, 0));
    assert(count_in(window.metric, 1) == minutes_sum(minutes, id, 1));
    assert(count_in(window.metric, 2) == minutes_sum(minutes, id, 2));
    assert(count_in(window.metric, 3) == minutes_sum(minutes, id, 3));
    assert(count_in(window.metric, 4) == minutes_sum(minutes, id, 4));
    assert(count_in(window.metric, 5) == minutes_sum(minutes, id, 5));
}

/// The session under which a row is shown: its root, else its session, else its turn.
pub open spec fn shown_as(row: RollupSessionRowView) -> Seq<char> {
    if row.root_session_id is Some {
        row.root_session_id->0
    } else if row.session_id is Some {
        row.session_id->0
    } else if row.turn_id is Some {
        row.turn_id->0
    } else {
        "unknown-session"@
    }
}

/// One of the counts over the rows of a session.
pub open spec fn rows_sum(rows: Seq<RollupSessionRowView>, id: Seq<char>, n: int) -> int
    decreases rows.len(),
{
    if rows.len() == 0 {
        0
    } else {
        rows_sum(rows.drop_last(), id, n) + (if shown_as(rows.last()) == id {
            count_of(rows.last().metric, n)
        } else {
            0
        })
    }
}

/// The official percentages at the start of the rows of a session, in their order.
pub open spec fn rows_starts(rows: Seq<RollupSessionRowView>, id: Seq<char>) -> Seq<Float>
    decreases rows.len(),
{
    if rows.len() == 0 {
        Seq::empty()
    } else {
        let before = rows_starts(rows.drop_last(), id);
        if shown_as(rows.last()) == id && rows.last().official_start is Some {
            before.push(rows.last().official_start->0)
        } else {
            before
        }
    }
}

/// The official percentages at the end of the rows of a session, in their order.
pub open spec fn rows_ends(rows: Seq<RollupSessionRowView>, id: Seq<char>) -> Seq<Float>
    decreases rows.len(),
{
    if rows.len() == 0 {
        Seq::empty()
    } else {
        let before = rows_ends(rows.drop_last(), id);
        if shown_as(rows.last()) == id && rows.last().official_end is Some {
            before.push(rows.last().official_end->0)
        } else {
            before
        }
    }
}

/// Whether rows count nothing negative and their sums can be held.
pub open spec fn rows_are_countable(rows: Seq<RollupSessionRowView>, id: Seq<char>) -> bool {
    &&& forall|i: int, n: int|
        0 <= i < rows.len() && 0 <= n < 6 ==> #[trigger] count_of(rows[i].metric, n) >= 0
    &&& forall|n: int| 0 <= n < 6 ==> #[trigger] rows_sum(rows, id, n) <= i64::MAX
}

/// The session as it is shown, or a new one.
spec fn view_known(
    views: Seq<(Seq<char>, RollupSessionViewView)>,
    id: Seq<char>,
) -> RollupSessionViewView {
    match lookup::<String, RollupSessionViewView>(views, id) {
        Some(view) => view,
        None => new_view(id),
    }
}

/// Whether a session is that of its rows.
spec fn is_of_rows(
    view: RollupSessionViewView,
    rows: Seq<RollupSessionRowView>,
    id: Seq<char>,
) -> bool {
    &&& forall|n: int|
        0 <= n < 6 ==> #[trigger] count_in(view.metric, n) == rows_sum(rows, id, n) && rows_sum(
            rows,
            id,
            n,
        ) >= 0
    &&& view.official_start == first_in(rows_starts(rows, id))
    &&& view.official_end == last_in(rows_ends(rows, id))
}

proof fn lemma_view_step(
    view: RollupSessionViewView,
    rows: Seq<RollupSessionRowView>,
    id: Seq<char>,
)
    requires
        rows.len() > 0,
        rows_are_countable(rows, id),
        is_of_rows(view, rows.drop_last(), id),
    ensures
        shown_as(rows.last()) == id ==> is_of_rows(view_with(view, rows.last()), rows, id),
        shown_as(rows.last()) != id ==> is_of_rows(view, rows, id),
{
    let (shorter, row) = (rows.drop_last(), rows.last());
    let after = if shown_as(row) == id {
        view_with(view, row)
    } else {
        view
    };
    assert forall|n: int| 0 <= n < 6 implies #[trigger] count_in(after.metric, n) == rows_sum(
        rows,
        id,
        n,
    ) && rows_sum(rows, id, n) >= 0 by {
        assert(count_in(view.metric, n) == rows_sum(shorter, id, n));
        assert(count_of(rows[rows.len() - 1].metric, n) >= 0);
        assert(rows_sum(rows, id, n) <= i64::MAX);
        if shown_as(row) == id {
            assert(count_of(filled(row.metric), n) == count_of(row.metric, n));
            lemma_row_adds_its_counts(view.metric, filled(row.metric), n);
        }
    }
}

proof fn lemma_views_add_up(rows: Seq<RollupSessionRowView>, id: Seq<char>)
    requires
        rows_are_countable(rows, id),
    ensures
        keys_increase::<String, RollupSessionViewView>(session_views(rows)),
        all_entries::<String, RollupSessionViewView>(
            session_views(rows),
            |key: Seq<char>, view: RollupSessionViewView| view.session_id == key,
        ),
        is_of_rows(view_known(session_views(rows), id), rows, id),
    decreases rows.len(),
{
    let p = |key: Seq<char>, view: RollupSessionViewView| view.session_id == key;
    if rows.len() == 0 {
        assert forall|n: int| 0 <= n < 6 implies #[trigger] count_in(no_sum(), n) == rows_sum(
            rows,
            id,
            n,
        ) && rows_sum(rows, id, n) >= 0 by {}
    } else {
        let (shorter, row) = (rows.drop_last(), rows.last());
        assert(rows_are_countable(shorter, id)) by {
            assert forall|i: int, n: int| 0 <= i < shorter.len() && 0 <= n < 6 implies
                #[trigger] count_of(shorter[i].metric, n) >= 0 by {
                assert(count_of(rows[i].metric, n) >= 0);
            }
            assert forall|n: int| 0 <= n < 6 implies #[trigger] rows_sum(shorter, id, n)
                <= i64::MAX by {
                assert(count_of(rows[rows.len() - 1].metric, n) >= 0);
                assert(rows_sum(rows, id, n) <= i64::MAX);
            }
        }
        lemma_views_add_up(shorter, id);
        let before = session_views(shorter);
        let own = shown_id(row);
        assert(own == shown_as(row));
        let after = view_with(view_known(before, own), row);
        lemma_lookup_entry::<String, RollupSessionViewView>(before, own, p);
        lemma_put_in_order::<String, RollupSessionViewView>(before, own, after);
        lemma_put_entries::<String, RollupSessionViewView>(before, own, after, p);
        lemma_put_lookup::<String, RollupSessionViewView>(before, own, after, id);
        lemma_view_step(view_known(before, id), rows, id);
    }
}

/// A session of a report tells the counts of its rows, kind by kind; its official percentages are
/// the first that its rows start with and the last that they end with.
pub proof fn lemma_sessions_tell_their_rows(rows: Seq<RollupSessionRowView>, at: int)
    requires
        0 <= at < session_views(rows).len(),
        rows_are_countable(rows, session_views(rows)[at].0),
    ensures
        ({
            let (id, view) = session_views(rows)[at];
            &&& view.session_id == id
            &&& view.metric.tokens.input == rows_sum(rows, id, 0)
            &&& view.metric.tokens.cached == rows_sum(rows, id, 1)
            &&& view.metric.tokens.cache_write == rows_sum(rows, id, 2)
            &&& view.metric.tokens.output == rows_sum(rows, id, 3)
            &&& view.metric.tokens.reasoning == rows_sum(rows, id, 4)
            &&& view.metric.tokens.total == rows_sum(rows, id, 5)
            &&& view.official_start == first_in(rows_starts(rows, id))
            &&& view.official_end == last_in(rows_ends(rows, id))
        }),
{
    let views = session_views(rows);
    let (id, view) = views[at];
    lemma_views_add_up(rows, id);
    let p = |key: Seq<char>, view: RollupSessionViewView| view.session_id == key;
    assert(p(views[at].0, views[at].1));
    lemma_entry_is_found::<String, RollupSessionViewView>(views, at);
    assert(count_in(view.metric, 0) == rows_sum(rows, id, 0));
    assert(count_in(view.metric, 1) == rows_sum(rows, id, 1));
    assert(count_in(view.metric, 2) == rows_sum(rows, id, 2));
    assert(count_in(view.metric, 3) == rows_sum(rows, id, 3));
    assert(count_in(view.metric, 4) == rows_sum(rows, id, 4));
    assert(count_in(view.metric, 5) == rows_sum(rows, id, 5));
}

/// Whether a comparison is of a day: it holds what the day counts against what the run counts of the
/// same kind, under the name of that kind.
pub open spec fn compares_day(
    comparison: RollupComparisonView,
    row: RollupCcusageRowView,
    day: RollupDayRowView,
) -> bool {
    &&& comparison.date == day.date && day.date == row.scope_key && row.scope == "daily"@
    &&& comparison.session_id is None
    &&& comparison.pricing == row.pricing && comparison.speed == row.speed
    &&& match comparison.figures {
        Figures::Tokens { local, ccusage } => {
            ||| comparison.metric == "total_tokens"@ && local == told(day.metric.total) && ccusage
                == row.total_tokens
            ||| comparison.metric == "input_tokens"@ && local == told(day.metric.input) && ccusage
                == row.input_tokens
            ||| comparison.metric == "cache_read_tokens"@ && local == told(day.metric.cached)
                && ccusage == row.cache_read_tokens
            ||| comparison.metric == "cache_write_tokens"@ && local == told(
                day.metric.cache_write,
            ) && ccusage == row.cache_write_tokens
            ||| comparison.metric == "output_tokens"@ && local == told(day.metric.output)
                && ccusage == row.output_tokens
            ||| comparison.metric == "reasoning_tokens"@ && local == told(day.metric.reasoning)
                && ccusage == row.reasoning_tokens
        },
        Figures::Dollars { local_usd, ccusage_usd } => comparison.metric == "api_usd"@ && local_usd
            == day.metric.api_usd && row.amount == Some(ccusage_usd),
    }
}

/// Whether a comparison is of a session: it holds the total of a row of the session against the
/// total of the run.
pub open spec fn compares_session(
    comparison: RollupComparisonView,
    row: RollupCcusageRowView,
    turn: RollupSessionRowView,
) -> bool {
    &&& row.scope == "session"@
    &&& turn.root_session_id == Some(row.scope_key) || turn.session_id == Some(row.scope_key)
    &&& comparison.date == turn.local_date
    &&& comparison.session_id == Some(row.scope_key)
    &&& comparison.pricing == row.pricing && comparison.speed == row.speed
    &&& comparison.metric == "total_tokens"@
    &&& comparison.figures matches Figures::Tokens { local, ccusage } && local == told(
        turn.metric.total,
    ) && ccusage == row.total_tokens
}

/// Whether a row counts: it came out well, and no run of its kind is later.
pub open spec fn is_current(rows: Seq<RollupCcusageRowView>, i: int) -> bool {
    &&& 0 <= i < rows.len()
    &&& rows[i].status == "ok"@
    &&& forall|j: int|
        0 <= j < rows.len() && (#[trigger] rows[j]).scope == rows[i].scope && rows[j].pricing
            == rows[i].pricing && rows[j].speed == rows[i].speed ==> rows[j].run_at_ms
            <= rows[i].run_at_ms
}

/// Whether a comparison is of a row that counts, with a day or a session that is stored.
pub open spec fn compares_like_with_like(
    comparison: RollupComparisonView,
    rows: Seq<RollupCcusageRowView>,
    days: Seq<RollupDayRowView>,
    sessions: Seq<RollupSessionRowView>,
) -> bool {
    ||| exists|i: int, j: int|
        is_current(rows, i) && 0 <= j < days.len() && compares_day(
            comparison,
            #[trigger] rows[i],
            #[trigger] days[j],
        )
    ||| exists|i: int, j: int|
        is_current(rows, i) && 0 <= j < sessions.len() && compares_session(
            comparison,
            #[trigger] rows[i],
            #[trigger] sessions[j],
        )
}

/// Whether all of several comparisons are of rows of runs.
spec fn all_compare(
    comparisons: Seq<RollupComparisonView>,
    rows: Seq<RollupCcusageRowView>,
    days: Seq<RollupDayRowView>,
    sessions: Seq<RollupSessionRowView>,
) -> bool {
    forall|k: int|
        0 <= k < comparisons.len() ==> compares_like_with_like(
            #[trigger] comparisons[k],
            rows,
            days,
            sessions,
        )
}

proof fn lemma_day_is_found(days: Seq<RollupDayRowView>, date: Seq<char>)
    ensures
        match day_of(days, date) {
            Some(day) => day.date == date && days.contains(day),
            None => true,
        },
    decreases days.len(),
{
    if days.len() > 0 && days[0].date != date {
        let rest = days.skip(1);
        lemma_day_is_found(rest, date);
        if let Some(day) = day_of(rest, date) {
            let i = choose|i: int| 0 <= i < rest.len() && rest[i] == day;
            assert(days[i + 1] == day);
        }
    } else if days.len() > 0 {
        assert(days.contains(days[0]));
    }
}

proof fn lemma_turn_is_found(sessions: Seq<RollupSessionRowView>, id: Seq<char>)
    ensures
        match turn_of(sessions, id) {
            Some(turn) => (turn.root_session_id == Some(id) || turn.session_id == Some(id))
                && sessions.contains(turn),
            None => true,
        },
    decreases sessions.len(),
{
    if sessions.len() > 0 {
        let rest = sessions.skip(1);
        lemma_turn_is_found(rest, id);
        if sessions[0].root_session_id == Some(id) || sessions[0].session_id == Some(id) {
            assert(sessions.contains(sessions[0]));
        } else if let Some(turn) = turn_of(rest, id) {
            let i = choose|i: int| 0 <= i < rest.len() && rest[i] == turn;
            assert(sessions[i + 1] == turn);
        }
    }
}

proof fn lemma_one_more_compares(
    comparisons: Seq<RollupComparisonView>,
    one: RollupComparisonView,
    rows: Seq<RollupCcusageRowView>,
    days: Seq<RollupDayRowView>,
    sessions: Seq<RollupSessionRowView>,
)
    requires
        all_compare(comparisons, rows, days, sessions),
        compares_like_with_like(one, rows, days, sessions),
    ensures
        all_compare(comparisons.push(one), rows, days, sessions),
{
    let all = comparisons.push(one);
    assert forall|k: int| 0 <= k < all.len() implies compares_like_with_like(
        #[trigger] all[k],
        rows,
        days,
        sessions,
    ) by {
        if k < comparisons.len() {
            assert(all[k] == comparisons[k]);
        }
    }
}

proof fn lemma_tokens_compare(
    comparisons: Seq<RollupComparisonView>,
    row: RollupCcusageRowView,
    day: RollupDayRowView,
    metric: Seq<char>,
    local: i64,
    ccusage: Option<i64>,
    rows: Seq<RollupCcusageRowView>,
    days: Seq<RollupDayRowView>,
    sessions: Seq<RollupSessionRowView>,
    i: int,
    j: int,
)
    requires
        all_compare(comparisons, rows, days, sessions),
        is_current(rows, i) && rows[i] == row,
        0 <= j < days.len() && days[j] == day,
        compares_day(
            comparison(row, day.date, None, metric, Figures::Tokens { local, ccusage }),
            row,
            day,
        ),
    ensures
        all_compare(
            with_tokens(comparisons, row, day.date, metric, local, ccusage),
            rows,
            days,
            sessions,
        ),
{
    let one = comparison(row, day.date, None, metric, Figures::Tokens { local, ccusage });
    assert(compares_day(one, rows[i], days[j]));
    lemma_one_more_compares(comparisons, one, rows, days, sessions);
}

proof fn lemma_row_compares(
    comparisons: Seq<RollupComparisonView>,
    i: int,
    rows: Seq<RollupCcusageRowView>,
    days: Seq<RollupDayRowView>,
    sessions: Seq<RollupSessionRowView>,
)
    requires
        all_compare(comparisons, rows, days, sessions),
        is_current(rows, i),
    ensures
        all_compare(with_row(comparisons, rows[i], days, sessions), rows, days, sessions),
{
    let row = rows[i];
    if row.scope == "daily"@ {
        lemma_day_is_found(days, row.scope_key);
        if let Some(day) = day_of(days, row.scope_key) {
            let j = choose|j: int| 0 <= j < days.len() && days[j] == day;
            let local = day.metric;
            let first = comparison(
                row,
                day.date,
                None,
                "total_tokens"@,
                Figures::Tokens { local: or_zero(local.total), ccusage: row.total_tokens },
            );
            assert(compares_day(first, rows[i], days[j]));
            lemma_one_more_compares(comparisons, first, rows, days, sessions);
            let a = comparisons.push(first);
            let (n, l, c) = ("input_tokens"@, or_zero(local.input), row.input_tokens);
            lemma_tokens_compare(a, row, day, n, l, c, rows, days, sessions, i, j);
            let a = with_tokens(a, row, day.date, n, l, c);
            let (n, l, c) = ("cache_read_tokens"@, or_zero(local.cached), row.cache_read_tokens);
            lemma_tokens_compare(a, row, day, n, l, c, rows, days, sessions, i, j);
            let a = with_tokens(a, row, day.date, n, l, c);
            let (n, l, c) = (
                "cache_write_tokens"@,
                or_zero(local.cache_write),
                row.cache_write_tokens,
            );
            lemma_tokens_compare(a, row, day, n, l, c, rows, days, sessions, i, j);
            let a = with_tokens(a, row, day.date, n, l, c);
            let (n, l, c) = ("output_tokens"@, or_zero(local.output), row.output_tokens);
            lemma_tokens_compare(a, row, day, n, l, c, rows, days, sessions, i, j);
            let a = with_tokens(a, row, day.date, n, l, c);
            let (n, l, c) = ("reasoning_tokens"@, or_zero(local.reasoning), row.reasoning_tokens);
            lemma_tokens_compare(a, row, day, n, l, c, rows, days, sessions, i, j);
            let a = with_tokens(a, row, day.date, n, l, c);
            if let Some(amount) = row.amount {
                let last = comparison(
                    row,
                    day.date,
                    None,
                    "api_usd"@,
                    Figures::Dollars { local_usd: local.api_usd, ccusage_usd: amount },
                );
                assert(compares_day(last, rows[i], days[j]));
                lemma_one_more_compares(a, last, rows, days, sessions);
            }
        }
    } else if row.scope == "session"@ {
        lemma_turn_is_found(sessions, row.scope_key);
        if let Some(turn) = turn_of(sessions, row.scope_key) {
            let j = choose|j: int| 0 <= j < sessions.len() && sessions[j] == turn;
            let one = comparison(
                row,
                turn.local_date,
                Some(row.scope_key),
                "total_tokens"@,
                Figures::Tokens { local: or_zero(turn.metric.total), ccusage: row.total_tokens },
            );
            assert(compares_session(one, rows[i], sessions[j]));
            lemma_one_more_compares(comparisons, one, rows, days, sessions);
        }
    }
}

proof fn lemma_rows_compare(
    comparisons: Seq<RollupComparisonView>,
    rows: Seq<RollupCcusageRowView>,
    group: Seq<usize>,
    days: Seq<RollupDayRowView>,
    sessions: Seq<RollupSessionRowView>,
)
    requires
        all_compare(comparisons, rows, days, sessions),
        forall|k: int| 0 <= k < group.len() ==> is_current(rows, #[trigger] group[k] as int),
    ensures
        all_compare(with_rows(comparisons, rows, group, days, sessions), rows, days, sessions),
    decreases group.len(),
{
    if group.len() > 0 {
        lemma_rows_compare(comparisons, rows, group.drop_last(), days, sessions);
        assert(is_current(rows, group[group.len() - 1] as int));
        lemma_row_compares(
            with_rows(comparisons, rows, group.drop_last(), days, sessions),
            group.last() as int,
            rows,
            days,
            sessions,
        );
    }
}

/// Whether all of several places are those of rows of the latest runs.
spec fn are_latest(
    rows: Seq<RollupCcusageRowView>,
    runs: Seq<(((Seq<char>, Seq<char>), Seq<char>), i64)>,
    group: Seq<usize>,
) -> bool {
    forall|k: int|
        0 <= k < group.len() ==> (#[trigger] group[k]) < rows.len() && is_latest(
            runs,
            rows[group[k] as int],
        )
}

proof fn lemma_groups_are_latest(
    all: Seq<RollupCcusageRowView>,
    rows: Seq<RollupCcusageRowView>,
    runs: Seq<(((Seq<char>, Seq<char>), Seq<char>), i64)>,
)
    requires
        rows.len() <= all.len() <= usize::MAX,
        forall|i: int| 0 <= i < rows.len() ==> (#[trigger] rows[i]) == all[i],
    ensures
        all_values::<((String, String), String), Seq<usize>>(
            grouped_runs(rows, runs),
            |group: Seq<usize>| are_latest(all, runs, group),
        ),
    decreases rows.len(),
{
    if rows.len() > 0 {
        let n = rows.len() - 1;
        let shorter = rows.drop_last();
        assert forall|i: int| 0 <= i < shorter.len() implies (#[trigger] shorter[i]) == all[i] by {
            assert(shorter[i] == rows[i]);
        }
        lemma_groups_are_latest(all, shorter, runs);
        let before = grouped_runs(shorter, runs);
        let p = |group: Seq<usize>| are_latest(all, runs, group);
        assert(rows[n] == all[n]);
        if is_latest(runs, rows.last()) {
            let key = run_key(rows.last());
            lemma_lookup_value::<((String, String), String), Seq<usize>>(before, key, p);
            let group = match lookup::<((String, String), String), Seq<usize>>(before, key) {
                Some(group) => group,
                None => Seq::empty(),
            };
            let longer = group.push(n as usize);
            assert(are_latest(all, runs, longer));
            lemma_put_values::<((String, String), String), Seq<usize>>(before, key, longer, p);
        }
    }
}

proof fn lemma_latest_is_last(rows: Seq<RollupCcusageRowView>, j: int)
    requires
        0 <= j < rows.len(),
    ensures
        match lookup::<((String, String), String), i64>(latest_runs(rows), run_key(rows[j])) {
            Some(at) => rows[j].run_at_ms <= at,
            None => false,
        },
    decreases rows.len(),
{
    let shorter = rows.drop_last();
    let before = latest_runs(shorter);
    lemma_latest_in_order(shorter);
    let key = run_key(rows.last());
    let at = match lookup::<((String, String), String), i64>(before, key) {
        Some(at) => if at > rows.last().run_at_ms {
            at
        } else {
            rows.last().run_at_ms
        },
        None => rows.last().run_at_ms,
    };
    lemma_put_lookup::<((String, String), String), i64>(before, key, at, run_key(rows[j]));
    if j < shorter.len() {
        assert(shorter[j] == rows[j]);
        lemma_latest_is_last(shorter, j);
    }
}

proof fn lemma_latest_in_order(rows: Seq<RollupCcusageRowView>)
    ensures
        keys_increase::<((String, String), String), i64>(latest_runs(rows)),
    decreases rows.len(),
{
    if rows.len() > 0 {
        let before = latest_runs(rows.drop_last());
        lemma_latest_in_order(rows.drop_last());
        let key = run_key(rows.last());
        let at = match lookup::<((String, String), String), i64>(before, key) {
            Some(at) => if at > rows.last().run_at_ms {
                at
            } else {
                rows.last().run_at_ms
            },
            None => rows.last().run_at_ms,
        };
        lemma_put_in_order::<((String, String), String), i64>(before, key, at);
    }
}

/// Whether all groups are of rows of the latest runs.
spec fn all_latest(
    rows: Seq<RollupCcusageRowView>,
    groups: Seq<(((Seq<char>, Seq<char>), Seq<char>), Seq<usize>)>,
) -> bool {
    forall|i: int|
        0 <= i < groups.len() ==> are_latest(rows, latest_runs(rows), (#[trigger] groups[i]).1)
}

proof fn lemma_group_is_current(rows: Seq<RollupCcusageRowView>, group: Seq<usize>, k: int)
    requires
        are_latest(rows, latest_runs(rows), group),
        run_status(rows, group) == "ok"@,
        0 <= k < group.len(),
    ensures
        is_current(rows, group[k] as int),
{
    let i = group[k] as int;
    assert(group[k] < rows.len());
    assert(is_ok(rows, group[k])) by {
        reveal_strlit("ok");
        reveal_strlit("partial");
        reveal_strlit("failed");
        assert("ok"@.len() == 2);
        assert("partial"@.len() == 7);
        assert("failed"@.len() == 6);
    }
    assert forall|j: int|
        0 <= j < rows.len() && (#[trigger] rows[j]).scope == rows[i].scope && rows[j].pricing
            == rows[i].pricing && rows[j].speed == rows[i].speed implies rows[j].run_at_ms
        <= rows[i].run_at_ms by {
        lemma_latest_is_last(rows, j);
        assert(run_key(rows[j]) == run_key(rows[i]));
    }
}

proof fn lemma_groups_compare(
    rows: Seq<RollupCcusageRowView>,
    groups: Seq<(((Seq<char>, Seq<char>), Seq<char>), Seq<usize>)>,
    days: Seq<RollupDayRowView>,
    sessions: Seq<RollupSessionRowView>,
)
    requires
        all_latest(rows, groups),
    ensures
        all_compare(comparisons_of_groups(rows, groups, days, sessions), rows, days, sessions),
    decreases groups.len(),
{
    if groups.len() > 0 {
        let shorter = groups.drop_last();
        assert forall|i: int| 0 <= i < shorter.len() implies are_latest(
            rows,
            latest_runs(rows),
            (#[trigger] shorter[i]).1,
        ) by {
            assert(shorter[i] == groups[i]);
        }
        lemma_groups_compare(rows, shorter, days, sessions);
        let group = groups.last().1;
        assert(groups[groups.len() - 1].1 == group);
        if run_status(rows, group) == "ok"@ {
            assert forall|k: int| 0 <= k < group.len() implies is_current(
                rows,
                #[trigger] group[k] as int,
            ) by {
                lemma_group_is_current(rows, group, k);
            }
            lemma_rows_compare(
                comparisons_of_groups(rows, shorter, days, sessions),
                rows,
                group,
                days,
                sessions,
            );
        }
    }
}

/// Each comparison of runs with what is stored holds a count against the count of the same kind, for
/// the same day, or a total against the total of the same session, and is of a run that came out
/// well and that no run of its kind is later than.
pub proof fn lemma_comparisons_are_of_like_kinds(
    rows: Seq<RollupCcusageRowView>,
    days: Seq<RollupDayRowView>,
    sessions: Seq<RollupSessionRowView>,
    k: int,
)
    requires
        rows.len() <= usize::MAX,
        0 <= k < validation(rows, days, sessions).comparisons.len(),
    ensures
        compares_like_with_like(
            validation(rows, days, sessions).comparisons[k],
            rows,
            days,
            sessions,
        ),
{
    let runs = latest_runs(rows);
    let groups = grouped_runs(rows, runs);
    lemma_groups_are_latest(rows, rows, runs);
    let p = |group: Seq<usize>| are_latest(rows, runs, group);
    assert forall|i: int| 0 <= i < groups.len() implies are_latest(
        rows,
        runs,
        (#[trigger] groups[i]).1,
    ) by {
        assert(p(groups[i].1));
    }
    lemma_groups_compare(rows, groups, days, sessions);
}

/// The text that an item of a list of models has under a name.
pub open spec fn item_text(item: JsonView, name: Seq<char>) -> Option<Seq<char>> {
    match item.get(name) {
        Some(JsonView::Text(text)) => Some(text),
        _ => None,
    }
}

/// Whether an item of a list of models names a model.
pub open spec fn names_model(item: JsonView) -> bool {
    item_text(item, "model"@) is Some
}

/// Whether an item is of a model at a tier.
pub open spec fn item_is_of(item: JsonView, key: (Seq<char>, Seq<char>)) -> bool {
    &&& item_text(item, "model"@) == Some(key.0)
    &&& match item_text(item, "tier"@) {
        Some(tier) => tier == key.1,
        None => key.1 == "unknown"@,
    }
}

/// The tokens that an item tells.
pub open spec fn item_tokens(item: JsonView) -> int {
    match item.get("tokens"@) {
        Some(found) => told(found.as_exact()),
        None => 0,
    }
}

/// The tokens of the items of a model at a tier.
pub open spec fn items_tokens(items: Seq<JsonView>, key: (Seq<char>, Seq<char>)) -> int
    decreases items.len(),
{
    if items.len() == 0 {
        0
    } else {
        items_tokens(items.drop_last(), key) + (if item_is_of(items.last(), key) {
            item_tokens(items.last())
        } else {
            0
        })
    }
}

/// How many items are of a model at a tier.
pub open spec fn items_count(items: Seq<JsonView>, key: (Seq<char>, Seq<char>)) -> int
    decreases items.len(),
{
    if items.len() == 0 {
        0
    } else {
        items_count(items.drop_last(), key) + (if item_is_of(items.last(), key) {
            1int
        } else {
            0
        })
    }
}

/// The tokens that are held of a model at a tier.
pub open spec fn model_tokens(
    models: Seq<((Seq<char>, Seq<char>), RollupModelViewView)>,
    key: (Seq<char>, Seq<char>),
) -> int {
    match lookup::<(String, String), RollupModelViewView>(models, key) {
        Some(view) => view.metric.tokens.total as int,
        None => 0,
    }
}

/// The requests that are held of a model at a tier.
pub open spec fn model_requests(
    models: Seq<((Seq<char>, Seq<char>), RollupModelViewView)>,
    key: (Seq<char>, Seq<char>),
) -> int {
    match lookup::<(String, String), RollupModelViewView>(models, key) {
        Some(view) => view.requests as int,
        None => 0,
    }
}

proof fn lemma_parts_add_up(
    models: Seq<((Seq<char>, Seq<char>), RollupModelViewView)>,
    items: Seq<JsonView>,
    key: (Seq<char>, Seq<char>),
)
    requires
        keys_increase::<(String, String), RollupModelViewView>(models),
        forall|i: int| 0 <= i < items.len() ==> item_tokens(#[trigger] items[i]) >= 0,
        model_tokens(models, key) >= 0 && model_requests(models, key) >= 0,
        model_tokens(models, key) + items_tokens(items, key) <= i64::MAX,
        model_requests(models, key) + items_count(items, key) <= i64::MAX,
    ensures
        ({
            let after = models_with_parts(models, parts_of_items(items));
            &&& keys_increase::<(String, String), RollupModelViewView>(after)
            &&& model_tokens(after, key) == model_tokens(models, key) + items_tokens(items, key)
            &&& model_requests(after, key) == model_requests(models, key) + items_count(items, key)
            &&& items_tokens(items, key) >= 0 && items_count(items, key) >= 0
            &&& parts_of_items(items).len() > 0 <==> exists|i: int|
                0 <= i < items.len() && names_model(#[trigger] items[i])
        }),
    decreases items.len(),
{
    if items.len() > 0 {
        let (shorter, item) = (items.drop_last(), items.last());
        assert forall|i: int| 0 <= i < shorter.len() implies item_tokens(#[trigger] shorter[i])
            >= 0 by {
            assert(shorter[i] == items[i]);
        }
        assert(item_tokens(items[items.len() - 1]) >= 0);
        lemma_parts_add_up(models, shorter, key);
        let parts = parts_of_items(shorter);
        let before = models_with_parts(models, parts);
        assert(parts.len() > 0 ==> exists|i: int|
            0 <= i < items.len() && names_model(#[trigger] items[i])) by {
            if parts.len() > 0 {
                let i = choose|i: int| 0 <= i < shorter.len() && names_model(#[trigger] shorter[i]);
                assert(items[i] == shorter[i]);
                assert(names_model(items[i]));
            }
        }
        assert forall|i: int| 0 <= i < items.len() && names_model(#[trigger] items[i]) implies i
            == items.len() - 1 || parts.len() > 0 by {
            if i < shorter.len() {
                assert(names_model(shorter[i]));
            }
        }
        assert(names_model(items[items.len() - 1]) == names_model(item));
        if let Some(part) = part_of(item) {
            assert(parts.push(part).drop_last() =~= parts);
            let own = (part.model, part.tier);
            let view = match lookup::<(String, String), RollupModelViewView>(before, own) {
                Some(view) => view,
                None => new_model(part.model, Some(part.tier)),
            };
            let after = model_with(
                view,
                Some(part.tier),
                RowMetric { total: Some(or_zero(part.metric.total)), ..part.metric },
            );
            assert(item_is_of(item, key) == (own == key));
            lemma_put_in_order::<(String, String), RollupModelViewView>(before, own, after);
            lemma_put_lookup::<(String, String), RollupModelViewView>(before, own, after, key);
        }
    }
}

/// What one more turn does to the models of a report. A turn with a list of models adds to each model
/// and tier what the items of the list tell of it, each under its own names; another turn adds all
/// of its tokens to its model, at a tier that is not known. Each adds one request for an item, or for
/// the turn.
pub proof fn lemma_turn_adds_to_its_models(
    rows: Seq<RollupSessionRowView>,
    row: RollupSessionRowView,
    items: Seq<JsonView>,
    key: (Seq<char>, Seq<char>),
)
    requires
        model_tokens(model_views(rows), key) >= 0,
        model_requests(model_views(rows), key) >= 0,
        match row.model_breakdown {
            Some(JsonView::Array(list)) => list == items,
            _ => items.len() == 0,
        },
        forall|i: int| 0 <= i < items.len() ==> item_tokens(#[trigger] items[i]) >= 0,
        told(row.metric.total) >= 0,
        model_tokens(model_views(rows), key) + items_tokens(items, key) + told(row.metric.total)
            <= i64::MAX,
        model_requests(model_views(rows), key) + items_count(items, key) < i64::MAX,
    ensures
        ({
            let before = model_views(rows);
            let after = model_views(rows.push(row));
            let listed = exists|i: int| 0 <= i < items.len() && names_model(#[trigger] items[i]);
            let alone = !listed && row.primary_model == Some(key.0) && key.1 == "unknown"@;
            &&& model_tokens(after, key) == model_tokens(before, key) + (if listed {
                items_tokens(items, key)
            } else if alone {
                told(row.metric.total)
            } else {
                0
            })
            &&& model_requests(after, key) == model_requests(before, key) + (if listed {
                items_count(items, key)
            } else if alone {
                1
            } else {
                0
            })
        }),
{
    let before = model_views(rows);
    assert(rows.push(row).drop_last() =~= rows);
    lemma_models_in_order(rows);
    lemma_parts_add_up(before, items, key);
    let parts = parts_of_items(items);
    assert(parts_of(row.model_breakdown) == parts);
    if parts.len() == 0 {
        if let Some(model) = row.primary_model {
            let own = (model, "unknown"@);
            let view = match lookup::<(String, String), RollupModelViewView>(before, own) {
                Some(view) => view,
                None => new_model(model, None),
            };
            let after = model_with(view, None, filled(row.metric));
            lemma_put_lookup::<(String, String), RollupModelViewView>(before, own, after, key);
        }
    }
}

proof fn lemma_parts_in_order(
    models: Seq<((Seq<char>, Seq<char>), RollupModelViewView)>,
    parts: Seq<ModelPartView>,
)
    requires
        keys_increase::<(String, String), RollupModelViewView>(models),
    ensures
        keys_increase::<(String, String), RollupModelViewView>(models_with_parts(models, parts)),
    decreases parts.len(),
{
    if parts.len() > 0 {
        lemma_parts_in_order(models, parts.drop_last());
        let before = models_with_parts(models, parts.drop_last());
        let part = parts.last();
        let own = (part.model, part.tier);
        let view = match lookup::<(String, String), RollupModelViewView>(before, own) {
            Some(view) => view,
            None => new_model(part.model, Some(part.tier)),
        };
        let after = model_with(
            view,
            Some(part.tier),
            RowMetric { total: Some(or_zero(part.metric.total)), ..part.metric },
        );
        lemma_put_in_order::<(String, String), RollupModelViewView>(before, own, after);
    }
}

proof fn lemma_models_in_order(rows: Seq<RollupSessionRowView>)
    ensures
        keys_increase::<(String, String), RollupModelViewView>(model_views(rows)),
    decreases rows.len(),
{
    if rows.len() > 0 {
        let row = rows.last();
        let before = model_views(rows.drop_last());
        lemma_models_in_order(rows.drop_last());
        let parts = parts_of(row.model_breakdown);
        lemma_parts_in_order(before, parts);
        if parts.len() == 0 {
            if let Some(model) = row.primary_model {
                let own = (model, "unknown"@);
                let view = match lookup::<(String, String), RollupModelViewView>(before, own) {
                    Some(view) => view,
                    None => new_model(model, None),
                };
                let after = model_with(view, None, filled(row.metric));
                lemma_put_in_order::<(String, String), RollupModelViewView>(before, own, after);
            }
        }
    }
}

} // verus!
