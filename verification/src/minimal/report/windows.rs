//! Quota windows, as a report shows them.
use crate::json::Float;
use crate::minimal::report::rows::{
    RollupCapacity, RollupCapacityView, RollupMinuteRow, RollupMinuteRowView, RollupSessionRow,
    RollupSessionRowView,
};
use crate::minimal::report::sessions::{
    rollup_session_views, session_views, RollupSessionView, RollupSessionViewView,
};
use crate::minimal::report::sums::{
    filled, is_observed, no_sum, sum_with, RollupMetric, RollupMetricView,
};
use crate::ordered::{lookup, put, with_texts, OrderedMap, TextSet};
use crate::pipelines::result::materialize::clock::{earlier_of, later_of, max_option, min_option};
use crate::pipelines::result::materialize::load::or_zero;
use crate::text::{ascii_lower, copy_option, first_of, first_some, holds, same, to_ascii_lowercase};
use vstd::prelude::*;
use vstd::string::*;

verus! {

/// A quota window, with the places of its minutes.
#[derive(Debug)]
pub struct RollupWindow {
    pub window_id: String,
    pub account_key: Option<String>,
    pub plan_type: Option<String>,
    pub start_at_ms: Option<i64>,
    pub end_at_ms: Option<i64>,
    pub reset_at_ms: Option<i64>,
    pub window_minutes: Option<i64>,
    pub first_official: Option<Float>,
    pub last_official: Option<Float>,
    pub reset_marker: bool,
    pub metric: RollupMetric,
    pub quality: TextSet,
    pub minutes: Vec<usize>,
}

/// A `RollupWindow` with its texts as sequences of characters.
#[verifier::ext_equal]
pub struct RollupWindowView {
    pub window_id: Seq<char>,
    pub account_key: Option<Seq<char>>,
    pub plan_type: Option<Seq<char>>,
    pub start_at_ms: Option<i64>,
    pub end_at_ms: Option<i64>,
    pub reset_at_ms: Option<i64>,
    pub window_minutes: Option<i64>,
    pub first_official: Option<Float>,
    pub last_official: Option<Float>,
    pub reset_marker: bool,
    pub metric: RollupMetricView,
    pub quality: Seq<Seq<char>>,
    pub minutes: Seq<usize>,
}

impl DeepView for RollupWindow {
    type V = RollupWindowView;

    open spec fn deep_view(&self) -> RollupWindowView {
        RollupWindowView {
            window_id: self.window_id@,
            account_key: self.account_key.deep_view(),
            plan_type: self.plan_type.deep_view(),
            start_at_ms: self.start_at_ms,
            end_at_ms: self.end_at_ms,
            reset_at_ms: self.reset_at_ms,
            window_minutes: self.window_minutes,
            first_official: self.first_official,
            last_official: self.last_official,
            reset_marker: self.reset_marker,
            metric: self.metric.deep_view(),
            quality: self.quality.deep_view(),
            minutes: self.minutes@,
        }
    }
}

/// A quota window with its sessions, and the place of the capacity that it has.
#[derive(Debug)]
pub struct QuotaWindow {
    pub window: RollupWindow,
    pub sessions: OrderedMap<String, RollupSessionView>,
    pub capacity: Option<usize>,
}

/// A `QuotaWindow` with its texts as sequences of characters.
#[verifier::ext_equal]
pub struct QuotaWindowView {
    pub window: RollupWindowView,
    pub sessions: Seq<(Seq<char>, RollupSessionViewView)>,
    pub capacity: Option<usize>,
}

impl DeepView for QuotaWindow {
    type V = QuotaWindowView;

    open spec fn deep_view(&self) -> QuotaWindowView {
        QuotaWindowView {
            window: self.window.deep_view(),
            sessions: self.sessions.deep_view(),
            capacity: self.capacity,
        }
    }
}

/// The last window of a day, and whether one began on it.
#[derive(Debug)]
pub struct DayWindow {
    pub window_id: Option<String>,
    pub reset: bool,
}

/// A `DayWindow` with its texts as sequences of characters.
#[verifier::ext_equal]
pub struct DayWindowView {
    pub window_id: Option<Seq<char>>,
    pub reset: bool,
}

impl DeepView for DayWindow {
    type V = DayWindowView;

    open spec fn deep_view(&self) -> DayWindowView {
        DayWindowView {
            window_id: self.window_id.deep_view(),
            reset: self.reset,
        }
    }
}

impl DayWindow {
    /// A copy of the record.
    pub fn copy(&self) -> (r: Self)
        ensures
            r.deep_view() == self.deep_view(),
    {
        DayWindow {
            window_id: copy_option(&self.window_id),
            reset: self.reset,
        }
    }
}

/// Whether a capacity holds for an account and a plan at an instant.
pub open spec fn fits(
    capacity: RollupCapacityView,
    account_key: Option<Seq<char>>,
    plan_type: Option<Seq<char>>,
    at_ms: i64,
) -> bool {
    &&& capacity.effective_from_ms <= at_ms
    &&& capacity.effective_to_ms matches Some(end) ==> at_ms < end
    &&& capacity.account_key matches Some(key) ==> account_key == Some(key)
    &&& capacity.plan_type matches Some(plan) ==> plan_type is Some && ascii_lower(plan_type->0)
        == ascii_lower(plan)
}

/// The place of the capacity that holds: of those that do, the last of the ones that began latest.
pub open spec fn capacity_place(
    capacities: Seq<RollupCapacityView>,
    account_key: Option<Seq<char>>,
    plan_type: Option<Seq<char>>,
    at_ms: i64,
) -> Option<usize>
    decreases capacities.len(),
{
    if capacities.len() == 0 {
        None
    } else {
        let before = capacity_place(capacities.drop_last(), account_key, plan_type, at_ms);
        let capacity = capacities.last();
        if fits(capacity, account_key, plan_type, at_ms) && (before matches Some(place)
            ==> capacities[place as int].effective_from_ms <= capacity.effective_from_ms) {
            Some((capacities.len() - 1) as usize)
        } else {
            before
        }
    }
}

/// The capacity that holds is one that fits, and none that fits began later; where none holds, none
/// fits.
pub proof fn lemma_capacity_is_latest(
    capacities: Seq<RollupCapacityView>,
    account_key: Option<Seq<char>>,
    plan_type: Option<Seq<char>>,
    at_ms: i64,
)
    requires
        capacities.len() <= usize::MAX,
    ensures
        (match capacity_place(capacities, account_key, plan_type, at_ms) {
            Some(place) => place < capacities.len() && fits(
                capacities[place as int],
                account_key,
                plan_type,
                at_ms,
            ) && forall|i: int|
                0 <= i < capacities.len() && fits(
                    #[trigger] capacities[i],
                    account_key,
                    plan_type,
                    at_ms,
                ) ==> capacities[i].effective_from_ms
                    <= capacities[place as int].effective_from_ms,
            None => forall|i: int|
                0 <= i < capacities.len() ==> !fits(
                    #[trigger] capacities[i],
                    account_key,
                    plan_type,
                    at_ms,
                ),
        }),
    decreases capacities.len(),
{
    if capacities.len() > 0 {
        let shorter = capacities.drop_last();
        lemma_capacity_is_latest(shorter, account_key, plan_type, at_ms);
        assert forall|i: int| 0 <= i < capacities.len() - 1 implies #[trigger] capacities[i]
            == shorter[i] by {}
    }
}

fn is_fit(
    capacity: &RollupCapacity,
    account_key: &Option<String>,
    plan_type: &Option<String>,
    at_ms: i64,
) -> (r: bool)
    ensures
        r == fits(
            capacity.deep_view(),
            account_key.deep_view(),
            plan_type.deep_view(),
            at_ms,
        ),
{
    if capacity.effective_from_ms > at_ms {
        return false;
    }
    if let Some(end) = capacity.effective_to_ms {
        if at_ms >= end {
            return false;
        }
    }
    if let Some(key) = &capacity.account_key {
        if !holds(account_key, key.as_str()) {
            return false;
        }
    }
    match &capacity.plan_type {
        Some(plan) => match plan_type {
            Some(wanted) => {
                let wanted = to_ascii_lowercase(wanted.as_str());
                let plan = to_ascii_lowercase(plan.as_str());
                same(wanted.as_str(), plan.as_str())
            },
            None => false,
        },
        None => true,
    }
}

/// The place of the capacity that holds for an account and a plan at an instant.
pub fn capacity_for(
    capacities: &Vec<RollupCapacity>,
    account_key: &Option<String>,
    plan_type: &Option<String>,
    at_ms: i64,
) -> (r: Option<usize>)
    ensures
        r == capacity_place(
            capacities.deep_view(),
            account_key.deep_view(),
            plan_type.deep_view(),
            at_ms,
        ),
        r matches Some(place) ==> place < capacities@.len(),
{
    let ghost all = capacities.deep_view();
    let mut found: Option<usize> = None;
    let mut i: usize = 0;
    while i < capacities.len()
        invariant
            i <= capacities@.len(),
            all == capacities.deep_view(),
            found matches Some(place) ==> place < i,
            found == capacity_place(
                all.take(i as int),
                account_key.deep_view(),
                plan_type.deep_view(),
                at_ms,
            ),
        decreases capacities@.len() - i,
    {
        assert(all.take(i + 1).drop_last() =~= all.take(i as int));
        assert(all.take(i + 1).last() == capacities@[i as int].deep_view());
        assert(all.take(i + 1).len() == i + 1);
        let fit = is_fit(&capacities[i], account_key, plan_type, at_ms);
        let later = match found {
            Some(place) => {
                assert(all.take(i + 1)[place as int] == capacities@[place as int].deep_view());
                capacities[place].effective_from_ms <= capacities[i].effective_from_ms
            },
            None => true,
        };
        if fit && later {
            found = Some(i);
        }
        i = i + 1;
    }
    assert(all.take(i as int) =~= all);
    found
}

/// The window of the last of minutes.
pub open spec fn last_window(minutes: Seq<RollupMinuteRowView>) -> Option<Seq<char>> {
    if minutes.len() > 0 {
        minutes.last().window_id
    } else {
        None
    }
}

/// Whether a minute begins a window after one that was in another.
pub open spec fn begins_window(previous: Option<Seq<char>>, minute: RollupMinuteRowView) -> bool {
    minute.reset_marker || (previous is Some && minute.window_id is Some && previous
        != minute.window_id)
}

/// The windows of days.
pub open spec fn day_windows(minutes: Seq<RollupMinuteRowView>) -> Seq<(Seq<char>, DayWindowView)>
    decreases minutes.len(),
{
    if minutes.len() == 0 {
        Seq::empty()
    } else {
        let before = day_windows(minutes.drop_last());
        let minute = minutes.last();
        let reset = match lookup::<String, DayWindowView>(before, minute.local_date) {
            Some(day) => day.reset,
            None => false,
        };
        put::<String, DayWindowView>(
            before,
            minute.local_date,
            DayWindowView {
                window_id: minute.window_id,
                reset: reset || begins_window(last_window(minutes.drop_last()), minute),
            },
        )
    }
}

/// The windows of days.
pub fn rollup_day_window_info(minutes: &Vec<RollupMinuteRow>) -> (r: OrderedMap<String, DayWindow>)
    ensures
        r.deep_view() == day_windows(minutes.deep_view()),
{
    let ghost all = minutes.deep_view();
    let mut days: OrderedMap<String, DayWindow> = OrderedMap::new();
    let mut previous: Option<String> = None;
    let mut i: usize = 0;
    while i < minutes.len()
        invariant
            i <= minutes@.len(),
            all == minutes.deep_view(),
            previous.deep_view() == last_window(all.take(i as int)),
            days.deep_view() == day_windows(all.take(i as int)),
        decreases minutes@.len() - i,
    {
        let minute = &minutes[i];
        assert(all.take(i + 1).drop_last() =~= all.take(i as int));
        assert(all.take(i + 1).last() == minute.deep_view());
        let changed = match &previous {
            Some(window) => minute.window_id.is_some() && !holds(
                &minute.window_id,
                window.as_str(),
            ),
            None => false,
        };
        let day = days.entry(minute.local_date.clone(), DayWindow { window_id: None, reset: false });
        if minute.reset_marker || changed {
            day.reset = true;
        }
        day.window_id = copy_option(&minute.window_id);
        previous = copy_option(&minute.window_id);
        i = i + 1;
    }
    assert(all.take(i as int) =~= all);
    days
}

/// A window of which no minute was read yet.
pub open spec fn new_window(window_id: Seq<char>) -> RollupWindowView {
    RollupWindowView {
        window_id,
        account_key: None,
        plan_type: None,
        start_at_ms: None,
        end_at_ms: None,
        reset_at_ms: None,
        window_minutes: None,
        first_official: None,
        last_official: None,
        reset_marker: false,
        metric: no_sum(),
        quality: Seq::empty(),
        minutes: Seq::empty(),
    }
}

/// The minutes between two instants, where the second is the later one.
pub open spec fn minutes_between(start: Option<i64>, end: Option<i64>) -> Option<i64> {
    match (start, end) {
        (Some(start), Some(end)) => if end > start {
            Some(((end - start) / 60_000) as i64)
        } else {
            None
        },
        _ => None,
    }
}

/// A window with a minute, which stands at a place.
pub open spec fn window_with(
    window: RollupWindowView,
    minute: RollupMinuteRowView,
    place: usize,
) -> RollupWindowView {
    let start = earlier_of(
        window.start_at_ms,
        first_some(minute.window_start_ms, Some(minute.minute_start_ms)),
    );
    let reset = later_of(window.reset_at_ms, minute.resets_at_ms);
    RollupWindowView {
        window_id: window.window_id,
        account_key: first_some(window.account_key, minute.account_key),
        plan_type: first_some(window.plan_type, minute.plan_type),
        start_at_ms: start,
        end_at_ms: later_of(window.end_at_ms, Some(minute.minute_start_ms)),
        reset_at_ms: reset,
        window_minutes: minutes_between(start, reset),
        first_official: first_some(window.first_official, minute.official_percent),
        last_official: first_some(minute.official_percent, window.last_official),
        reset_marker: window.reset_marker || minute.reset_marker,
        metric: if is_observed(minute.metric) {
            sum_with(window.metric, filled(minute.metric))
        } else {
            window.metric
        },
        quality: with_texts(window.quality, minute.quality),
        minutes: window.minutes.push(place),
    }
}

/// The windows that minutes are in.
pub open spec fn windows_of(minutes: Seq<RollupMinuteRowView>) -> Seq<
    (Seq<char>, RollupWindowView),
>
    decreases minutes.len(),
{
    if minutes.len() == 0 {
        Seq::empty()
    } else {
        let before = windows_of(minutes.drop_last());
        match minutes.last().window_id {
            Some(id) => {
                let window = match lookup::<String, RollupWindowView>(before, id) {
                    Some(window) => window,
                    None => new_window(id),
                };
                put::<String, RollupWindowView>(
                    before,
                    id,
                    window_with(window, minutes.last(), (minutes.len() - 1) as usize),
                )
            },
            None => before,
        }
    }
}

fn count_minutes(start: Option<i64>, end: Option<i64>) -> (r: Option<i64>)
    ensures
        r == minutes_between(start, end),
{
    match (start, end) {
        (Some(start), Some(end)) => if end > start {
            let span: i128 = (end as i128 - start as i128) / 60_000;
            Some(span as i64)
        } else {
            None
        },
        _ => None,
    }
}

impl RollupWindow {
    fn start(window_id: String) -> (r: Self)
        ensures
            r.deep_view() == new_window(window_id@),
    {
        RollupWindow {
            window_id,
            account_key: None,
            plan_type: None,
            start_at_ms: None,
            end_at_ms: None,
            reset_at_ms: None,
            window_minutes: None,
            first_official: None,
            last_official: None,
            reset_marker: false,
            metric: RollupMetric::default(),
            quality: TextSet::new(),
            minutes: Vec::new(),
        }
    }

    fn read(&mut self, minute: &RollupMinuteRow, place: usize)
        ensures
            final(self).deep_view() == window_with(
                old(self).deep_view(),
                minute.deep_view(),
                place,
            ),
    {
        self.account_key = first_of(&self.account_key, &minute.account_key);
        self.plan_type = first_of(&self.plan_type, &minute.plan_type);
        let start = match minute.window_start_ms {
            Some(start) => Some(start),
            None => Some(minute.minute_start_ms),
        };
        self.start_at_ms = min_option(self.start_at_ms, start);
        self.end_at_ms = max_option(self.end_at_ms, Some(minute.minute_start_ms));
        self.reset_at_ms = max_option(self.reset_at_ms, minute.resets_at_ms);
        self.window_minutes = count_minutes(self.start_at_ms, self.reset_at_ms);
        if self.first_official.is_none() {
            self.first_official = minute.official_percent;
        }
        if minute.official_percent.is_some() {
            self.last_official = minute.official_percent;
        }
        if minute.reset_marker {
            self.reset_marker = true;
        }
        if minute.metric.observed() {
            self.metric.add(&minute.metric.fill());
        }
        self.quality.extend(&minute.quality.items);
        self.minutes.push(place);
    }
}

fn gather_windows(minutes: &Vec<RollupMinuteRow>) -> (r: OrderedMap<String, RollupWindow>)
    ensures
        r.deep_view() == windows_of(minutes.deep_view()),
{
    let ghost all = minutes.deep_view();
    let mut windows: OrderedMap<String, RollupWindow> = OrderedMap::new();
    let mut i: usize = 0;
    while i < minutes.len()
        invariant
            i <= minutes@.len(),
            all == minutes.deep_view(),
            windows.deep_view() == windows_of(all.take(i as int)),
        decreases minutes@.len() - i,
    {
        let minute = &minutes[i];
        assert(all.take(i + 1).drop_last() =~= all.take(i as int));
        assert(all.take(i + 1).last() == minute.deep_view());
        assert(all.take(i + 1).len() == i + 1);
        if let Some(id) = &minute.window_id {
            let window = windows.entry(id.clone(), RollupWindow::start(id.clone()));
            window.read(minute, i);
        }
        i = i + 1;
    }
    assert(all.take(i as int) =~= all);
    windows
}

/// The turns of a window.
pub open spec fn rows_in_window(
    sessions: Seq<RollupSessionRowView>,
    window_id: Seq<char>,
) -> Seq<RollupSessionRowView> {
    sessions.filter(|row: RollupSessionRowView| row.window_id == Some(window_id))
}

fn select_window<'a>(sessions: &'a Vec<RollupSessionRow>, window_id: &str) -> (r: Vec<
    &'a RollupSessionRow,
>)
    ensures
        r.deep_view() == rows_in_window(sessions.deep_view(), window_id@),
{
    let ghost all = sessions.deep_view();
    let mut rows: Vec<&RollupSessionRow> = Vec::new();
    assert(rows.deep_view() =~= rows_in_window(all.take(0), window_id@)) by {
        reveal(Seq::filter);
    }
    let mut i: usize = 0;
    while i < sessions.len()
        invariant
            i <= sessions@.len(),
            all == sessions.deep_view(),
            rows.deep_view() == rows_in_window(all.take(i as int), window_id@),
        decreases sessions@.len() - i,
    {
        assert(all.take(i + 1).drop_last() =~= all.take(i as int));
        assert(all.take(i + 1).last() == sessions@[i as int].deep_view());
        let ghost before = rows.deep_view();
        if holds(&sessions[i].window_id, window_id) {
            rows.push(&sessions[i]);
            assert(rows.deep_view() =~= before.push(sessions@[i as int].deep_view()));
        }
        assert(rows.deep_view() == rows_in_window(all.take(i + 1), window_id@)) by {
            reveal(Seq::filter);
        }
        i = i + 1;
    }
    assert(all.take(i as int) =~= all);
    rows
}

/// A window with its sessions and the capacity that holds when it starts.
pub open spec fn quota_window(
    window: RollupWindowView,
    sessions: Seq<RollupSessionRowView>,
    capacities: Seq<RollupCapacityView>,
) -> QuotaWindowView {
    QuotaWindowView {
        window,
        sessions: session_views(rows_in_window(sessions, window.window_id)),
        capacity: capacity_place(
            capacities,
            window.account_key,
            window.plan_type,
            or_zero(window.start_at_ms),
        ),
    }
}

/// The quota windows that minutes are in, in the order of their names.
pub open spec fn quota_windows(
    minutes: Seq<RollupMinuteRowView>,
    sessions: Seq<RollupSessionRowView>,
    capacities: Seq<RollupCapacityView>,
) -> Seq<QuotaWindowView> {
    windows_of(minutes).map_values(
        |entry: (Seq<char>, RollupWindowView)| quota_window(entry.1, sessions, capacities),
    )
}

/// The quota windows that minutes are in, in the order of their names.
pub fn build_rollup_windows(
    minutes: &Vec<RollupMinuteRow>,
    sessions: &Vec<RollupSessionRow>,
    capacities: &Vec<RollupCapacity>,
) -> (r: Vec<QuotaWindow>)
    ensures
        r.deep_view() == quota_windows(
            minutes.deep_view(),
            sessions.deep_view(),
            capacities.deep_view(),
        ),
{
    let windows = gather_windows(minutes).entries;
    let ghost all = windows.deep_view();
    let ghost wanted = quota_windows(
        minutes.deep_view(),
        sessions.deep_view(),
        capacities.deep_view(),
    );
    let mut found: Vec<QuotaWindow> = Vec::new();
    assert(found.deep_view() =~= wanted.take(0));
    for entry in it: windows
        invariant
            it.seq() == windows@,
            all == windows.deep_view(),
            all == windows_of(minutes.deep_view()),
            wanted == quota_windows(
                minutes.deep_view(),
                sessions.deep_view(),
                capacities.deep_view(),
            ),
            found.deep_view() == wanted.take(it.index() as int),
    {
        let (_, window) = entry;
        let ghost i = it.index() as int;
        assert(all[i] == windows@[i].deep_view());
        assert(all[i].1 == window.deep_view());
        let rows = select_window(sessions, window.window_id.as_str());
        let views = rollup_session_views(&rows);
        let start = match window.start_at_ms {
            Some(start) => start,
            None => 0,
        };
        let capacity = capacity_for(capacities, &window.account_key, &window.plan_type, start);
        let ghost before = found.deep_view();
        let made = QuotaWindow { window, sessions: views, capacity };
        assert(made.deep_view() =~= wanted[i]);
        found.push(made);
        assert(found.deep_view() =~= before.push(wanted[i]));
        assert(wanted.take(i + 1) =~= wanted.take(i).push(wanted[i]));
    }
    assert(wanted.take(all.len() as int) =~= wanted);
    found
}

} // verus!
