//! The report: days, windows, sessions and models, as the rollups tell them.
use crate::calendar::{parse_iso_date, parsed_date, DAY_MS, EPOCH_JULIAN_DAY};
use crate::json::{text_of_first, views, Float, Json, JsonView};
use crate::minimal::report::rows::{
    RollupAccount, RollupAccountView, RollupCapacity, RollupCapacityView, RollupDayRow,
    RollupDayRowView, RollupMinuteRow, RollupMinuteRowView, RollupSessionRow, RollupSessionRowView,
};
use crate::minimal::report::sessions::{
    model_views, rollup_model_views, rollup_session_views, session_views, RollupModelView,
    RollupModelViewView, RollupSessionView, RollupSessionViewView,
};
use crate::minimal::report::validation::{
    rollup_validation, validation, RollupCcusageRow, RollupCcusageRowView, RollupValidation,
    RollupValidationView,
};
use crate::minimal::report::windows::{
    build_rollup_windows, capacity_for, capacity_place, day_windows, quota_windows,
    rollup_day_window_info, DayWindow, DayWindowView, QuotaWindow, QuotaWindowView,
};
use crate::ordered::{lookup, put, with_text_if, OrderedMap, TextSet};
use crate::pipelines::result::materialize::load::date_keys;
use crate::text::{copy_option, first_of, first_some, same, text_or};
use vstd::prelude::*;
use vstd::string::*;

pub mod laws;
pub mod rows;
pub mod sessions;
pub mod sums;
pub mod validation;
pub mod windows;

verus! {

/// A day, with the place of the capacity that it has.
#[derive(Debug)]
pub struct RollupDayView {
    pub capacity: Option<usize>,
    pub quality: TextSet,
    pub window_id: Option<String>,
    pub reset: bool,
}

/// A `RollupDayView` with its texts as sequences of characters.
#[verifier::ext_equal]
pub struct RollupDayViewView {
    pub capacity: Option<usize>,
    pub quality: Seq<Seq<char>>,
    pub window_id: Option<Seq<char>>,
    pub reset: bool,
}

impl DeepView for RollupDayView {
    type V = RollupDayViewView;

    open spec fn deep_view(&self) -> RollupDayViewView {
        RollupDayViewView {
            capacity: self.capacity,
            quality: self.quality.deep_view(),
            window_id: self.window_id.deep_view(),
            reset: self.reset,
        }
    }
}

/// What the account was told to have used, and when it was told.
#[derive(Debug)]
pub struct AccountUsage {
    pub observed_at_ms: i64,
    pub value: Json,
}

/// A `AccountUsage` with its texts as sequences of characters.
#[verifier::ext_equal]
pub struct AccountUsageView {
    pub observed_at_ms: i64,
    pub value: JsonView,
}

impl DeepView for AccountUsage {
    type V = AccountUsageView;

    open spec fn deep_view(&self) -> AccountUsageView {
        AccountUsageView {
            observed_at_ms: self.observed_at_ms,
            value: self.value@,
        }
    }
}

/// The tokens of an account on a day, and when they were told.
#[derive(Debug)]
pub struct AccountDay {
    pub date: String,
    pub tokens: Option<i64>,
    pub observed_at_ms: i64,
}

/// A `AccountDay` with its texts as sequences of characters.
#[verifier::ext_equal]
pub struct AccountDayView {
    pub date: Seq<char>,
    pub tokens: Option<i64>,
    pub observed_at_ms: i64,
}

impl DeepView for AccountDay {
    type V = AccountDayView;

    open spec fn deep_view(&self) -> AccountDayView {
        AccountDayView {
            date: self.date@,
            tokens: self.tokens,
            observed_at_ms: self.observed_at_ms,
        }
    }
}

/// The last quota that the app server told.
#[derive(Debug)]
pub struct AppQuota {
    pub used_percent: Option<Float>,
    pub window_minutes: Option<i64>,
    pub resets_at_ms: Option<i64>,
    pub last_seen_at_ms: Option<i64>,
}

/// A `AppQuota` with its texts as sequences of characters.
#[verifier::ext_equal]
pub struct AppQuotaView {
    pub used_percent: Option<Float>,
    pub window_minutes: Option<i64>,
    pub resets_at_ms: Option<i64>,
    pub last_seen_at_ms: Option<i64>,
}

impl DeepView for AppQuota {
    type V = AppQuotaView;

    open spec fn deep_view(&self) -> AppQuotaView {
        AppQuotaView {
            used_percent: self.used_percent,
            window_minutes: self.window_minutes,
            resets_at_ms: self.resets_at_ms,
            last_seen_at_ms: self.last_seen_at_ms,
        }
    }
}

/// How the quota stands: the places of the window that is on and of its capacity.
#[derive(Debug)]
pub struct CurrentQuota {
    pub used_percent: Option<Float>,
    pub resets_at_ms: Option<i64>,
    pub window_minutes: Option<i64>,
    pub source: String,
    pub observed_at_ms: Option<i64>,
    pub window: Option<usize>,
    pub capacity: Option<usize>,
    pub display: Option<String>,
    pub quality: Option<String>,
}

/// A `CurrentQuota` with its texts as sequences of characters.
#[verifier::ext_equal]
pub struct CurrentQuotaView {
    pub used_percent: Option<Float>,
    pub resets_at_ms: Option<i64>,
    pub window_minutes: Option<i64>,
    pub source: Seq<char>,
    pub observed_at_ms: Option<i64>,
    pub window: Option<usize>,
    pub capacity: Option<usize>,
    pub display: Option<Seq<char>>,
    pub quality: Option<Seq<char>>,
}

impl DeepView for CurrentQuota {
    type V = CurrentQuotaView;

    open spec fn deep_view(&self) -> CurrentQuotaView {
        CurrentQuotaView {
            used_percent: self.used_percent,
            resets_at_ms: self.resets_at_ms,
            window_minutes: self.window_minutes,
            source: self.source@,
            observed_at_ms: self.observed_at_ms,
            window: self.window,
            capacity: self.capacity,
            display: self.display.deep_view(),
            quality: self.quality.deep_view(),
        }
    }
}

/// The day that a report shows in full: its place and those of its minutes.
#[derive(Debug)]
pub struct SelectedDay {
    pub day: usize,
    pub minutes: Vec<usize>,
    pub models: OrderedMap<(String, String), RollupModelView>,
    pub sessions: OrderedMap<String, RollupSessionView>,
}

/// A `SelectedDay` with its texts as sequences of characters.
#[verifier::ext_equal]
pub struct SelectedDayView {
    pub day: usize,
    pub minutes: Seq<usize>,
    pub models: Seq<((Seq<char>, Seq<char>), RollupModelViewView)>,
    pub sessions: Seq<(Seq<char>, RollupSessionViewView)>,
}

impl DeepView for SelectedDay {
    type V = SelectedDayView;

    open spec fn deep_view(&self) -> SelectedDayView {
        SelectedDayView {
            day: self.day,
            minutes: self.minutes@,
            models: self.models.deep_view(),
            sessions: self.sessions.deep_view(),
        }
    }
}

/// What a report is made of.
#[derive(Debug)]
pub struct ReportRows {
    pub days: Vec<RollupDayRow>,
    pub minutes: Vec<RollupMinuteRow>,
    pub sessions: Vec<RollupSessionRow>,
    pub capacities: Vec<RollupCapacity>,
    pub account: RollupAccount,
    pub account_usage: Vec<AccountUsage>,
    pub app_quota: Option<AppQuota>,
    pub ccusage: Vec<RollupCcusageRow>,
}

/// A `ReportRows` with its texts as sequences of characters.
#[verifier::ext_equal]
pub struct ReportRowsView {
    pub days: Seq<RollupDayRowView>,
    pub minutes: Seq<RollupMinuteRowView>,
    pub sessions: Seq<RollupSessionRowView>,
    pub capacities: Seq<RollupCapacityView>,
    pub account: RollupAccountView,
    pub account_usage: Seq<AccountUsageView>,
    pub app_quota: Option<AppQuotaView>,
    pub ccusage: Seq<RollupCcusageRowView>,
}

impl DeepView for ReportRows {
    type V = ReportRowsView;

    open spec fn deep_view(&self) -> ReportRowsView {
        ReportRowsView {
            days: self.days.deep_view(),
            minutes: self.minutes.deep_view(),
            sessions: self.sessions.deep_view(),
            capacities: self.capacities.deep_view(),
            account: self.account.deep_view(),
            account_usage: self.account_usage.deep_view(),
            app_quota: self.app_quota.deep_view(),
            ccusage: self.ccusage.deep_view(),
        }
    }
}

/// A report.
#[derive(Debug)]
pub struct Report {
    pub current: CurrentQuota,
    pub account_daily_tokens: OrderedMap<String, AccountDay>,
    pub days: Vec<RollupDayView>,
    pub selected: Option<SelectedDay>,
    pub windows: Vec<QuotaWindow>,
    pub validation: RollupValidation,
}

/// A `Report` with its texts as sequences of characters.
#[verifier::ext_equal]
pub struct ReportView {
    pub current: CurrentQuotaView,
    pub account_daily_tokens: Seq<(Seq<char>, AccountDayView)>,
    pub days: Seq<RollupDayViewView>,
    pub selected: Option<SelectedDayView>,
    pub windows: Seq<QuotaWindowView>,
    pub validation: RollupValidationView,
}

impl DeepView for Report {
    type V = ReportView;

    open spec fn deep_view(&self) -> ReportView {
        ReportView {
            current: self.current.deep_view(),
            account_daily_tokens: self.account_daily_tokens.deep_view(),
            days: self.days.deep_view(),
            selected: self.selected.deep_view(),
            windows: self.windows.deep_view(),
            validation: self.validation.deep_view(),
        }
    }
}

/// When a day begins in Greenwich, or 0 where the text is no date.
pub open spec fn utc_midnight(date: Seq<char>) -> i64 {
    match parsed_date(date) {
        Some(date) => ((date.julian_day() - EPOCH_JULIAN_DAY) * DAY_MS) as i64,
        None => 0,
    }
}

fn utc_day_start(date: &str) -> (r: i64)
    ensures
        r == utc_midnight(date@),
{
    match parse_iso_date(date) {
        Some(date) => (date.to_julian_day() - EPOCH_JULIAN_DAY) * DAY_MS,
        None => 0,
    }
}

/// How a report shows a day. A day without minutes began a window if it counts a reset.
pub open spec fn day_view(
    day: RollupDayRowView,
    capacities: Seq<RollupCapacityView>,
    windows: Seq<(Seq<char>, DayWindowView)>,
) -> RollupDayViewView {
    let capacity = capacity_place(
        capacities,
        day.account_key,
        day.plan_type,
        utc_midnight(day.date),
    );
    let window = match lookup::<String, DayWindowView>(windows, day.date) {
        Some(window) => window,
        None => DayWindowView { window_id: None, reset: day.reset_count > 0 },
    };
    RollupDayViewView {
        capacity,
        quality: with_text_if(
            day.quality,
            capacity is None && day.metric.credit is Some,
            "capacity_unconfirmed"@,
        ),
        window_id: window.window_id,
        reset: window.reset,
    }
}

/// How a report shows a day.
pub fn rollup_day_view(
    day: &RollupDayRow,
    capacities: &Vec<RollupCapacity>,
    windows: &OrderedMap<String, DayWindow>,
) -> (r: RollupDayView)
    ensures
        r.deep_view() == day_view(day.deep_view(), capacities.deep_view(), windows.deep_view()),
{
    let at_ms = utc_day_start(day.date.as_str());
    let capacity = capacity_for(capacities, &day.account_key, &day.plan_type, at_ms);
    let mut quality = day.quality.copy();
    if capacity.is_none() && day.metric.credit.is_some() {
        quality.insert("capacity_unconfirmed");
    }
    let (window_id, reset) = match windows.get(&day.date) {
        Some(window) => (copy_option(&window.window_id), window.reset),
        None => (None, day.reset_count > 0),
    };
    RollupDayView { capacity, quality, window_id, reset }
}

fn show_days(
    days: &Vec<RollupDayRow>,
    capacities: &Vec<RollupCapacity>,
    windows: &OrderedMap<String, DayWindow>,
) -> (r: Vec<RollupDayView>)
    ensures
        r.deep_view() == days.deep_view().map_values(
            |day: RollupDayRowView| day_view(day, capacities.deep_view(), windows.deep_view()),
        ),
{
    let ghost all = days.deep_view();
    let ghost wanted = all.map_values(
        |day: RollupDayRowView| day_view(day, capacities.deep_view(), windows.deep_view()),
    );
    let mut shown: Vec<RollupDayView> = Vec::new();
    assert(shown.deep_view() =~= wanted.take(0));
    let mut i: usize = 0;
    while i < days.len()
        invariant
            i <= days@.len(),
            all == days.deep_view(),
            wanted == all.map_values(
                |day: RollupDayRowView| day_view(day, capacities.deep_view(), windows.deep_view()),
            ),
            shown.deep_view() == wanted.take(i as int),
        decreases days@.len() - i,
    {
        let ghost before = shown.deep_view();
        assert(all[i as int] == days@[i as int].deep_view());
        let view = rollup_day_view(&days[i], capacities, windows);
        assert(view.deep_view() == wanted[i as int]);
        shown.push(view);
        assert(shown.deep_view() =~= before.push(wanted[i as int]));
        assert(wanted.take(i + 1) =~= wanted.take(i as int).push(wanted[i as int]));
        i = i + 1;
    }
    assert(wanted.take(i as int) =~= wanted);
    shown
}

/// The place of the first day of a date.
pub open spec fn place_of_date(days: Seq<RollupDayRowView>, date: Seq<char>) -> Option<usize>
    decreases days.len(),
{
    if days.len() == 0 {
        None
    } else {
        match place_of_date(days.drop_last(), date) {
            Some(place) => Some(place),
            None => if days.last().date == date {
                Some((days.len() - 1) as usize)
            } else {
                None
            },
        }
    }
}

fn find_date(days: &Vec<RollupDayRow>, date: &str) -> (r: Option<usize>)
    ensures
        r == place_of_date(days.deep_view(), date@),
        r matches Some(place) ==> place < days@.len(),
{
    let ghost all = days.deep_view();
    let mut found: Option<usize> = None;
    let mut i: usize = 0;
    while i < days.len()
        invariant
            i <= days@.len(),
            all == days.deep_view(),
            found matches Some(place) ==> place < i,
            found == place_of_date(all.take(i as int), date@),
        decreases days@.len() - i,
    {
        assert(all.take(i + 1).drop_last() =~= all.take(i as int));
        assert(all.take(i + 1).last() == days@[i as int].deep_view());
        assert(all.take(i + 1).len() == i + 1);
        if found.is_none() && same(days[i].date.as_str(), date) {
            found = Some(i);
        }
        i = i + 1;
    }
    assert(all.take(i as int) =~= all);
    found
}

/// The place of the day that a report shows in full: that of the date that was asked for, or else
/// that of the last date.
pub open spec fn selected_place(
    days: Seq<RollupDayRowView>,
    asked: Option<Seq<char>>,
) -> Option<usize> {
    let latest = if days.len() > 0 {
        place_of_date(days, days.last().date)
    } else {
        None
    };
    match asked {
        Some(date) => first_some(place_of_date(days, date), latest),
        None => latest,
    }
}

/// The place of the day that a report shows in full.
pub fn select_date(days: &Vec<RollupDayRow>, asked: Option<&str>) -> (r: Option<usize>)
    ensures
        r == selected_place(days.deep_view(), asked.deep_view()),
        r matches Some(place) ==> place < days@.len(),
{
    if let Some(date) = asked {
        let found = find_date(days, date);
        if found.is_some() {
            return found;
        }
    }
    let count: usize = days.len();
    if count > 0 {
        assert(days.deep_view().last() == days@[count - 1].deep_view());
        find_date(days, days[count - 1].date.as_str())
    } else {
        None
    }
}

/// The places of the minutes of a date.
pub open spec fn minutes_of_date(minutes: Seq<RollupMinuteRowView>, date: Seq<char>) -> Seq<usize>
    decreases minutes.len(),
{
    if minutes.len() == 0 {
        Seq::empty()
    } else {
        let before = minutes_of_date(minutes.drop_last(), date);
        if minutes.last().local_date == date {
            before.push((minutes.len() - 1) as usize)
        } else {
            before
        }
    }
}

fn select_minutes(minutes: &Vec<RollupMinuteRow>, date: &str) -> (r: Vec<usize>)
    ensures
        r@ == minutes_of_date(minutes.deep_view(), date@),
{
    let ghost all = minutes.deep_view();
    let mut found: Vec<usize> = Vec::new();
    let mut i: usize = 0;
    while i < minutes.len()
        invariant
            i <= minutes@.len(),
            all == minutes.deep_view(),
            found@ == minutes_of_date(all.take(i as int), date@),
        decreases minutes@.len() - i,
    {
        assert(all.take(i + 1).drop_last() =~= all.take(i as int));
        assert(all.take(i + 1).last() == minutes@[i as int].deep_view());
        assert(all.take(i + 1).len() == i + 1);
        if same(minutes[i].local_date.as_str(), date) {
            found.push(i);
        }
        i = i + 1;
    }
    assert(all.take(i as int) =~= all);
    found
}

/// The turns of a date.
pub open spec fn rows_of_date(
    sessions: Seq<RollupSessionRowView>,
    date: Seq<char>,
) -> Seq<RollupSessionRowView> {
    sessions.filter(|row: RollupSessionRowView| row.local_date == date)
}

fn select_sessions<'a>(sessions: &'a Vec<RollupSessionRow>, date: &str) -> (r: Vec<
    &'a RollupSessionRow,
>)
    ensures
        r.deep_view() == rows_of_date(sessions.deep_view(), date@),
{
    let ghost all = sessions.deep_view();
    let mut rows: Vec<&RollupSessionRow> = Vec::new();
    assert(rows.deep_view() =~= rows_of_date(all.take(0), date@)) by {
        reveal(Seq::filter);
    }
    let mut i: usize = 0;
    while i < sessions.len()
        invariant
            i <= sessions@.len(),
            all == sessions.deep_view(),
            rows.deep_view() == rows_of_date(all.take(i as int), date@),
        decreases sessions@.len() - i,
    {
        assert(all.take(i + 1).drop_last() =~= all.take(i as int));
        assert(all.take(i + 1).last() == sessions@[i as int].deep_view());
        let ghost before = rows.deep_view();
        if same(sessions[i].local_date.as_str(), date) {
            rows.push(&sessions[i]);
            assert(rows.deep_view() =~= before.push(sessions@[i as int].deep_view()));
        }
        assert(rows.deep_view() == rows_of_date(all.take(i + 1), date@)) by {
            reveal(Seq::filter);
        }
        i = i + 1;
    }
    assert(all.take(i as int) =~= all);
    rows
}

/// A day in full.
pub open spec fn full_day(
    days: Seq<RollupDayRowView>,
    minutes: Seq<RollupMinuteRowView>,
    sessions: Seq<RollupSessionRowView>,
    place: usize,
) -> SelectedDayView {
    let date = days[place as int].date;
    SelectedDayView {
        day: place,
        minutes: minutes_of_date(minutes, date),
        models: model_views(rows_of_date(sessions, date)),
        sessions: session_views(rows_of_date(sessions, date)),
    }
}

/// A day in full.
pub fn show_day(
    days: &Vec<RollupDayRow>,
    minutes: &Vec<RollupMinuteRow>,
    sessions: &Vec<RollupSessionRow>,
    place: usize,
) -> (r: SelectedDay)
    requires
        place < days@.len(),
    ensures
        r.deep_view() == full_day(
            days.deep_view(),
            minutes.deep_view(),
            sessions.deep_view(),
            place,
        ),
{
    let date = days[place].date.as_str();
    assert(days.deep_view()[place as int].date == date@);
    let rows = select_sessions(sessions, date);
    SelectedDay {
        day: place,
        minutes: select_minutes(minutes, date),
        models: rollup_model_views(&rows),
        sessions: rollup_session_views(&rows),
    }
}

/// The tokens that an item tells.
pub open spec fn tokens_told(item: JsonView) -> Option<i64> {
    match item.find(seq!["tokens"@, "totalTokens"@]) {
        Some(found) => found.as_exact(),
        None => None,
    }
}

/// Days with what an item tells of one: later words replace earlier ones.
pub open spec fn days_with_item(
    days: Seq<(Seq<char>, AccountDayView)>,
    item: JsonView,
    observed_at_ms: i64,
) -> Seq<(Seq<char>, AccountDayView)> {
    match text_of_first(item, date_keys()) {
        Some(date) => {
            let known = lookup::<String, AccountDayView>(days, date);
            if known is Some && observed_at_ms < known->0.observed_at_ms {
                days
            } else {
                put::<String, AccountDayView>(
                    days,
                    date,
                    AccountDayView { date, tokens: tokens_told(item), observed_at_ms },
                )
            }
        },
        None => days,
    }
}

/// Days with what items tell.
pub open spec fn days_with_items(
    days: Seq<(Seq<char>, AccountDayView)>,
    items: Seq<JsonView>,
    observed_at_ms: i64,
) -> Seq<(Seq<char>, AccountDayView)>
    decreases items.len(),
{
    if items.len() == 0 {
        days
    } else {
        days_with_item(
            days_with_items(days, items.drop_last(), observed_at_ms),
            items.last(),
            observed_at_ms,
        )
    }
}

/// Days with what was told at an instant, which is a list of items or one.
pub open spec fn days_with(
    days: Seq<(Seq<char>, AccountDayView)>,
    usage: AccountUsageView,
) -> Seq<(Seq<char>, AccountDayView)> {
    match usage.value {
        JsonView::Array(items) => days_with_items(days, items, usage.observed_at_ms),
        _ => days_with_item(days, usage.value, usage.observed_at_ms),
    }
}

/// The tokens of an account by days.
pub open spec fn account_days(usages: Seq<AccountUsageView>) -> Seq<(Seq<char>, AccountDayView)>
    decreases usages.len(),
{
    if usages.len() == 0 {
        Seq::empty()
    } else {
        days_with(account_days(usages.drop_last()), usages.last())
    }
}

fn read_item(days: &mut OrderedMap<String, AccountDay>, item: &Json, observed_at_ms: i64)
    ensures
        final(days).deep_view() == days_with_item(old(days).deep_view(), item@, observed_at_ms),
{
    let keys: [&str; 3] = ["startDate", "start_date", "date"];
    assert(views(keys@) =~= date_keys());
    if let Some(date) = item.text_of_first(keys.as_slice()) {
        let keys: [&str; 2] = ["tokens", "totalTokens"];
        assert(views(keys@) =~= seq!["tokens"@, "totalTokens"@]);
        let tokens = match item.find(keys.as_slice()) {
            Some(found) => found.as_exact(),
            None => None,
        };
        let newer = match days.get(&date) {
            Some(known) => observed_at_ms >= known.observed_at_ms,
            None => true,
        };
        if newer {
            let day = AccountDay { date: date.clone(), tokens, observed_at_ms };
            days.put(date, day);
        }
    }
}

fn read_usage(days: &mut OrderedMap<String, AccountDay>, usage: &AccountUsage)
    ensures
        final(days).deep_view() == days_with(old(days).deep_view(), usage.deep_view()),
{
    match &usage.value {
        Json::Array(items) => {
            let ghost before = days.deep_view();
            let ghost all = items.deep_view();
            assert(usage.value@->Array_0 =~= all);
            let mut i: usize = 0;
            assert(all.take(0) =~= Seq::empty());
            while i < items.len()
                invariant
                    i <= items@.len(),
                    all == items.deep_view(),
                    days.deep_view() == days_with_items(
                        before,
                        all.take(i as int),
                        usage.observed_at_ms,
                    ),
                decreases items@.len() - i,
            {
                assert(all.take(i + 1).drop_last() =~= all.take(i as int));
                assert(all.take(i + 1).last() == items@[i as int]@);
                read_item(days, &items[i], usage.observed_at_ms);
                i = i + 1;
            }
            assert(all.take(i as int) =~= all);
        },
        _ => {
            read_item(days, &usage.value, usage.observed_at_ms);
        },
    }
}

/// The tokens of an account by days.
pub fn account_daily_tokens(usages: &Vec<AccountUsage>) -> (r: OrderedMap<String, AccountDay>)
    ensures
        r.deep_view() == account_days(usages.deep_view()),
{
    let ghost all = usages.deep_view();
    let mut days: OrderedMap<String, AccountDay> = OrderedMap::new();
    let mut i: usize = 0;
    while i < usages.len()
        invariant
            i <= usages@.len(),
            all == usages.deep_view(),
            days.deep_view() == account_days(all.take(i as int)),
        decreases usages@.len() - i,
    {
        assert(all.take(i + 1).drop_last() =~= all.take(i as int));
        assert(all.take(i + 1).last() == usages@[i as int].deep_view());
        read_usage(&mut days, &usages[i]);
        i = i + 1;
    }
    assert(all.take(i as int) =~= all);
    days
}

/// How far a window's reset is from an instant.
pub open spec fn distance(window: QuotaWindowView, reset: i64) -> int {
    match window.window.reset_at_ms {
        Some(at) => if at >= reset {
            at - reset
        } else {
            reset - at
        },
        None => i64::MAX as int,
    }
}

/// The place of the window whose reset is nearest, the first of several.
pub open spec fn nearest(windows: Seq<QuotaWindowView>, reset: i64) -> Option<usize>
    decreases windows.len(),
{
    if windows.len() == 0 {
        None
    } else {
        match nearest(windows.drop_last(), reset) {
            Some(place) => if distance(windows.last(), reset) < distance(
                windows[place as int],
                reset,
            ) {
                Some((windows.len() - 1) as usize)
            } else {
                Some(place)
            },
            None => Some(0),
        }
    }
}

/// The place of the window that is on: the nearest, or else the last.
pub open spec fn window_on(windows: Seq<QuotaWindowView>, reset: Option<i64>) -> Option<usize> {
    match reset {
        Some(reset) => nearest(windows, reset),
        None => if windows.len() > 0 {
            Some((windows.len() - 1) as usize)
        } else {
            None
        },
    }
}

fn reset_distance(window: &QuotaWindow, reset: i64) -> (r: i128)
    ensures
        r == distance(window.deep_view(), reset),
{
    match window.window.reset_at_ms {
        Some(at) => if at >= reset {
            at as i128 - reset as i128
        } else {
            reset as i128 - at as i128
        },
        None => i64::MAX as i128,
    }
}

fn find_nearest(windows: &Vec<QuotaWindow>, reset: i64) -> (r: Option<usize>)
    ensures
        r == nearest(windows.deep_view(), reset),
        r matches Some(place) ==> place < windows@.len(),
{
    let ghost all = windows.deep_view();
    let mut found: Option<usize> = None;
    let mut i: usize = 0;
    while i < windows.len()
        invariant
            i <= windows@.len(),
            all == windows.deep_view(),
            found is None <==> i == 0,
            found matches Some(place) ==> place < i,
            found == nearest(all.take(i as int), reset),
        decreases windows@.len() - i,
    {
        assert(all.take(i + 1).drop_last() =~= all.take(i as int));
        assert(all.take(i + 1).last() == windows@[i as int].deep_view());
        assert(all.take(i + 1).len() == i + 1);
        found = match found {
            Some(place) => {
                assert(all.take(i + 1)[place as int] == windows@[place as int].deep_view());
                if reset_distance(&windows[i], reset) < reset_distance(&windows[place], reset) {
                    Some(i)
                } else {
                    Some(place)
                }
            },
            None => Some(i),
        };
        i = i + 1;
    }
    assert(all.take(i as int) =~= all);
    found
}

/// The window that is on has no farther reset than any other.
pub proof fn lemma_window_on_is_nearest(windows: Seq<QuotaWindowView>, reset: i64)
    requires
        0 < windows.len() <= usize::MAX,
    ensures
        nearest(windows, reset) is Some,
        nearest(windows, reset)->0 < windows.len(),
        forall|i: int|
            0 <= i < windows.len() ==> distance(
                windows[nearest(windows, reset)->0 as int],
                reset,
            ) <= distance(#[trigger] windows[i], reset),
    decreases windows.len(),
{
    let shorter = windows.drop_last();
    assert forall|i: int| 0 <= i < shorter.len() implies #[trigger] windows[i] == shorter[i] by {}
    if shorter.len() > 0 {
        lemma_window_on_is_nearest(shorter, reset);
    } else {
        assert(nearest(shorter, reset) is None);
    }
}

/// What the last of minutes tells, where there is one.
pub open spec fn last_minute(minutes: Seq<RollupMinuteRowView>) -> Option<RollupMinuteRowView> {
    if minutes.len() > 0 {
        Some(minutes.last())
    } else {
        None
    }
}

/// The flag of a quota: a percentage that is not known, or else a capacity that is not.
pub open spec fn quota_flag(used_percent: Option<Float>, capacity: Option<usize>) -> Option<
    Seq<char>,
> {
    if used_percent is None {
        Some("official_unavailable"@)
    } else if capacity is None {
        Some("capacity_unconfirmed"@)
    } else {
        None
    }
}

/// How the quota stands, by what the app server told last, and else by the last minute.
pub open spec fn current_quota(
    quota: Option<AppQuotaView>,
    minutes: Seq<RollupMinuteRowView>,
    windows: Seq<QuotaWindowView>,
    capacities: Seq<RollupCapacityView>,
    account: RollupAccountView,
) -> CurrentQuotaView {
    let minute = last_minute(minutes);
    let told_percent = match quota {
        Some(quota) => quota.used_percent,
        None => None,
    };
    let told_reset = match quota {
        Some(quota) => quota.resets_at_ms,
        None => None,
    };
    let used_percent = match minute {
        Some(minute) => first_some(told_percent, minute.official_percent),
        None => told_percent,
    };
    let reset = match minute {
        Some(minute) => first_some(told_reset, minute.resets_at_ms),
        None => told_reset,
    };
    let source = if told_percent is Some {
        "app_server"@
    } else {
        match minute {
            Some(minute) => text_or(minute.official_source, "none"@),
            None => "none"@,
        }
    };
    let window = window_on(windows, reset);
    let start = match window {
        Some(place) => windows[place as int].window.start_at_ms,
        None => None,
    };
    let capacity = match start {
        Some(start) => capacity_place(capacities, account.account_key, account.plan_type, start),
        None => None,
    };
    CurrentQuotaView {
        used_percent,
        resets_at_ms: reset,
        window_minutes: first_some(
            match quota {
                Some(quota) => quota.window_minutes,
                None => None,
            },
            match window {
                Some(place) => windows[place as int].window.window_minutes,
                None => None,
            },
        ),
        source,
        observed_at_ms: first_some(
            match quota {
                Some(quota) => quota.last_seen_at_ms,
                None => None,
            },
            match minute {
                Some(minute) => Some(minute.minute_start_ms),
                None => None,
            },
        ),
        window,
        capacity,
        display: first_some(
            first_some(account.account_label, account.plan_type),
            account.provider,
        ),
        quality: quota_flag(used_percent, capacity),
    }
}

/// How the quota stands, by what the app server told last, and else by the last minute.
pub fn build_rollup_current(
    quota: &Option<AppQuota>,
    minutes: &Vec<RollupMinuteRow>,
    windows: &Vec<QuotaWindow>,
    capacities: &Vec<RollupCapacity>,
    account: &RollupAccount,
) -> (r: CurrentQuota)
    ensures
        r.deep_view() == current_quota(
            quota.deep_view(),
            minutes.deep_view(),
            windows.deep_view(),
            capacities.deep_view(),
            account.deep_view(),
        ),
{
    let (told_percent, told_minutes, told_reset, told_at) = match quota {
        Some(quota) => (
            quota.used_percent,
            quota.window_minutes,
            quota.resets_at_ms,
            quota.last_seen_at_ms,
        ),
        None => (None, None, None, None),
    };
    let count: usize = minutes.len();
    let (percent, minute_reset, source, minute_at) = if count > 0 {
        let minute = &minutes[count - 1];
        assert(minutes.deep_view().last() == minute.deep_view());
        (
            minute.official_percent,
            minute.resets_at_ms,
            copy_option(&minute.official_source),
            Some(minute.minute_start_ms),
        )
    } else {
        (None, None, None, None)
    };
    let used_percent = match told_percent {
        Some(percent) => Some(percent),
        None => percent,
    };
    let reset = match told_reset {
        Some(reset) => Some(reset),
        None => minute_reset,
    };
    let source = if told_percent.is_some() {
        "app_server".to_owned()
    } else {
        match source {
            Some(source) => source,
            None => "none".to_owned(),
        }
    };
    let window = match reset {
        Some(reset) => find_nearest(windows, reset),
        None => {
            let last: usize = windows.len();
            if last > 0 {
                Some(last - 1)
            } else {
                None
            }
        },
    };
    let (start, span) = match window {
        Some(place) => {
            assert(windows.deep_view()[place as int] == windows@[place as int].deep_view());
            (windows[place].window.start_at_ms, windows[place].window.window_minutes)
        },
        None => (None, None),
    };
    let capacity = match start {
        Some(start) => capacity_for(capacities, &account.account_key, &account.plan_type, start),
        None => None,
    };
    let quality = if used_percent.is_none() {
        Some("official_unavailable".to_owned())
    } else if capacity.is_none() {
        Some("capacity_unconfirmed".to_owned())
    } else {
        None
    };
    let named = first_of(&account.account_label, &account.plan_type);
    CurrentQuota {
        used_percent,
        resets_at_ms: reset,
        window_minutes: match told_minutes {
            Some(minutes) => Some(minutes),
            None => span,
        },
        source,
        observed_at_ms: match told_at {
            Some(at) => Some(at),
            None => minute_at,
        },
        window,
        capacity,
        display: first_of(&named, &account.provider),
        quality,
    }
}

/// The report of rows, with the day in full that was asked for.
pub open spec fn report_of(rows: ReportRowsView, asked: Option<Seq<char>>) -> ReportView {
    let windows = quota_windows(rows.minutes, rows.sessions, rows.capacities);
    let info = day_windows(rows.minutes);
    ReportView {
        current: current_quota(
            rows.app_quota,
            rows.minutes,
            windows,
            rows.capacities,
            rows.account,
        ),
        account_daily_tokens: account_days(rows.account_usage),
        days: rows.days.map_values(
            |day: RollupDayRowView| day_view(day, rows.capacities, info),
        ),
        selected: match selected_place(rows.days, asked) {
            Some(place) => Some(full_day(rows.days, rows.minutes, rows.sessions, place)),
            None => None,
        },
        windows,
        validation: validation(rows.ccusage, rows.days, rows.sessions),
    }
}

/// The report of rows, with the day in full that was asked for.
pub fn build_rollup_report(rows: &ReportRows, asked: Option<&str>) -> (r: Report)
    ensures
        r.deep_view() == report_of(rows.deep_view(), asked.deep_view()),
{
    let windows = build_rollup_windows(&rows.minutes, &rows.sessions, &rows.capacities);
    let info = rollup_day_window_info(&rows.minutes);
    let current = build_rollup_current(
        &rows.app_quota,
        &rows.minutes,
        &windows,
        &rows.capacities,
        &rows.account,
    );
    let selected = match select_date(&rows.days, asked) {
        Some(place) => Some(show_day(&rows.days, &rows.minutes, &rows.sessions, place)),
        None => None,
    };
    let r = Report {
        current,
        account_daily_tokens: account_daily_tokens(&rows.account_usage),
        days: show_days(&rows.days, &rows.capacities, &info),
        selected,
        windows,
        validation: rollup_validation(&rows.ccusage, &rows.days, &rows.sessions),
    };
    assert(r.deep_view() =~= report_of(rows.deep_view(), asked.deep_view()));
    r
}

} // verus!
