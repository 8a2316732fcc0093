//! Gathers usage by minute, day, quota window and session.
use crate::db::Rise;
use crate::json::Float;
use crate::num::{max_i64, min_i64, saturating_add};
use crate::ordered::{OrderedMap, TextSet};
use crate::pipelines::result::materialize::capacity::add_plan_metric;
use crate::pipelines::result::materialize::clock::{
    day_end_ms, day_start_ms, is_datable, lemma_minute_keeps_date, local_date, max_option,
    min_option, minute_start,
};
use crate::pipelines::result::materialize::metric::effective_plan_type;
use crate::pipelines::result::materialize::records::{
    AccountContext, DayAggregate, Metric, MinuteBucket, OfficialPoint, QuotaObservation,
    SessionAggregate, SessionMeta, TurnRecord, UsageRecord, WindowAggregate, WindowSegment,
    WindowSegmentView,
};
use crate::pipelines::result::materialize::rollup::{
    are_datable, finished_day, finished_days, fresh_minute, fresh_session, fresh_windows, gathered,
    held_day, id_of, minute_key, minute_with_quota, minute_with_usage, model_key, official_scan,
    quota_minutes, relation_of, rolled_up, root_of_usage, session_key, session_of,
    session_with_usage, sessions_with_usage, slice_of, title_of, turn_named, turn_of_usage,
    window_is_datable, windows_with_percent, windows_with_usage, with_official, with_quota,
    with_request, with_rise, OfficialScanView, Rollup, Setting, SliceView,
};
use crate::pipelines::result::materialize::windows::{
    earliest_started, find_quota_window, find_turn, find_usage_window, latest_started, window_at,
};
use crate::pricing::{price, Price};
use crate::text::{borrowed, copy_option, first_of, holds, same};
use vstd::prelude::*;
use vstd::string::*;

verus! {

/// The part of a turn that lies on a day and in a window.
pub struct Slice {
    pub turn_id: Option<String>,
    pub started_at_ms: i64,
    pub ended_at_ms: Option<i64>,
    pub crosses_boundary: bool,
}

impl DeepView for Slice {
    type V = SliceView;

    open spec fn deep_view(&self) -> SliceView {
        SliceView {
            turn_id: self.turn_id.deep_view(),
            started_at_ms: self.started_at_ms,
            ended_at_ms: self.ended_at_ms,
            crosses_boundary: self.crosses_boundary,
        }
    }
}

proof fn lemma_place_in_windows(windows: Seq<WindowSegmentView>, flags: Seq<bool>, at: i64)
    ensures
        match latest_started(windows, flags, at) {
            Some(i) => 0 <= i < windows.len(),
            None => true,
        },
        match earliest_started(windows, flags) {
            Some(i) => 0 <= i < windows.len(),
            None => true,
        },
    decreases windows.len(),
{
    if windows.len() > 0 {
        lemma_place_in_windows(windows.drop_last(), flags, at);
    }
}

proof fn lemma_found_is_datable(windows: Seq<WindowSegmentView>, flags: Seq<bool>, at: i64)
    requires
        forall|i: int| 0 <= i < windows.len() ==> window_is_datable(#[trigger] windows[i]),
    ensures
        match window_at(windows, flags, at) {
            Some(window) => window_is_datable(window),
            None => true,
        },
{
    lemma_place_in_windows(windows, flags, at);
}

fn window_id(segment: Option<&WindowSegment>) -> (r: Option<String>)
    ensures
        r.deep_view() == id_of(segment.deep_view()),
{
    match segment {
        Some(segment) => Some(segment.id.clone()),
        None => None,
    }
}

fn key_of_minute(minute: i64, segment: Option<&WindowSegment>) -> (r: (i64, String))
    ensures
        r.deep_view() == minute_key(minute, segment.deep_view()),
{
    match segment {
        Some(segment) => (minute, segment.id.clone()),
        None => (minute, "none".to_owned()),
    }
}

/// A minute in a window, without usage.
pub fn empty_minute(
    minute: i64,
    segment: Option<&WindowSegment>,
    account: &AccountContext,
) -> (r: MinuteBucket)
    requires
        crate::domain::time::has_local_time(minute),
    ensures
        r.deep_view() == fresh_minute(minute, segment.deep_view(), account.deep_view()),
{
    let mut bucket = MinuteBucket::default();
    bucket.minute_start_ms = minute;
    bucket.local_date = match local_date(minute) {
        Ok(date) => date,
        Err(_) => "unknown".to_owned(),
    };
    bucket.account_key = copy_option(&account.account_key);
    bucket.provider = copy_option(&account.provider);
    if let Some(segment) = segment {
        bucket.window_id = Some(segment.id.clone());
        bucket.window_kind = Some(segment.window_kind.clone());
        bucket.window_start_ms = Some(segment.start_at_ms);
        bucket.resets_at_ms = segment.reset_at_ms;
        bucket.reset_marker = segment.ordinal > 0 && segment.start_at_ms == minute;
        bucket.account_key = first_of(&segment.account_key, &account.account_key);
        bucket.plan_type = copy_option(&segment.plan_type);
    }
    bucket
}

fn mark_quota(
    bucket: &mut MinuteBucket,
    minute: i64,
    quota: &QuotaObservation,
    segment: Option<&WindowSegment>,
)
    requires
        segment is Some ==> is_datable(segment->0.start_at_ms),
    ensures
        final(bucket).deep_view() == minute_with_quota(
            old(bucket).deep_view(),
            minute,
            quota.deep_view(),
            segment.deep_view(),
        ),
{
    if let Some(percent) = quota.used_percent {
        let counts = match &bucket.official {
            Some(current) => quota.priority >= current.priority,
            None => true,
        };
        if counts {
            bucket.official = Some(
                OfficialPoint {
                    percent,
                    source: quota.source.clone(),
                    priority: quota.priority,
                },
            );
        }
    }
    if let Some(segment) = segment {
        let account_key = first_of(&bucket.account_key, &segment.account_key);
        bucket.account_key = first_of(&account_key, &quota.account_key);
        let plan_type = first_of(&bucket.plan_type, &segment.plan_type);
        bucket.plan_type = first_of(&plan_type, &quota.plan_type);
        bucket.window_kind = Some(segment.window_kind.clone());
        bucket.window_start_ms = Some(segment.start_at_ms);
        bucket.resets_at_ms = segment.reset_at_ms;
        if segment.ordinal > 0 && minute_start(segment.start_at_ms) == minute {
            bucket.reset_marker = true;
        }
    }
}

fn add_quota(
    minutes: &mut OrderedMap<(i64, String), MinuteBucket>,
    quota: &QuotaObservation,
    setting: &Setting,
)
    requires
        is_datable(quota.first_seen_at_ms),
        forall|i: int|
            0 <= i < setting.windows@.len() ==> window_is_datable(
                (#[trigger] setting.deep_view().windows[i]),
            ),
    ensures
        final(minutes).deep_view() == with_quota(
            old(minutes).deep_view(),
            quota.deep_view(),
            setting.deep_view(),
        ),
{
    let segment = find_quota_window(&setting.windows, quota);
    proof {
        let windows = setting.deep_view().windows;
        let q = quota.deep_view();
        lemma_found_is_datable(
            windows,
            Seq::new(
                windows.len(),
                |i: int|
                    windows[i].window_kind == q.window_kind && windows[i].limit_id == q.limit_id
                        && windows[i].account_key == q.account_key,
            ),
            q.first_seen_at_ms,
        );
        lemma_minute_keeps_date(quota.first_seen_at_ms);
    }
    let minute: i64 = minute_start(quota.first_seen_at_ms);
    let bucket = minutes.entry(
        key_of_minute(minute, segment),
        empty_minute(minute, segment, &setting.account),
    );
    mark_quota(bucket, minute, quota, segment);
}

fn gather_quotas(quotas: &Vec<QuotaObservation>, setting: &Setting) -> (r: OrderedMap<
    (i64, String),
    MinuteBucket,
>)
    requires
        forall|i: int|
            0 <= i < quotas@.len() ==> is_datable(
                (#[trigger] quotas.deep_view()[i]).first_seen_at_ms,
            ),
        forall|i: int|
            0 <= i < setting.windows@.len() ==> window_is_datable(
                (#[trigger] setting.deep_view().windows[i]),
            ),
    ensures
        r.deep_view() == quota_minutes(quotas.deep_view(), setting.deep_view()),
{
    let ghost all = quotas.deep_view();
    let mut minutes: OrderedMap<(i64, String), MinuteBucket> = OrderedMap::new();
    let mut i: usize = 0;
    while i < quotas.len()
        invariant
            i <= quotas@.len(),
            all == quotas.deep_view(),
            forall|i: int|
                0 <= i < quotas@.len() ==> is_datable((#[trigger] all[i]).first_seen_at_ms),
            forall|i: int|
                0 <= i < setting.windows@.len() ==> window_is_datable(
                    (#[trigger] setting.deep_view().windows[i]),
                ),
            minutes.deep_view() == quota_minutes(all.take(i as int), setting.deep_view()),
        decreases quotas@.len() - i,
    {
        assert(all.take(i + 1).drop_last() =~= all.take(i as int));
        assert(all.take(i + 1).last() == quotas@[i as int].deep_view());
        assert(is_datable(all[i as int].first_seen_at_ms));
        add_quota(&mut minutes, &quotas[i], setting);
        i = i + 1;
    }
    assert(all.take(i as int) =~= all);
    minutes
}

fn empty_windows(windows: &Vec<WindowSegment>) -> (r: OrderedMap<String, WindowAggregate>)
    ensures
        r.deep_view() == fresh_windows(windows.deep_view()),
{
    let ghost all = windows.deep_view();
    let mut r: OrderedMap<String, WindowAggregate> = OrderedMap::new();
    let mut i: usize = 0;
    while i < windows.len()
        invariant
            i <= windows@.len(),
            all == windows.deep_view(),
            r.deep_view() == fresh_windows(all.take(i as int)),
        decreases windows@.len() - i,
    {
        assert(all.take(i + 1).drop_last() =~= all.take(i as int));
        assert(all.take(i + 1).last() == windows@[i as int].deep_view());
        let mut window = WindowAggregate::default();
        window.segment = windows[i].copy();
        r.put(windows[i].id.clone(), window);
        i = i + 1;
    }
    assert(all.take(i as int) =~= all);
    r
}

fn add_rise(rises: &mut Vec<Rise>, previous: Option<Float>, percent: Float)
    ensures
        final(rises)@ == with_rise(old(rises)@, previous, percent),
{
    if let Some(previous) = previous {
        if percent.rank >= previous.rank {
            rises.push(Rise { from: previous, to: percent });
        }
    }
}

struct OfficialScan {
    days: OrderedMap<String, DayAggregate>,
    windows: OrderedMap<String, WindowAggregate>,
    last: OrderedMap<(String, String), Float>,
    resets: TextSet,
}

impl DeepView for OfficialScan {
    type V = OfficialScanView;

    closed spec fn deep_view(&self) -> OfficialScanView {
        OfficialScanView {
            days: self.days.deep_view(),
            windows: self.windows.deep_view(),
            last: self.last.deep_view(),
            resets: self.resets.deep_view(),
        }
    }
}

fn mark_window(windows: &mut OrderedMap<String, WindowAggregate>, id: &String, percent: Float)
    ensures
        final(windows).deep_view() == windows_with_percent(old(windows).deep_view(), id@, percent),
{
    if windows.get(id).is_some() {
        let window = windows.entry(id.clone(), WindowAggregate::default());
        if window.official_start.is_none() {
            window.official_start = Some(percent);
        }
        let previous = window.official_end;
        add_rise(&mut window.rises, previous, percent);
        window.official_end = Some(percent);
    }
}

fn empty_day(date: &String) -> (r: DayAggregate)
    ensures
        r.deep_view() == held_day(Seq::empty(), date@),
{
    let mut day = DayAggregate::default();
    day.local_date = date.clone();
    day
}

fn add_official(scan: &mut OfficialScan, bucket: &MinuteBucket)
    ensures
        final(scan).deep_view() == with_official(old(scan).deep_view(), bucket.deep_view()),
{
    if let (Some(official), Some(id)) = (&bucket.official, &bucket.window_id) {
        let percent = official.percent;
        mark_window(&mut scan.windows, id, percent);
        if !holds(&bucket.window_kind, "primary") {
            return ;
        }
        let date = &bucket.local_date;
        let key = (date.clone(), id.clone());
        let previous: Option<Float> = match scan.last.get(&key) {
            Some(previous) => Some(*previous),
            None => None,
        };
        scan.last.put(key, percent);
        let mut added = false;
        if bucket.reset_marker {
            let mut reset = date.clone();
            reset.append(":");
            reset.append(id.as_str());
            added = scan.resets.insert(reset.as_str());
        }
        let day = scan.days.entry(date.clone(), empty_day(date));
        if day.official_start.is_none() {
            day.official_start = Some(percent);
        }
        day.official_end = Some(percent);
        add_rise(&mut day.rises, previous, percent);
        if added {
            day.reset_count = saturating_add(day.reset_count, 1);
        }
    }
}

fn scan_official(
    minutes: &OrderedMap<(i64, String), MinuteBucket>,
    windows: &Vec<WindowSegment>,
) -> (r: OfficialScan)
    ensures
        r.deep_view() == official_scan(minutes.deep_view(), windows.deep_view()),
{
    let ghost all = minutes.deep_view();
    let mut scan = OfficialScan {
        days: OrderedMap::new(),
        windows: empty_windows(windows),
        last: OrderedMap::new(),
        resets: TextSet::new(),
    };
    assert(scan.deep_view() =~= official_scan(all.take(0), windows.deep_view()));
    let mut i: usize = 0;
    while i < minutes.entries.len()
        invariant
            i <= minutes.entries@.len(),
            all == minutes.deep_view(),
            scan.deep_view() == official_scan(all.take(i as int), windows.deep_view()),
        decreases minutes.entries@.len() - i,
    {
        assert(all.take(i + 1).drop_last() =~= all.take(i as int));
        assert(all.take(i + 1).last() == minutes.entries@[i as int].deep_view());
        add_official(&mut scan, &minutes.entries[i].1);
        i = i + 1;
    }
    assert(all.take(i as int) =~= all);
    scan
}

fn mark_usage(bucket: &mut MinuteBucket, usage: &UsageRecord, price: &Price, account: &AccountContext)
    ensures
        final(bucket).deep_view() == minute_with_usage(
            old(bucket).deep_view(),
            usage.deep_view(),
            price.deep_view(),
            account.deep_view(),
        ),
{
    bucket.account_key = first_of(&bucket.account_key, &account.account_key);
    if let Some(plan) = effective_plan_type(usage) {
        let differs = match &bucket.plan_type {
            Some(held) => !same(held.as_str(), plan.as_str()),
            None => false,
        };
        if differs {
            bucket.quality.insert("mixed_plan");
        }
        bucket.plan_type = Some(plan);
    }
    let provider = first_of(&bucket.provider, &usage.provider);
    bucket.provider = first_of(&provider, &account.provider);
    bucket.metric.add_usage(usage, price);
}

fn add_to_window(
    windows: &mut OrderedMap<String, WindowAggregate>,
    id: &Option<String>,
    usage: &UsageRecord,
    price: &Price,
    setting: &Setting,
)
    ensures
        final(windows).deep_view() == windows_with_usage(
            old(windows).deep_view(),
            id.deep_view(),
            usage.deep_view(),
            price.deep_view(),
            setting.deep_view(),
        ),
{
    if let Some(id) = id {
        if windows.get(id).is_some() {
            let window = windows.entry(id.clone(), WindowAggregate::default());
            window.metric.add_usage(usage, price);
            add_plan_metric(
                &mut window.plans,
                usage,
                price,
                &setting.account,
                &setting.capacities,
            );
            window.quality.extend(&price.quality);
        }
    }
}

fn find_named_turn<'a>(turns: &'a Vec<TurnRecord>, id: &str) -> (r: Option<&'a TurnRecord>)
    ensures
        r.deep_view() == turn_named(turns.deep_view(), id@),
{
    let ghost all = turns.deep_view();
    assert(all.skip(0) =~= all);
    let mut i: usize = 0;
    while i < turns.len()
        invariant
            i <= turns@.len(),
            all == turns.deep_view(),
            turn_named(all, id@) == turn_named(all.skip(i as int), id@),
        decreases turns@.len() - i,
    {
        assert(all.skip(i as int)[0] == turns@[i as int].deep_view());
        assert(all.skip(i as int).skip(1) =~= all.skip(i + 1));
        if same(turns[i].id.as_str(), id) {
            return Some(&turns[i]);
        }
        i = i + 1;
    }
    None
}

fn session_name(usage: &UsageRecord) -> (r: String)
    ensures
        r@ == session_of(usage.deep_view()),
{
    match &usage.session_id {
        Some(id) => id.clone(),
        None => "unknown-session".to_owned(),
    }
}

fn root_name(usage: &UsageRecord) -> (r: String)
    ensures
        r@ == root_of_usage(usage.deep_view()),
{
    match &usage.root_session_id {
        Some(id) => id.clone(),
        None => session_name(usage),
    }
}

fn find_usage_turn<'a>(
    usage: &UsageRecord,
    turns: &'a OrderedMap<String, Vec<TurnRecord>>,
) -> (r: Option<&'a TurnRecord>)
    ensures
        r.deep_view() == turn_of_usage(usage.deep_view(), turns.deep_view()),
{
    match turns.get(&session_name(usage)) {
        Some(turns) => {
            if let Some(id) = &usage.turn_id {
                if let Some(turn) = find_named_turn(turns, id.as_str()) {
                    return Some(turn);
                }
            }
            find_turn(turns, usage.observed_at_ms)
        },
        None => None,
    }
}

fn cut_slice(
    usage: &UsageRecord,
    turn: Option<&TurnRecord>,
    date: &str,
    segment: Option<&WindowSegment>,
) -> (r: Slice)
    ensures
        r.deep_view() == slice_of(
            usage.deep_view(),
            turn.deep_view(),
            date@,
            segment.deep_view(),
        ),
{
    let mut start: i64 = day_start_ms(date);
    let mut end: i64 = day_end_ms(date);
    if let Some(segment) = segment {
        start = max_i64(start, segment.start_at_ms);
        if let Some(reset) = segment.reset_at_ms {
            end = min_i64(end, reset);
        }
    }
    match turn {
        Some(turn) => {
            let mut crosses_boundary = false;
            let mut started_at_ms: i64 = usage.observed_at_ms;
            if let Some(started) = turn.started {
                started_at_ms = started;
                crosses_boundary = started < start;
            }
            let mut ended_at_ms: Option<i64> = None;
            if let Some(ended) = turn.ended {
                ended_at_ms = Some(min_i64(ended, end));
                crosses_boundary = crosses_boundary || ended > end;
            }
            Slice {
                turn_id: match &usage.turn_id {
                    Some(id) => Some(id.clone()),
                    None => Some(turn.id.clone()),
                },
                started_at_ms: max_i64(started_at_ms, start),
                ended_at_ms,
                crosses_boundary,
            }
        },
        None => Slice {
            turn_id: copy_option(&usage.turn_id),
            started_at_ms: max_i64(usage.observed_at_ms, start),
            ended_at_ms: None,
            crosses_boundary: false,
        },
    }
}

fn key_of_session(
    root: &str,
    turn_id: &Option<String>,
    date: &str,
    window_id: &Option<String>,
) -> (r: String)
    ensures
        r@ == session_key(root@, turn_id.deep_view(), date@, window_id.deep_view()),
{
    let mut key = root.to_owned();
    key.append(":");
    key.append(
        match turn_id {
            Some(id) => id.as_str(),
            None => "unknown",
        },
    );
    key.append(":");
    key.append(date);
    key.append(":");
    key.append(
        match window_id {
            Some(id) => id.as_str(),
            None => "none",
        },
    );
    key
}

fn title(sessions: &OrderedMap<String, SessionMeta>, id: &String) -> (r: Option<String>)
    ensures
        r.deep_view() == title_of(sessions.deep_view(), id@),
{
    match sessions.get(id) {
        Some(meta) => copy_option(&meta.title),
        None => None,
    }
}

fn relation(sessions: &OrderedMap<String, SessionMeta>, id: &String) -> (r: Option<String>)
    ensures
        r.deep_view() == relation_of(sessions.deep_view(), id@),
{
    match sessions.get(id) {
        Some(meta) => copy_option(&meta.relation),
        None => None,
    }
}

fn empty_session(
    usage: &UsageRecord,
    bucket: &MinuteBucket,
    slice: &Slice,
    segment: Option<&WindowSegment>,
    sessions: &OrderedMap<String, SessionMeta>,
) -> (r: SessionAggregate)
    ensures
        r.deep_view() == fresh_session(
            usage.deep_view(),
            bucket.deep_view(),
            slice.deep_view(),
            segment.deep_view(),
            sessions.deep_view(),
        ),
{
    let session_id = session_name(usage);
    let root = root_name(usage);
    let mut session = SessionAggregate::default();
    session.local_date = bucket.local_date.clone();
    session.root_session_id = copy_option(&usage.root_session_id);
    session.turn_id = copy_option(&slice.turn_id);
    session.title = first_of(&title(sessions, &root), &title(sessions, &session_id));
    let told = first_of(&usage.relation, &relation(sessions, &session_id));
    session.relation = match told {
        Some(relation) => Some(relation),
        None => if same(session_id.as_str(), root.as_str()) {
            Some("main".to_owned())
        } else {
            Some("child".to_owned())
        },
    };
    session.started_at_ms = Some(slice.started_at_ms);
    session.ended_at_ms = slice.ended_at_ms;
    session.window_id = window_id(segment);
    session.account_key = copy_option(&bucket.account_key);
    session.plan_type = effective_plan_type(usage);
    session.provider = copy_option(&bucket.provider);
    session.observed_start_ms = Some(usage.observed_at_ms);
    session.observed_end_ms = Some(usage.observed_at_ms);
    session.session_id = Some(session_id);
    session
}

fn text_or_unknown(text: &Option<String>) -> (r: String)
    ensures
        r@ == crate::text::text_or(text.deep_view(), "unknown"@),
{
    match text {
        Some(text) => text.clone(),
        None => "unknown".to_owned(),
    }
}

fn mark_session(session: &mut SessionAggregate, usage: &UsageRecord, price: &Price, slice: &Slice)
    ensures
        final(session).deep_view() == session_with_usage(
            old(session).deep_view(),
            usage.deep_view(),
            price.deep_view(),
            slice.deep_view(),
        ),
{
    if usage.root_session_id.is_none() {
        session.quality.insert("root_unresolved");
    }
    if slice.crosses_boundary {
        session.quality.insert("split_boundary");
    }
    session.metric.add_usage(usage, price);
    session.quality.extend(&price.quality);
    if let Some(model) = &usage.model {
        let tier = text_or_unknown(&usage.tier);
        session.tiers.insert(tier.as_str());
        let key = (model.clone(), (tier, text_or_unknown(&usage.reasoning_effort)));
        assert(key.deep_view() == model_key(usage.deep_view()));
        let metric = session.models.entry(key, Metric::default());
        metric.add_usage(usage, price);
    } else {
        session.quality.insert("missing_model");
    }
    session.started_at_ms = min_option(session.started_at_ms, Some(slice.started_at_ms));
    session.ended_at_ms = max_option(session.ended_at_ms, slice.ended_at_ms);
    session.observed_start_ms = min_option(session.observed_start_ms, Some(usage.observed_at_ms));
    session.observed_end_ms = max_option(session.observed_end_ms, Some(usage.observed_at_ms));
}

fn add_to_session(
    sessions: &mut OrderedMap<String, SessionAggregate>,
    usage: &UsageRecord,
    price: &Price,
    bucket: &MinuteBucket,
    segment: Option<&WindowSegment>,
    setting: &Setting,
)
    ensures
        final(sessions).deep_view() == sessions_with_usage(
            old(sessions).deep_view(),
            usage.deep_view(),
            price.deep_view(),
            bucket.deep_view(),
            segment.deep_view(),
            setting.deep_view(),
        ),
{
    let turn = find_usage_turn(usage, &setting.turns);
    let slice = cut_slice(usage, turn, bucket.local_date.as_str(), segment);
    let key = key_of_session(
        root_name(usage).as_str(),
        &slice.turn_id,
        bucket.local_date.as_str(),
        &window_id(segment),
    );
    let session = sessions.entry(
        key,
        empty_session(usage, bucket, &slice, segment, &setting.sessions),
    );
    mark_session(session, usage, price, &slice);
}

fn add_request(rollup: &mut Rollup, usage: &UsageRecord, setting: &Setting)
    requires
        is_datable(usage.observed_at_ms),
    ensures
        final(rollup).deep_view() == with_request(
            old(rollup).deep_view(),
            usage.deep_view(),
            setting.deep_view(),
        ),
{
    let minute: i64 = minute_start(usage.observed_at_ms);
    let segment = find_usage_window(&setting.windows, usage.observed_at_ms);
    proof {
        lemma_minute_keeps_date(usage.observed_at_ms);
    }
    let price = price(
        &usage.tokens,
        borrowed(&usage.model),
        borrowed(&usage.tier),
        usage.observed_at_ms,
        setting.configured,
    );
    let bucket = rollup.minutes.entry(
        key_of_minute(minute, segment),
        empty_minute(minute, segment, &setting.account),
    );
    mark_usage(bucket, usage, &price, &setting.account);
    let date = bucket.local_date.clone();
    let day = rollup.days.entry(date.clone(), empty_day(&date));
    day.metric.add_usage(usage, &price);
    day.quality.extend(&price.quality);
    add_plan_metric(&mut day.plans, usage, &price, &setting.account, &setting.capacities);
    add_to_window(&mut rollup.windows, &window_id(segment), usage, &price, setting);
    add_to_session(&mut rollup.sessions, usage, &price, bucket, segment, setting);
}

fn finish_day(day: &mut DayAggregate)
    ensures
        final(day).deep_view() == finished_day(old(day).deep_view()),
{
    if day.plans.entries.len() > 1 {
        day.quality.insert("mixed_plan");
    }
    if let Some(flag) = day.metric.quality_flags() {
        day.quality.insert(flag);
    }
    if day.metric.credit().is_none() && day.metric.has_usage {
        day.quality.insert("missing_pricing");
    }
    day.quality.extend(&day.metric.quality.items);
}

fn finish_days(days: OrderedMap<String, DayAggregate>) -> (r: OrderedMap<String, DayAggregate>)
    ensures
        r.deep_view() == finished_days(days.deep_view()),
{
    let ghost all = days.deep_view();
    let ghost expected = finished_days(all);
    let mut entries: Vec<(String, DayAggregate)> = Vec::new();
    for entry in it: days.entries
        invariant
            it.seq().len() == all.len(),
            expected == finished_days(all),
            forall|k: int| 0 <= k < all.len() ==> (#[trigger] it.seq()[k]).deep_view() == all[k],
            entries.deep_view() == expected.take(it.index()),
    {
        let ghost before = entries.deep_view();
        let ghost n = it.index();
        let (date, day) = entry;
        let mut day = day;
        finish_day(&mut day);
        entries.push((date, day));
        assert(entries.deep_view() =~= before.push(expected[n]));
        assert(entries.deep_view() =~= expected.take(n + 1));
    }
    assert(expected.take(expected.len() as int) =~= expected);
    OrderedMap { entries }
}

/// Gathers what quotas and requests tell.
pub fn roll_up(usages: &Vec<UsageRecord>, quotas: &Vec<QuotaObservation>, setting: &Setting) -> (r:
    Rollup)
    requires
        are_datable(usages.deep_view(), quotas.deep_view(), setting.deep_view().windows),
    ensures
        r.deep_view() == rolled_up(usages.deep_view(), quotas.deep_view(), setting.deep_view()),
{
    let ghost all = usages.deep_view();
    let ghost context = setting.deep_view();
    let minutes = gather_quotas(quotas, setting);
    let scan = scan_official(&minutes, &setting.windows);
    let mut rollup = Rollup {
        minutes,
        days: scan.days,
        windows: scan.windows,
        sessions: OrderedMap::new(),
    };
    assert(rollup.deep_view() =~= gathered(all.take(0), quotas.deep_view(), context));
    let mut i: usize = 0;
    while i < usages.len()
        invariant
            i <= usages@.len(),
            all == usages.deep_view(),
            context == setting.deep_view(),
            are_datable(all, quotas.deep_view(), context.windows),
            rollup.deep_view() == gathered(all.take(i as int), quotas.deep_view(), context),
        decreases usages@.len() - i,
    {
        assert(all.take(i + 1).drop_last() =~= all.take(i as int));
        assert(all.take(i + 1).last() == usages@[i as int].deep_view());
        assert(is_datable(all[i as int].observed_at_ms));
        add_request(&mut rollup, &usages[i], setting);
        i = i + 1;
    }
    assert(all.take(i as int) =~= all);
    Rollup {
        minutes: rollup.minutes,
        days: finish_days(rollup.days),
        windows: rollup.windows,
        sessions: rollup.sessions,
    }
}

} // verus!
