//! Quota windows, told apart by their resets.
use crate::json::Float;
use crate::num::{clamp_i64, larger, max_i64, saturating_sub};
use crate::ordered::{inserted, lookup, put, sort, sorted, OrderedMap, Ranking};
use crate::pipelines::result::materialize::records::{
    QuotaObservation, QuotaObservationView, TurnRecord, TurnRecordView, WindowSegment,
    WindowSegmentView,
};
use crate::text::{
    copy_option, first_some, holds, natural, natural_text, same, same_option, text_or,
};
use vstd::prelude::*;
use vstd::string::*;

verus! {

/// How far a reset must move, in milliseconds, to be another reset.
pub const RESET_TIME_JITTER_MS: i64 = 300_000;

/// What the windows of one quota have in common.
pub open spec fn group_key(
    account_key: Option<Seq<char>>,
    limit_id: Option<Seq<char>>,
    window_kind: Seq<char>,
) -> Seq<char> {
    text_or(account_key, "unknown"@) + ":"@ + text_or(limit_id, "unknown"@) + ":"@ + window_kind
}

pub open spec fn group_of_quota(quota: QuotaObservationView) -> Seq<char> {
    group_key(quota.account_key, quota.limit_id, quota.window_kind)
}

pub open spec fn group_of_window(window: WindowSegmentView) -> Seq<char> {
    group_key(window.account_key, window.limit_id, window.window_kind)
}

/// Whether a quota is the main window of the account's stable limit.
pub open spec fn is_canonical(quota: QuotaObservationView) -> bool {
    quota.window_kind == "primary"@ && quota.limit_id == Some("codex"@)
}

/// Whether an account has a main window of the stable limit.
pub open spec fn has_canonical(
    quotas: Seq<QuotaObservationView>,
    account_key: Option<Seq<char>>,
) -> bool {
    exists|i: int|
        0 <= i < quotas.len() && is_canonical(#[trigger] quotas[i]) && quotas[i].account_key
            == account_key
}

/// Whether a quota counts: not where it is a main window of another limit than the stable one of an
/// account that has the stable one.
pub open spec fn is_retained(
    quotas: Seq<QuotaObservationView>,
    quota: QuotaObservationView,
) -> bool {
    quota.window_kind != "primary"@ || quota.limit_id == Some("codex"@) || !has_canonical(
        quotas,
        quota.account_key,
    )
}

/// By when a quota was first seen, then when last, then the rank of its source.
pub struct ByTime;

impl Ranking<QuotaObservation> for ByTime {
    open spec fn later(a: QuotaObservationView, b: QuotaObservationView) -> bool {
        a.first_seen_at_ms > b.first_seen_at_ms || (a.first_seen_at_ms == b.first_seen_at_ms && (
        a.last_seen_at_ms > b.last_seen_at_ms || (a.last_seen_at_ms == b.last_seen_at_ms
            && a.priority > b.priority)))
    }

    fn is_later(a: &QuotaObservation, b: &QuotaObservation) -> (r: bool) {
        a.first_seen_at_ms > b.first_seen_at_ms || (a.first_seen_at_ms == b.first_seen_at_ms && (
        a.last_seen_at_ms > b.last_seen_at_ms || (a.last_seen_at_ms == b.last_seen_at_ms
            && a.priority > b.priority)))
    }
}

/// By when a window starts.
pub struct ByStart;

impl Ranking<WindowSegment> for ByStart {
    open spec fn later(a: WindowSegmentView, b: WindowSegmentView) -> bool {
        a.start_at_ms > b.start_at_ms
    }

    fn is_later(a: &WindowSegment, b: &WindowSegment) -> (r: bool) {
        a.start_at_ms > b.start_at_ms
    }
}

/// Quotas by their groups, in the order of the keys; within a group in the order in which they
/// come.
pub open spec fn grouped(quotas: Seq<QuotaObservationView>) -> Seq<
    (Seq<char>, Seq<QuotaObservationView>),
>
    decreases quotas.len(),
{
    if quotas.len() == 0 {
        Seq::empty()
    } else {
        let groups = grouped(quotas.drop_last());
        let quota = quotas.last();
        let members = match lookup::<String, Seq<QuotaObservationView>>(
            groups,
            group_of_quota(quota),
        ) {
            Some(members) => members,
            None => Seq::empty(),
        };
        put::<String, Seq<QuotaObservationView>>(
            groups,
            group_of_quota(quota),
            members.push(quota),
        )
    }
}

/// The later of two resets, as far as they are known.
pub open spec fn later_reset(previous: Option<i64>, incoming: Option<i64>) -> Option<i64> {
    match (previous, incoming) {
        (Some(a), Some(b)) => Some(larger(a as int, b as int) as i64),
        (Some(a), None) => Some(a),
        (None, b) => b,
    }
}

/// The higher of two percentages, as far as they are known.
pub open spec fn higher_percent(previous: Option<Float>, incoming: Option<Float>) -> Option<Float> {
    match (previous, incoming) {
        (Some(a), Some(b)) => Some(
            if b.rank > a.rank {
                b
            } else {
                a
            },
        ),
        (Some(a), None) => Some(a),
        (None, b) => b,
    }
}

/// Whether a quota was reset since: its percentage fell by more than five, and its reset moved.
pub open spec fn was_reset(
    previous_percent: Option<Float>,
    previous_reset: Option<i64>,
    quota: QuotaObservationView,
) -> bool {
    &&& previous_percent is Some && quota.used_percent is Some
    &&& quota.used_percent->0.raised < previous_percent->0.rank
    &&& previous_reset is Some && quota.resets_at_ms is Some
    &&& clamp_i64(quota.resets_at_ms->0 - previous_reset->0) > RESET_TIME_JITTER_MS
}

/// The windows of a group as far as its quotas were read.
#[verifier::ext_equal]
pub struct GroupScanView {
    pub done: Seq<WindowSegmentView>,
    pub current: Option<WindowSegmentView>,
    pub previous_percent: Option<Float>,
    pub previous_reset: Option<i64>,
}

/// The windows of a group as far as its quotas were read.
pub struct GroupScan {
    done: Vec<WindowSegment>,
    current: Option<WindowSegment>,
    previous_percent: Option<Float>,
    previous_reset: Option<i64>,
}

impl DeepView for GroupScan {
    type V = GroupScanView;

    closed spec fn deep_view(&self) -> GroupScanView {
        GroupScanView {
            done: self.done.deep_view(),
            current: self.current.deep_view(),
            previous_percent: self.previous_percent,
            previous_reset: self.previous_reset,
        }
    }
}

/// A window that ends where the next one was first seen.
pub open spec fn closed_at(window: WindowSegmentView, at: i64) -> WindowSegmentView {
    WindowSegmentView {
        reset_at_ms: if window.start_at_ms < at {
            Some(at)
        } else {
            window.reset_at_ms
        },
        ..window
    }
}

/// The windows of a group after one more quota.
pub open spec fn scan_step(
    group: Seq<char>,
    scan: GroupScanView,
    quota: QuotaObservationView,
) -> GroupScanView {
    match scan.current {
        Some(window) if !was_reset(scan.previous_percent, scan.previous_reset, quota) => {
            GroupScanView {
                done: scan.done,
                current: Some(
                    WindowSegmentView {
                        account_key: first_some(window.account_key, quota.account_key),
                        reset_at_ms: later_reset(window.reset_at_ms, quota.resets_at_ms),
                        window_minutes: first_some(quota.window_minutes, window.window_minutes),
                        plan_type: first_some(window.plan_type, quota.plan_type),
                        ..window
                    },
                ),
                previous_percent: higher_percent(scan.previous_percent, quota.used_percent),
                previous_reset: later_reset(scan.previous_reset, quota.resets_at_ms),
            }
        },
        _ => {
            let done = match scan.current {
                Some(window) => scan.done.push(closed_at(window, quota.first_seen_at_ms)),
                None => scan.done,
            };
            GroupScanView {
                done,
                current: Some(
                    WindowSegmentView {
                        id: "window:"@ + group + ":"@ + natural_text(done.len()),
                        account_key: quota.account_key,
                        limit_id: quota.limit_id,
                        window_kind: quota.window_kind,
                        start_at_ms: quota.first_seen_at_ms,
                        reset_at_ms: quota.resets_at_ms,
                        window_minutes: quota.window_minutes,
                        plan_type: quota.plan_type,
                        ordinal: done.len() as usize,
                    },
                ),
                previous_percent: quota.used_percent,
                previous_reset: later_reset(scan.previous_reset, quota.resets_at_ms),
            }
        },
    }
}

/// The state before the first quota of a group.
pub open spec fn scan_start() -> GroupScanView {
    GroupScanView {
        done: Seq::empty(),
        current: None,
        previous_percent: None,
        previous_reset: None,
    }
}

/// The windows of a group after its quotas.
pub open spec fn scan_all(group: Seq<char>, quotas: Seq<QuotaObservationView>) -> GroupScanView
    decreases quotas.len(),
{
    if quotas.len() == 0 {
        scan_start()
    } else {
        scan_step(group, scan_all(group, quotas.drop_last()), quotas.last())
    }
}

/// The windows of a group whose quotas are read in the order of time.
pub open spec fn windows_of_group(group: Seq<char>, quotas: Seq<QuotaObservationView>) -> Seq<
    WindowSegmentView,
> {
    let scan = scan_all(group, sorted::<QuotaObservation, ByTime>(quotas));
    match scan.current {
        Some(window) => scan.done.push(window),
        None => scan.done,
    }
}

/// The windows of groups, one group after the other.
pub open spec fn windows_of_groups(
    groups: Seq<(Seq<char>, Seq<QuotaObservationView>)>,
) -> Seq<WindowSegmentView>
    decreases groups.len(),
{
    if groups.len() == 0 {
        Seq::empty()
    } else {
        windows_of_groups(groups.drop_last()) + windows_of_group(groups.last().0, groups.last().1)
    }
}

/// The place of the next window of the group of window `i`, at or after `from`.
pub open spec fn next_in_group(windows: Seq<WindowSegmentView>, i: int, from: int) -> Option<int>
    decreases windows.len() - from,
{
    if from < 0 || from >= windows.len() {
        None
    } else if group_of_window(windows[from]) == group_of_window(windows[i]) {
        Some(from)
    } else {
        next_in_group(windows, i, from + 1)
    }
}

/// Windows each of which ends, at the latest, where the next one of its group starts.
pub open spec fn clipped(windows: Seq<WindowSegmentView>) -> Seq<WindowSegmentView> {
    Seq::new(
        windows.len(),
        |i: int|
            WindowSegmentView {
                reset_at_ms: match (windows[i].reset_at_ms, next_in_group(windows, i, i + 1)) {
                    (Some(reset), Some(next)) if reset > windows[next].start_at_ms => Some(
                        windows[next].start_at_ms,
                    ),
                    _ => windows[i].reset_at_ms,
                },
                ..windows[i]
            },
    )
}

/// Windows in the order of their starts, those of one group apart from each other.
pub open spec fn disjoint(windows: Seq<WindowSegmentView>) -> Seq<WindowSegmentView> {
    clipped(sorted::<WindowSegment, ByStart>(windows))
}

/// The windows that quotas tell.
pub open spec fn windows_of(quotas: Seq<QuotaObservationView>) -> Seq<WindowSegmentView> {
    disjoint(windows_of_groups(grouped(quotas)))
}

/// Whether windows stand in the order of their starts.
pub open spec fn starts_ordered(windows: Seq<WindowSegmentView>) -> bool {
    forall|i: int, j: int|
        0 <= i < j < windows.len() ==> (#[trigger] windows[i]).start_at_ms <= (
        #[trigger] windows[j]).start_at_ms
}

proof fn lemma_next_in_group(windows: Seq<WindowSegmentView>, i: int, from: int)
    requires
        0 <= from,
    ensures
        match next_in_group(windows, i, from) {
            Some(next) => from <= next < windows.len() && group_of_window(windows[next])
                == group_of_window(windows[i]) && forall|k: int|
                from <= k < next ==> group_of_window(#[trigger] windows[k]) != group_of_window(
                    windows[i],
                ),
            None => forall|k: int|
                from <= k < windows.len() ==> group_of_window(#[trigger] windows[k])
                    != group_of_window(windows[i]),
        },
    decreases windows.len() - from,
{
    if from < windows.len() && group_of_window(windows[from]) != group_of_window(windows[i]) {
        lemma_next_in_group(windows, i, from + 1);
    }
}

proof fn lemma_insert_keeps_order(s: Seq<WindowSegmentView>, x: WindowSegmentView)
    requires
        starts_ordered(s),
    ensures
        starts_ordered(inserted::<WindowSegment, ByStart>(s, x)),
        forall|i: int|
            0 <= i < inserted::<WindowSegment, ByStart>(s, x).len() ==> (
            #[trigger] inserted::<WindowSegment, ByStart>(s, x)[i]).start_at_ms <= larger(
                if s.len() > 0 {
                    s.last().start_at_ms as int
                } else {
                    x.start_at_ms as int
                },
                x.start_at_ms as int,
            ),
    decreases s.len(),
{
    if s.len() > 0 && s.last().start_at_ms > x.start_at_ms {
        let shorter = s.drop_last();
        assert(starts_ordered(shorter)) by {
            assert forall|i: int, j: int| 0 <= i < j < shorter.len() implies (
            #[trigger] shorter[i]).start_at_ms <= (#[trigger] shorter[j]).start_at_ms by {
                assert(shorter[i] == s[i] && shorter[j] == s[j]);
            }
        }
        lemma_insert_keeps_order(shorter, x);
        if shorter.len() > 0 {
            assert(s[shorter.len() - 1].start_at_ms <= s[s.len() - 1].start_at_ms);
        }
    }
}

proof fn lemma_sorted_by_start(s: Seq<WindowSegmentView>)
    ensures
        starts_ordered(sorted::<WindowSegment, ByStart>(s)),
    decreases s.len(),
{
    if s.len() > 0 {
        lemma_sorted_by_start(s.drop_last());
        lemma_insert_keeps_order(sorted::<WindowSegment, ByStart>(s.drop_last()), s.last());
    }
}

/// The windows of one quota do not overlap: a window that has an end ends before those of its group
/// start that come after it.
pub proof fn lemma_windows_do_not_overlap(quotas: Seq<QuotaObservationView>, i: int, j: int)
    requires
        0 <= i < j < windows_of(quotas).len(),
        group_of_window(windows_of(quotas)[i]) == group_of_window(windows_of(quotas)[j]),
        windows_of(quotas)[i].reset_at_ms is Some,
    ensures
        windows_of(quotas)[i].reset_at_ms->0 <= windows_of(quotas)[j].start_at_ms,
        windows_of(quotas)[i].start_at_ms <= windows_of(quotas)[j].start_at_ms,
{
    let raw = windows_of_groups(grouped(quotas));
    let windows = sorted::<WindowSegment, ByStart>(raw);
    lemma_sorted_by_start(raw);
    lemma_next_in_group(windows, i, i + 1);
    let next = next_in_group(windows, i, i + 1);
    assert(group_of_window(windows[j]) == group_of_window(windows[i]));
    assert(next is Some && next->0 <= j);
    assert(windows[next->0].start_at_ms <= windows[j].start_at_ms);
}

/// The place of the window that starts last among those flagged that start at or before `at`; of
/// several that start together, that of the last.
pub open spec fn latest_started(
    windows: Seq<WindowSegmentView>,
    flags: Seq<bool>,
    at: i64,
) -> Option<int>
    decreases windows.len(),
{
    if windows.len() == 0 {
        None
    } else {
        let rest = latest_started(windows.drop_last(), flags, at);
        let n = windows.len() - 1;
        let better = match rest {
            Some(i) => windows[i].start_at_ms <= windows[n].start_at_ms,
            None => true,
        };
        if flags[n] && windows[n].start_at_ms <= at && better {
            Some(n)
        } else {
            rest
        }
    }
}

/// The place of the first of the flagged windows that start first.
pub open spec fn earliest_started(windows: Seq<WindowSegmentView>, flags: Seq<bool>) -> Option<int>
    decreases windows.len(),
{
    if windows.len() == 0 {
        None
    } else {
        let rest = earliest_started(windows.drop_last(), flags);
        let n = windows.len() - 1;
        let better = match rest {
            Some(i) => windows[n].start_at_ms < windows[i].start_at_ms,
            None => true,
        };
        if flags[n] && better {
            Some(n)
        } else {
            rest
        }
    }
}

/// The flagged window in which `at` lies: the last that has started, else the first there is.
pub open spec fn window_at(
    windows: Seq<WindowSegmentView>,
    flags: Seq<bool>,
    at: i64,
) -> Option<WindowSegmentView> {
    match first_some(
        latest_started(windows, flags, at),
        earliest_started(windows, flags),
    ) {
        Some(i) => Some(windows[i]),
        None => None,
    }
}

/// The window that a quota belongs to.
pub open spec fn window_of_quota(
    windows: Seq<WindowSegmentView>,
    quota: QuotaObservationView,
) -> Option<WindowSegmentView> {
    window_at(
        windows,
        Seq::new(
            windows.len(),
            |i: int|
                windows[i].window_kind == quota.window_kind && windows[i].limit_id
                    == quota.limit_id && windows[i].account_key == quota.account_key,
        ),
        quota.first_seen_at_ms,
    )
}

/// Whether any window is a main one.
pub open spec fn has_primary(windows: Seq<WindowSegmentView>) -> bool {
    exists|i: int| 0 <= i < windows.len() && (#[trigger] windows[i]).window_kind == "primary"@
}

/// The window in which a request was made: a main one, where there are any.
pub open spec fn window_of_usage(windows: Seq<WindowSegmentView>, at: i64) -> Option<
    WindowSegmentView,
> {
    window_at(
        windows,
        Seq::new(
            windows.len(),
            |i: int| !has_primary(windows) || windows[i].window_kind == "primary"@,
        ),
        at,
    )
}

/// The window that holds an instant is a flagged one; where any flagged window has started by then,
/// it has started, and none that has started by then starts later.
pub proof fn lemma_latest_started(windows: Seq<WindowSegmentView>, flags: Seq<bool>, at: i64)
    requires
        flags.len() >= windows.len(),
    ensures
        match latest_started(windows, flags, at) {
            Some(i) => {
                &&& 0 <= i < windows.len() && flags[i] && windows[i].start_at_ms <= at
                &&& forall|j: int|
                    0 <= j < windows.len() && flags[j] && (#[trigger] windows[j]).start_at_ms <= at
                        ==> windows[j].start_at_ms <= windows[i].start_at_ms
            },
            None => forall|j: int|
                0 <= j < windows.len() && flags[j] ==> (#[trigger] windows[j]).start_at_ms > at,
        },
    decreases windows.len(),
{
    if windows.len() > 0 {
        let shorter = windows.drop_last();
        lemma_latest_started(shorter, flags, at);
        assert forall|j: int| 0 <= j < shorter.len() implies shorter[j] == #[trigger] windows[j] by {}
    }
}

proof fn lemma_earliest_started(windows: Seq<WindowSegmentView>, flags: Seq<bool>)
    requires
        flags.len() >= windows.len(),
    ensures
        match earliest_started(windows, flags) {
            Some(i) => 0 <= i < windows.len() && flags[i],
            None => forall|j: int| 0 <= j < windows.len() ==> !#[trigger] flags[j],
        },
    decreases windows.len(),
{
    if windows.len() > 0 {
        lemma_earliest_started(windows.drop_last(), flags);
    }
}

/// Where there are windows, every request is in one of them, and in a main one where there is one.
pub proof fn lemma_every_request_is_in_a_window(
    windows: Seq<WindowSegmentView>,
    at: i64,
) -> (place: int)
    requires
        windows.len() > 0,
    ensures
        0 <= place < windows.len(),
        window_of_usage(windows, at) == Some(windows[place]),
        has_primary(windows) ==> windows[place].window_kind == "primary"@,
{
    let flags = Seq::new(
        windows.len(),
        |i: int| !has_primary(windows) || windows[i].window_kind == "primary"@,
    );
    lemma_latest_started(windows, flags, at);
    lemma_earliest_started(windows, flags);
    let n = if has_primary(windows) {
        choose|i: int| 0 <= i < windows.len() && (#[trigger] windows[i]).window_kind == "primary"@
    } else {
        0
    };
    assert(flags[n]);
    match latest_started(windows, flags, at) {
        Some(i) => i,
        None => earliest_started(windows, flags)->0,
    }
}

/// Finds the key of a group.
pub fn quota_group_key(
    account_key: &Option<String>,
    limit_id: &Option<String>,
    window_kind: &str,
) -> (r: String)
    ensures
        r@ == group_key(account_key.deep_view(), limit_id.deep_view(), window_kind@),
{
    let mut key = match account_key {
        Some(key) => key.clone(),
        None => "unknown".to_owned(),
    };
    key.append(":");
    key.append(
        match limit_id {
            Some(id) => id.as_str(),
            None => "unknown",
        },
    );
    key.append(":");
    key.append(window_kind);
    key
}

fn account_has_canonical(quotas: &Vec<QuotaObservation>, account_key: &Option<String>) -> (r: bool)
    ensures
        r == has_canonical(quotas.deep_view(), account_key.deep_view()),
{
    let ghost all = quotas.deep_view();
    let mut i: usize = 0;
    while i < quotas.len()
        invariant
            i <= quotas@.len(),
            all == quotas.deep_view(),
            forall|k: int|
                0 <= k < i ==> !(is_canonical(#[trigger] all[k]) && all[k].account_key
                    == account_key.deep_view()),
        decreases quotas@.len() - i,
    {
        let quota = &quotas[i];
        assert(all[i as int] == quota.deep_view());
        if same(quota.window_kind.as_str(), "primary") && holds(&quota.limit_id, "codex")
            && same_option(&quota.account_key, account_key) {
            return true;
        }
        i = i + 1;
    }
    false
}

/// Keeps the quotas that count.
pub fn retain_canonical_primary_quotas(quotas: &Vec<QuotaObservation>) -> (r: Vec<
    QuotaObservation,
>)
    ensures
        r.deep_view() == quotas.deep_view().filter(
            |quota: QuotaObservationView| is_retained(quotas.deep_view(), quota),
        ),
{
    let ghost all = quotas.deep_view();
    let ghost kept = |quota: QuotaObservationView| is_retained(all, quota);
    let mut r: Vec<QuotaObservation> = Vec::new();
    let mut i: usize = 0;
    assert(all.take(0).filter(kept) =~= r.deep_view()) by {
        reveal(Seq::filter);
    }
    while i < quotas.len()
        invariant
            i <= quotas@.len(),
            all == quotas.deep_view(),
            kept == (|quota: QuotaObservationView| is_retained(all, quota)),
            r.deep_view() == all.take(i as int).filter(kept),
        decreases quotas@.len() - i,
    {
        let quota = &quotas[i];
        let ghost before = r.deep_view();
        proof {
            assert(all.take(i + 1).drop_last() =~= all.take(i as int));
            assert(all.take(i + 1).last() == quota.deep_view());
            reveal(Seq::filter);
        }
        let counts = !same(quota.window_kind.as_str(), "primary") || holds(
            &quota.limit_id,
            "codex",
        ) || !account_has_canonical(quotas, &quota.account_key);
        if counts {
            r.push(quota.copy());
            assert(r.deep_view() =~= before.push(quota.deep_view()));
        }
        i = i + 1;
    }
    assert(all.take(i as int) =~= all);
    r
}

/// The later of two resets.
pub fn merged_reset_at(previous: Option<i64>, incoming: Option<i64>) -> (r: Option<i64>)
    ensures
        r == later_reset(previous, incoming),
{
    match (previous, incoming) {
        (Some(a), Some(b)) => Some(max_i64(a, b)),
        (Some(a), None) => Some(a),
        (None, b) => b,
    }
}

fn higher(previous: Option<Float>, incoming: Option<Float>) -> (r: Option<Float>)
    ensures
        r == higher_percent(previous, incoming),
{
    match (previous, incoming) {
        (Some(a), Some(b)) => Some(
            if b.rank > a.rank {
                b
            } else {
                a
            },
        ),
        (Some(a), None) => Some(a),
        (None, b) => b,
    }
}

/// Whether a quota was reset since a percentage and a reset were seen.
pub fn valid_reset_transition(
    previous_percent: Option<Float>,
    previous_reset: Option<i64>,
    quota: &QuotaObservation,
) -> (r: bool)
    ensures
        r == was_reset(previous_percent, previous_reset, quota.deep_view()),
{
    let fell = match (previous_percent, quota.used_percent) {
        (Some(old_percent), Some(new_percent)) => new_percent.raised < old_percent.rank,
        _ => false,
    };
    let moved = match (previous_reset, quota.resets_at_ms) {
        (Some(old_reset), Some(new_reset)) => saturating_sub(new_reset, old_reset)
            > RESET_TIME_JITTER_MS,
        _ => false,
    };
    fell && moved
}

impl GroupScan {
    fn read(&mut self, group: &str, quota: &QuotaObservation)
        ensures
            final(self).deep_view() == scan_step(
                group@,
                old(self).deep_view(),
                quota.deep_view(),
            ),
    {
        let ghost before = self.deep_view();
        let reset = valid_reset_transition(self.previous_percent, self.previous_reset, quota);
        let held = self.current.take();
        match held {
            Some(window) if !reset => {
                self.current = Some(
                    WindowSegment {
                        account_key: match window.account_key {
                            Some(key) => Some(key),
                            None => copy_option(&quota.account_key),
                        },
                        reset_at_ms: merged_reset_at(window.reset_at_ms, quota.resets_at_ms),
                        window_minutes: match quota.window_minutes {
                            Some(minutes) => Some(minutes),
                            None => window.window_minutes,
                        },
                        plan_type: match window.plan_type {
                            Some(plan) => Some(plan),
                            None => copy_option(&quota.plan_type),
                        },
                        id: window.id,
                        limit_id: window.limit_id,
                        window_kind: window.window_kind,
                        start_at_ms: window.start_at_ms,
                        ordinal: window.ordinal,
                    },
                );
                self.previous_percent = higher(self.previous_percent, quota.used_percent);
            },
            other => {
                if let Some(window) = other {
                    let mut window = window;
                    if window.start_at_ms < quota.first_seen_at_ms {
                        window.reset_at_ms = Some(quota.first_seen_at_ms);
                    }
                    self.done.push(window);
                    assert(self.done.deep_view() =~= before.done.push(
                        closed_at(before.current->0, quota.first_seen_at_ms),
                    ));
                }
                let ordinal: usize = self.done.len();
                let mut id = "window:".to_owned();
                id.append(group);
                id.append(":");
                id.append(natural(ordinal).as_str());
                self.current = Some(
                    WindowSegment {
                        id,
                        account_key: copy_option(&quota.account_key),
                        limit_id: copy_option(&quota.limit_id),
                        window_kind: quota.window_kind.clone(),
                        start_at_ms: quota.first_seen_at_ms,
                        reset_at_ms: quota.resets_at_ms,
                        window_minutes: quota.window_minutes,
                        plan_type: copy_option(&quota.plan_type),
                        ordinal,
                    },
                );
                self.previous_percent = quota.used_percent;
            },
        }
        self.previous_reset = merged_reset_at(self.previous_reset, quota.resets_at_ms);
    }
}

fn scan_group(group: &str, quotas: Vec<QuotaObservation>) -> (r: Vec<WindowSegment>)
    ensures
        r.deep_view() == windows_of_group(group@, quotas.deep_view()),
{
    let values = sort::<QuotaObservation, ByTime>(quotas);
    let ghost all = values.deep_view();
    let mut scan = GroupScan {
        done: Vec::new(),
        current: None,
        previous_percent: None,
        previous_reset: None,
    };
    assert(scan.deep_view() =~= scan_all(group@, all.take(0)));
    let mut i: usize = 0;
    while i < values.len()
        invariant
            i <= values@.len(),
            all == values.deep_view(),
            scan.deep_view() == scan_all(group@, all.take(i as int)),
        decreases values@.len() - i,
    {
        assert(all.take(i + 1).drop_last() =~= all.take(i as int));
        assert(all.take(i + 1).last() == values@[i as int].deep_view());
        scan.read(group, &values[i]);
        i = i + 1;
    }
    assert(all.take(i as int) =~= all);
    let ghost ended = scan.deep_view();
    let mut r = scan.done;
    if let Some(window) = scan.current {
        r.push(window);
        assert(r.deep_view() =~= ended.done.push(ended.current->0));
    }
    r
}

fn group_quotas(quotas: &Vec<QuotaObservation>) -> (r: OrderedMap<String, Vec<QuotaObservation>>)
    ensures
        r.deep_view() == grouped(quotas.deep_view()),
{
    let ghost all = quotas.deep_view();
    let mut groups: OrderedMap<String, Vec<QuotaObservation>> = OrderedMap::new();
    let mut i: usize = 0;
    while i < quotas.len()
        invariant
            i <= quotas@.len(),
            all == quotas.deep_view(),
            groups.deep_view() == grouped(all.take(i as int)),
        decreases quotas@.len() - i,
    {
        let quota = &quotas[i];
        proof {
            assert(all.take(i + 1).drop_last() =~= all.take(i as int));
            assert(all.take(i + 1).last() == quota.deep_view());
        }
        let key = quota_group_key(
            &quota.account_key,
            &quota.limit_id,
            quota.window_kind.as_str(),
        );
        let empty: Vec<QuotaObservation> = Vec::new();
        assert(empty.deep_view() =~= Seq::empty());
        let members = groups.entry(key, empty);
        let ghost before = members.deep_view();
        members.push(quota.copy());
        assert(members.deep_view() =~= before.push(quota.deep_view()));
        i = i + 1;
    }
    assert(all.take(i as int) =~= all);
    groups
}

fn next_of_group(windows: &Vec<WindowSegment>, i: usize) -> (r: Option<usize>)
    requires
        i < windows@.len(),
    ensures
        match r {
            Some(next) => next < windows@.len() && next_in_group(
                windows.deep_view(),
                i as int,
                i + 1,
            ) == Some(next as int),
            None => next_in_group(windows.deep_view(), i as int, i + 1) is None,
        },
{
    let ghost all = windows.deep_view();
    let len: usize = windows.len();
    let own = &windows[i];
    assert(all[i as int] == own.deep_view());
    let key = quota_group_key(&own.account_key, &own.limit_id, own.window_kind.as_str());
    let mut k: usize = i + 1;
    while k < len
        invariant
            i < k <= len,
            len == windows@.len(),
            all == windows.deep_view(),
            key@ == group_of_window(all[i as int]),
            next_in_group(all, i as int, i + 1) == next_in_group(all, i as int, k as int),
        decreases len - k,
    {
        let window = &windows[k];
        assert(all[k as int] == window.deep_view());
        if same(
            quota_group_key(
                &window.account_key,
                &window.limit_id,
                window.window_kind.as_str(),
            ).as_str(),
            key.as_str(),
        ) {
            return Some(k);
        }
        k = k + 1;
    }
    None
}

/// Orders windows by their starts, and ends each, at the latest, where the next one of its group
/// starts.
pub fn enforce_disjoint_windows(windows: Vec<WindowSegment>) -> (r: Vec<WindowSegment>)
    ensures
        r.deep_view() == disjoint(windows.deep_view()),
{
    let ordered = sort::<WindowSegment, ByStart>(windows);
    let ghost all = ordered.deep_view();
    let ghost expected = clipped(all);
    let mut r: Vec<WindowSegment> = Vec::new();
    let mut i: usize = 0;
    while i < ordered.len()
        invariant
            i <= ordered@.len(),
            all == ordered.deep_view(),
            expected == clipped(all),
            r.deep_view() == expected.take(i as int),
        decreases ordered@.len() - i,
    {
        let ghost before = r.deep_view();
        let mut window = ordered[i].copy();
        assert(all[i as int] == window.deep_view());
        if let Some(next) = next_of_group(&ordered, i) {
            assert(all[next as int] == ordered@[next as int].deep_view());
            if let Some(reset) = window.reset_at_ms {
                if reset > ordered[next].start_at_ms {
                    window.reset_at_ms = Some(ordered[next].start_at_ms);
                }
            }
        }
        assert(window.deep_view() =~= expected[i as int]);
        r.push(window);
        i = i + 1;
        assert(r.deep_view() =~= before.push(expected[i - 1]));
        assert(r.deep_view() =~= expected.take(i as int));
    }
    assert(expected.take(i as int) =~= expected);
    r
}

/// The windows that quotas tell.
pub fn build_windows(quotas: &Vec<QuotaObservation>) -> (r: Vec<WindowSegment>)
    ensures
        r.deep_view() == windows_of(quotas.deep_view()),
{
    let groups = group_quotas(quotas);
    let ghost all = groups.deep_view();
    let mut windows: Vec<WindowSegment> = Vec::new();
    assert(windows.deep_view() =~= windows_of_groups(all.take(0)));
    for entry in it: groups.entries
        invariant
            it.seq().len() == all.len(),
            forall|k: int| 0 <= k < all.len() ==> (#[trigger] it.seq()[k]).deep_view() == all[k],
            windows.deep_view() == windows_of_groups(all.take(it.index())),
    {
        proof {
            let n = it.index();
            assert(all.take(n + 1).drop_last() =~= all.take(n));
            assert(all.take(n + 1).last() == entry.deep_view());
        }
        let ghost before = windows.deep_view();
        let (group, members) = entry;
        let mut found = scan_group(group.as_str(), members);
        let ghost added = found.deep_view();
        windows.append(&mut found);
        assert(windows.deep_view() =~= before + added);
    }
    assert(all.take(all.len() as int) =~= all);
    enforce_disjoint_windows(windows)
}

fn pick_window<'a>(windows: &'a Vec<WindowSegment>, flags: &Vec<bool>, at: i64) -> (r: Option<
    &'a WindowSegment,
>)
    requires
        windows@.len() == flags@.len(),
    ensures
        r.deep_view() == window_at(windows.deep_view(), flags@, at),
{
    let ghost all = windows.deep_view();
    let mut latest: Option<usize> = None;
    let mut earliest: Option<usize> = None;
    let mut i: usize = 0;
    while i < windows.len()
        invariant
            i <= windows@.len(),
            windows@.len() == flags@.len(),
            all == windows.deep_view(),
            match latest {
                Some(n) => n < i && latest_started(all.take(i as int), flags@, at) == Some(
                    n as int,
                ),
                None => latest_started(all.take(i as int), flags@, at) is None,
            },
            match earliest {
                Some(n) => n < i && earliest_started(all.take(i as int), flags@) == Some(n as int),
                None => earliest_started(all.take(i as int), flags@) is None,
            },
        decreases windows@.len() - i,
    {
        let window = &windows[i];
        proof {
            assert(all.take(i + 1).drop_last() =~= all.take(i as int));
            assert(all.take(i + 1)[i as int] == window.deep_view());
            if latest is Some {
                assert(all[latest->0 as int] == windows@[latest->0 as int].deep_view());
            }
            if earliest is Some {
                assert(all[earliest->0 as int] == windows@[earliest->0 as int].deep_view());
            }
        }
        if flags[i] {
            let starts_later = match latest {
                Some(n) => windows[n].start_at_ms <= window.start_at_ms,
                None => true,
            };
            if window.start_at_ms <= at && starts_later {
                latest = Some(i);
            }
            let starts_earlier = match earliest {
                Some(n) => window.start_at_ms < windows[n].start_at_ms,
                None => true,
            };
            if starts_earlier {
                earliest = Some(i);
            }
        }
        i = i + 1;
    }
    assert(all.take(i as int) =~= all);
    match latest {
        Some(n) => Some(&windows[n]),
        None => match earliest {
            Some(n) => Some(&windows[n]),
            None => None,
        },
    }
}

/// The window that a quota belongs to.
pub fn find_quota_window<'a>(windows: &'a Vec<WindowSegment>, quota: &QuotaObservation) -> (r:
    Option<&'a WindowSegment>)
    ensures
        r.deep_view() == window_of_quota(windows.deep_view(), quota.deep_view()),
{
    let ghost all = windows.deep_view();
    let mut flags: Vec<bool> = Vec::new();
    let mut i: usize = 0;
    while i < windows.len()
        invariant
            i <= windows@.len(),
            all == windows.deep_view(),
            flags@.len() == i,
            forall|k: int|
                0 <= k < i ==> (#[trigger] flags@[k]) == (all[k].window_kind
                    == quota.deep_view().window_kind && all[k].limit_id
                    == quota.deep_view().limit_id && all[k].account_key
                    == quota.deep_view().account_key),
        decreases windows@.len() - i,
    {
        let window = &windows[i];
        flags.push(
            same(window.window_kind.as_str(), quota.window_kind.as_str()) && same_option(
                &window.limit_id,
                &quota.limit_id,
            ) && same_option(&window.account_key, &quota.account_key),
        );
        i = i + 1;
    }
    assert(flags@ =~= Seq::new(
        all.len(),
        |i: int|
            all[i].window_kind == quota.deep_view().window_kind && all[i].limit_id
                == quota.deep_view().limit_id && all[i].account_key
                == quota.deep_view().account_key,
    ));
    pick_window(windows, &flags, quota.first_seen_at_ms)
}

/// The window in which a request was made.
pub fn find_usage_window(windows: &Vec<WindowSegment>, observed_at_ms: i64) -> (r: Option<
    &WindowSegment,
>)
    ensures
        r.deep_view() == window_of_usage(windows.deep_view(), observed_at_ms),
{
    let ghost all = windows.deep_view();
    let mut primary: Vec<bool> = Vec::new();
    let mut every: Vec<bool> = Vec::new();
    let mut any = false;
    let mut i: usize = 0;
    while i < windows.len()
        invariant
            i <= windows@.len(),
            all == windows.deep_view(),
            primary@.len() == i,
            every@.len() == i,
            any <==> exists|k: int|
                0 <= k < i && (#[trigger] all[k]).window_kind == "primary"@,
            forall|k: int|
                0 <= k < i ==> (#[trigger] primary@[k]) == (all[k].window_kind == "primary"@),
            forall|k: int| 0 <= k < i ==> #[trigger] every@[k],
        decreases windows@.len() - i,
    {
        assert(all[i as int] == windows@[i as int].deep_view());
        let is_primary = same(windows[i].window_kind.as_str(), "primary");
        any = any || is_primary;
        primary.push(is_primary);
        every.push(true);
        i = i + 1;
    }
    let ghost wanted = Seq::new(
        all.len(),
        |i: int| !has_primary(all) || all[i].window_kind == "primary"@,
    );
    if any {
        assert(primary@ =~= wanted);
        pick_window(windows, &primary, observed_at_ms)
    } else {
        assert(every@ =~= wanted);
        pick_window(windows, &every, observed_at_ms)
    }
}

/// The place of the turn that started last among those that had started by `at`, and had not ended
/// before it where `running` asks for that; of several that started together, that of the last.
pub open spec fn latest_turn(turns: Seq<TurnRecordView>, at: i64, running: bool) -> Option<int>
    decreases turns.len(),
{
    if turns.len() == 0 {
        None
    } else {
        let rest = latest_turn(turns.drop_last(), at, running);
        let turn = turns.last();
        let fits = turn.started is Some && turn.started->0 <= at && (running ==> (
        turn.ended is None || at <= turn.ended->0));
        let better = match rest {
            Some(i) => turns[i].started->0 <= turn.started->0,
            None => true,
        };
        if fits && better {
            Some(turns.len() - 1)
        } else {
            rest
        }
    }
}

/// The turn in which `at` lies: the last one that was running, else the last that had started.
pub open spec fn turn_at(turns: Seq<TurnRecordView>, at: i64) -> Option<TurnRecordView> {
    match first_some(latest_turn(turns, at, true), latest_turn(turns, at, false)) {
        Some(i) => Some(turns[i]),
        None => None,
    }
}

fn find_latest_turn(turns: &Vec<TurnRecord>, at: i64, running: bool) -> (r: Option<usize>)
    ensures
        match r {
            Some(n) => n < turns@.len() && latest_turn(turns.deep_view(), at, running) == Some(
                n as int,
            ),
            None => latest_turn(turns.deep_view(), at, running) is None,
        },
{
    let ghost all = turns.deep_view();
    let mut best: Option<(usize, i64)> = None;
    let mut i: usize = 0;
    while i < turns.len()
        invariant
            i <= turns@.len(),
            all == turns.deep_view(),
            match best {
                Some((n, started)) => n < i && latest_turn(all.take(i as int), at, running) == Some(
                    n as int,
                ) && all[n as int].started == Some(started),
                None => latest_turn(all.take(i as int), at, running) is None,
            },
        decreases turns@.len() - i,
    {
        let turn = &turns[i];
        proof {
            assert(all.take(i + 1).drop_last() =~= all.take(i as int));
            assert(all.take(i + 1).last() == turn.deep_view());
        }
        if let Some(started) = turn.started {
            let open = match turn.ended {
                Some(ended) => at <= ended,
                None => true,
            };
            let better = match best {
                Some((_, held)) => held <= started,
                None => true,
            };
            if started <= at && (!running || open) && better {
                best = Some((i, started));
            }
        }
        i = i + 1;
    }
    assert(all.take(i as int) =~= all);
    match best {
        Some((n, _)) => Some(n),
        None => None,
    }
}

/// The turn in which `observed_at_ms` lies.
pub fn find_turn(turns: &Vec<TurnRecord>, observed_at_ms: i64) -> (r: Option<&TurnRecord>)
    ensures
        r.deep_view() == turn_at(turns.deep_view(), observed_at_ms),
{
    match find_latest_turn(turns, observed_at_ms, true) {
        Some(n) => Some(&turns[n]),
        None => match find_latest_turn(turns, observed_at_ms, false) {
            Some(n) => Some(&turns[n]),
            None => None,
        },
    }
}

} // verus!
