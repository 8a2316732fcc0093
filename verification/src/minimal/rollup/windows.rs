//! The windows of quotas.
use crate::json::Float;
use crate::ordered::{lookup, put, sort, sorted, OrderedMap};
use crate::pipelines::result::materialize::records::{
    QuotaObservation, QuotaObservationView, WindowSegment, WindowSegmentView,
};
use crate::pipelines::result::materialize::windows::{ByStart, ByTime};
use crate::text::{copy_option, first_of, first_some, natural, natural_text, text_or};
use vstd::prelude::*;
use vstd::string::*;

verus! {

/// By how many milliseconds the instant of a reset may move without a reset.
pub const RESET_TIME_JITTER_MS: i64 = 300_000;

/// The group of a quota: its limit and its kind.
pub open spec fn group_of(quota: QuotaObservationView) -> Seq<char> {
    text_or(quota.limit_id, "unknown"@) + ":"@ + quota.window_kind
}

/// Quotas by their groups.
pub open spec fn grouped(quotas: Seq<QuotaObservationView>) -> Seq<
    (Seq<char>, Seq<QuotaObservationView>),
>
    decreases quotas.len(),
{
    if quotas.len() == 0 {
        Seq::empty()
    } else {
        let before = grouped(quotas.drop_last());
        let key = group_of(quotas.last());
        let members = match lookup::<String, Seq<QuotaObservationView>>(before, key) {
            Some(members) => members,
            None => Seq::empty(),
        };
        put::<String, Seq<QuotaObservationView>>(before, key, members.push(quotas.last()))
    }
}

/// Whether a quota was reset since: its percentage fell by more than five, or its reset moved.
pub open spec fn was_reset(
    previous_percent: Option<Float>,
    previous_reset: Option<i64>,
    quota: QuotaObservationView,
) -> bool {
    ||| previous_percent is Some && quota.used_percent is Some && quota.used_percent->0.raised
        < previous_percent->0.rank
    ||| previous_reset is Some && quota.resets_at_ms is Some && (quota.resets_at_ms->0
        - previous_reset->0 > RESET_TIME_JITTER_MS || previous_reset->0 - quota.resets_at_ms->0
        > RESET_TIME_JITTER_MS)
}

/// The windows of a group as far as its quotas were read.
#[verifier::ext_equal]
pub struct ScanView {
    pub done: Seq<WindowSegmentView>,
    pub current: Option<WindowSegmentView>,
    pub previous_percent: Option<Float>,
    pub previous_reset: Option<i64>,
}

/// The windows of a group after one more quota.
pub open spec fn scan_step(
    group: Seq<char>,
    scan: ScanView,
    quota: QuotaObservationView,
) -> ScanView {
    let percent = first_some(quota.used_percent, scan.previous_percent);
    let reset = first_some(quota.resets_at_ms, scan.previous_reset);
    match scan.current {
        Some(window) if !was_reset(scan.previous_percent, scan.previous_reset, quota) => ScanView {
            done: scan.done,
            current: Some(
                WindowSegmentView {
                    account_key: first_some(window.account_key, quota.account_key),
                    reset_at_ms: first_some(quota.resets_at_ms, window.reset_at_ms),
                    window_minutes: first_some(quota.window_minutes, window.window_minutes),
                    plan_type: first_some(window.plan_type, quota.plan_type),
                    ..window
                },
            ),
            previous_percent: percent,
            previous_reset: reset,
        },
        _ => {
            let done = match scan.current {
                Some(window) => scan.done.push(window),
                None => scan.done,
            };
            ScanView {
                done,
                current: Some(
                    WindowSegmentView {
                        id: "window:"@ + group + ":"@ + natural_text(done.len()),
                        account_key: quota.account_key,
                        limit_id: quota.limit_id,
                        window_kind: quota.window_kind,
                        start_at_ms: quota.first_seen_at_ms,
                        reset_at_ms: quota.resets_at_ms,
                        window_minutes: quota.window_minutes,
                        plan_type: quota.plan_type,
                        ordinal: done.len() as usize,
                    },
                ),
                previous_percent: percent,
                previous_reset: reset,
            }
        },
    }
}

/// The windows of a group after its quotas.
pub open spec fn scan_all(group: Seq<char>, quotas: Seq<QuotaObservationView>) -> ScanView
    decreases quotas.len(),
{
    if quotas.len() == 0 {
        ScanView {
            done: Seq::empty(),
            current: None,
            previous_percent: None,
            previous_reset: None,
        }
    } else {
        scan_step(group, scan_all(group, quotas.drop_last()), quotas.last())
    }
}

/// The windows of a group.
pub open spec fn windows_of_group(group: Seq<char>, quotas: Seq<QuotaObservationView>) -> Seq<
    WindowSegmentView,
> {
    let ended = scan_all(group, sorted::<QuotaObservation, ByTime>(quotas));
    match ended.current {
        Some(window) => ended.done.push(window),
        None => ended.done,
    }
}

/// The windows of all groups, one group after the other.
pub open spec fn windows_of_groups(groups: Seq<(Seq<char>, Seq<QuotaObservationView>)>) -> Seq<
    WindowSegmentView,
>
    decreases groups.len(),
{
    if groups.len() == 0 {
        Seq::empty()
    } else {
        windows_of_groups(groups.drop_last()) + windows_of_group(
            groups.last().0,
            groups.last().1,
        )
    }
}

/// The windows that quotas tell, in the order in which they start.
pub open spec fn windows_of(quotas: Seq<QuotaObservationView>) -> Seq<WindowSegmentView> {
    sorted::<WindowSegment, ByStart>(windows_of_groups(grouped(quotas)))
}

/// The windows of a group are numbered from zero on.
pub proof fn lemma_windows_are_numbered(group: Seq<char>, quotas: Seq<QuotaObservationView>)
    requires
        quotas.len() <= usize::MAX,
    ensures
        ({
            let ended = scan_all(group, quotas);
            &&& ended.done.len() <= quotas.len()
            &&& ended.current is Some <==> quotas.len() > 0
            &&& quotas.len() > 0 ==> ended.done.len() < quotas.len()
            &&& forall|i: int|
                0 <= i < ended.done.len() ==> (#[trigger] ended.done[i]).ordinal == i
            &&& ended.current is Some ==> ended.current->0.ordinal == ended.done.len()
        }),
    decreases quotas.len(),
{
    if quotas.len() > 0 {
        lemma_windows_are_numbered(group, quotas.drop_last());
    }
}

/// The windows of a group as far as its quotas were read.
pub struct Scan {
    done: Vec<WindowSegment>,
    current: Option<WindowSegment>,
    previous_percent: Option<Float>,
    previous_reset: Option<i64>,
}

impl DeepView for Scan {
    type V = ScanView;

    closed spec fn deep_view(&self) -> ScanView {
        ScanView {
            done: self.done.deep_view(),
            current: self.current.deep_view(),
            previous_percent: self.previous_percent,
            previous_reset: self.previous_reset,
        }
    }
}

fn is_reset(
    previous_percent: Option<Float>,
    previous_reset: Option<i64>,
    quota: &QuotaObservation,
) -> (r: bool)
    ensures
        r == was_reset(previous_percent, previous_reset, quota.deep_view()),
{
    let fell = match (previous_percent, quota.used_percent) {
        (Some(previous), Some(current)) => current.raised < previous.rank,
        _ => false,
    };
    let moved = match (previous_reset, quota.resets_at_ms) {
        (Some(previous), Some(current)) => {
            let difference: i128 = current as i128 - previous as i128;
            difference > RESET_TIME_JITTER_MS as i128 || difference < -(
            RESET_TIME_JITTER_MS as i128)
        },
        _ => false,
    };
    fell || moved
}

fn first_value<T: Copy>(a: Option<T>, b: Option<T>) -> (r: Option<T>)
    ensures
        r == first_some(a, b),
{
    match a {
        Some(value) => Some(value),
        None => b,
    }
}

impl Scan {
    fn read(self, group: &str, quota: &QuotaObservation) -> (r: Scan)
        ensures
            r.deep_view() == scan_step(group@, self.deep_view(), quota.deep_view()),
    {
        let ghost before = self.deep_view();
        let reset = is_reset(self.previous_percent, self.previous_reset, quota);
        let previous_percent = first_value(quota.used_percent, self.previous_percent);
        let previous_reset = first_value(quota.resets_at_ms, self.previous_reset);
        let mut done = self.done;
        match self.current {
            Some(window) => {
                if !reset {
                    let account_key = first_of(&window.account_key, &quota.account_key);
                    let plan_type = first_of(&window.plan_type, &quota.plan_type);
                    let reset_at_ms = first_value(quota.resets_at_ms, window.reset_at_ms);
                    let window_minutes = first_value(quota.window_minutes, window.window_minutes);
                    let current = WindowSegment {
                        account_key,
                        reset_at_ms,
                        window_minutes,
                        plan_type,
                        ..window
                    };
                    return Scan {
                        done,
                        current: Some(current),
                        previous_percent,
                        previous_reset,
                    };
                }
                done.push(window);
                assert(done.deep_view() =~= before.done.push(before.current->0));
            },
            None => {},
        }
        let ordinal: usize = done.len();
        let mut id = "window:".to_owned();
        id.append(group);
        id.append(":");
        id.append(natural(ordinal).as_str());
        let current = WindowSegment {
            id,
            account_key: copy_option(&quota.account_key),
            limit_id: copy_option(&quota.limit_id),
            window_kind: quota.window_kind.clone(),
            start_at_ms: quota.first_seen_at_ms,
            reset_at_ms: quota.resets_at_ms,
            window_minutes: quota.window_minutes,
            plan_type: copy_option(&quota.plan_type),
            ordinal,
        };
        Scan { done, current: Some(current), previous_percent, previous_reset }
    }
}

fn scan_group(group: &str, quotas: Vec<QuotaObservation>) -> (r: Vec<WindowSegment>)
    ensures
        r.deep_view() == windows_of_group(group@, quotas.deep_view()),
{
    let values = sort::<QuotaObservation, ByTime>(quotas);
    let ghost all = values.deep_view();
    let mut scan = Scan {
        done: Vec::new(),
        current: None,
        previous_percent: None,
        previous_reset: None,
    };
    assert(scan.deep_view() =~= scan_all(group@, all.take(0)));
    let mut i: usize = 0;
    while i < values.len()
        invariant
            i <= values@.len(),
            all == values.deep_view(),
            scan.deep_view() == scan_all(group@, all.take(i as int)),
        decreases values@.len() - i,
    {
        assert(all.take(i + 1).drop_last() =~= all.take(i as int));
        assert(all.take(i + 1).last() == values@[i as int].deep_view());
        scan = scan.read(group, &values[i]);
        i = i + 1;
    }
    assert(all.take(i as int) =~= all);
    let ghost ended = scan.deep_view();
    let mut r = scan.done;
    if let Some(window) = scan.current {
        r.push(window);
        assert(r.deep_view() =~= ended.done.push(ended.current->0));
    }
    r
}

fn group_key(quota: &QuotaObservation) -> (r: String)
    ensures
        r@ == group_of(quota.deep_view()),
{
    let mut key = match &quota.limit_id {
        Some(id) => id.clone(),
        None => "unknown".to_owned(),
    };
    key.append(":");
    key.append(quota.window_kind.as_str());
    key
}

fn group_quotas(quotas: &Vec<QuotaObservation>) -> (r: OrderedMap<String, Vec<QuotaObservation>>)
    ensures
        r.deep_view() == grouped(quotas.deep_view()),
{
    let ghost all = quotas.deep_view();
    let mut groups: OrderedMap<String, Vec<QuotaObservation>> = OrderedMap::new();
    let mut i: usize = 0;
    while i < quotas.len()
        invariant
            i <= quotas@.len(),
            all == quotas.deep_view(),
            groups.deep_view() == grouped(all.take(i as int)),
        decreases quotas@.len() - i,
    {
        let quota = &quotas[i];
        assert(all.take(i + 1).drop_last() =~= all.take(i as int));
        assert(all.take(i + 1).last() == quota.deep_view());
        let empty: Vec<QuotaObservation> = Vec::new();
        assert(empty.deep_view() =~= Seq::empty());
        let members = groups.entry(group_key(quota), empty);
        let ghost before = members.deep_view();
        members.push(quota.copy());
        assert(members.deep_view() =~= before.push(quota.deep_view()));
        i = i + 1;
    }
    assert(all.take(i as int) =~= all);
    groups
}

/// The windows that quotas tell, in the order in which they start.
pub fn build_windows(quotas: &Vec<QuotaObservation>) -> (r: Vec<WindowSegment>)
    ensures
        r.deep_view() == windows_of(quotas.deep_view()),
{
    let groups = group_quotas(quotas);
    let ghost all = groups.deep_view();
    let mut windows: Vec<WindowSegment> = Vec::new();
    assert(windows.deep_view() =~= windows_of_groups(all.take(0)));
    for entry in it: groups.entries
        invariant
            it.seq().len() == all.len(),
            forall|k: int| 0 <= k < all.len() ==> (#[trigger] it.seq()[k]).deep_view() == all[k],
            windows.deep_view() == windows_of_groups(all.take(it.index())),
    {
        proof {
            let n = it.index();
            assert(all.take(n + 1).drop_last() =~= all.take(n));
            assert(all.take(n + 1).last() == entry.deep_view());
        }
        let ghost before = windows.deep_view();
        let (group, members) = entry;
        let mut found = scan_group(group.as_str(), members);
        let ghost added = found.deep_view();
        windows.append(&mut found);
        assert(windows.deep_view() =~= before + added);
    }
    assert(all.take(all.len() as int) =~= all);
    sort::<WindowSegment, ByStart>(windows)
}

} // verus!
