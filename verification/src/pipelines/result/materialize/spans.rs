//! Which window and which turn an instant is in, and which windows quotas make.
use crate::ordered::{lemma_place, lemma_put_lookup, lookup, put, sorted, Key};
use crate::pipelines::result::materialize::records::{
    QuotaObservation, QuotaObservationView, TurnRecordView, WindowSegment, WindowSegmentView,
};
use crate::pipelines::result::materialize::windows::{
    clipped, earliest_started, group_of_quota, grouped, has_primary, latest_started, latest_turn,
    next_in_group, scan_all, turn_at, window_of_quota, window_of_usage, windows_of,
    windows_of_group, windows_of_groups, ByStart, ByTime,
};
use vstd::prelude::*;
use vstd::string::*;

verus! {

/// Whether a window is the one of some windows that an instant is in: the last that has started by
/// then, of several that start together the last; and where none has started, the first of those
/// that start first.
pub open spec fn holds_instant(
    windows: Seq<WindowSegmentView>,
    flags: Seq<bool>,
    at: i64,
    n: int,
) -> bool {
    &&& 0 <= n < windows.len()
    &&& flags[n]
    &&& windows[n].start_at_ms <= at ==> forall|j: int|
        0 <= j < windows.len() && flags[j] && (#[trigger] windows[j]).start_at_ms <= at
            ==> windows[j].start_at_ms <= windows[n].start_at_ms && (j > n
            ==> windows[j].start_at_ms < windows[n].start_at_ms)
    &&& windows[n].start_at_ms > at ==> forall|j: int|
        0 <= j < windows.len() && flags[j] ==> (#[trigger] windows[j]).start_at_ms > at
            && windows[n].start_at_ms <= windows[j].start_at_ms && (j < n
            ==> windows[n].start_at_ms < windows[j].start_at_ms)
}

proof fn lemma_last_started(windows: Seq<WindowSegmentView>, flags: Seq<bool>, at: i64)
    ensures
        match latest_started(windows, flags, at) {
            Some(n) => {
                &&& 0 <= n < windows.len() && flags[n] && windows[n].start_at_ms <= at
                &&& forall|j: int|
                    0 <= j < windows.len() && flags[j] && (#[trigger] windows[j]).start_at_ms <= at
                        ==> windows[j].start_at_ms <= windows[n].start_at_ms && (j > n
                        ==> windows[j].start_at_ms < windows[n].start_at_ms)
            },
            None => forall|j: int|
                0 <= j < windows.len() && flags[j] ==> (#[trigger] windows[j]).start_at_ms > at,
        },
    decreases windows.len(),
{
    if windows.len() > 0 {
        let shorter = windows.drop_last();
        lemma_last_started(shorter, flags, at);
        assert forall|j: int| 0 <= j < shorter.len() implies shorter[j] == #[trigger] windows[j] by {}
    }
}

proof fn lemma_first_started(windows: Seq<WindowSegmentView>, flags: Seq<bool>)
    ensures
        match earliest_started(windows, flags) {
            Some(n) => {
                &&& 0 <= n < windows.len() && flags[n]
                &&& forall|j: int|
                    0 <= j < windows.len() && flags[j] ==> windows[n].start_at_ms <= (
                    #[trigger] windows[j]).start_at_ms && (j < n ==> windows[n].start_at_ms
                        < windows[j].start_at_ms)
            },
            None => forall|j: int| 0 <= j < windows.len() ==> !#[trigger] flags[j],
        },
    decreases windows.len(),
{
    if windows.len() > 0 {
        let shorter = windows.drop_last();
        lemma_first_started(shorter, flags);
        assert forall|j: int| 0 <= j < shorter.len() implies shorter[j] == #[trigger] windows[j] by {}
    }
}

/// A request is in a main window where there is one, else in any: in the last that has started by
/// then, and before all of them in the first. There is none where there are no windows.
pub proof fn lemma_request_is_in_the_last_started(windows: Seq<WindowSegmentView>, at: i64)
    ensures
        ({
            let main = exists|i: int|
                0 <= i < windows.len() && (#[trigger] windows[i]).window_kind == "primary"@;
            let flags = Seq::new(
                windows.len(),
                |i: int| main ==> windows[i].window_kind == "primary"@,
            );
            match window_of_usage(windows, at) {
                Some(window) => exists|n: int|
                    holds_instant(windows, flags, at, n) && window == #[trigger] windows[n],
                None => windows.len() == 0,
            }
        }),
{
    let main = exists|i: int|
        0 <= i < windows.len() && (#[trigger] windows[i]).window_kind == "primary"@;
    let flags = Seq::new(windows.len(), |i: int| main ==> windows[i].window_kind == "primary"@);
    let own = Seq::new(
        windows.len(),
        |i: int|
            !has_primary(windows) || windows[i].window_kind == "primary"@,
    );
    assert(own =~= flags);
    lemma_last_started(windows, flags, at);
    lemma_first_started(windows, flags);
    if windows.len() > 0 {
        let n = if main {
            choose|i: int|
                0 <= i < windows.len() && (#[trigger] windows[i]).window_kind == "primary"@
        } else {
            0
        };
        assert(flags[n]);
        let place = match latest_started(windows, flags, at) {
            Some(i) => i,
            None => earliest_started(windows, flags)->0,
        };
        assert(holds_instant(windows, flags, at, place));
        assert(window_of_usage(windows, at) == Some(windows[place]));
    }
}

/// A quota is in a window of its own kind, limit and account: in the last that has started when it
/// was first seen, and before all of them in the first; in none where there is no such window.
pub proof fn lemma_quota_is_in_its_last_started(
    windows: Seq<WindowSegmentView>,
    quota: QuotaObservationView,
)
    ensures
        ({
            let flags = Seq::new(
                windows.len(),
                |i: int|
                    windows[i].window_kind == quota.window_kind && windows[i].limit_id
                        == quota.limit_id && windows[i].account_key == quota.account_key,
            );
            match window_of_quota(windows, quota) {
                Some(window) => exists|n: int|
                    holds_instant(windows, flags, quota.first_seen_at_ms, n) && window
                        == #[trigger] windows[n],
                None => forall|i: int| 0 <= i < windows.len() ==> !#[trigger] flags[i],
            }
        }),
{
    let at = quota.first_seen_at_ms;
    let flags = Seq::new(
        windows.len(),
        |i: int|
            windows[i].window_kind == quota.window_kind && windows[i].limit_id == quota.limit_id
                && windows[i].account_key == quota.account_key,
    );
    lemma_last_started(windows, flags, at);
    lemma_first_started(windows, flags);
    if let Some(window) = window_of_quota(windows, quota) {
        let place = match latest_started(windows, flags, at) {
            Some(i) => i,
            None => earliest_started(windows, flags)->0,
        };
        assert(holds_instant(windows, flags, at, place));
        assert(window == windows[place]);
    }
}

proof fn lemma_latest_turn(turns: Seq<TurnRecordView>, at: i64, running: bool)
    ensures
        ({
            let fits = |turn: TurnRecordView|
                turn.started is Some && turn.started->0 <= at && (running ==> (turn.ended is None
                    || at <= turn.ended->0));
            match latest_turn(turns, at, running) {
                Some(n) => {
                    &&& 0 <= n < turns.len() && fits(turns[n])
                    &&& forall|j: int|
                        0 <= j < turns.len() && fits(#[trigger] turns[j]) ==> turns[j].started->0
                            <= turns[n].started->0 && (j > n ==> turns[j].started->0
                            < turns[n].started->0)
                },
                None => forall|j: int| 0 <= j < turns.len() ==> !fits(#[trigger] turns[j]),
            }
        }),
    decreases turns.len(),
{
    if turns.len() > 0 {
        let shorter = turns.drop_last();
        lemma_latest_turn(shorter, at, running);
        assert forall|j: int| 0 <= j < shorter.len() implies shorter[j] == #[trigger] turns[j] by {}
    }
}

/// Whether a turn has started by an instant.
pub open spec fn has_started(turn: TurnRecordView, at: i64) -> bool {
    turn.started is Some && turn.started->0 <= at
}

/// Whether a turn has started by an instant and not ended before it.
pub open spec fn is_running(turn: TurnRecordView, at: i64) -> bool {
    has_started(turn, at) && (turn.ended is Some ==> at <= turn.ended->0)
}

/// An instant is in the last started of the turns that are running, and where none is, in the last
/// started of those that have started; in no turn where none has.
pub proof fn lemma_instant_is_in_the_running_turn(turns: Seq<TurnRecordView>, at: i64)
    ensures
        match turn_at(turns, at) {
            Some(turn) => {
                &&& turns.contains(turn) && has_started(turn, at)
                &&& (exists|j: int| 0 <= j < turns.len() && is_running(#[trigger] turns[j], at))
                    ==> is_running(turn, at)
                &&& forall|j: int|
                    0 <= j < turns.len() && has_started(#[trigger] turns[j], at) && (is_running(
                        turn,
                        at,
                    ) ==> is_running(turns[j], at)) ==> turns[j].started->0 <= turn.started->0
            },
            None => forall|j: int| 0 <= j < turns.len() ==> !has_started(#[trigger] turns[j], at),
        },
{
    lemma_latest_turn(turns, at, true);
    lemma_latest_turn(turns, at, false);
}

/// A window that starts with a quota, the `n`th of its group.
pub open spec fn starts_with(window: WindowSegmentView, quota: QuotaObservationView, n: int) -> bool {
    &&& window.account_key == quota.account_key
    &&& window.limit_id == quota.limit_id
    &&& window.window_kind == quota.window_kind
    &&& window.start_at_ms == quota.first_seen_at_ms
    &&& window.ordinal == n
}

/// One quota makes one window, which starts when the quota was first seen and is reset when it
/// says.
pub proof fn lemma_one_quota_makes_one_window(quota: QuotaObservationView)
    ensures
        ({
            let windows = windows_of(seq![quota]);
            &&& windows.len() == 1
            &&& starts_with(windows[0], quota, 0)
            &&& windows[0].reset_at_ms == quota.resets_at_ms
            &&& windows[0].window_minutes == quota.window_minutes
            &&& windows[0].plan_type == quota.plan_type
        }),
{
    let quotas = seq![quota];
    let group = group_of_quota(quota);
    reveal_with_fuel(grouped, 3);
    reveal_with_fuel(scan_all, 3);
    reveal_with_fuel(windows_of_groups, 3);
    assert(quotas.drop_last() =~= Seq::empty());
    let groups = grouped(quotas);
    let none = Seq::<(Seq<char>, Seq<QuotaObservationView>)>::empty();
    assert(Seq::<QuotaObservationView>::empty().push(quota) =~= quotas);
    assert(groups == put::<String, Seq<QuotaObservationView>>(none, group, quotas));
    assert(groups =~= seq![(group, quotas)]);
    assert(groups.drop_last() =~= none);
    reveal_with_fuel(sorted::<QuotaObservation, ByTime>, 3);
    assert(sorted::<QuotaObservation, ByTime>(quotas) =~= quotas);
    let made = windows_of_group(group, quotas);
    assert(made.len() == 1);
    assert(windows_of_groups(groups) =~= made);
    reveal_with_fuel(sorted::<WindowSegment, ByStart>, 3);
    assert(made.drop_last() =~= Seq::empty());
    assert(sorted::<WindowSegment, ByStart>(made) =~= made);
    reveal_with_fuel(next_in_group, 2);
    assert(clipped(made) =~= made);
}

/// Whether a quota was reset between two times that it was seen: its percentage fell by more than
/// five, and its reset moved on by more than five minutes.
pub open spec fn is_reset(earlier: QuotaObservationView, later: QuotaObservationView) -> bool {
    &&& earlier.used_percent is Some && later.used_percent is Some
    &&& later.used_percent->0.raised < earlier.used_percent->0.rank
    &&& earlier.resets_at_ms is Some && later.resets_at_ms is Some
    &&& later.resets_at_ms->0 - earlier.resets_at_ms->0 > 300_000
}

/// A quota that was seen twice has two windows where it was reset between, of which the first ends
/// where the second starts; else one, which is reset at the later of the two resets, has the minutes
/// that were told last and the plan that was told first.
pub proof fn lemma_two_quotas_make_windows(
    earlier: QuotaObservationView,
    later: QuotaObservationView,
)
    requires
        earlier.account_key == later.account_key,
        earlier.limit_id == later.limit_id,
        earlier.window_kind == later.window_kind,
        earlier.first_seen_at_ms < later.first_seen_at_ms,
    ensures
        ({
            let windows = windows_of(seq![earlier, later]);
            if is_reset(earlier, later) {
                &&& windows.len() == 2
                &&& starts_with(windows[0], earlier, 0)
                &&& windows[0].reset_at_ms == Some(later.first_seen_at_ms)
                &&& windows[0].window_minutes == earlier.window_minutes
                &&& windows[0].plan_type == earlier.plan_type
                &&& starts_with(windows[1], later, 1)
                &&& windows[1].reset_at_ms == later.resets_at_ms
                &&& windows[1].window_minutes == later.window_minutes
                &&& windows[1].plan_type == later.plan_type
            } else {
                &&& windows.len() == 1
                &&& starts_with(windows[0], earlier, 0)
                &&& windows[0].reset_at_ms == (match (earlier.resets_at_ms, later.resets_at_ms) {
                    (Some(one), Some(other)) => Some(
                        if one < other {
                            other
                        } else {
                            one
                        },
                    ),
                    (Some(one), None) => Some(one),
                    (None, other) => other,
                })
                &&& windows[0].window_minutes == (if later.window_minutes is Some {
                    later.window_minutes
                } else {
                    earlier.window_minutes
                })
                &&& windows[0].plan_type == (if earlier.plan_type is Some {
                    earlier.plan_type
                } else {
                    later.plan_type
                })
            }
        }),
{
    let quotas = seq![earlier, later];
    let one = seq![earlier];
    let group = group_of_quota(earlier);
    let none = Seq::<(Seq<char>, Seq<QuotaObservationView>)>::empty();
    reveal_with_fuel(grouped, 3);
    reveal_with_fuel(scan_all, 3);
    reveal_with_fuel(windows_of_groups, 3);
    assert(quotas.drop_last() =~= one);
    assert(one.drop_last() =~= Seq::empty());
    assert(Seq::<QuotaObservationView>::empty().push(earlier) =~= one);
    assert(one.push(later) =~= quotas);
    let before = grouped(one);
    assert(before == put::<String, Seq<QuotaObservationView>>(none, group, one));
    assert(before =~= seq![(group, one)]);
    lemma_put_lookup::<String, Seq<QuotaObservationView>>(none, group, one, group);
    assert(lookup::<String, Seq<QuotaObservationView>>(before, group) == Some(one));
    let groups = grouped(quotas);
    assert(groups == put::<String, Seq<QuotaObservationView>>(before, group, quotas));
    lemma_place::<String, Seq<QuotaObservationView>>(before, group);
    String::is_total(group, group);
    assert(groups =~= seq![(group, quotas)]);
    assert(groups.drop_last() =~= none);
    reveal_with_fuel(sorted::<QuotaObservation, ByTime>, 3);
    assert(sorted::<QuotaObservation, ByTime>(one) =~= one);
    assert(sorted::<QuotaObservation, ByTime>(quotas) =~= quotas);
    let made = windows_of_group(group, quotas);
    assert(windows_of_groups(groups) =~= made);
    reveal_with_fuel(sorted::<WindowSegment, ByStart>, 3);
    reveal_with_fuel(next_in_group, 3);
    if made.len() == 2 {
        let first = made.drop_last();
        assert(first.drop_last() =~= Seq::empty());
        assert(sorted::<WindowSegment, ByStart>(first) =~= first);
        assert(sorted::<WindowSegment, ByStart>(made) =~= made);
    } else {
        assert(made.drop_last() =~= Seq::empty());
        assert(sorted::<WindowSegment, ByStart>(made) =~= made);
    }
}

} // verus!
