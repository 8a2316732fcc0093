//! Logs that wait to be read.
use crate::ordered::{
    holds_key, keys_increase, lemma_has, lemma_place, lemma_place_is, lemma_put_in_order,
    lemma_put_lookup, lookup, place, put, Key, OrderedMap,
};
use crate::path::{components, components_of, path_before, Component, ComponentView};
use vstd::prelude::*;

verus! {

/// A path that changed, as it was told first, with the instant from which on it is ready.
#[derive(Debug)]
pub struct PendingPath {
    pub path: String,
    pub deadline: u64,
}

/// A `PendingPath` with its path as a sequence of characters.
#[verifier::ext_equal]
pub struct PendingPathView {
    pub path: Seq<char>,
    pub deadline: u64,
}

impl DeepView for PendingPath {
    type V = PendingPathView;

    open spec fn deep_view(&self) -> PendingPathView {
        PendingPathView { path: self.path@, deadline: self.deadline }
    }
}

/// Paths that changed, by their components. Instants are milliseconds of a clock that never goes
/// back.
#[derive(Debug)]
pub struct DebouncedPathQueue {
    pub delay: u64,
    pub pending: OrderedMap<Vec<Component>, PendingPath>,
}

/// What a watcher does next: take the paths that are ready, wait for a change no longer than some
/// milliseconds, or wait for a change.
#[derive(Clone, Copy, Debug, PartialEq, Eq, Structural)]
pub enum WatchStep {
    Take,
    WaitFor(u64),
    Wait,
}

/// Whether each path waits once, under its components, in the order of paths.
pub open spec fn waits_once(pending: Seq<(Seq<ComponentView>, PendingPathView)>) -> bool {
    &&& keys_increase::<Vec<Component>, PendingPathView>(pending)
    &&& forall|i: int|
        0 <= i < pending.len() ==> (#[trigger] pending[i]).0 == components_of(pending[i].1.path)
}

/// The paths after one changed: it is ready at `deadline`, under the spelling that was told first.
pub open spec fn with_change(
    pending: Seq<(Seq<ComponentView>, PendingPathView)>,
    path: Seq<char>,
    deadline: u64,
) -> Seq<(Seq<ComponentView>, PendingPathView)> {
    let key = components_of(path);
    put::<Vec<Component>, PendingPathView>(
        pending,
        key,
        PendingPathView {
            path: match lookup::<Vec<Component>, PendingPathView>(pending, key) {
                Some(held) => held.path,
                None => path,
            },
            deadline,
        },
    )
}

/// The earliest instant at which a path is ready.
pub open spec fn first_deadline(pending: Seq<(Seq<ComponentView>, PendingPathView)>) -> Option<u64>
    decreases pending.len(),
{
    if pending.len() == 0 {
        None
    } else {
        let deadline = pending.last().1.deadline;
        match first_deadline(pending.drop_last()) {
            Some(earlier) => if earlier <= deadline {
                Some(earlier)
            } else {
                Some(deadline)
            },
            None => Some(deadline),
        }
    }
}

/// The paths that are ready.
pub open spec fn ready_at(
    pending: Seq<(Seq<ComponentView>, PendingPathView)>,
    now: u64,
) -> Seq<Seq<char>>
    decreases pending.len(),
{
    if pending.len() == 0 {
        Seq::empty()
    } else {
        let before = ready_at(pending.drop_last(), now);
        if pending.last().1.deadline <= now {
            before.push(pending.last().1.path)
        } else {
            before
        }
    }
}

/// The paths that are not ready yet.
pub open spec fn waiting_at(
    pending: Seq<(Seq<ComponentView>, PendingPathView)>,
    now: u64,
) -> Seq<(Seq<ComponentView>, PendingPathView)>
    decreases pending.len(),
{
    if pending.len() == 0 {
        Seq::empty()
    } else {
        let before = waiting_at(pending.drop_last(), now);
        if pending.last().1.deadline <= now {
            before
        } else {
            before.push(pending.last())
        }
    }
}

/// Whether paths stand in their order, none of them twice.
pub open spec fn paths_increase(paths: Seq<Seq<char>>) -> bool {
    forall|i: int, j: int|
        0 <= i < j < paths.len() ==> path_before(#[trigger] paths[i], #[trigger] paths[j])
}

impl DebouncedPathQueue {
    /// Whether each path waits once, in the order of paths.
    pub open spec fn well_formed(&self) -> bool {
        waits_once(self.pending.deep_view())
    }

    /// A queue without paths.
    pub fn new(delay: u64) -> (r: Self)
        ensures
            r.delay == delay,
            r.pending.deep_view() == Seq::<(Seq<ComponentView>, PendingPathView)>::empty(),
            r.well_formed(),
    {
        DebouncedPathQueue { delay, pending: OrderedMap::new() }
    }

    /// Adds a path that changed at `now`; one that waits already waits from `now` on.
    pub fn push(&mut self, path: String, now: u64)
        requires
            old(self).well_formed(),
            now + old(self).delay <= u64::MAX,
        ensures
            final(self).delay == old(self).delay,
            final(self).pending.deep_view() == with_change(
                old(self).pending.deep_view(),
                path@,
                (now + old(self).delay) as u64,
            ),
            final(self).well_formed(),
    {
        proof {
            lemma_change_waits_once(
                self.pending.deep_view(),
                path@,
                (now + self.delay) as u64,
            );
        }
        let deadline: u64 = now + self.delay;
        let key = components(path.as_str());
        let held = self.pending.entry(key, PendingPath { path, deadline });
        held.deadline = deadline;
    }

    /// The earliest instant at which a path is ready.
    pub fn next_deadline(&self) -> (r: Option<u64>)
        ensures
            r == first_deadline(self.pending.deep_view()),
    {
        let ghost all = self.pending.deep_view();
        let mut r: Option<u64> = None;
        let mut i: usize = 0;
        while i < self.pending.entries.len()
            invariant
                i <= self.pending.entries@.len(),
                all == self.pending.deep_view(),
                r == first_deadline(all.take(i as int)),
            decreases self.pending.entries@.len() - i,
        {
            assert(all.take(i + 1).drop_last() =~= all.take(i as int));
            assert(all.take(i + 1).last() == self.pending.entries@[i as int].deep_view());
            let deadline: u64 = self.pending.entries[i].1.deadline;
            r = match r {
                Some(earlier) => if earlier <= deadline {
                    Some(earlier)
                } else {
                    Some(deadline)
                },
                None => Some(deadline),
            };
            i = i + 1;
        }
        assert(all.take(i as int) =~= all);
        r
    }

    /// What a watcher of the paths does at `now`.
    pub fn next_step(&self, now: u64) -> (r: WatchStep)
        ensures
            r == (match first_deadline(self.pending.deep_view()) {
                Some(deadline) => if deadline <= now {
                    WatchStep::Take
                } else {
                    WatchStep::WaitFor((deadline - now) as u64)
                },
                None => WatchStep::Wait,
            }),
    {
        match self.next_deadline() {
            Some(deadline) => if deadline <= now {
                WatchStep::Take
            } else {
                WatchStep::WaitFor(deadline - now)
            },
            None => WatchStep::Wait,
        }
    }

    /// Takes the paths that are ready at `now` out of the queue, in their order.
    pub fn take_ready(&mut self, now: u64) -> (r: Vec<String>)
        requires
            old(self).well_formed(),
        ensures
            r.deep_view() == ready_at(old(self).pending.deep_view(), now),
            paths_increase(r.deep_view()),
            final(self).delay == old(self).delay,
            final(self).pending.deep_view() == waiting_at(old(self).pending.deep_view(), now),
            final(self).well_formed(),
    {
        let ghost all = self.pending.deep_view();
        let mut ready: Vec<String> = Vec::new();
        let mut waiting: Vec<(Vec<Component>, PendingPath)> = Vec::new();
        let mut left: Vec<(Vec<Component>, PendingPath)> = Vec::new();
        std::mem::swap(&mut left, &mut self.pending.entries);
        let ghost entries = left@;
        assert(ready.deep_view() =~= Seq::empty());
        assert(waiting.deep_view() =~= Seq::empty());
        assert(left.deep_view() =~= all);
        let count: usize = left.len();
        let mut i: usize = 0;
        while i < count
            invariant
                i <= count,
                left@ == entries.skip(i as int),
                count == entries.len(),
                all.len() == count,
                forall|k: int| 0 <= k < count ==> #[trigger] all[k] == entries[k].deep_view(),
                self.delay == old(self).delay,
                ready.deep_view() == ready_at(all.take(i as int), now),
                waiting.deep_view() == waiting_at(all.take(i as int), now),
            decreases count - i,
        {
            let (key, held) = left.remove(0);
            let ghost (taken, kept) = (ready.deep_view(), waiting.deep_view());
            let ghost entry = all[i as int];
            assert(all.take(i + 1).drop_last() =~= all.take(i as int));
            assert(entry == (key.deep_view(), held.deep_view()));
            assert(left@ =~= entries.skip(i + 1));
            if held.deadline <= now {
                ready.push(held.path);
                assert(ready.deep_view() =~= taken.push(entry.1.path));
            } else {
                waiting.push((key, held));
                assert(waiting.deep_view() =~= kept.push(entry));
            }
            i = i + 1;
        }
        assert(all.take(i as int) =~= all);
        proof {
            lemma_taken_in_order(all, now);
            lemma_taking_keeps_order(all, now);
        }
        self.pending = OrderedMap { entries: waiting };
        ready
    }
}

proof fn lemma_change_waits_once(
    pending: Seq<(Seq<ComponentView>, PendingPathView)>,
    path: Seq<char>,
    deadline: u64,
)
    requires
        waits_once(pending),
    ensures
        waits_once(with_change(pending, path, deadline)),
{
    let key = components_of(path);
    let after = with_change(pending, path, deadline);
    let n = place::<Vec<Component>, PendingPathView>(pending, key);
    lemma_place::<Vec<Component>, PendingPathView>(pending, key);
    lemma_has::<Vec<Component>, PendingPathView>(pending, key);
    lemma_put_in_order::<Vec<Component>, PendingPathView>(pending, key, after[n].1);
    assert forall|i: int| 0 <= i < after.len() implies (#[trigger] after[i]).0 == components_of(
        after[i].1.path,
    ) by {
        if holds_key::<Vec<Component>, PendingPathView>(pending, key) {
            assert(pending[i].0 == components_of(pending[i].1.path));
        } else if i < n {
            assert(after[i] == pending[i]);
        } else if i > n {
            assert(after[i] == pending[i - 1]);
        }
    }
}

/// A path that changes again before it is ready, under whatever spelling, waits once, from the last
/// change on.
pub proof fn lemma_changes_coalesce(
    pending: Seq<(Seq<ComponentView>, PendingPathView)>,
    path: Seq<char>,
    again: Seq<char>,
    first: u64,
    second: u64,
)
    requires
        waits_once(pending),
        components_of(path) == components_of(again),
    ensures
        with_change(with_change(pending, path, first), again, second) == with_change(
            pending,
            path,
            second,
        ),
        waits_once(with_change(pending, path, second)),
        lookup::<Vec<Component>, PendingPathView>(
            with_change(pending, path, second),
            components_of(path),
        ) matches Some(held) && held.deadline == second,
{
    let key = components_of(path);
    let once = with_change(pending, path, first);
    let twice = with_change(pending, path, second);
    let n = place::<Vec<Component>, PendingPathView>(pending, key);
    lemma_change_waits_once(pending, path, first);
    lemma_change_waits_once(pending, path, second);
    lemma_place::<Vec<Component>, PendingPathView>(pending, key);
    lemma_put_lookup::<Vec<Component>, PendingPathView>(pending, key, once[n].1, key);
    lemma_put_lookup::<Vec<Component>, PendingPathView>(pending, key, twice[n].1, key);
    <Vec<Component> as Key>::is_total(key, key);
    assert forall|i: int| n <= i < once.len() implies !<Vec<Component> as Key>::before(
        (#[trigger] once[i]).0,
        key,
    ) by {
        if i > n {
            let k = if holds_key::<Vec<Component>, PendingPathView>(pending, key) {
                i
            } else {
                i - 1
            };
            assert(once[i] == pending[k]);
        }
    }
    if n > 0 {
        assert(once[n - 1] == pending[n - 1]);
    }
    lemma_place_is::<Vec<Component>, PendingPathView>(once, key, n);
    assert(with_change(once, again, second) =~= twice);
}

/// Once the ready paths were taken, none that is left is ready; what was not ready is left, and
/// nothing else.
pub proof fn lemma_nothing_ready_is_left(
    pending: Seq<(Seq<ComponentView>, PendingPathView)>,
    now: u64,
)
    ensures
        ready_at(waiting_at(pending, now), now).len() == 0,
        forall|i: int|
            0 <= i < pending.len() ==> if (#[trigger] pending[i]).1.deadline <= now {
                ready_at(pending, now).contains(pending[i].1.path)
            } else {
                waiting_at(pending, now).contains(pending[i])
            },
        forall|i: int|
            0 <= i < waiting_at(pending, now).len() ==> pending.contains(
                #[trigger] waiting_at(pending, now)[i],
            ) && waiting_at(pending, now)[i].1.deadline > now,
        ready_at(pending, now).len() + waiting_at(pending, now).len() == pending.len(),
    decreases pending.len(),
{
    if pending.len() > 0 {
        let (before, entry) = (pending.drop_last(), pending.last());
        lemma_nothing_ready_is_left(before, now);
        let (ready, waiting) = (ready_at(before, now), waiting_at(before, now));
        if entry.1.deadline > now {
            assert(waiting.push(entry).drop_last() =~= waiting);
            assert(waiting_at(pending, now) == waiting.push(entry));
        }
        assert forall|i: int| 0 <= i < pending.len() implies if (
        #[trigger] pending[i]).1.deadline <= now {
            ready_at(pending, now).contains(pending[i].1.path)
        } else {
            waiting_at(pending, now).contains(pending[i])
        } by {
            if i < before.len() {
                assert(before[i] == pending[i]);
                if entry.1.deadline <= now {
                    if pending[i].1.deadline <= now {
                        let k = choose|k: int|
                            0 <= k < ready.len() && ready[k] == pending[i].1.path;
                        assert(ready.push(entry.1.path)[k] == pending[i].1.path);
                    }
                } else if pending[i].1.deadline > now {
                    let k = choose|k: int| 0 <= k < waiting.len() && waiting[k] == pending[i];
                    assert(waiting.push(entry)[k] == pending[i]);
                }
            } else if entry.1.deadline <= now {
                assert(ready.push(entry.1.path)[ready.len() as int] == entry.1.path);
            } else {
                assert(waiting.push(entry)[waiting.len() as int] == entry);
            }
        }
        assert forall|i: int| 0 <= i < waiting_at(pending, now).len() implies pending.contains(
            #[trigger] waiting_at(pending, now)[i],
        ) && waiting_at(pending, now)[i].1.deadline > now by {
            if i < waiting.len() {
                assert(waiting_at(pending, now)[i] == waiting[i]);
                let k = choose|k: int| 0 <= k < before.len() && before[k] == waiting[i];
                assert(pending[k] == waiting[i]);
            } else {
                assert(pending[pending.len() - 1] == entry);
            }
        }
    }
}

proof fn lemma_shorter_waits_once(pending: Seq<(Seq<ComponentView>, PendingPathView)>)
    requires
        waits_once(pending),
        pending.len() > 0,
    ensures
        waits_once(pending.drop_last()),
{
    let before = pending.drop_last();
    assert forall|i: int, j: int| 0 <= i < j < before.len() implies <Vec<Component> as Key>::before(
        (#[trigger] before[i]).0,
        (#[trigger] before[j]).0,
    ) by {
        assert(before[i] == pending[i] && before[j] == pending[j]);
    }
    assert forall|i: int| 0 <= i < before.len() implies (#[trigger] before[i]).0 == components_of(
        before[i].1.path,
    ) by {
        assert(before[i] == pending[i]);
    }
}

/// Whether a path waits that is ready.
pub open spec fn is_ready(
    pending: Seq<(Seq<ComponentView>, PendingPathView)>,
    path: Seq<char>,
    now: u64,
) -> bool {
    exists|k: int|
        0 <= k < pending.len() && (#[trigger] pending[k]).1.deadline <= now && pending[k].1.path
            == path
}

/// The paths that are taken are paths that were ready, in their order, none of them twice.
pub proof fn lemma_taken_in_order(pending: Seq<(Seq<ComponentView>, PendingPathView)>, now: u64)
    requires
        waits_once(pending),
    ensures
        paths_increase(ready_at(pending, now)),
        forall|i: int|
            0 <= i < ready_at(pending, now).len() ==> is_ready(
                pending,
                #[trigger] ready_at(pending, now)[i],
                now,
            ),
    decreases pending.len(),
{
    if pending.len() > 0 {
        let (before, entry) = (pending.drop_last(), pending.last());
        lemma_shorter_waits_once(pending);
        lemma_taken_in_order(before, now);
        let (earlier, ready) = (ready_at(before, now), ready_at(pending, now));
        let last = pending.len() - 1;
        assert(pending[last] == entry);
        assert forall|i: int| 0 <= i < ready.len() implies is_ready(
            pending,
            #[trigger] ready[i],
            now,
        ) by {
            if i < earlier.len() {
                assert(ready[i] == earlier[i]);
                assert(is_ready(before, earlier[i], now));
                let k = choose|k: int|
                    0 <= k < before.len() && (#[trigger] before[k]).1.deadline <= now
                        && before[k].1.path == earlier[i];
                assert(pending[k] == before[k]);
            }
        }
        assert forall|i: int, j: int| 0 <= i < j < ready.len() implies path_before(
            #[trigger] ready[i],
            #[trigger] ready[j],
        ) by {
            assert(ready[i] == earlier[i]);
            if j < earlier.len() {
                assert(ready[j] == earlier[j]);
            } else {
                assert(is_ready(before, earlier[i], now));
                let k = choose|k: int|
                    0 <= k < before.len() && (#[trigger] before[k]).1.deadline <= now
                        && before[k].1.path == earlier[i];
                assert(pending[k] == before[k]);
                assert(ready[j] == entry.1.path);
                assert(<Vec<Component> as Key>::before(pending[k].0, pending[last].0));
            }
        }
    }
}

/// Paths that wait once each still do after the ready ones were taken.
pub proof fn lemma_taking_keeps_order(
    pending: Seq<(Seq<ComponentView>, PendingPathView)>,
    now: u64,
)
    requires
        waits_once(pending),
    ensures
        waits_once(waiting_at(pending, now)),
    decreases pending.len(),
{
    if pending.len() > 0 {
        let (before, entry) = (pending.drop_last(), pending.last());
        let waiting = waiting_at(before, now);
        lemma_shorter_waits_once(pending);
        lemma_taking_keeps_order(before, now);
        lemma_nothing_ready_is_left(before, now);
        if entry.1.deadline > now {
            let after = waiting.push(entry);
            assert(pending[pending.len() - 1] == entry);
            assert forall|i: int, j: int| 0 <= i < j < after.len() implies <Vec<
                Component,
            > as Key>::before((#[trigger] after[i]).0, (#[trigger] after[j]).0) by {
                assert(after[i] == waiting[i]);
                let k = choose|k: int| 0 <= k < before.len() && before[k] == waiting[i];
                assert(before[k] == pending[k]);
                if j < waiting.len() {
                    assert(after[j] == waiting[j]);
                }
            }
            assert forall|i: int| 0 <= i < after.len() implies (#[trigger] after[i]).0
                == components_of(after[i].1.path) by {
                if i < waiting.len() {
                    assert(after[i] == waiting[i]);
                }
            }
        }
    }
}

} // verus!
