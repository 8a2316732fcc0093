//! Requests that several logs tell, counted once.
use crate::ordered::{
    are_ranked, in_order, inserted, is_ranking, lemma_inserted_splits, lemma_sorted_in_order,
    lemma_sorted_is_stable, lemma_sorted_is_unique, lemma_sorted_keeps, sort, sorted, Ranking,
};
use crate::pipelines::result::materialize::records::{UsageRecord, UsageRecordView};
use crate::pricing::TokenCounts;
use crate::text::{
    ascii_lower, first_of, first_some, holds, lemma_less_irreflexive, lemma_less_total,
    lemma_less_transitive, less, same, same_option, text_less, to_ascii_lowercase,
};
use vstd::prelude::*;
use vstd::string::*;

verus! {

/// What tells one request from another: the session that owns it, and for forks and replays that is
/// their root; its time, its model and its tokens.
pub struct UsageKey {
    pub owner_session_id: Option<Seq<char>>,
    pub observed_at_ms: i64,
    pub model: Option<Seq<char>>,
    pub tokens: TokenCounts,
}

/// The model by which requests are compared.
pub open spec fn compared_model(model: Seq<char>) -> Seq<char> {
    if ascii_lower(model) == "codex-auto-review"@ {
        "gpt-5.5"@
    } else {
        ascii_lower(model)
    }
}

/// What tells a request from others.
pub open spec fn key_of_usage(usage: UsageRecordView) -> UsageKey {
    UsageKey {
        owner_session_id: first_some(usage.root_session_id, usage.session_id),
        observed_at_ms: usage.observed_at_ms,
        model: match usage.model {
            Some(model) => Some(compared_model(model)),
            None => None,
        },
        tokens: usage.tokens,
    }
}

/// Whether a record comes from the log of a child or a fork.
pub open spec fn is_derived(usage: UsageRecordView) -> bool {
    usage.relation == Some("child"@) || usage.relation == Some("fork"@)
}

/// By time, then by key.
pub struct ByTimeAndKey;

impl Ranking<UsageRecord> for ByTimeAndKey {
    open spec fn later(a: UsageRecordView, b: UsageRecordView) -> bool {
        a.observed_at_ms > b.observed_at_ms || (a.observed_at_ms == b.observed_at_ms && text_less(
            b.source_key,
            a.source_key,
        ))
    }

    fn is_later(a: &UsageRecord, b: &UsageRecord) -> (r: bool) {
        a.observed_at_ms > b.observed_at_ms || (a.observed_at_ms == b.observed_at_ms && less(
            b.source_key.as_str(),
            a.source_key.as_str(),
        ))
    }
}

/// Records of main logs first; then by time, then by key.
pub struct ByOwnership;

impl Ranking<UsageRecord> for ByOwnership {
    open spec fn later(a: UsageRecordView, b: UsageRecordView) -> bool {
        (is_derived(a) && !is_derived(b)) || (is_derived(a) == is_derived(b)
            && ByTimeAndKey::later(a, b))
    }

    fn is_later(a: &UsageRecord, b: &UsageRecord) -> (r: bool) {
        let (x, y) = (derived(a), derived(b));
        (x && !y) || (x == y && ByTimeAndKey::is_later(a, b))
    }
}

/// The place of the group with a key.
pub open spec fn place_of_group(groups: Seq<Seq<UsageRecordView>>, key: UsageKey) -> Option<int>
    decreases groups.len(),
{
    if groups.len() == 0 {
        None
    } else {
        match place_of_group(groups.drop_last(), key) {
            Some(i) => Some(i),
            None => if key_of_usage(groups.last()[0]) == key {
                Some(groups.len() - 1)
            } else {
                None
            },
        }
    }
}

/// Records of one request together, in the order in which the requests first occur.
pub open spec fn groups_of(usages: Seq<UsageRecordView>) -> Seq<Seq<UsageRecordView>>
    decreases usages.len(),
{
    if usages.len() == 0 {
        Seq::empty()
    } else {
        let groups = groups_of(usages.drop_last());
        let usage = usages.last();
        match place_of_group(groups, key_of_usage(usage)) {
            Some(i) => groups.update(i, groups[i].push(usage)),
            None => groups.push(seq![usage]),
        }
    }
}

/// The tier of a request that two records tell: a standard one where either says so, else a fast
/// one, else what the first says, or the second.
pub open spec fn merged_tier(current: Option<Seq<char>>, incoming: Option<Seq<char>>) -> Option<
    Seq<char>,
> {
    if current == Some("standard"@) || incoming == Some("standard"@) {
        Some("standard"@)
    } else if current == Some("fast"@) || incoming == Some("fast"@) {
        Some("fast"@)
    } else {
        first_some(current, incoming)
    }
}

/// A record with what another one of the same request adds.
pub open spec fn completed_by(
    usage: UsageRecordView,
    duplicate: UsageRecordView,
) -> UsageRecordView {
    UsageRecordView {
        tier: merged_tier(usage.tier, duplicate.tier),
        model: first_some(usage.model, duplicate.model),
        root_session_id: first_some(usage.root_session_id, duplicate.root_session_id),
        turn_id: first_some(usage.turn_id, duplicate.turn_id),
        reasoning_effort: first_some(usage.reasoning_effort, duplicate.reasoning_effort),
        provider: first_some(usage.provider, duplicate.provider),
        plan_type: first_some(usage.plan_type, duplicate.plan_type),
        ..usage
    }
}

/// The first of several records, completed by the others in turn.
pub open spec fn completed(usages: Seq<UsageRecordView>) -> UsageRecordView
    decreases usages.len(),
{
    if usages.len() <= 1 {
        usages[0]
    } else {
        completed_by(completed(usages.drop_last()), usages.last())
    }
}

/// One record for a request that several records tell: that of a main log before one of a child or
/// a fork, completed by the others.
pub open spec fn canonical(group: Seq<UsageRecordView>) -> UsageRecordView {
    completed(sorted::<UsageRecord, ByOwnership>(group))
}

/// One record for each request, in the order of time.
pub open spec fn deduped(usages: Seq<UsageRecordView>) -> Seq<UsageRecordView> {
    sorted::<UsageRecord, ByTimeAndKey>(canonical_records(usages))
}

/// One record for each request, in the order in which the requests first occur.
pub open spec fn canonical_records(usages: Seq<UsageRecordView>) -> Seq<UsageRecordView> {
    let groups = groups_of(usages);
    Seq::new(groups.len(), |i: int| canonical(groups[i]))
}

/// Whether no two records tell the same request.
pub open spec fn distinct_requests(usages: Seq<UsageRecordView>) -> bool {
    forall|i: int, j: int|
        0 <= i < j < usages.len() ==> key_of_usage(#[trigger] usages[i]) != key_of_usage(
            #[trigger] usages[j],
        )
}

/// Whether some record tells the request with a key.
pub open spec fn tells(usages: Seq<UsageRecordView>, key: UsageKey) -> bool {
    exists|i: int| 0 <= i < usages.len() && key_of_usage(#[trigger] usages[i]) == key
}

/// Whether each group holds the records of one request, and no two groups the same one.
pub open spec fn groups_are_apart(groups: Seq<Seq<UsageRecordView>>) -> bool {
    &&& forall|i: int| 0 <= i < groups.len() ==> (#[trigger] groups[i]).len() > 0
    &&& forall|i: int, k: int|
        0 <= i < groups.len() && 0 <= k < groups[i].len() ==> key_of_usage(
            #[trigger] groups[i][k],
        ) == key_of_usage(groups[i][0])
    &&& forall|i: int, j: int|
        0 <= i < j < groups.len() ==> key_of_usage((#[trigger] groups[i])[0]) != key_of_usage(
            (#[trigger] groups[j])[0],
        )
}

proof fn lemma_place_of_group(groups: Seq<Seq<UsageRecordView>>, key: UsageKey)
    ensures
        match place_of_group(groups, key) {
            Some(i) => 0 <= i < groups.len() && key_of_usage(groups[i][0]) == key,
            None => forall|i: int|
                0 <= i < groups.len() ==> key_of_usage((#[trigger] groups[i])[0]) != key,
        },
    decreases groups.len(),
{
    if groups.len() > 0 {
        let shorter = groups.drop_last();
        lemma_place_of_group(shorter, key);
        assert forall|i: int| 0 <= i < shorter.len() implies shorter[i] == #[trigger] groups[i] by {}
    }
}

proof fn lemma_groups_apart(usages: Seq<UsageRecordView>)
    ensures
        groups_are_apart(groups_of(usages)),
        forall|key: UsageKey| #[trigger]
            tells(usages, key) <==> exists|i: int|
                0 <= i < groups_of(usages).len() && key_of_usage((#[trigger] groups_of(usages)[i])[0])
                    == key,
    decreases usages.len(),
{
    if usages.len() > 0 {
        let shorter = usages.drop_last();
        let usage = usages.last();
        lemma_groups_apart(shorter);
        let before = groups_of(shorter);
        let after = groups_of(usages);
        let own = key_of_usage(usage);
        lemma_place_of_group(before, own);
        match place_of_group(before, own) {
            Some(n) => {
                assert(after[n] == before[n].push(usage));
                assert forall|i: int| 0 <= i < after.len() implies (#[trigger] after[i]).len() > 0
                    && after[i][0] == before[i][0] by {
                    assert(before[i].len() > 0);
                }
                assert forall|i: int, k: int|
                    0 <= i < after.len() && 0 <= k < after[i].len() implies key_of_usage(
                    #[trigger] after[i][k],
                ) == key_of_usage(after[i][0]) by {
                    assert(after[i][0] == before[i][0]);
                    if i == n && k == before[n].len() {
                        assert(after[i][k] == usage);
                    } else {
                        assert(after[i][k] == before[i][k]);
                    }
                }
                assert forall|i: int, j: int| 0 <= i < j < after.len() implies key_of_usage(
                    (#[trigger] after[i])[0],
                ) != key_of_usage((#[trigger] after[j])[0]) by {
                    assert(before[i].len() > 0 && before[j].len() > 0);
                    assert(after[i][0] == before[i][0] && after[j][0] == before[j][0]);
                }
            },
            None => {
                assert(after == before.push(seq![usage]));
                assert forall|i: int, k: int|
                    0 <= i < after.len() && 0 <= k < after[i].len() implies key_of_usage(
                    #[trigger] after[i][k],
                ) == key_of_usage(after[i][0]) by {
                    if i < before.len() {
                        assert(after[i] == before[i]);
                        assert(key_of_usage(before[i][k]) == key_of_usage(before[i][0]));
                    }
                }
                assert forall|i: int, j: int| 0 <= i < j < after.len() implies key_of_usage(
                    (#[trigger] after[i])[0],
                ) != key_of_usage((#[trigger] after[j])[0]) by {
                    assert(after[i] == before[i]);
                    if j < before.len() {
                        assert(after[j] == before[j]);
                    }
                }
            },
        }
        assert forall|key: UsageKey| #[trigger] tells(usages, key) <==> exists|i: int|
            0 <= i < after.len() && key_of_usage((#[trigger] after[i])[0]) == key by {
            assert(tells(usages, key) <==> tells(shorter, key) || own == key) by {
                if tells(shorter, key) {
                    let i = choose|i: int|
                        0 <= i < shorter.len() && key_of_usage(#[trigger] shorter[i]) == key;
                    assert(usages[i] == shorter[i]);
                }
                if own == key {
                    assert(usages[usages.len() - 1] == usage);
                }
                if tells(usages, key) {
                    let i = choose|i: int|
                        0 <= i < usages.len() && key_of_usage(#[trigger] usages[i]) == key;
                    if i < shorter.len() {
                        assert(shorter[i] == usages[i]);
                    }
                }
            }
            if tells(shorter, key) {
                let i = choose|i: int|
                    0 <= i < before.len() && key_of_usage((#[trigger] before[i])[0]) == key;
                assert(before[i].len() > 0);
                assert(after[i][0] == before[i][0]);
            }
            if own == key {
                match place_of_group(before, own) {
                    Some(n) => {
                        assert(before[n].len() > 0);
                        assert(after[n][0] == before[n][0]);
                    },
                    None => {
                        assert(after[before.len() as int][0] == usage);
                    },
                }
            }
            if exists|i: int| 0 <= i < after.len() && key_of_usage((#[trigger] after[i])[0]) == key {
                let i = choose|i: int|
                    0 <= i < after.len() && key_of_usage((#[trigger] after[i])[0]) == key;
                if i < before.len() {
                    assert(before[i].len() > 0);
                    assert(after[i][0] == before[i][0]);
                }
            }
        }
    }
}

/// Records of one request, completed by each other, tell that request.
proof fn lemma_completed_key(usages: Seq<UsageRecordView>, key: UsageKey)
    requires
        usages.len() > 0,
        forall|i: int| 0 <= i < usages.len() ==> key_of_usage(#[trigger] usages[i]) == key,
    ensures
        key_of_usage(completed(usages)) == key,
    decreases usages.len(),
{
    if usages.len() > 1 {
        let shorter = usages.drop_last();
        assert forall|i: int| 0 <= i < shorter.len() implies key_of_usage(
            #[trigger] shorter[i],
        ) == key by {
            assert(shorter[i] == usages[i]);
        }
        lemma_completed_key(shorter, key);
        assert(key_of_usage(usages[usages.len() - 1]) == key);
        lemma_completed_session(shorter);
    }
}

proof fn lemma_completed_session(usages: Seq<UsageRecordView>)
    requires
        usages.len() > 0,
    ensures
        completed(usages).session_id == usages[0].session_id,
        completed(usages).source_key == usages[0].source_key,
    decreases usages.len(),
{
    if usages.len() > 1 {
        lemma_completed_session(usages.drop_last());
    }
}

proof fn lemma_sorted_keeps_key<O: Ranking<UsageRecord>>(usages: Seq<UsageRecordView>, key: UsageKey)
    requires
        forall|i: int| 0 <= i < usages.len() ==> key_of_usage(#[trigger] usages[i]) == key,
    ensures
        sorted::<UsageRecord, O>(usages).len() == usages.len(),
        forall|i: int|
            0 <= i < usages.len() ==> key_of_usage(
                #[trigger] sorted::<UsageRecord, O>(usages)[i],
            ) == key,
    decreases usages.len(),
{
    if usages.len() > 0 {
        let shorter = usages.drop_last();
        assert forall|i: int| 0 <= i < shorter.len() implies key_of_usage(
            #[trigger] shorter[i],
        ) == key by {
            assert(shorter[i] == usages[i]);
        }
        lemma_sorted_keeps_key::<O>(shorter, key);
        let s = sorted::<UsageRecord, O>(shorter);
        let x = usages.last();
        let n = lemma_inserted_splits::<UsageRecord, O>(s, x);
        let r = inserted::<UsageRecord, O>(s, x);
        assert(key_of_usage(usages[usages.len() - 1]) == key);
        assert forall|i: int| 0 <= i < r.len() implies key_of_usage(#[trigger] r[i]) == key by {
            if i < n {
                assert(r[i] == s[i]);
            } else if i > n {
                assert(r[i] == s[i - 1]);
            }
        }
    }
}

proof fn lemma_sorted_keeps_requests(usages: Seq<UsageRecordView>)
    requires
        distinct_requests(usages),
    ensures
        distinct_requests(sorted::<UsageRecord, ByTimeAndKey>(usages)),
        sorted::<UsageRecord, ByTimeAndKey>(usages).len() == usages.len(),
        forall|key: UsageKey|
            tells(sorted::<UsageRecord, ByTimeAndKey>(usages), key) <==> #[trigger] tells(
                usages,
                key,
            ),
    decreases usages.len(),
{
    if usages.len() > 0 {
        let shorter = usages.drop_last();
        let x = usages.last();
        assert forall|i: int, j: int| 0 <= i < j < shorter.len() implies key_of_usage(
            #[trigger] shorter[i],
        ) != key_of_usage(#[trigger] shorter[j]) by {
            assert(shorter[i] == usages[i] && shorter[j] == usages[j]);
        }
        lemma_sorted_keeps_requests(shorter);
        let s = sorted::<UsageRecord, ByTimeAndKey>(shorter);
        let n = lemma_inserted_splits::<UsageRecord, ByTimeAndKey>(s, x);
        let r = sorted::<UsageRecord, ByTimeAndKey>(usages);
        assert(!tells(shorter, key_of_usage(x))) by {
            if tells(shorter, key_of_usage(x)) {
                let i = choose|i: int|
                    0 <= i < shorter.len() && key_of_usage(#[trigger] shorter[i])
                        == key_of_usage(x);
                assert(usages[i] == shorter[i] && usages[usages.len() - 1] == x);
            }
        }
        assert(!tells(s, key_of_usage(x)));
        assert forall|i: int| 0 <= i < r.len() implies (#[trigger] r[i]) == (if i < n {
            s[i]
        } else if i == n {
            x
        } else {
            s[i - 1]
        }) by {}
        assert forall|i: int, j: int| 0 <= i < j < r.len() implies key_of_usage(
            #[trigger] r[i],
        ) != key_of_usage(#[trigger] r[j]) by {
            let a = if i < n {
                i
            } else {
                i - 1
            };
            let b = if j < n {
                j
            } else {
                j - 1
            };
            if i == n {
                assert(key_of_usage(s[b]) != key_of_usage(x));
            } else if j == n {
                assert(key_of_usage(s[a]) != key_of_usage(x));
            } else {
                assert(key_of_usage(s[a]) != key_of_usage(s[b]));
            }
        }
        assert forall|key: UsageKey| tells(r, key) <==> #[trigger] tells(usages, key) by {
            assert(tells(usages, key) <==> tells(shorter, key) || key_of_usage(x) == key) by {
                if tells(shorter, key) {
                    let i = choose|i: int|
                        0 <= i < shorter.len() && key_of_usage(#[trigger] shorter[i]) == key;
                    assert(usages[i] == shorter[i]);
                }
                assert(usages[usages.len() - 1] == x);
                if tells(usages, key) {
                    let i = choose|i: int|
                        0 <= i < usages.len() && key_of_usage(#[trigger] usages[i]) == key;
                    if i < shorter.len() {
                        assert(shorter[i] == usages[i]);
                    }
                }
            }
            if tells(s, key) {
                let i = choose|i: int| 0 <= i < s.len() && key_of_usage(#[trigger] s[i]) == key;
                if i < n {
                    assert(r[i] == s[i]);
                } else {
                    assert(r[i + 1] == s[i]);
                }
            }
            if key_of_usage(x) == key {
                assert(r[n] == x);
            }
            if tells(r, key) {
                let i = choose|i: int| 0 <= i < r.len() && key_of_usage(#[trigger] r[i]) == key;
                if i < n {
                    assert(s[i] == r[i]);
                } else if i > n {
                    assert(s[i - 1] == r[i]);
                }
            }
        }
    }
}

/// Every request that the records tell is counted, and counted once.
pub proof fn lemma_each_request_counts_once(usages: Seq<UsageRecordView>)
    ensures
        distinct_requests(deduped(usages)),
        forall|key: UsageKey| tells(deduped(usages), key) <==> #[trigger] tells(usages, key),
        deduped(usages).len() <= usages.len(),
{
    lemma_groups_apart(usages);
    lemma_groups_are_fewer(usages);
    let groups = groups_of(usages);
    let records = canonical_records(usages);
    assert forall|i: int| 0 <= i < groups.len() implies key_of_usage(#[trigger] records[i])
        == key_of_usage(groups[i][0]) by {
        let group = groups[i];
        let key = key_of_usage(group[0]);
        assert forall|k: int| 0 <= k < group.len() implies key_of_usage(#[trigger] group[k])
            == key by {
            assert(key_of_usage(groups[i][k]) == key_of_usage(groups[i][0]));
        }
        assert(group.len() > 0);
        lemma_sorted_keeps_key::<ByOwnership>(group, key);
        lemma_completed_key(sorted::<UsageRecord, ByOwnership>(group), key);
    }
    assert forall|i: int, j: int| 0 <= i < j < records.len() implies key_of_usage(
        #[trigger] records[i],
    ) != key_of_usage(#[trigger] records[j]) by {
        assert(key_of_usage(groups[i][0]) != key_of_usage(groups[j][0]));
    }
    lemma_sorted_keeps_requests(records);
    assert forall|key: UsageKey| tells(deduped(usages), key) <==> #[trigger] tells(usages, key) by {
        assert(tells(records, key) <==> tells(deduped(usages), key));
        if tells(usages, key) {
            let i = choose|i: int|
                0 <= i < groups.len() && key_of_usage((#[trigger] groups[i])[0]) == key;
            assert(key_of_usage(records[i]) == key);
        }
        if tells(records, key) {
            let i = choose|i: int|
                0 <= i < records.len() && key_of_usage(#[trigger] records[i]) == key;
            assert(key_of_usage(groups[i][0]) == key);
        }
    }
}

proof fn lemma_groups_are_fewer(usages: Seq<UsageRecordView>)
    ensures
        groups_of(usages).len() <= usages.len(),
    decreases usages.len(),
{
    if usages.len() > 0 {
        lemma_groups_are_fewer(usages.drop_last());
        lemma_place_of_group(groups_of(usages.drop_last()), key_of_usage(usages.last()));
    }
}

proof fn lemma_distinct_groups(usages: Seq<UsageRecordView>)
    requires
        distinct_requests(usages),
    ensures
        groups_of(usages) == Seq::new(usages.len(), |i: int| seq![usages[i]]),
    decreases usages.len(),
{
    if usages.len() > 0 {
        let shorter = usages.drop_last();
        let usage = usages.last();
        assert forall|i: int, j: int| 0 <= i < j < shorter.len() implies key_of_usage(
            #[trigger] shorter[i],
        ) != key_of_usage(#[trigger] shorter[j]) by {
            assert(shorter[i] == usages[i] && shorter[j] == usages[j]);
        }
        lemma_distinct_groups(shorter);
        let before = groups_of(shorter);
        lemma_place_of_group(before, key_of_usage(usage));
        if place_of_group(before, key_of_usage(usage)) is Some {
            let i = place_of_group(before, key_of_usage(usage))->0;
            assert(before[i][0] == shorter[i]);
            assert(usages[i] == shorter[i] && usages[usages.len() - 1] == usage);
        }
        assert(groups_of(usages) =~= Seq::new(usages.len(), |i: int| seq![usages[i]]));
    } else {
        assert(groups_of(usages) =~= Seq::new(usages.len(), |i: int| seq![usages[i]]));
    }
}

proof fn lemma_not_later_transitive(a: UsageRecordView, b: UsageRecordView, c: UsageRecordView)
    requires
        !ByTimeAndKey::later(a, b),
        !ByTimeAndKey::later(b, c),
    ensures
        !ByTimeAndKey::later(a, c),
{
    if ByTimeAndKey::later(a, c) {
        lemma_less_total(a.source_key, b.source_key);
        lemma_less_total(b.source_key, c.source_key);
        if text_less(c.source_key, a.source_key) && a.observed_at_ms == c.observed_at_ms {
            if text_less(a.source_key, b.source_key) {
                lemma_less_transitive(c.source_key, a.source_key, b.source_key);
            }
        }
    }
}

proof fn lemma_later_asymmetric(a: UsageRecordView, b: UsageRecordView)
    requires
        ByTimeAndKey::later(a, b),
    ensures
        !ByTimeAndKey::later(b, a),
{
    if ByTimeAndKey::later(b, a) {
        lemma_less_transitive(a.source_key, b.source_key, a.source_key);
        lemma_less_irreflexive(a.source_key);
    }
}

proof fn lemma_rankings()
    ensures
        is_ranking::<UsageRecord, ByTimeAndKey>(),
        is_ranking::<UsageRecord, ByOwnership>(),
{
    assert forall|a: UsageRecordView, b: UsageRecordView| #[trigger]
        ByTimeAndKey::later(a, b) implies !ByTimeAndKey::later(b, a) by {
        lemma_later_asymmetric(a, b);
    }
    assert forall|a: UsageRecordView, b: UsageRecordView, c: UsageRecordView|
        !(#[trigger] ByTimeAndKey::later(a, b)) && !(#[trigger] ByTimeAndKey::later(
            b,
            c,
        )) implies !ByTimeAndKey::later(a, c) by {
        lemma_not_later_transitive(a, b, c);
    }
    assert forall|a: UsageRecordView, b: UsageRecordView| #[trigger]
        ByOwnership::later(a, b) implies !ByOwnership::later(b, a) by {
        if ByTimeAndKey::later(a, b) {
            lemma_later_asymmetric(a, b);
        }
    }
    assert forall|a: UsageRecordView, b: UsageRecordView, c: UsageRecordView|
        !(#[trigger] ByOwnership::later(a, b)) && !(#[trigger] ByOwnership::later(
            b,
            c,
        )) implies !ByOwnership::later(a, c) by {
        if is_derived(a) == is_derived(b) && is_derived(b) == is_derived(c) {
            lemma_not_later_transitive(a, b, c);
        }
    }
}

/// Counting requests once that are already counted once changes nothing.
pub proof fn lemma_dedupe_is_idempotent(usages: Seq<UsageRecordView>)
    ensures
        deduped(deduped(usages)) == deduped(usages),
{
    let once = deduped(usages);
    lemma_each_request_counts_once(usages);
    lemma_distinct_groups(once);
    assert forall|i: int| 0 <= i < once.len() implies (#[trigger] canonical_records(once)[i])
        == once[i] by {
        let group = seq![once[i]];
        assert(groups_of(once)[i] =~= group);
        assert(group.drop_last() =~= Seq::empty());
        assert(sorted::<UsageRecord, ByOwnership>(group.drop_last()) =~= Seq::empty());
        assert(sorted::<UsageRecord, ByOwnership>(group) =~= group);
    }
    assert(canonical_records(once) =~= once);
    lemma_rankings();
    lemma_sorted_in_order::<UsageRecord, ByTimeAndKey>(canonical_records(usages));
    lemma_sorted_is_stable::<UsageRecord, ByTimeAndKey>(once);
}

/// The records that tell the request with a key.
pub open spec fn told_by(usages: Seq<UsageRecordView>, key: UsageKey) -> Seq<UsageRecordView>
    decreases usages.len(),
{
    if usages.len() == 0 {
        Seq::empty()
    } else if key_of_usage(usages.last()) == key {
        told_by(usages.drop_last(), key).push(usages.last())
    } else {
        told_by(usages.drop_last(), key)
    }
}

/// Whether no two records have the same source key.
pub open spec fn distinct_sources(usages: Seq<UsageRecordView>) -> bool {
    forall|i: int, j: int|
        0 <= i < j < usages.len() ==> (#[trigger] usages[i]).source_key != (
        #[trigger] usages[j]).source_key
}

proof fn lemma_told_by(usages: Seq<UsageRecordView>, key: UsageKey)
    ensures
        told_by(usages, key).len() > 0 <==> tells(usages, key),
        forall|i: int|
            0 <= i < told_by(usages, key).len() ==> key_of_usage(#[trigger] told_by(usages, key)[i])
                == key,
        forall|u: UsageRecordView| #[trigger]
            told_by(usages, key).to_multiset().count(u) == if key_of_usage(u) == key {
                usages.to_multiset().count(u)
            } else {
                0
            },
    decreases usages.len(),
{
    broadcast use vstd::seq_lib::group_to_multiset_ensures;

    if usages.len() > 0 {
        let shorter = usages.drop_last();
        lemma_told_by(shorter, key);
        assert(usages =~= shorter.push(usages.last()));
        if tells(shorter, key) {
            let i = choose|i: int|
                0 <= i < shorter.len() && key_of_usage(#[trigger] shorter[i]) == key;
            assert(usages[i] == shorter[i]);
        }
        if tells(usages, key) && key_of_usage(usages.last()) != key {
            let i = choose|i: int|
                0 <= i < usages.len() && key_of_usage(#[trigger] usages[i]) == key;
            assert(shorter[i] == usages[i]);
        }
        if key_of_usage(usages.last()) == key {
            assert(usages[usages.len() - 1] == usages.last());
        }
    }
}

/// A group holds all records that tell its request.
proof fn lemma_groups_are_told(usages: Seq<UsageRecordView>)
    ensures
        forall|i: int|
            0 <= i < groups_of(usages).len() ==> (#[trigger] groups_of(usages)[i]) == told_by(
                usages,
                key_of_usage(groups_of(usages)[i][0]),
            ),
    decreases usages.len(),
{
    if usages.len() > 0 {
        let shorter = usages.drop_last();
        let usage = usages.last();
        lemma_groups_are_told(shorter);
        lemma_groups_apart(shorter);
        let before = groups_of(shorter);
        let after = groups_of(usages);
        let own = key_of_usage(usage);
        lemma_place_of_group(before, own);
        assert forall|i: int| 0 <= i < after.len() implies (#[trigger] after[i]) == told_by(
            usages,
            key_of_usage(after[i][0]),
        ) by {
            if i < before.len() {
                assert(before[i].len() > 0);
                assert(after[i][0] == before[i][0]);
                match place_of_group(before, own) {
                    Some(n) => {
                        if i != n {
                            assert(key_of_usage(before[i][0]) != key_of_usage(before[n][0]));
                        }
                    },
                    None => {},
                }
            } else {
                assert(after[i] == seq![usage]);
                lemma_told_by(shorter, own);
                assert(!tells(shorter, own));
                assert(told_by(shorter, own) =~= Seq::empty());
                assert(told_by(usages, own) =~= seq![usage]);
            }
        }
    }
}

/// The record that is kept of a request: that of a main log before one of a child or a fork, and of
/// those the one with the least source key.
pub open spec fn kept_of(usages: Seq<UsageRecordView>, key: UsageKey) -> UsageRecordView {
    canonical(told_by(usages, key))
}

proof fn lemma_kept_of(usages: Seq<UsageRecordView>, key: UsageKey)
    requires
        tells(usages, key),
    ensures
        key_of_usage(kept_of(usages, key)) == key,
        exists|i: int|
            0 <= i < usages.len() && key_of_usage(#[trigger] usages[i]) == key
                && kept_of(usages, key).source_key == usages[i].source_key && forall|j: int|
                0 <= j < usages.len() && key_of_usage(#[trigger] usages[j]) == key
                    ==> !ByOwnership::later(usages[i], usages[j]),
{
    broadcast use vstd::seq_lib::group_to_multiset_ensures;

    let group = told_by(usages, key);
    let ordered = sorted::<UsageRecord, ByOwnership>(group);
    lemma_told_by(usages, key);
    lemma_sorted_keeps_key::<ByOwnership>(group, key);
    lemma_sorted_keeps::<UsageRecord, ByOwnership>(group);
    lemma_completed_key(ordered, key);
    lemma_completed_session(ordered);
    lemma_rankings();
    lemma_sorted_in_order::<UsageRecord, ByOwnership>(group);
    let first = ordered[0];
    assert(ordered.contains(first));
    assert(ordered.to_multiset().contains(first));
    assert(group.to_multiset().count(first) > 0);
    assert(usages.to_multiset().contains(first));
    let i = choose|i: int| 0 <= i < usages.len() && usages[i] == first;
    assert(key_of_usage(usages[i]) == key);
    assert forall|j: int| 0 <= j < usages.len() && key_of_usage(#[trigger] usages[j])
        == key implies !ByOwnership::later(usages[i], usages[j]) by {
        let other = usages[j];
        assert(usages.contains(other));
        assert(usages.to_multiset().contains(other));
        assert(group.to_multiset().count(other) > 0);
        assert(ordered.to_multiset().contains(other));
        assert(ordered.contains(other));
        let k = choose|k: int| 0 <= k < ordered.len() && ordered[k] == other;
        if k > 0 {
            assert(!ByOwnership::later(ordered[0], ordered[k]));
        }
    }
}

proof fn lemma_canonical_records(usages: Seq<UsageRecordView>)
    ensures
        distinct_requests(canonical_records(usages)),
        forall|u: UsageRecordView| #[trigger]
            canonical_records(usages).contains(u) <==> tells(usages, key_of_usage(u)) && u
                == kept_of(usages, key_of_usage(u)),
{
    let groups = groups_of(usages);
    let records = canonical_records(usages);
    lemma_groups_apart(usages);
    lemma_groups_are_told(usages);
    assert forall|i: int| 0 <= i < groups.len() implies tells(
        usages,
        key_of_usage(groups[i][0]),
    ) && key_of_usage(#[trigger] records[i]) == key_of_usage(groups[i][0]) && records[i]
        == kept_of(usages, key_of_usage(groups[i][0])) by {
        assert(groups[i] == told_by(usages, key_of_usage(groups[i][0])));
        lemma_kept_of(usages, key_of_usage(groups[i][0]));
    }
    assert forall|i: int, j: int| 0 <= i < j < records.len() implies key_of_usage(
        #[trigger] records[i],
    ) != key_of_usage(#[trigger] records[j]) by {
        assert(key_of_usage(groups[i][0]) != key_of_usage(groups[j][0]));
    }
    assert forall|u: UsageRecordView| #[trigger] records.contains(u) <==> tells(
        usages,
        key_of_usage(u),
    ) && u == kept_of(usages, key_of_usage(u)) by {
        if records.contains(u) {
            let i = choose|i: int| 0 <= i < records.len() && records[i] == u;
            assert(key_of_usage(records[i]) == key_of_usage(groups[i][0]));
        }
        if tells(usages, key_of_usage(u)) && u == kept_of(usages, key_of_usage(u)) {
            let i = choose|i: int|
                0 <= i < groups.len() && key_of_usage((#[trigger] groups[i])[0]) == key_of_usage(u);
            assert(key_of_usage(records[i]) == key_of_usage(groups[i][0]));
            assert(records[i] == u);
        }
    }
}

/// The kept records stand in the order of time and source key, and each is that of its request which
/// comes from a main log before one from a child or a fork, and among those has the least source key.
pub proof fn lemma_main_logs_are_kept(usages: Seq<UsageRecordView>)
    ensures
        in_order::<UsageRecord, ByTimeAndKey>(deduped(usages)),
        forall|k: int|
            0 <= k < deduped(usages).len() ==> exists|i: int|
                0 <= i < usages.len() && key_of_usage(#[trigger] usages[i]) == key_of_usage(
                    #[trigger] deduped(usages)[k],
                ) && deduped(usages)[k].source_key == usages[i].source_key && forall|j: int|
                    0 <= j < usages.len() && key_of_usage(#[trigger] usages[j]) == key_of_usage(
                        usages[i],
                    ) ==> !ByOwnership::later(usages[i], usages[j]),
{
    broadcast use vstd::seq_lib::group_to_multiset_ensures;

    let records = canonical_records(usages);
    let r = deduped(usages);
    lemma_rankings();
    lemma_sorted_in_order::<UsageRecord, ByTimeAndKey>(records);
    lemma_sorted_keeps::<UsageRecord, ByTimeAndKey>(records);
    lemma_canonical_records(usages);
    assert forall|k: int| 0 <= k < r.len() implies exists|i: int|
        0 <= i < usages.len() && key_of_usage(#[trigger] usages[i]) == key_of_usage(#[trigger] r[k])
            && r[k].source_key == usages[i].source_key && forall|j: int|
            0 <= j < usages.len() && key_of_usage(#[trigger] usages[j]) == key_of_usage(usages[i])
                ==> !ByOwnership::later(usages[i], usages[j]) by {
        assert(r.contains(r[k]));
        assert(r.to_multiset().contains(r[k]));
        assert(records.contains(r[k]));
        let key = key_of_usage(r[k]);
        lemma_kept_of(usages, key);
        let i = choose|i: int|
            0 <= i < usages.len() && key_of_usage(#[trigger] usages[i]) == key && kept_of(
                usages,
                key,
            ).source_key == usages[i].source_key && forall|j: int|
                0 <= j < usages.len() && key_of_usage(#[trigger] usages[j]) == key
                    ==> !ByOwnership::later(usages[i], usages[j]);
        assert(key_of_usage(usages[i]) == key_of_usage(r[k]));
    }
}

proof fn lemma_kept_are_ranked(usages: Seq<UsageRecordView>)
    requires
        distinct_sources(usages),
    ensures
        are_ranked::<UsageRecord, ByTimeAndKey>(canonical_records(usages)),
{
    let records = canonical_records(usages);
    lemma_canonical_records(usages);
    assert forall|a: UsageRecordView, b: UsageRecordView|
        records.contains(a) && records.contains(b) && a != b implies #[trigger] ByTimeAndKey::later(
        a,
        b,
    ) || ByTimeAndKey::later(b, a) by {
        lemma_kept_of(usages, key_of_usage(a));
        lemma_kept_of(usages, key_of_usage(b));
        let i = choose|i: int|
            0 <= i < usages.len() && key_of_usage(#[trigger] usages[i]) == key_of_usage(a)
                && a.source_key == usages[i].source_key;
        let j = choose|j: int|
            0 <= j < usages.len() && key_of_usage(#[trigger] usages[j]) == key_of_usage(b)
                && b.source_key == usages[j].source_key;
        if i < j {
            assert(usages[i].source_key != usages[j].source_key);
        } else if j < i {
            assert(usages[j].source_key != usages[i].source_key);
        }
        lemma_less_total(a.source_key, b.source_key);
    }
}

/// Which record is kept of each request, and what is kept, does not depend on the order in which
/// the records stand, where no two have the same source key.
pub proof fn lemma_order_does_not_matter(usages: Seq<UsageRecordView>, others: Seq<UsageRecordView>)
    requires
        distinct_sources(usages),
        usages.to_multiset() == others.to_multiset(),
    ensures
        deduped(usages) == deduped(others),
{
    broadcast use vstd::seq_lib::group_to_multiset_ensures;

    lemma_rankings();
    assert forall|key: UsageKey| #[trigger]
        tells(usages, key) == tells(others, key) && kept_of(usages, key) == kept_of(others, key) by {
        let (a, b) = (told_by(usages, key), told_by(others, key));
        lemma_told_by(usages, key);
        lemma_told_by(others, key);
        assert(a.to_multiset() =~= b.to_multiset());
        assert(a.len() == a.to_multiset().len() && b.len() == b.to_multiset().len());
        assert forall|x: UsageRecordView, y: UsageRecordView|
            a.contains(x) && a.contains(y) && x != y implies #[trigger] ByOwnership::later(x, y)
            || ByOwnership::later(y, x) by {
            assert(a.to_multiset().contains(x) && a.to_multiset().contains(y));
            assert(a.to_multiset().count(x) > 0 && a.to_multiset().count(y) > 0);
            assert(usages.to_multiset().contains(x) && usages.to_multiset().contains(y));
            let i = choose|i: int| 0 <= i < usages.len() && usages[i] == x;
            let j = choose|j: int| 0 <= j < usages.len() && usages[j] == y;
            if i < j {
                assert(usages[i].source_key != usages[j].source_key);
            } else {
                assert(usages[j].source_key != usages[i].source_key);
            }
            lemma_less_total(x.source_key, y.source_key);
        }
        lemma_sorted_is_unique::<UsageRecord, ByOwnership>(a, b);
    }
    let (r, s) = (canonical_records(usages), canonical_records(others));
    lemma_canonical_records(usages);
    lemma_canonical_records(others);
    assert(r.no_duplicates());
    assert(s.no_duplicates());
    r.lemma_multiset_has_no_duplicates();
    s.lemma_multiset_has_no_duplicates();
    assert forall|u: UsageRecordView| r.to_multiset().count(u) == s.to_multiset().count(u) by {
        assert(tells(usages, key_of_usage(u)) == tells(others, key_of_usage(u)));
        assert(r.contains(u) == s.contains(u));
        assert(r.to_multiset().contains(u) == r.contains(u));
        assert(s.to_multiset().contains(u) == s.contains(u));
    }
    assert(r.to_multiset() =~= s.to_multiset());
    lemma_kept_are_ranked(usages);
    lemma_sorted_is_unique::<UsageRecord, ByTimeAndKey>(r, s);
}

fn derived(usage: &UsageRecord) -> (r: bool)
    ensures
        r == is_derived(usage.deep_view()),
{
    holds(&usage.relation, "child") || holds(&usage.relation, "fork")
}

/// The model by which requests are compared.
pub fn normalize_dedupe_model(model: &str) -> (r: String)
    ensures
        r@ == compared_model(model@),
{
    let lowered = to_ascii_lowercase(model);
    if same(lowered.as_str(), "codex-auto-review") {
        "gpt-5.5".to_owned()
    } else {
        lowered
    }
}

fn owner(usage: &UsageRecord) -> (r: &Option<String>)
    ensures
        r.deep_view() == key_of_usage(usage.deep_view()).owner_session_id,
{
    if usage.root_session_id.is_some() {
        &usage.root_session_id
    } else {
        &usage.session_id
    }
}

fn model_key(usage: &UsageRecord) -> (r: Option<String>)
    ensures
        r.deep_view() == key_of_usage(usage.deep_view()).model,
{
    match &usage.model {
        Some(model) => Some(normalize_dedupe_model(model.as_str())),
        None => None,
    }
}

fn same_request(a: &UsageRecord, b: &UsageRecord) -> (r: bool)
    ensures
        r == (key_of_usage(a.deep_view()) == key_of_usage(b.deep_view())),
{
    a.observed_at_ms == b.observed_at_ms && a.tokens == b.tokens && same_option(owner(a), owner(b))
        && same_option(&model_key(a), &model_key(b))
}

/// The tier of a request that two records tell.
pub fn merge_service_tier(current: &Option<String>, incoming: &Option<String>) -> (r: Option<
    String,
>)
    ensures
        r.deep_view() == merged_tier(current.deep_view(), incoming.deep_view()),
{
    if holds(current, "standard") || holds(incoming, "standard") {
        Some("standard".to_owned())
    } else if holds(current, "fast") || holds(incoming, "fast") {
        Some("fast".to_owned())
    } else {
        first_of(current, incoming)
    }
}

fn complete(usage: &mut UsageRecord, duplicate: &UsageRecord)
    ensures
        final(usage).deep_view() == completed_by(old(usage).deep_view(), duplicate.deep_view()),
{
    usage.tier = merge_service_tier(&usage.tier, &duplicate.tier);
    usage.model = first_of(&usage.model, &duplicate.model);
    usage.root_session_id = first_of(&usage.root_session_id, &duplicate.root_session_id);
    usage.turn_id = first_of(&usage.turn_id, &duplicate.turn_id);
    usage.reasoning_effort = first_of(&usage.reasoning_effort, &duplicate.reasoning_effort);
    usage.provider = first_of(&usage.provider, &duplicate.provider);
    usage.plan_type = first_of(&usage.plan_type, &duplicate.plan_type);
}

fn make_canonical(group: Vec<UsageRecord>) -> (r: UsageRecord)
    requires
        group@.len() > 0,
    ensures
        r.deep_view() == canonical(group.deep_view()),
{
    proof {
        lemma_sorted_keeps::<UsageRecord, ByOwnership>(group.deep_view());
    }
    let values = sort::<UsageRecord, ByOwnership>(group);
    let ghost all = values.deep_view();
    let mut r = values[0].copy();
    let mut i: usize = 1;
    assert(all.take(1)[0] == r.deep_view());
    while i < values.len()
        invariant
            1 <= i <= values@.len(),
            all == values.deep_view(),
            r.deep_view() == completed(all.take(i as int)),
        decreases values@.len() - i,
    {
        assert(all.take(i + 1).drop_last() =~= all.take(i as int));
        assert(all.take(i + 1).last() == values@[i as int].deep_view());
        complete(&mut r, &values[i]);
        i = i + 1;
    }
    assert(all.take(i as int) =~= all);
    r
}

fn find_group(groups: &Vec<Vec<UsageRecord>>, usage: &UsageRecord) -> (r: Option<usize>)
    requires
        forall|i: int| 0 <= i < groups@.len() ==> (#[trigger] groups@[i])@.len() > 0,
    ensures
        match r {
            Some(n) => n < groups@.len() && place_of_group(
                groups.deep_view(),
                key_of_usage(usage.deep_view()),
            ) == Some(n as int),
            None => place_of_group(
                groups.deep_view(),
                key_of_usage(usage.deep_view()),
            ) is None,
        },
{
    let ghost all = groups.deep_view();
    let ghost key = key_of_usage(usage.deep_view());
    let mut found: Option<usize> = None;
    let mut i: usize = 0;
    while i < groups.len()
        invariant
            i <= groups@.len(),
            all == groups.deep_view(),
            key == key_of_usage(usage.deep_view()),
            forall|i: int| 0 <= i < groups@.len() ==> (#[trigger] groups@[i])@.len() > 0,
            match found {
                Some(n) => n < i && place_of_group(all.take(i as int), key) == Some(n as int),
                None => place_of_group(all.take(i as int), key) is None,
            },
        decreases groups@.len() - i,
    {
        proof {
            assert(all.take(i + 1).drop_last() =~= all.take(i as int));
            assert(all.take(i + 1).last() == groups@[i as int].deep_view());
            assert(groups@[i as int].deep_view()[0] == groups@[i as int]@[0].deep_view());
        }
        if found.is_none() && same_request(&groups[i][0], usage) {
            found = Some(i);
        }
        i = i + 1;
    }
    assert(all.take(i as int) =~= all);
    found
}

/// Makes one record of those that tell one request.
pub fn dedupe_usages(usages: Vec<UsageRecord>) -> (r: Vec<UsageRecord>)
    ensures
        r.deep_view() == deduped(usages.deep_view()),
{
    let ghost all = usages.deep_view();
    let mut groups: Vec<Vec<UsageRecord>> = Vec::new();
    assert(groups.deep_view() =~= groups_of(all.take(0)));
    for usage in it: usages
        invariant
            it.seq().len() == all.len(),
            forall|k: int| 0 <= k < all.len() ==> (#[trigger] it.seq()[k]).deep_view() == all[k],
            groups.deep_view() == groups_of(all.take(it.index())),
            forall|i: int| 0 <= i < groups@.len() ==> (#[trigger] groups@[i])@.len() > 0,
    {
        let ghost before = groups.deep_view();
        proof {
            let n = it.index();
            assert(all.take(n + 1).drop_last() =~= all.take(n));
            assert(all.take(n + 1).last() == usage.deep_view());
        }
        let ghost view = usage.deep_view();
        match find_group(&groups, &usage) {
            Some(n) => {
                let mut group = groups.remove(n);
                let ghost held = group.deep_view();
                group.push(usage);
                assert(group.deep_view() =~= held.push(view));
                groups.insert(n, group);
                assert(groups.deep_view() =~= before.update(n as int, before[n as int].push(view)));
            },
            None => {
                let mut group: Vec<UsageRecord> = Vec::new();
                group.push(usage);
                assert(group.deep_view() =~= seq![view]);
                groups.push(group);
                assert(groups.deep_view() =~= before.push(seq![view]));
            },
        }
    }
    assert(all.take(all.len() as int) =~= all);
    let ghost grouped = groups.deep_view();
    let ghost expected = canonical_records(all);
    let mut records: Vec<UsageRecord> = Vec::new();
    for group in it: groups
        invariant
            it.seq().len() == grouped.len(),
            grouped == groups_of(all),
            expected == canonical_records(all),
            forall|k: int|
                0 <= k < grouped.len() ==> (#[trigger] it.seq()[k]).deep_view() == grouped[k]
                    && it.seq()[k]@.len() > 0,
            records.deep_view() == expected.take(it.index()),
    {
        let ghost before = records.deep_view();
        let ghost n = it.index();
        let record = make_canonical(group);
        assert(record.deep_view() == expected[n]);
        records.push(record);
        assert(records.deep_view() =~= before.push(expected[n]));
        assert(records.deep_view() =~= expected.take(n + 1));
    }
    assert(expected.take(expected.len() as int) =~= expected);
    sort::<UsageRecord, ByTimeAndKey>(records)
}

} // verus!
